//! Execution identity and the result store.
//!
//! Every individual run of every request — each iteration of a multi-run
//! request and each row of a data-driven run — receives a process-wide
//! execution counter (`exec_ctr`).  Counters are allocated monotonically and
//! never reused, even after the owning request is deleted and recreated.

use crate::exec_state::{ExecutionResultSuccess, ExecutionState};
use crate::model::NameValuePair;
use crate::smap::StringMap;
use crate::umap::CtrMap;
use vstd::prelude::*;

verus! {

/// One completed execution, as reported by the runner and numbered by the
/// controller.
#[derive(Clone, Debug, PartialEq)]
pub struct ExecutionResultSummary {
    pub exec_ctr: u64,
    /// The run that spawned this execution; absent for a top-level run.
    pub parent_exec_ctr: Option<u64>,
    pub name: String,
    pub success: ExecutionResultSuccess,
    /// Nesting depth within the batch.
    pub level: u64,
    pub run_number: Option<u64>,
    pub run_count: Option<u64>,
    pub row_number: Option<u64>,
    pub row_count: Option<u64>,
}

/// A result row as handed back by the runner, before numbering: parents are
/// referenced by their position in the batch.
#[derive(Clone, Debug, PartialEq)]
pub struct RawResultSummary {
    /// Index of the spawning entry within the same batch, earlier than this
    /// entry; absent for a top-level run.
    pub parent_index: Option<usize>,
    pub name: String,
    pub success: ExecutionResultSuccess,
    pub level: u64,
    pub run_number: Option<u64>,
    pub run_count: Option<u64>,
    pub row_number: Option<u64>,
    pub row_count: Option<u64>,
}

/// One entry of the navigable execution menu the correlator builds.
#[derive(Clone, Debug, PartialEq)]
pub struct ExecutionMenuItem {
    pub name: String,
    /// Nesting level re-based so the queried id sits at level 0.
    pub level: u64,
    pub executing_name: Option<String>,
    pub execution_state: ExecutionState,
    pub executing_request_or_group_id: String,
    /// Position among the items of the same executing id.
    pub executing_offset: u64,
    pub exec_ctr: u64,
    pub next_exec_ctr: Option<u64>,
    pub prev_exec_ctr: Option<u64>,
    pub parent_exec_ctr: Option<u64>,
}

/// Per-request cached execution view: the ordered menu, the aggregated
/// state, and the summaries of the most recent invocation.
#[derive(Clone, Debug, PartialEq)]
pub struct RequestExecution {
    pub menu: Vec<ExecutionMenuItem>,
    pub execution_state: ExecutionState,
    pub active_summaries: Vec<(u64, ExecutionResultSummary)>,
}

impl RequestExecution {
    pub fn empty() -> (r: RequestExecution)
        ensures
            r.menu@.len() == 0,
            r.execution_state == ExecutionState::spec_empty(),
            r.active_summaries@.len() == 0,
    {
        RequestExecution {
            menu: Vec::new(),
            execution_state: ExecutionState::empty(),
            active_summaries: Vec::new(),
        }
    }
}

/// A response body retained with a result detail.
#[derive(Clone, Debug, PartialEq)]
pub enum ApicizeBody {
    Text { text: String },
    Json { text: String },
    Xml { text: String },
    Form { data: Vec<NameValuePair> },
    Binary { data: Vec<u8> },
}

/// Full retained detail of one execution.
#[derive(Clone, Debug, PartialEq)]
pub enum ExecutionResultDetail {
    Request {
        exec_ctr: u64,
        name: String,
        success: ExecutionResultSuccess,
        response_body: Option<ApicizeBody>,
        test_output: Option<String>,
    },
    Group { exec_ctr: u64, name: String, success: ExecutionResultSuccess },
}

/// The process-wide execution-counter allocator.  Counters start at 1 and
/// only ever grow.
pub struct ExecCounter {
    next: u64,
}

impl ExecCounter {
    /// The next counter to be handed out.
    pub closed spec fn spec_next(&self) -> u64 {
        self.next
    }

    pub fn new() -> (r: ExecCounter)
        ensures
            r.spec_next() == 1,
    {
        ExecCounter { next: 1 }
    }

    /// Allocates one counter; `None` only when the space is exhausted.
    pub fn allocate(&mut self) -> (r: Option<u64>)
        ensures
            match r {
                Some(c) => {
                    &&& old(self).spec_next() < u64::MAX
                    &&& c == old(self).spec_next()
                    &&& final(self).spec_next() == old(self).spec_next() + 1
                },
                None => {
                    &&& old(self).spec_next() == u64::MAX
                    &&& *final(self) == *old(self)
                },
            },
    {
        if self.next == u64::MAX {
            None
        } else {
            let c = self.next;
            self.next = self.next + 1;
            Some(c)
        }
    }
}

/// Counters handed out by later allocations never collide with earlier
/// ones: two batches numbered one after the other are disjoint, so an
/// `exec_ctr` is never reused within a process lifetime, even across
/// delete and recreate of the same request id.
pub proof fn lemma_exec_ctrs_never_reused(
    s1: Seq<ExecutionResultSummary>,
    s2: Seq<ExecutionResultSummary>,
    base1: int,
    base2: int,
)
    requires
        forall|i: int| 0 <= i < s1.len() ==> (#[trigger] s1[i].exec_ctr) == base1 + i,
        forall|j: int| 0 <= j < s2.len() ==> (#[trigger] s2[j].exec_ctr) == base2 + j,
        base2 >= base1 + s1.len(),
    ensures
        forall|i: int, j: int|
            0 <= i < s1.len() && 0 <= j < s2.len() ==> (#[trigger] s1[i].exec_ctr) != (
            #[trigger] s2[j].exec_ctr),
{
}

/// Numbers a raw batch with consecutive counters, resolving parent indices
/// to parent counters.  Fails when a parent index does not point at an
/// earlier entry of the batch, or when the counter space is exhausted.
pub fn number_batch(ctr: &mut ExecCounter, raw: &Vec<RawResultSummary>) -> (r: Result<
    Vec<ExecutionResultSummary>,
    (),
>)
    ensures
        match r {
            Ok(out) => {
                &&& out@.len() == raw@.len()
                &&& old(ctr).spec_next() + raw@.len() <= u64::MAX
                &&& final(ctr).spec_next() == old(ctr).spec_next() + raw@.len()
                &&& forall|i: int|
                    0 <= i < out@.len() ==> (#[trigger] out@[i]).exec_ctr == old(ctr).spec_next()
                        + i
                &&& forall|i: int|
                    0 <= i < out@.len() ==> (#[trigger] out@[i]).parent_exec_ctr == (match raw@[i]
                        .parent_index {
                        Some(p) => Some((old(ctr).spec_next() + p) as u64),
                        None => None,
                    })
                &&& forall|i: int|
                    0 <= i < out@.len() ==> (#[trigger] out@[i]).name == raw@[i].name && out@[i]
                        .success == raw@[i].success && out@[i].level == raw@[i].level && out@[i]
                        .run_number == raw@[i].run_number && out@[i].run_count == raw@[i].run_count
                        && out@[i].row_number == raw@[i].row_number && out@[i].row_count
                        == raw@[i].row_count
                &&& forall|i: int|
                    0 <= i < raw@.len() ==> (match (#[trigger] raw@[i]).parent_index {
                        Some(p) => p < i,
                        None => true,
                    })
            },
            Err(()) => {
                &&& *final(ctr) == *old(ctr)
                &&& ((exists|i: int|
                    0 <= i < raw@.len() && (match (#[trigger] raw@[i]).parent_index {
                        Some(p) => p >= i,
                        None => false,
                    })) || old(ctr).spec_next() + raw@.len() > u64::MAX)
            },
        },
{
    let n = raw.len();
    let mut i: usize = 0;
    while i < n
        invariant
            n == raw@.len(),
            i <= n,
            forall|j: int|
                0 <= j < i ==> (match (#[trigger] raw@[j]).parent_index {
                    Some(p) => p < j,
                    None => true,
                }),
        decreases n - i,
    {
        if let Some(p) = raw[i].parent_index {
            if p >= i {
                return Err(());
            }
        }
        i += 1;
    }
    let base = ctr.next_value();
    if n as u64 > u64::MAX - base {
        return Err(());
    }
    let mut out: Vec<ExecutionResultSummary> = Vec::new();
    let mut j: usize = 0;
    while j < n
        invariant
            n == raw@.len(),
            j <= n,
            base == old(ctr).spec_next(),
            base + n <= u64::MAX,
            out@.len() == j,
            forall|k: int|
                0 <= k < n ==> (match (#[trigger] raw@[k]).parent_index {
                    Some(p) => p < k,
                    None => true,
                }),
            forall|k: int| 0 <= k < j ==> (#[trigger] out@[k]).exec_ctr == base + k,
            forall|k: int|
                0 <= k < j ==> (#[trigger] out@[k]).parent_exec_ctr == (match raw@[k]
                    .parent_index {
                    Some(p) => Some((base + p) as u64),
                    None => None,
                }),
            forall|k: int|
                0 <= k < j ==> (#[trigger] out@[k]).name == raw@[k].name && out@[k].success
                    == raw@[k].success && out@[k].level == raw@[k].level && out@[k].run_number
                    == raw@[k].run_number && out@[k].run_count == raw@[k].run_count && out@[k]
                    .row_number == raw@[k].row_number && out@[k].row_count == raw@[k].row_count,
        decreases n - j,
    {
        let entry = &raw[j];
        let parent_exec_ctr: Option<u64> = match entry.parent_index {
            Some(p) => Some(base + p as u64),
            None => None,
        };
        out.push(ExecutionResultSummary {
            exec_ctr: base + j as u64,
            parent_exec_ctr,
            name: entry.name.clone(),
            success: entry.success,
            level: entry.level,
            run_number: entry.run_number,
            run_count: entry.run_count,
            row_number: entry.row_number,
            row_count: entry.row_count,
        });
        j += 1;
    }
    ctr.advance(n as u64);
    Ok(out)
}

impl ExecCounter {
    /// The next counter value, without allocating.
    pub fn next_value(&self) -> (r: u64)
        ensures
            r == self.spec_next(),
    {
        self.next
    }

    /// Advances the counter after a batch was numbered.
    pub fn advance(&mut self, by: u64)
        requires
            old(self).spec_next() + by <= u64::MAX,
        ensures
            final(self).spec_next() == old(self).spec_next() + by,
    {
        self.next = self.next + by;
    }
}

/// Retained execution results: the latest summary batch per request or
/// group id, and the full detail per execution counter.
pub struct ResultStore {
    pub summaries: StringMap<Vec<ExecutionResultSummary>>,
    pub details: CtrMap<ExecutionResultDetail>,
    /// Every retained summary, by execution counter, for parent lookups
    /// across batches.
    pub retained: CtrMap<ExecutionResultSummary>,
}

impl ResultStore {
    pub open spec fn wf(&self) -> bool {
        &&& self.summaries.wf()
        &&& self.details.wf()
        &&& self.retained.wf()
    }

    pub fn new() -> (r: ResultStore)
        ensures
            r.wf(),
            r.summaries@ == Map::<Seq<char>, Vec<ExecutionResultSummary>>::empty(),
            r.details@ == Map::<u64, ExecutionResultDetail>::empty(),
            r.retained@ == Map::<u64, ExecutionResultSummary>::empty(),
    {
        ResultStore { summaries: StringMap::new(), details: CtrMap::new(), retained: CtrMap::new() }
    }

    /// The retained detail for an execution counter.
    pub fn get_detail(&self, exec_ctr: u64) -> (r: Option<&ExecutionResultDetail>)
        requires
            self.wf(),
        ensures
            match r {
                Some(d) => self.details@.contains_key(exec_ctr) && *d == self.details@[exec_ctr],
                None => !self.details@.contains_key(exec_ctr),
            },
    {
        self.details.get(exec_ctr)
    }

    /// The latest summary batch stored for a request or group id.
    pub fn get_batch(&self, id: &String) -> (r: Option<&Vec<ExecutionResultSummary>>)
        requires
            self.wf(),
        ensures
            match r {
                Some(b) => self.summaries@.contains_key(id@) && *b == self.summaries@[id@],
                None => !self.summaries@.contains_key(id@),
            },
    {
        self.summaries.get(id)
    }
}

} // verus!
