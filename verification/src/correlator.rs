//! The execution correlator: turns the flat stream of execution-result
//! summaries for a request or group — its own runs, its child requests'
//! runs, recursively — into an ordered, navigable menu with aggregated
//! pass/fail/error status bubbling up through parents.
//!
//! The menu is a pure function of its input: `build_result_menu_items`
//! returns exactly `spec_menu_items` of its arguments, so running the
//! correlator twice on the same batch yields identical menus, forward and
//! backward links included.

use crate::exec_state::{ExecutionResultSuccess, ExecutionState};
use crate::ids::{dec_seq, dec_string};
use crate::results::{ExecutionMenuItem, ExecutionResultSummary};
use crate::umap::CtrMap;
use vstd::prelude::*;
use vstd::string::StringExecFns;

verus! {

/// One correlation input group: the batch of summaries recorded for one
/// concrete executing request or group id, in batch order.
pub struct CorrelatorBatch {
    pub executing_id: String,
    /// Display title of the executing entity, absent for the queried id.
    pub executing_name: Option<String>,
    pub summaries: Vec<ExecutionResultSummary>,
}

/// First index of the summary carrying the given counter.
pub open spec fn idx_of_ctr(s: Seq<ExecutionResultSummary>, c: u64) -> Option<int>
    decreases s.len(),
{
    if s.len() == 0 {
        None
    } else if s[0].exec_ctr == c {
        Some(0int)
    } else {
        match idx_of_ctr(s.drop_first(), c) {
            Some(i) => Some(i + 1),
            None => None,
        }
    }
}

/// A well-formed batch: counters are unique, and a parent that appears in
/// the batch appears strictly earlier than its child.
pub open spec fn batch_wf(s: Seq<ExecutionResultSummary>) -> bool {
    &&& forall|i: int, j: int|
        0 <= i < j < s.len() ==> (#[trigger] s[i].exec_ctr) != (#[trigger] s[j].exec_ctr)
    &&& forall|i: int, j: int|
        0 <= i < s.len() && 0 <= j < s.len() && (#[trigger] s[i].parent_exec_ctr) == Some(
            (#[trigger] s[j].exec_ctr),
        ) ==> j < i
}

/// The in-batch parent index of entry `d`, if its parent is in the batch.
pub open spec fn parent_index(s: Seq<ExecutionResultSummary>, d: int) -> Option<int> {
    match s[d].parent_exec_ctr {
        Some(p) => idx_of_ctr(s, p),
        None => None,
    }
}

/// `a` lies on the parent chain of `d` (reflexively).
pub open spec fn on_parent_chain(s: Seq<ExecutionResultSummary>, d: int, a: int) -> bool
    decreases d,
{
    d == a || (match parent_index(s, d) {
        Some(j) => 0 <= j < d && on_parent_chain(s, j, a),
        None => false,
    })
}

/// Union of the classifications of the first `n` entries whose parent
/// chain passes through `a`.
pub open spec fn agg_prefix(s: Seq<ExecutionResultSummary>, a: int, n: int) -> ExecutionState
    decreases n,
{
    if n <= 0 {
        ExecutionState::spec_empty()
    } else {
        agg_prefix(s, a, n - 1).spec_union(
            if on_parent_chain(s, n - 1, a) {
                ExecutionState::spec_of_success(s[n - 1].success)
            } else {
                ExecutionState::spec_empty()
            },
        )
    }
}

/// The aggregated state of entry `a`: the union of its own classification
/// with every in-batch descendant's classification.
pub open spec fn spec_aggregated(s: Seq<ExecutionResultSummary>, a: int) -> ExecutionState {
    agg_prefix(s, a, s.len() as int)
}

/// The aggregated state covers the classification of every entry whose
/// parent chain passes through `a` — its own and each descendant's — so a
/// parent group reflects any child failure.
pub proof fn lemma_aggregated_covers(s: Seq<ExecutionResultSummary>, a: int, d: int)
    requires
        0 <= d < s.len(),
        on_parent_chain(s, d, a),
    ensures
        spec_aggregated(s, a).spec_includes(ExecutionState::spec_of_success(s[d].success)),
{
    lemma_agg_prefix_covers(s, a, d, s.len() as int);
}

proof fn lemma_agg_prefix_covers(s: Seq<ExecutionResultSummary>, a: int, d: int, n: int)
    requires
        0 <= d < n <= s.len(),
        on_parent_chain(s, d, a),
    ensures
        agg_prefix(s, a, n).spec_includes(ExecutionState::spec_of_success(s[d].success)),
    decreases n,
{
    if d == n - 1 {
    } else {
        lemma_agg_prefix_covers(s, a, d, n - 1);
    }
}

/// Aggregation is monotonic: appending one more summary to the batch never
/// clears a flag of any entry's aggregated state.
pub proof fn lemma_aggregated_monotonic(
    s: Seq<ExecutionResultSummary>,
    x: ExecutionResultSummary,
    a: int,
)
    requires
        0 <= a < s.len(),
    ensures
        spec_aggregated(s.push(x), a).spec_includes(spec_aggregated(s, a)),
{
    let s2 = s.push(x);
    lemma_idx_push(s, x);
    lemma_chain_push(s, x);
    lemma_agg_prefix_push(s, x, a, s.len() as int);
    assert(spec_aggregated(s2, a) == agg_prefix(s2, a, s2.len() as int));
    assert(agg_prefix(s2, a, (s2.len() - 1) as int) == agg_prefix(s, a, s.len() as int));
    crate::exec_state::lemma_union_monotonic(
        agg_prefix(s2, a, (s2.len() - 1) as int),
        if on_parent_chain(s2, s.len() as int, a) {
            ExecutionState::spec_of_success(s2[s.len() as int].success)
        } else {
            ExecutionState::spec_empty()
        },
    );
}

proof fn lemma_idx_push(s: Seq<ExecutionResultSummary>, x: ExecutionResultSummary)
    ensures
        forall|c: u64|
            (#[trigger] idx_of_ctr(s, c)) is Some ==> idx_of_ctr(s.push(x), c) == idx_of_ctr(s, c),
        forall|d: int|
            0 <= d < s.len() && (#[trigger] idx_of_ctr(s, s[d].exec_ctr)) is None ==> false,
        forall|c: u64|
            ((#[trigger] idx_of_ctr(s.push(x), c)) matches Some(j) && j < s.len()) ==> idx_of_ctr(
                s,
                c,
            ) == idx_of_ctr(s.push(x), c),
    decreases s.len(),
{
    if s.len() > 0 {
        lemma_idx_push(s.drop_first(), x);
        assert forall|c: u64| (#[trigger] idx_of_ctr(s, c)) is Some implies idx_of_ctr(
            s.push(x),
            c,
        ) == idx_of_ctr(s, c) by {
            assert(s.push(x)[0] == s[0]);
            assert(s.push(x).drop_first() =~= s.drop_first().push(x));
            if s[0].exec_ctr != c {
                assert(idx_of_ctr(s.drop_first(), c) is Some);
            }
        }
        assert forall|d: int|
            0 <= d < s.len() && (#[trigger] idx_of_ctr(s, s[d].exec_ctr)) is None implies false by {
            if d > 0 {
                assert(s.drop_first()[d - 1] == s[d]);
                assert(idx_of_ctr(s.drop_first(), s[d].exec_ctr) is None);
            }
        }
        assert forall|c: u64|
            ((#[trigger] idx_of_ctr(s.push(x), c)) matches Some(j) && j < s.len()) implies
            idx_of_ctr(s, c) == idx_of_ctr(s.push(x), c) by {
            assert(s.push(x)[0] == s[0]);
            assert(s.push(x).drop_first() =~= s.drop_first().push(x));
            if s[0].exec_ctr != c {
                let j = idx_of_ctr(s.push(x), c).unwrap();
                assert(idx_of_ctr(s.drop_first().push(x), c) == Some(j - 1));
            }
        }
    } else {
        assert forall|c: u64|
            ((#[trigger] idx_of_ctr(s.push(x), c)) matches Some(j) && j < s.len()) implies
            idx_of_ctr(s, c) == idx_of_ctr(s.push(x), c) by {
            assert(s.push(x).drop_first() =~= s);
            assert(idx_of_ctr(s.push(x), c) == (if s.push(x)[0].exec_ctr == c {
                Some(0int)
            } else {
                None::<int>
            }));
        }
    }
}

proof fn lemma_chain_push(s: Seq<ExecutionResultSummary>, x: ExecutionResultSummary)
    ensures
        forall|d: int, a: int|
            0 <= d < s.len() && #[trigger] on_parent_chain(s, d, a) ==> on_parent_chain(
                s.push(x),
                d,
                a,
            ),
        forall|d: int, a: int|
            0 <= d < s.len() && #[trigger] on_parent_chain(s.push(x), d, a) ==> on_parent_chain(
                s,
                d,
                a,
            ),
{
    lemma_idx_push(s, x);
    assert forall|d: int, a: int|
        0 <= d < s.len() && #[trigger] on_parent_chain(s, d, a) implies on_parent_chain(
        s.push(x),
        d,
        a,
    ) by {
        lemma_chain_push_one(s, x, d, a);
    }
    assert forall|d: int, a: int|
        0 <= d < s.len() && #[trigger] on_parent_chain(s.push(x), d, a) implies on_parent_chain(
        s,
        d,
        a,
    ) by {
        lemma_chain_push_back(s, x, d, a);
    }
}

proof fn lemma_chain_push_one(
    s: Seq<ExecutionResultSummary>,
    x: ExecutionResultSummary,
    d: int,
    a: int,
)
    requires
        0 <= d < s.len(),
        on_parent_chain(s, d, a),
    ensures
        on_parent_chain(s.push(x), d, a),
    decreases d,
{
    lemma_idx_push(s, x);
    let s2 = s.push(x);
    assert(s2[d] == s[d]);
    if d == a {
    } else {
        let j = parent_index(s, d).unwrap();
        assert(parent_index(s2, d) == Some(j)) by {
            assert(idx_of_ctr(s, s[d].parent_exec_ctr.unwrap()) == Some(j));
        }
        lemma_chain_push_one(s, x, j, a);
    }
}

proof fn lemma_chain_push_back(
    s: Seq<ExecutionResultSummary>,
    x: ExecutionResultSummary,
    d: int,
    a: int,
)
    requires
        0 <= d < s.len(),
        on_parent_chain(s.push(x), d, a),
    ensures
        on_parent_chain(s, d, a),
    decreases d,
{
    lemma_idx_push(s, x);
    let s2 = s.push(x);
    assert(s2[d] == s[d]);
    if d == a {
    } else {
        let j = parent_index(s2, d).unwrap();
        assert(parent_index(s, d) == Some(j)) by {
            assert(idx_of_ctr(s, s[d].parent_exec_ctr.unwrap()) is Some);
        }
        lemma_chain_push_back(s, x, j, a);
    }
}

proof fn lemma_agg_prefix_push(
    s: Seq<ExecutionResultSummary>,
    x: ExecutionResultSummary,
    a: int,
    n: int,
)
    requires
        n <= s.len(),
    ensures
        agg_prefix(s.push(x), a, n) == agg_prefix(s, a, n),
    decreases n,
{
    if n > 0 {
        lemma_agg_prefix_push(s, x, a, n - 1);
        lemma_chain_push(s, x);
        assert(s.push(x)[n - 1] == s[n - 1]);
    }
}


/// The fields of a menu item, at specification level.
pub struct MenuItemSpec {
    pub name: Seq<char>,
    pub level: u64,
    pub executing_name: Option<Seq<char>>,
    pub execution_state: ExecutionState,
    pub executing_id: Seq<char>,
    pub executing_offset: u64,
    pub exec_ctr: u64,
    pub next_exec_ctr: Option<u64>,
    pub prev_exec_ctr: Option<u64>,
    pub parent_exec_ctr: Option<u64>,
}

/// `x - off`, floored at zero.
pub open spec fn lvl_rebased(x: u64, off: u64) -> u64 {
    if x >= off {
        (x - off) as u64
    } else {
        0
    }
}

/// The "Run X of Y" tag of a retained parent record.
pub open spec fn spec_run_part(p: ExecutionResultSummary) -> Option<Seq<char>> {
    match (p.run_number, p.run_count) {
        (Some(rn), Some(rc)) => Some("Run "@ + dec_seq(rn as nat) + " of "@ + dec_seq(rc as nat)),
        _ => None,
    }
}

/// The "Row X of Y" tag of a retained parent record.
pub open spec fn spec_row_part(p: ExecutionResultSummary) -> Option<Seq<char>> {
    match (p.row_number, p.row_count) {
        (Some(rn), Some(rc)) => Some("Row "@ + dec_seq(rn as nat) + " of "@ + dec_seq(rc as nat)),
        _ => None,
    }
}

/// The display suffix taken from a parent that fell outside the batch.
pub open spec fn spec_suffix(p: ExecutionResultSummary) -> Option<Seq<char>> {
    match (spec_run_part(p), spec_row_part(p)) {
        (Some(a), Some(b)) => Some(a + ", "@ + b),
        (Some(a), None) => Some(a),
        (None, Some(b)) => Some(b),
        (None, None) => None,
    }
}

/// The display name of one summary: its own name, augmented with the
/// parent's run/row tag when the parent fell outside the batch but is
/// still retained in the result store.
pub open spec fn spec_item_name(
    s: Seq<ExecutionResultSummary>,
    i: int,
    retained: Map<u64, ExecutionResultSummary>,
) -> Seq<char> {
    match s[i].parent_exec_ctr {
        Some(p) => if idx_of_ctr(s, p) is Some {
            s[i].name@
        } else if retained.contains_key(p) {
            match spec_suffix(retained[p]) {
                Some(sfx) => s[i].name@ + " ("@ + sfx + ")"@,
                None => s[i].name@,
            }
        } else {
            s[i].name@
        },
        None => s[i].name@,
    }
}

/// The in-batch parent link kept for display: only parents retained in the
/// same batch are linked.
pub open spec fn spec_item_parent(s: Seq<ExecutionResultSummary>, i: int) -> Option<u64> {
    match s[i].parent_exec_ctr {
        Some(p) => if idx_of_ctr(s, p) is Some {
            Some(p)
        } else {
            None
        },
        None => None,
    }
}

/// The menu entry built for batch position `i`, before chain stitching.
pub open spec fn spec_base_item(
    target: Seq<char>,
    b: CorrelatorBatch,
    i: int,
    retained: Map<u64, ExecutionResultSummary>,
) -> MenuItemSpec {
    let s = b.summaries@;
    let level_offset: u64 = if b.executing_id@ == target {
        0
    } else {
        s[0].level
    };
    MenuItemSpec {
        name: spec_item_name(s, i, retained),
        level: lvl_rebased(s[i].level, level_offset),
        executing_name: match b.executing_name {
            Some(n) => Some(n@),
            None => None,
        },
        execution_state: spec_aggregated(s, i),
        executing_id: b.executing_id@,
        executing_offset: i as u64,
        exec_ctr: s[i].exec_ctr,
        next_exec_ctr: None,
        prev_exec_ctr: None,
        parent_exec_ctr: spec_item_parent(s, i),
    }
}

/// The menu entries of one batch, in batch order.
pub open spec fn spec_batch_items(
    target: Seq<char>,
    b: CorrelatorBatch,
    retained: Map<u64, ExecutionResultSummary>,
) -> Seq<MenuItemSpec> {
    Seq::new(b.summaries@.len(), |i: int| spec_base_item(target, b, i, retained))
}

/// All menu entries across the batches, flattened in input order.
pub open spec fn spec_all_items(
    target: Seq<char>,
    bs: Seq<CorrelatorBatch>,
    retained: Map<u64, ExecutionResultSummary>,
) -> Seq<MenuItemSpec>
    decreases bs.len(),
{
    if bs.len() == 0 {
        Seq::empty()
    } else {
        spec_all_items(target, bs.drop_last(), retained) + spec_batch_items(
            target,
            bs.last(),
            retained,
        )
    }
}

/// The finished menu: all entries with forward and backward links forming
/// one flat traversal order across the whole batch.
pub open spec fn spec_menu_items(
    target: Seq<char>,
    bs: Seq<CorrelatorBatch>,
    retained: Map<u64, ExecutionResultSummary>,
) -> Seq<MenuItemSpec> {
    let all = spec_all_items(target, bs, retained);
    Seq::new(
        all.len(),
        |i: int|
            MenuItemSpec {
                prev_exec_ctr: if i > 0 {
                    Some(all[i - 1].exec_ctr)
                } else {
                    None
                },
                next_exec_ctr: if i + 1 < all.len() {
                    Some(all[i + 1].exec_ctr)
                } else {
                    None
                },
                ..all[i]
            },
    )
}

/// The executable menu item realizes the specified one, field for field.
pub open spec fn item_matches(x: ExecutionMenuItem, m: MenuItemSpec) -> bool {
    &&& x.name@ == m.name
    &&& x.level == m.level
    &&& (match (x.executing_name, m.executing_name) {
        (Some(a), Some(b)) => a@ == b,
        (None, None) => true,
        _ => false,
    })
    &&& x.execution_state == m.execution_state
    &&& x.executing_request_or_group_id@ == m.executing_id
    &&& x.executing_offset == m.executing_offset
    &&& x.exec_ctr == m.exec_ctr
    &&& x.next_exec_ctr == m.next_exec_ctr
    &&& x.prev_exec_ctr == m.prev_exec_ctr
    &&& x.parent_exec_ctr == m.parent_exec_ctr
}

/// Menu construction is a function of its input: any two menus that
/// realize the same specification carry identical entries — the
/// `next`/`prev` chains included.
pub proof fn lemma_menu_idempotent(
    target: Seq<char>,
    bs: Seq<CorrelatorBatch>,
    retained: Map<u64, ExecutionResultSummary>,
    r1: Seq<ExecutionMenuItem>,
    r2: Seq<ExecutionMenuItem>,
)
    requires
        r1.len() == spec_menu_items(target, bs, retained).len(),
        forall|i: int|
            0 <= i < r1.len() ==> item_matches(
                #[trigger] r1[i],
                spec_menu_items(target, bs, retained)[i],
            ),
        r2.len() == spec_menu_items(target, bs, retained).len(),
        forall|i: int|
            0 <= i < r2.len() ==> item_matches(
                #[trigger] r2[i],
                spec_menu_items(target, bs, retained)[i],
            ),
    ensures
        r1.len() == r2.len(),
        forall|i: int|
            0 <= i < r1.len() ==> (#[trigger] r1[i]).exec_ctr == r2[i].exec_ctr && r1[i]
                .next_exec_ctr == r2[i].next_exec_ctr && r1[i].prev_exec_ctr == r2[i]
                .prev_exec_ctr && r1[i].name@ == r2[i].name@,
{
}

proof fn lemma_all_items_unlinked(
    target: Seq<char>,
    bs: Seq<CorrelatorBatch>,
    retained: Map<u64, ExecutionResultSummary>,
)
    ensures
        forall|i: int|
            0 <= i < spec_all_items(target, bs, retained).len() ==> (#[trigger] spec_all_items(
                target,
                bs,
                retained,
            )[i]).next_exec_ctr is None && spec_all_items(target, bs, retained)[i].prev_exec_ctr
                is None,
    decreases bs.len(),
{
    if bs.len() > 0 {
        lemma_all_items_unlinked(target, bs.drop_last(), retained);
        let pre = spec_all_items(target, bs.drop_last(), retained);
        let tail = spec_batch_items(target, bs.last(), retained);
        assert forall|i: int|
            0 <= i < spec_all_items(target, bs, retained).len() implies (
        #[trigger] spec_all_items(target, bs, retained)[i]).next_exec_ctr is None
            && spec_all_items(target, bs, retained)[i].prev_exec_ctr is None by {
            if i < pre.len() {
                assert(spec_all_items(target, bs, retained)[i] == pre[i]);
            } else {
                assert(spec_all_items(target, bs, retained)[i] == tail[i - pre.len()]);
            }
        }
    }
}


/// The two correlation inputs display the same: equal executing ids,
/// equal display titles, identical summary batches.
pub open spec fn batches_view_eq(a: Seq<CorrelatorBatch>, b: Seq<CorrelatorBatch>) -> bool {
    &&& a.len() == b.len()
    &&& forall|i: int|
        0 <= i < a.len() ==> (#[trigger] a[i]).executing_id@ == b[i].executing_id@ && a[i]
            .summaries@ == b[i].summaries@ && (match (a[i].executing_name, b[i].executing_name) {
            (Some(x), Some(y)) => x@ == y@,
            (None, None) => true,
            _ => false,
        })
}

/// Inputs that display the same yield the same menu specification, chains
/// included: menu construction is a function of the displayed input.
pub proof fn lemma_menu_spec_congruence(
    target: Seq<char>,
    a: Seq<CorrelatorBatch>,
    b: Seq<CorrelatorBatch>,
    retained: Map<u64, ExecutionResultSummary>,
)
    requires
        batches_view_eq(a, b),
    ensures
        spec_menu_items(target, a, retained) == spec_menu_items(target, b, retained),
{
    lemma_all_items_congruence(target, a, b, retained);
    let all_a = spec_all_items(target, a, retained);
    let all_b = spec_all_items(target, b, retained);
    assert(spec_menu_items(target, a, retained) =~= spec_menu_items(target, b, retained));
}

proof fn lemma_all_items_congruence(
    target: Seq<char>,
    a: Seq<CorrelatorBatch>,
    b: Seq<CorrelatorBatch>,
    retained: Map<u64, ExecutionResultSummary>,
)
    requires
        batches_view_eq(a, b),
    ensures
        spec_all_items(target, a, retained) == spec_all_items(target, b, retained),
    decreases a.len(),
{
    if a.len() == 0 {
    } else {
        assert(batches_view_eq(a.drop_last(), b.drop_last())) by {
            assert forall|i: int|
                0 <= i < a.drop_last().len() implies (#[trigger] a.drop_last()[i]).executing_id@
                == b.drop_last()[i].executing_id@ && a.drop_last()[i].summaries@
                == b.drop_last()[i].summaries@ && (match (
                a.drop_last()[i].executing_name,
                b.drop_last()[i].executing_name,
            ) {
                (Some(x), Some(y)) => x@ == y@,
                (None, None) => true,
                _ => false,
            }) by {
                assert(a.drop_last()[i] == a[i]);
                assert(b.drop_last()[i] == b[i]);
            }
        }
        lemma_all_items_congruence(target, a.drop_last(), b.drop_last(), retained);
        lemma_batch_items_congruence(target, a.last(), b.last(), retained);
        assert(a.last() == a[a.len() - 1]);
        assert(b.last() == b[b.len() - 1]);
    }
}

proof fn lemma_batch_items_congruence(
    target: Seq<char>,
    x: CorrelatorBatch,
    y: CorrelatorBatch,
    retained: Map<u64, ExecutionResultSummary>,
)
    requires
        x.executing_id@ == y.executing_id@,
        x.summaries@ == y.summaries@,
        (match (x.executing_name, y.executing_name) {
            (Some(n1), Some(n2)) => n1@ == n2@,
            (None, None) => true,
            _ => false,
        }),
    ensures
        spec_batch_items(target, x, retained) == spec_batch_items(target, y, retained),
{
    assert forall|i: int|
        0 <= i < x.summaries@.len() implies spec_base_item(target, x, i, retained)
        == spec_base_item(target, y, i, retained) by {
        assert(spec_base_item(target, x, i, retained).executing_name == spec_base_item(
            target,
            y,
            i,
            retained,
        ).executing_name);
    }
    assert(spec_batch_items(target, x, retained) =~= spec_batch_items(target, y, retained));
}

/// Finds the first batch index carrying the given counter.
fn idx_exec(s: &Vec<ExecutionResultSummary>, c: u64) -> (r: Option<usize>)
    ensures
        match r {
            Some(i) => idx_of_ctr(s@, c) == Some(i as int) && i < s@.len(),
            None => idx_of_ctr(s@, c) is None,
        },
{
    let n = s.len();
    let mut i: usize = 0;
    proof {
        assert(s@.skip(0) =~= s@);
    }
    while i < n
        invariant
            n == s@.len(),
            i <= n,
            idx_of_ctr(s@, c) == (match idx_of_ctr(s@.skip(i as int), c) {
                Some(x) => Some(x + i),
                None => None::<int>,
            }),
        decreases n - i,
    {
        proof {
            assert(s@.skip(i as int)[0] == s@[i as int]);
            assert(s@.skip(i as int).drop_first() =~= s@.skip(i + 1));
        }
        if s[i].exec_ctr == c {
            return Some(i);
        }
        i += 1;
    }
    None
}

/// Whether `a` lies on the parent chain of `d` within the batch.
fn anc_exec(s: &Vec<ExecutionResultSummary>, d: usize, a: usize) -> (r: bool)
    requires
        d < s@.len(),
    ensures
        r == on_parent_chain(s@, d as int, a as int),
    decreases d,
{
    if d == a {
        true
    } else {
        match s[d].parent_exec_ctr {
            None => false,
            Some(p) => match idx_exec(s, p) {
                Some(j) => if j < d {
                    anc_exec(s, j, a)
                } else {
                    false
                },
                None => false,
            },
        }
    }
}

/// The aggregated state of batch entry `a`.
fn aggregate_exec(s: &Vec<ExecutionResultSummary>, a: usize) -> (r: ExecutionState)
    requires
        a < s@.len(),
    ensures
        r == spec_aggregated(s@, a as int),
{
    let n = s.len();
    let mut acc = ExecutionState::empty();
    let mut d: usize = 0;
    while d < n
        invariant
            n == s@.len(),
            a < n,
            d <= n,
            acc == agg_prefix(s@, a as int, d as int),
        decreases n - d,
    {
        if anc_exec(s, d, a) {
            acc = acc.union(ExecutionState::of_success(s[d].success));
        } else {
            proof {
                crate::exec_state::lemma_union_algebra(
                    acc,
                    ExecutionState::spec_empty(),
                    ExecutionState::spec_empty(),
                );
            }
        }
        d += 1;
    }
    acc
}

/// Builds the display suffix from a retained parent record.
fn build_suffix(p: &ExecutionResultSummary) -> (r: Option<String>)
    ensures
        match (r, spec_suffix(*p)) {
            (Some(x), Some(m)) => x@ == m,
            (None, None) => true,
            _ => false,
        },
{
    let run_part: Option<String> = match (p.run_number, p.run_count) {
        (Some(rn), Some(rc)) => {
            let mut t = "Run ".to_owned();
            t.append(dec_string(rn).as_str());
            t.append(" of ");
            t.append(dec_string(rc).as_str());
            proof {
                assert(t@ =~= "Run "@ + dec_seq(rn as nat) + " of "@ + dec_seq(rc as nat));
            }
            Some(t)
        },
        _ => None,
    };
    let row_part: Option<String> = match (p.row_number, p.row_count) {
        (Some(rn), Some(rc)) => {
            let mut t = "Row ".to_owned();
            t.append(dec_string(rn).as_str());
            t.append(" of ");
            t.append(dec_string(rc).as_str());
            proof {
                assert(t@ =~= "Row "@ + dec_seq(rn as nat) + " of "@ + dec_seq(rc as nat));
            }
            Some(t)
        },
        _ => None,
    };
    match (run_part, row_part) {
        (Some(a), Some(b)) => {
            let mut t = a;
            t.append(", ");
            t.append(b.as_str());
            proof {
                assert(t@ =~= spec_suffix(*p).unwrap());
            }
            Some(t)
        },
        (Some(a), None) => Some(a),
        (None, Some(b)) => Some(b),
        (None, None) => None,
    }
}

/// Builds the navigable execution menu for the queried id from the stored
/// batches of the id and its descendants, with aggregated states and the
/// flat `next`/`prev` traversal chain.
pub fn build_result_menu_items(
    target: &String,
    batches: &Vec<CorrelatorBatch>,
    retained: &CtrMap<ExecutionResultSummary>,
) -> (r: Vec<ExecutionMenuItem>)
    requires
        retained.wf(),
    ensures
        r@.len() == spec_menu_items(target@, batches@, retained@).len(),
        forall|i: int|
            0 <= i < r@.len() ==> item_matches(
                #[trigger] r@[i],
                spec_menu_items(target@, batches@, retained@)[i],
            ),
{
    let nb = batches.len();
    let mut out: Vec<ExecutionMenuItem> = Vec::new();
    let mut prev_ctr: Option<u64> = None;
    let mut k: usize = 0;
    proof {
        assert(batches@.take(0) =~= Seq::<CorrelatorBatch>::empty());
    }
    while k < nb
        invariant
            retained.wf(),
            nb == batches@.len(),
            k <= nb,
            out@.len() == spec_all_items(target@, batches@.take(k as int), retained@).len(),
            forall|i: int|
                0 <= i < out@.len() ==> item_matches(
                    #[trigger] out@[i],
                    MenuItemSpec {
                        prev_exec_ctr: if i > 0 {
                            Some(
                                spec_all_items(target@, batches@.take(k as int), retained@)[i
                                    - 1].exec_ctr,
                            )
                        } else {
                            None
                        },
                        ..spec_all_items(target@, batches@.take(k as int), retained@)[i]
                    },
                ),
            prev_ctr == (if out@.len() > 0 {
                Some(
                    spec_all_items(target@, batches@.take(k as int), retained@)[out@.len()
                        - 1].exec_ctr,
                )
            } else {
                None::<u64>
            }),
        decreases nb - k,
    {
        let ghost pre_all = spec_all_items(target@, batches@.take(k as int), retained@);
        proof {
            assert(batches@.take(k + 1).drop_last() =~= batches@.take(k as int));
            assert(batches@.take(k + 1).last() == batches@[k as int]);
        }
        let b = &batches[k];
        let sn = b.summaries.len();
        if sn > 0 {
            let level_offset: u64 = if b.executing_id.eq(target) {
                0
            } else {
                b.summaries[0].level
            };
            let mut j: usize = 0;
            while j < sn
                invariant
                    retained.wf(),
                    nb == batches@.len(),
                    k < nb,
                    b == batches@[k as int],
                    sn == b.summaries@.len(),
                    sn > 0,
                    j <= sn,
                    level_offset == (if b.executing_id@ == target@ {
                        0u64
                    } else {
                        b.summaries@[0].level
                    }),
                    pre_all == spec_all_items(target@, batches@.take(k as int), retained@),
                    out@.len() == pre_all.len() + j,
                    forall|i: int|
                        0 <= i < out@.len() ==> item_matches(
                            #[trigger] out@[i],
                            MenuItemSpec {
                                prev_exec_ctr: if i > 0 {
                                    Some(
                                        (pre_all + spec_batch_items(
                                            target@,
                                            batches@[k as int],
                                            retained@,
                                        ))[i - 1].exec_ctr,
                                    )
                                } else {
                                    None
                                },
                                ..(pre_all + spec_batch_items(
                                    target@,
                                    batches@[k as int],
                                    retained@,
                                ))[i]
                            },
                        ),
                    prev_ctr == (if out@.len() > 0 {
                        Some(
                            (pre_all + spec_batch_items(target@, batches@[k as int], retained@))[
                                out@.len() - 1].exec_ctr,
                        )
                    } else {
                        None::<u64>
                    }),
                decreases sn - j,
            {
                let summary = &b.summaries[j];
                let execution_state = aggregate_exec(&b.summaries, j);
                let (parent_exec_ctr, name): (Option<u64>, String) = match summary.parent_exec_ctr {
                    Some(p) => {
                        if idx_exec(&b.summaries, p).is_some() {
                            (Some(p), summary.name.clone())
                        } else {
                            match retained.get(p) {
                                Some(parent) => match build_suffix(parent) {
                                    Some(sfx) => {
                                        let mut t = summary.name.clone();
                                        t.append(" (");
                                        t.append(sfx.as_str());
                                        t.append(")");
                                        proof {
                                            assert(t@ =~= spec_item_name(
                                                b.summaries@,
                                                j as int,
                                                retained@,
                                            ));
                                        }
                                        (None, t)
                                    },
                                    None => (None, summary.name.clone()),
                                },
                                None => (None, summary.name.clone()),
                            }
                        }
                    },
                    None => (None, summary.name.clone()),
                };
                let executing_name: Option<String> = match &b.executing_name {
                    Some(n) => Some(n.clone()),
                    None => None,
                };
                let level: u64 = if summary.level >= level_offset {
                    summary.level - level_offset
                } else {
                    0
                };
                out.push(ExecutionMenuItem {
                    name,
                    level,
                    executing_name,
                    execution_state,
                    executing_request_or_group_id: b.executing_id.clone(),
                    executing_offset: j as u64,
                    exec_ctr: summary.exec_ctr,
                    next_exec_ctr: None,
                    prev_exec_ctr: prev_ctr,
                    parent_exec_ctr,
                });
                prev_ctr = Some(summary.exec_ctr);
                j += 1;
            }
        }
        proof {
            assert(spec_all_items(target@, batches@.take(k + 1), retained@) =~= pre_all
                + spec_batch_items(target@, batches@[k as int], retained@));
            if sn == 0 {
                assert(spec_batch_items(target@, batches@[k as int], retained@) =~= Seq::<
                    MenuItemSpec,
                >::empty());
                assert(pre_all + spec_batch_items(target@, batches@[k as int], retained@)
                    =~= pre_all);
            }
        }
        k += 1;
    }
    proof {
        assert(batches@.take(nb as int) =~= batches@);
    }
    let total = out.len();
    let mut i2: usize = 0;
    let ghost all = spec_all_items(target@, batches@, retained@);
    let ghost mid = out@;
    while i2 < total
        invariant
            all == spec_all_items(target@, batches@, retained@),
            total == mid.len(),
            mid.len() == all.len(),
            i2 <= total,
            out@.len() == total,
            forall|i: int| i2 <= i < total ==> (#[trigger] out@[i]) == mid[i],
            forall|i: int|
                0 <= i < total ==> item_matches(
                    #[trigger] mid[i],
                    MenuItemSpec {
                        prev_exec_ctr: if i > 0 {
                            Some(all[i - 1].exec_ctr)
                        } else {
                            None
                        },
                        ..all[i]
                    },
                ),
            forall|i: int|
                0 <= i < i2 ==> item_matches(
                    #[trigger] out@[i],
                    spec_menu_items(target@, batches@, retained@)[i],
                ),
        decreases total - i2,
    {
        if i2 + 1 < total {
            let next = Some(out[i2 + 1].exec_ctr);
            out[i2].next_exec_ctr = next;
        }
        proof {
            let i = i2 as int;
            let menu = spec_menu_items(target@, batches@, retained@);
            assert(menu.len() == all.len());
            assert(menu[i].exec_ctr == all[i].exec_ctr);
            assert(menu[i] == MenuItemSpec {
                prev_exec_ctr: if i > 0 {
                    Some(all[i - 1].exec_ctr)
                } else {
                    None
                },
                next_exec_ctr: if i + 1 < all.len() {
                    Some(all[i + 1].exec_ctr)
                } else {
                    None
                },
                ..all[i]
            });
            assert(item_matches(
                mid[i],
                MenuItemSpec {
                    prev_exec_ctr: if i > 0 {
                        Some(all[i - 1].exec_ctr)
                    } else {
                        None
                    },
                    ..all[i]
                },
            ));
            if i + 1 < total {
                assert(out@[i + 1] == mid[i + 1]);
                assert(item_matches(
                    mid[i + 1],
                    MenuItemSpec {
                        prev_exec_ctr: Some(all[i].exec_ctr),
                        ..all[i + 1]
                    },
                ));
                assert(mid[i + 1].exec_ctr == all[i + 1].exec_ctr);
            } else {
                lemma_all_items_unlinked(target@, batches@, retained@);
                assert(all[i].next_exec_ctr is None);
            }
            assert(item_matches(out@[i], menu[i]));
        }
        i2 += 1;
    }
    out
}

} // verus!
