//! Data-set content handling: CSV parsing behind a trusted wrapper, row-id
//! augmentation, and MIME sniffing for raw request bodies.

use crate::ids::fresh_id;
use crate::model::DataSetContent;
use vstd::prelude::*;

verus! {

/// The view of a string vector, character sequences element for element.
pub open spec fn strings_view(v: Seq<String>) -> Seq<Seq<char>> {
    v.map_values(|s: String| s@)
}

/// The view of a parsed CSV table.
pub open spec fn rows_view(v: Seq<Vec<String>>) -> Seq<Seq<Seq<char>>> {
    v.map_values(|row: Vec<String>| strings_view(row@))
}

/// What the CSV reader yields for a byte stream: the header record and the
/// data records, or nothing when the input is malformed.
pub uninterp spec fn csv_parse_of(b: Seq<u8>) -> Option<(Seq<Seq<char>>, Seq<Seq<Seq<char>>>)>;

/// Relies on `csv::Reader` (headers and records over an in-memory byte
/// slice): parses a CSV document into its header row and data rows.  The
/// result depends on the bytes alone.
#[verifier::external_body]
pub(crate) fn parse_csv(data: &Vec<u8>) -> (r: Option<(Vec<String>, Vec<Vec<String>>)>)
    ensures
        match (r, csv_parse_of(data@)) {
            (Some((h, rows)), Some((sh, srows))) => strings_view(h@) == sh && rows_view(rows@)
                == srows,
            (None, None) => true,
            _ => false,
        },
{
    let mut rdr = csv::ReaderBuilder::new().from_reader(data.as_slice());
    let headers: Vec<String> = match rdr.headers() {
        Ok(h) => h.iter().map(|s| s.to_string()).collect(),
        Err(_) => return None,
    };
    let mut rows: Vec<Vec<String>> = Vec::new();
    for record in rdr.records() {
        match record {
            Ok(rec) => rows.push(rec.iter().map(|s| s.to_string()).collect()),
            Err(_) => return None,
        }
    }
    Some((headers, rows))
}

/// The MIME type the byte-sniffer reports for a payload, if any.  The
/// result depends on the bytes alone.
pub uninterp spec fn sniffed_media_type(b: Seq<u8>) -> Option<Seq<char>>;

/// Relies on `file_type::FileType::from_bytes` and `media_types`: the first
/// registered media type matching the payload's signature.
#[verifier::external_body]
pub fn sniff_media_type(data: &Vec<u8>) -> (r: Option<String>)
    ensures
        match (r, sniffed_media_type(data@)) {
            (Some(m), Some(sm)) => m@ == sm,
            (None, None) => true,
            _ => false,
        },
{
    file_type::FileType::from_bytes(data.as_slice()).media_types().first().map(
        |s| (*s).to_string(),
    )
}

/// What the URL-encoder yields for a pair list.  The result depends on the
/// pairs alone.
pub uninterp spec fn urlencoded_of(pairs: Seq<(Seq<char>, Seq<char>)>) -> Option<Seq<char>>;

/// The view of a name/value pair list.
pub open spec fn pairs_view(v: Seq<crate::model::NameValuePair>) -> Seq<(Seq<char>, Seq<char>)> {
    v.map_values(|p: crate::model::NameValuePair| (p.name@, p.value@))
}

/// Relies on `serde_urlencoded::to_string` over string pairs: the
/// `application/x-www-form-urlencoded` rendering of the pairs.
#[verifier::external_body]
pub fn urlencode_pairs(pairs: &Vec<crate::model::NameValuePair>) -> (r: Option<String>)
    ensures
        match (r, urlencoded_of(pairs_view(pairs@))) {
            (Some(m), Some(sm)) => m@ == sm,
            (None, None) => true,
            _ => false,
        },
{
    let plain: Vec<(&str, &str)> = pairs.iter().map(
        |p| (p.name.as_str(), p.value.as_str()),
    ).collect();
    serde_urlencoded::to_string(&plain).ok()
}

/// Whether the header list carries the reserved row-id column.
pub open spec fn spec_has_id_column(headers: Seq<String>) -> bool {
    exists|i: int| 0 <= i < headers.len() && (#[trigger] headers[i]@) == "_id"@
}

/// Whether a header-view list carries the reserved row-id column.
pub open spec fn has_id_column(headers: Seq<Seq<char>>) -> bool {
    exists|i: int| 0 <= i < headers.len() && (#[trigger] headers[i]) == "_id"@
}

/// The cached content realizes a parsed CSV table: the columns extend the
/// headers with the reserved row-id column when absent, and each row pairs
/// the columns with the record's values.
pub open spec fn csv_content_matches(
    c: DataSetContent,
    headers: Seq<Seq<char>>,
    records: Seq<Seq<Seq<char>>>,
) -> bool {
    &&& (c.csv_columns matches Some(cols) && {
        &&& cols@.len() == headers.len() + (if has_id_column(headers) {
            0int
        } else {
            1int
        })
        &&& (forall|i: int| 0 <= i < headers.len() ==> (#[trigger] cols@[i]@) == headers[i])
        &&& (!has_id_column(headers) ==> cols@.last()@ == "_id"@)
    })
    &&& (c.csv_rows matches Some(rows) && {
        &&& rows@.len() == records.len()
        &&& (forall|i: int, j: int|
            0 <= i < records.len() && 0 <= j < records[i].len() && j < c.csv_columns.unwrap()@
                .len() ==> (#[trigger] rows@[i]@[j]).0@ == c.csv_columns.unwrap()@[j]@
                && rows@[i]@[j].1@ == records[i][j])
    })
    &&& c.source_text is None
    &&& !c.dirty
}

/// Builds the cached content for a parsed CSV table: the columns, extended
/// with the reserved `_id` column when absent, and each row padded with a
/// freshly generated row identifier.
pub fn build_csv_content(headers: Vec<String>, records: Vec<Vec<String>>) -> (r: DataSetContent)
    ensures
        csv_content_matches(r, strings_view(headers@), rows_view(records@)),
{
    let mut columns = headers;
    let ghost h0 = columns@;
    let mut has_id = false;
    let id_marker = "_id".to_owned();
    let n = columns.len();
    let mut i: usize = 0;
    while i < n
        invariant
            n == columns@.len(),
            i <= n,
            columns@ == h0,
            id_marker@ == "_id"@,
            has_id ==> spec_has_id_column(h0),
            !has_id ==> forall|j: int| 0 <= j < i ==> (#[trigger] h0[j]@) != "_id"@,
        decreases n - i,
    {
        proof {
            reveal_strlit("_id");
        }
        if columns[i].eq(&id_marker) {
            proof {
                assert(h0[i as int]@ == "_id"@);
            }
            has_id = true;
        }
        i += 1;
    }
    if !has_id {
        columns.push("_id".to_owned());
    }
    proof {
        if !has_id {
            assert(columns@.last()@ == "_id"@);
            assert forall|j: int| 0 <= j < h0.len() implies columns@[j] == h0[j] by {}
        }
    }
    let ncols = columns.len();
    let mut rows: Vec<Vec<(String, String)>> = Vec::new();
    let nr = records.len();
    let mut k: usize = 0;
    while k < nr
        invariant
            nr == records@.len(),
            k <= nr,
            ncols == columns@.len(),
            rows@.len() == k,
            forall|i2: int, j: int|
                0 <= i2 < k && 0 <= j < records@[i2]@.len() && j < ncols ==> (
                #[trigger] rows@[i2]@[j]) == (columns@[j], records@[i2]@[j]),
        decreases nr - k,
    {
        let record = &records[k];
        let mut row: Vec<(String, String)> = Vec::new();
        let rl = record.len();
        let mut j: usize = 0;
        let lim: usize = if rl < ncols {
            rl
        } else {
            ncols
        };
        while j < lim
            invariant
                rl == record@.len(),
                ncols == columns@.len(),
                lim <= rl,
                lim <= ncols,
                j <= lim,
                row@.len() == j,
                forall|j2: int|
                    0 <= j2 < j ==> (#[trigger] row@[j2]) == (columns@[j2], record@[j2]),
            decreases lim - j,
        {
            row.push((columns[j].clone(), record[j].clone()));
            j += 1;
        }
        if rl < ncols {
            row.push(("_id".to_owned(), fresh_id()));
        }
        proof {
            assert forall|j2: int|
                0 <= j2 < record@.len() && j2 < ncols implies (#[trigger] row@[j2]) == (
            columns@[j2], record@[j2]) by {}
        }
        rows.push(row);
        k += 1;
    }
    let r = DataSetContent {
        csv_columns: Some(columns),
        csv_rows: Some(rows),
        source_text: None,
        dirty: false,
    };
    proof {
        let hv = strings_view(h0);
        assert(has_id_column(hv) <==> spec_has_id_column(h0)) by {
            if has_id_column(hv) {
                let i = choose|i: int| 0 <= i < hv.len() && (#[trigger] hv[i]) == "_id"@;
                assert(h0[i]@ == "_id"@);
            }
            if spec_has_id_column(h0) {
                let i = choose|i: int| 0 <= i < h0.len() && (#[trigger] h0[i]@) == "_id"@;
                assert(hv[i] == "_id"@);
            }
        }
        let rv = rows_view(records@);
        assert forall|i: int, j: int|
            0 <= i < rv.len() && 0 <= j < rv[i].len() && j < r.csv_columns.unwrap()@.len() implies (
        #[trigger] rows@[i]@[j]).0@ == r.csv_columns.unwrap()@[j]@ && rows@[i]@[j].1@
            == rv[i][j] by {
            assert(rv[i] == strings_view(records@[i]@));
            assert(rv[i][j] == records@[i]@[j]@);
        }
    }
    r
}

} // verus!
