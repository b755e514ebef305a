use vstd::prelude::*;

use crate::json::{
    is_number_text, is_number_str, parse_json_records, record_view, records_view, sp_records,
    JsonScalar, SpecRecord,
};
use crate::strutil::{chars_of, string_of, str_eq, subvec};
use crate::table::{table_wf, ColType, Column, Table};

verus! {

/// Why a response body could not be turned into a table.  A fresh parse
/// failure is the one hard error of the pipeline: it signals that the
/// provider's response contract changed.
#[derive(Clone, Copy, Debug, PartialEq, Eq, Structural)]
pub enum ParseError {
    /// The body holds no opening array delimiter at all.
    MissingArrayMarker,
    /// The body ends before the framing that must follow the array.
    TruncatedBody,
    /// The (unwrapped) body is not an array of flat records.
    InvalidBody,
    /// A record's members do not match the first record's.
    InconsistentRecord,
    /// Two columns of the first record share a name.
    DuplicateColumn,
    /// A cell of a float-typed column is not number-shaped.
    TypeMismatch,
}

// ---------------------------------------------------------------------------
// Body sanitization for the array-shaped providers
// ---------------------------------------------------------------------------

/// Index of the first occurrence of `c` at or after `i` (the length if none).
pub open spec fn sp_find(s: Seq<char>, c: char, i: int) -> int
    decreases s.len() - i,
    when 0 <= i <= s.len()
{
    if i < s.len() {
        if s[i] == c {
            i
        } else {
            sp_find(s, c, i + 1)
        }
    } else {
        s.len() as int
    }
}

fn find_char(s: &Vec<char>, c: char, i: usize) -> (r: usize)
    requires
        i <= s.len(),
    ensures
        r as int == sp_find(s@, c, i as int),
        i <= r <= s.len(),
    decreases s.len() - i,
{
    if i < s.len() {
        if s[i] == c {
            i
        } else {
            find_char(s, c, i + 1)
        }
    } else {
        s.len()
    }
}

proof fn lemma_sp_find_aux(s: Seq<char>, c: char, i: int)
    requires
        0 <= i <= s.len(),
    ensures
        i <= sp_find(s, c, i) <= s.len(),
        sp_find(s, c, i) < s.len() ==> s[sp_find(s, c, i)] == c,
        forall|k: int| i <= k < sp_find(s, c, i) ==> s[k] != c,
    decreases s.len() - i,
{
    if i < s.len() && s[i] != c {
        lemma_sp_find_aux(s, c, i + 1);
    }
}

/// The missing-marker condition in familiar terms: the search for the
/// array delimiter comes up empty exactly when the body holds no `[` at
/// all, and otherwise lands on the first one.
pub proof fn lemma_marker_search(s: Seq<char>)
    ensures
        sp_find(s, '[', 0) == s.len() <==> !s.contains('['),
        sp_find(s, '[', 0) < s.len() ==> s[sp_find(s, '[', 0)] == '[' && (forall|k: int|
            0 <= k < sp_find(s, '[', 0) ==> s[k] != '['),
{
    lemma_sp_find_aux(s, '[', 0);
    if sp_find(s, '[', 0) == s.len() {
        if s.contains('[') {
            let w = choose|w: int| 0 <= w < s.len() && s[w] == '[';
            assert(false);
        }
    } else {
        assert(s.contains('[')) by {
            assert(s[sp_find(s, '[', 0)] == '[');
        }
    }
}

/// The documented "no data" sentinel `"-"` replaced by the placeholder `-1`,
/// everywhere, left to right: `acc` is the output built so far.
pub open spec fn sp_desentinel(s: Seq<char>, i: int, acc: Seq<char>) -> Seq<char>
    decreases s.len() - i,
    when 0 <= i <= s.len()
{
    if i + 3 <= s.len() && s[i] == '"' && s[i + 1] == '-' && s[i + 2] == '"' {
        sp_desentinel(s, i + 3, acc + seq!['-', '1'])
    } else if i < s.len() {
        sp_desentinel(s, i + 1, acc.push(s[i]))
    } else {
        acc
    }
}

fn desentinel(s: &Vec<char>) -> (r: Vec<char>)
    ensures
        r@ == sp_desentinel(s@, 0, Seq::empty()),
{
    let mut acc: Vec<char> = Vec::new();
    let mut i: usize = 0;
    while i < s.len()
        invariant
            i <= s.len(),
            sp_desentinel(s@, 0, Seq::empty()) == sp_desentinel(s@, i as int, acc@),
        decreases s.len() - i,
    {
        if s.len() - i >= 3 && s[i] == '"' && s[i + 1] == '-' && s[i + 2] == '"' {
            let ghost acc0 = acc@;
            acc.push('-');
            acc.push('1');
            proof {
                assert(acc@ =~= acc0 + seq!['-', '1']);
            }
            i += 3;
        } else {
            acc.push(s[i]);
            i += 1;
        }
    }
    acc
}

/// The sentinel `"-"` occurs at position `p`.
pub open spec fn sentinel_at(t: Seq<char>, p: int) -> bool {
    0 <= p && p + 3 <= t.len() && t[p] == '"' && t[p + 1] == '-' && t[p + 2] == '"'
}

proof fn lemma_desentinel_aux(s: Seq<char>, i: int, acc: Seq<char>)
    requires
        0 <= i <= s.len(),
        forall|p: int| !sentinel_at(acc, p),
        acc.len() > 0 && acc[acc.len() - 1] == '"' ==> i >= 1 && s[i - 1] == '"' && !sentinel_at(
            s,
            i - 1,
        ),
        acc.len() >= 2 && acc[acc.len() - 2] == '"' && acc[acc.len() - 1] == '-' ==> i >= 2 && s[
            i - 2] == '"' && s[i - 1] == '-' && !sentinel_at(s, i - 2),
    ensures
        forall|p: int| !(#[trigger] sentinel_at(sp_desentinel(s, i, acc), p)),
    decreases s.len() - i,
{
    if i + 3 <= s.len() && s[i] == '"' && s[i + 1] == '-' && s[i + 2] == '"' {
        let acc2 = acc + seq!['-', '1'];
        assert forall|p: int| !sentinel_at(acc2, p) by {
            if sentinel_at(acc2, p) {
                assert(acc2[p + 2] == '"');
                assert(p + 3 <= acc.len());
                assert(sentinel_at(acc, p));
            }
        }
        lemma_desentinel_aux(s, i + 3, acc2);
        assert(sp_desentinel(s, i, acc) == sp_desentinel(s, i + 3, acc2));
    } else if i < s.len() {
        let acc2 = acc.push(s[i]);
        assert forall|p: int| !sentinel_at(acc2, p) by {
            if sentinel_at(acc2, p) {
                if p + 3 <= acc.len() {
                    assert(sentinel_at(acc, p));
                } else {
                    // the occurrence would end at the character just pushed,
                    // so the last three inputs spell the sentinel and the
                    // replacement would have fired two steps earlier
                    assert(p + 3 == acc2.len());
                    assert(acc.len() >= 2 && acc[acc.len() - 2] == '"' && acc[acc.len() - 1]
                        == '-' && s[i] == '"');
                    assert(s[i - 2] == '"' && s[i - 1] == '-' && !sentinel_at(s, i - 2));
                    assert(sentinel_at(s, i - 2));
                }
            }
        }
        lemma_desentinel_aux(s, i + 1, acc2);
        assert(sp_desentinel(s, i, acc) == sp_desentinel(s, i + 1, acc2));
    } else {
        assert(sp_desentinel(s, i, acc) == acc);
    }
}

/// Sentinel substitution is complete: whatever the raw body held, the text
/// that the record grammar reads after substitution holds no occurrence of
/// the "no data" sentinel at all -- each one became the `-1` placeholder.
pub proof fn lemma_desentinel_removes_sentinel(s: Seq<char>)
    ensures
        forall|p: int| !(#[trigger] sentinel_at(sp_desentinel(s, 0, Seq::empty()), p)),
{
    lemma_desentinel_aux(s, 0, Seq::empty());
}

// ---------------------------------------------------------------------------
// Records to table
// ---------------------------------------------------------------------------

/// First member of `r` named `name`, at or after `i`.
pub open spec fn sp_lookup(r: SpecRecord, name: Seq<char>, i: int) -> Option<(Seq<char>, bool)>
    decreases r.len() - i,
    when 0 <= i <= r.len()
{
    if i < r.len() {
        if r[i].0 == name {
            Some(r[i].1)
        } else {
            sp_lookup(r, name, i + 1)
        }
    } else {
        None
    }
}

/// The value of the member named `name` (empty text if absent).
pub open spec fn cell_of(r: SpecRecord, name: Seq<char>) -> (Seq<char>, bool) {
    match sp_lookup(r, name, 0) {
        Some(v) => v,
        None => (Seq::empty(), false),
    }
}

pub open spec fn forced_view(fs: Seq<(String, ColType)>) -> Seq<(Seq<char>, ColType)> {
    fs.map_values(|p: (String, ColType)| (p.0@, p.1))
}

/// First forced type for `name`, at or after `i`.
pub open spec fn sp_forced(fs: Seq<(Seq<char>, ColType)>, name: Seq<char>, i: int) -> Option<
    ColType,
>
    decreases fs.len() - i,
    when 0 <= i <= fs.len()
{
    if i < fs.len() {
        if fs[i].0 == name {
            Some(fs[i].1)
        } else {
            sp_forced(fs, name, i + 1)
        }
    } else {
        None
    }
}

/// The type of column `j`: its forced type if one is declared, otherwise
/// text for string-valued members and float for number-valued ones, judged
/// from the first record.
pub open spec fn col_type_of(hdr: SpecRecord, forced: Seq<(Seq<char>, ColType)>, j: int) -> ColType {
    match sp_forced(forced, hdr[j].0, 0) {
        Some(t) => t,
        None => if hdr[j].1.1 {
            ColType::Text
        } else {
            ColType::Float64
        },
    }
}

/// Two members of the first record share a name.
pub open spec fn dup_names(hdr: SpecRecord) -> bool {
    exists|i: int, j: int| 0 <= i < j < hdr.len() && (#[trigger] hdr[i].0) == (#[trigger] hdr[j].0)
}

/// A record matches the first record: same member count, every first-record
/// name present.
pub open spec fn record_ok(r: SpecRecord, hdr: SpecRecord) -> bool {
    r.len() == hdr.len() && forall|j: int|
        0 <= j < hdr.len() ==> (#[trigger] sp_lookup(r, hdr[j].0, 0)) is Some
}

pub open spec fn records_ok(rs: Seq<SpecRecord>, hdr: SpecRecord) -> bool {
    forall|rn: int| 0 <= rn < rs.len() ==> record_ok(#[trigger] rs[rn], hdr)
}

/// Every cell that lands in a float column is number-shaped.
pub open spec fn floats_ok(rs: Seq<SpecRecord>, forced: Seq<(Seq<char>, ColType)>) -> bool {
    forall|rn: int, j: int|
        0 <= rn < rs.len() && 0 <= j < rs[0].len() && col_type_of(rs[0], forced, j)
            == ColType::Float64 ==> is_number_text((#[trigger] cell_of(rs[rn], rs[0][j].0)).0)
}

/// The table built from well-behaved records: one column per member of the
/// first record, in order; one row per record, cells found by member name.
pub open spec fn built_table(rs: Seq<SpecRecord>, forced: Seq<(Seq<char>, ColType)>) -> Seq<
    (Seq<char>, ColType, Seq<Seq<char>>),
> {
    let hdr = rs[0];
    Seq::new(
        hdr.len(),
        |j: int|
            (
                hdr[j].0,
                col_type_of(hdr, forced, j),
                Seq::new(rs.len(), |rn: int| cell_of(rs[rn], hdr[j].0).0),
            ),
    )
}

/// What turning records into a table returns, for every input.
pub open spec fn spec_table_from_records(
    rs: Seq<SpecRecord>,
    forced: Seq<(Seq<char>, ColType)>,
) -> Result<Seq<(Seq<char>, ColType, Seq<Seq<char>>)>, ParseError> {
    if rs.len() == 0 {
        Ok(Seq::empty())
    } else if dup_names(rs[0]) {
        Err(ParseError::DuplicateColumn)
    } else if !records_ok(rs, rs[0]) {
        Err(ParseError::InconsistentRecord)
    } else if !floats_ok(rs, forced) {
        Err(ParseError::TypeMismatch)
    } else {
        Ok(built_table(rs, forced))
    }
}

fn lookup_member<'a>(r: &'a Vec<(String, JsonScalar)>, name: &String) -> (res: Option<
    &'a JsonScalar,
>)
    ensures
        match res {
            Some(v) => sp_lookup(record_view(r@), name@, 0) == Some(v@),
            None => sp_lookup(record_view(r@), name@, 0) is None,
        },
{
    let ghost rv = record_view(r@);
    let mut k: usize = 0;
    while k < r.len()
        invariant
            k <= r.len(),
            rv == record_view(r@),
            rv.len() == r.len(),
            sp_lookup(rv, name@, 0) == sp_lookup(rv, name@, k as int),
        decreases r.len() - k,
    {
        if str_eq(r[k].0.as_str(), name.as_str()) {
            return Some(&r[k].1);
        }
        k += 1;
    }
    None
}

pub(crate) fn schema_lookup(forced: &Vec<(String, ColType)>, name: &String) -> (r: Option<ColType>)
    ensures
        r == sp_forced(forced_view(forced@), name@, 0),
{
    let ghost fv = forced_view(forced@);
    let mut k: usize = 0;
    while k < forced.len()
        invariant
            k <= forced.len(),
            fv == forced_view(forced@),
            fv.len() == forced.len(),
            sp_forced(fv, name@, 0) == sp_forced(fv, name@, k as int),
        decreases forced.len() - k,
    {
        if str_eq(forced[k].0.as_str(), name.as_str()) {
            return Some(forced[k].1);
        }
        k += 1;
    }
    None
}

/// Builds the table that `spec_table_from_records` describes, or its error.
#[verifier::loop_isolation(false)]
pub fn table_from_records(
    records: &Vec<Vec<(String, JsonScalar)>>,
    forced: &Vec<(String, ColType)>,
) -> (r: Result<Table, ParseError>)
    ensures
        match r {
            Ok(t) => spec_table_from_records(records_view(records@), forced_view(forced@)) == Ok::<_, ParseError>(
                t@,
            ) && t.wf() && row_count_of_ok(t@, records@.len()),
            Err(e) => spec_table_from_records(records_view(records@), forced_view(forced@))
                == Err::<Seq<(Seq<char>, ColType, Seq<Seq<char>>)>, ParseError>(e),
        },
{
    let ghost rsv = records_view(records@);
    let ghost fv = forced_view(forced@);
    if records.len() == 0 {
        let t = Table::empty();
        proof {
            assert(t@ =~= Seq::<(Seq<char>, ColType, Seq<Seq<char>>)>::empty());
        }
        return Ok(t);
    }
    let hdr = &records[0];
    let ghost hv = rsv[0];
    proof {
        assert(hv == record_view(hdr@));
    }
    let n = hdr.len();

    // duplicate column names
    let mut i: usize = 0;
    while i < n
        invariant
            n == hdr.len(),
            hv == record_view(hdr@),
            hv.len() == n,
            i <= n,
            forall|a: int, b: int| 0 <= a < b < n && a < i ==> (#[trigger] hv[a].0) != (#[trigger] hv[b].0),
        decreases n - i,
    {
        let mut j: usize = i + 1;
        while j < n
            invariant
                n == hdr.len(),
                hv == record_view(hdr@),
                hv.len() == n,
                i < n,
                i < j <= n,
                forall|b: int| i < b < j ==> (#[trigger] hv[b].0) != hv[i as int].0,
            decreases n - j,
        {
            if str_eq(hdr[i].0.as_str(), hdr[j].0.as_str()) {
                proof {
                    assert(hv[i as int].0 == hv[j as int].0);
                    assert(dup_names(hv));
                }
                return Err(ParseError::DuplicateColumn);
            }
            j += 1;
        }
        i += 1;
    }
    proof {
        assert(!dup_names(hv));
    }

    // every record matches the first one
    let mut rn: usize = 0;
    while rn < records.len()
        invariant
            n == hdr.len(),
            hv == record_view(hdr@),
            hv.len() == n,
            rsv == records_view(records@),
            rsv.len() == records.len(),
            hdr@ == records@[0]@,
            0 < records.len(),
            rn <= records.len(),
            forall|k: int| 0 <= k < rn ==> record_ok(#[trigger] rsv[k], hv),
        decreases records.len() - rn,
    {
        let r = &records[rn];
        proof {
            assert(rsv[rn as int] == record_view(r@));
        }
        if r.len() != n {
            proof {
                assert(!record_ok(rsv[rn as int], hv));
                assert(!records_ok(rsv, hv));
            }
            return Err(ParseError::InconsistentRecord);
        }
        let mut j: usize = 0;
        while j < n
            invariant
                n == hdr.len(),
                hv == record_view(hdr@),
                hv.len() == n,
                rsv == records_view(records@),
                rsv.len() == records.len(),
                rn < records.len(),
                rsv[rn as int] == record_view(r@),
                r.len() == n,
                j <= n,
                forall|k: int|
                    0 <= k < j ==> (#[trigger] sp_lookup(rsv[rn as int], hv[k].0, 0)) is Some,
            decreases n - j,
        {
            let name = &hdr[j].0;
            match lookup_member(r, name) {
                Some(_) => {},
                None => {
                    proof {
                        assert(sp_lookup(rsv[rn as int], hv[j as int].0, 0) is None);
                        assert(!record_ok(rsv[rn as int], hv));
                        assert(!records_ok(rsv, hv));
                    }
                    return Err(ParseError::InconsistentRecord);
                },
            }
            j += 1;
        }
        proof {
            assert(record_ok(rsv[rn as int], hv));
        }
        rn += 1;
    }
    proof {
        assert(records_ok(rsv, hv));
    }

    // build the columns, validating float cells
    let mut cols: Vec<Column> = Vec::new();
    let mut j: usize = 0;
    while j < n
        invariant
            n == hdr.len(),
            hv == record_view(hdr@),
            hv.len() == n,
            rsv == records_view(records@),
            rsv.len() == records.len(),
            hdr@ == records@[0]@,
            0 < records.len(),
            !dup_names(hv),
            records_ok(rsv, hv),
            j <= n,
            cols@.len() == j,
            forall|a: int, b: int|
                0 <= a < rsv.len() && 0 <= b < j && col_type_of(hv, fv, b) == ColType::Float64
                    ==> is_number_text((#[trigger] cell_of(rsv[a], hv[b].0)).0),
            forall|b: int|
                0 <= b < j ==> (#[trigger] cols@[b]@) == built_table(rsv, fv)[b],
        decreases n - j,
    {
        let name = &hdr[j].0;
        let ty = match schema_lookup(forced, name) {
            Some(t) => t,
            None => if hdr[j].1.is_string {
                ColType::Text
            } else {
                ColType::Float64
            },
        };
        proof {
            assert(ty == col_type_of(hv, fv, j as int));
        }
        let mut cells: Vec<String> = Vec::new();
        let mut a: usize = 0;
        while a < records.len()
            invariant
                n == hdr.len(),
                hv == record_view(hdr@),
                hv.len() == n,
                j < n,
                rsv == records_view(records@),
                rsv.len() == records.len(),
                records_ok(rsv, hv),
                name@ == hv[j as int].0,
                ty == col_type_of(hv, fv, j as int),
                a <= records.len(),
                cells@.len() == a,
                forall|k: int|
                    0 <= k < a ==> (#[trigger] cells@[k])@ == cell_of(rsv[k], hv[j as int].0).0,
                forall|k: int|
                    0 <= k < a && ty == ColType::Float64 ==> is_number_text(
                        (#[trigger] cell_of(rsv[k], hv[j as int].0)).0,
                    ),
            decreases records.len() - a,
        {
            let r = &records[a];
            proof {
                assert(rsv[a as int] == record_view(r@));
                assert(record_ok(rsv[a as int], hv));
                assert(sp_lookup(rsv[a as int], hv[j as int].0, 0) is Some);
            }
            match lookup_member(r, name) {
                Some(v) => {
                    proof {
                        assert(cell_of(rsv[a as int], hv[j as int].0) == v@);
                    }
                    if matches!(ty, ColType::Float64) {
                        if !is_number_str(v.text.as_str()) {
                            proof {
                                assert(rsv[0] == hv);
                                assert(col_type_of(rsv[0], fv, j as int) == ColType::Float64);
                                assert(!is_number_text(
                                    cell_of(rsv[a as int], rsv[0][j as int].0).0,
                                ));
                                assert(!floats_ok(rsv, fv));
                            }
                            return Err(ParseError::TypeMismatch);
                        }
                    }
                    cells.push(v.text.clone());
                },
                None => {
                    proof {
                        assert(false);
                    }
                    return Err(ParseError::InvalidBody);
                },
            }
            a += 1;
        }
        let col = Column { name: name.clone(), ty, cells };
        proof {
            assert(col@.2 =~= Seq::new(rsv.len(), |k: int| cell_of(rsv[k], hv[j as int].0).0));
            assert(col@ =~~= built_table(rsv, fv)[j as int]);
        }
        cols.push(col);
        j += 1;
    }
    proof {
        assert(floats_ok(rsv, fv));
    }
    let t = Table { cols };
    proof {
        assert(t@ =~~= built_table(rsv, fv));
        assert forall|p: int| 0 <= p < t@.len() implies (#[trigger] t@[p].2).len()
            == crate::table::row_count_of(t@) by {
            assert(t@[p].2.len() == rsv.len());
        }
        assert(table_wf(t@));
    }
    Ok(t)
}

/// The row count a freshly built table must have.
pub open spec fn row_count_of_ok(
    tv: Seq<(Seq<char>, ColType, Seq<Seq<char>>)>,
    n_records: nat,
) -> bool {
    tv.len() > 0 ==> crate::table::row_count_of(tv) == n_records
}

// ---------------------------------------------------------------------------
// Whole bodies to tables
// ---------------------------------------------------------------------------

/// What parsing an array-shaped body returns: everything before the first
/// `[` and the last two characters are framing and are stripped, the "no
/// data" sentinel becomes `-1`, and the remainder must be an array of flat
/// records.
pub open spec fn spec_array_body_table(
    body: Seq<char>,
    forced: Seq<(Seq<char>, ColType)>,
) -> Result<Seq<(Seq<char>, ColType, Seq<Seq<char>>)>, ParseError> {
    let start = sp_find(body, '[', 0);
    if start == body.len() {
        Err(ParseError::MissingArrayMarker)
    } else if body.len() - 2 < start {
        Err(ParseError::TruncatedBody)
    } else {
        let clean = sp_desentinel(body.subrange(start, body.len() - 2), 0, Seq::empty());
        match sp_records(clean) {
            Some(rs) => spec_table_from_records(rs, forced),
            None => Err(ParseError::InvalidBody),
        }
    }
}

/// Parses an array-shaped body, as `spec_array_body_table` describes.
pub fn array_body_to_table(body: &str, forced: &Vec<(String, ColType)>) -> (r: Result<
    Table,
    ParseError,
>)
    ensures
        match r {
            Ok(t) => spec_array_body_table(body@, forced_view(forced@)) == Ok::<_, ParseError>(t@) && t.wf(),
            Err(e) => spec_array_body_table(body@, forced_view(forced@)) == Err::<
                Seq<(Seq<char>, ColType, Seq<Seq<char>>)>,
                ParseError,
            >(e),
        },
{
    let s = chars_of(body);
    let start = find_char(&s, '[', 0);
    if start == s.len() {
        return Err(ParseError::MissingArrayMarker);
    }
    if s.len() - start < 2 {
        return Err(ParseError::TruncatedBody);
    }
    let trimmed = subvec(&s, start, s.len() - 2);
    let clean = desentinel(&trimmed);
    let clean_str = string_of(&clean);
    match parse_json_records(clean_str.as_str()) {
        Some(records) => table_from_records(&records, forced),
        None => Err(ParseError::InvalidBody),
    }
}

/// What parsing a plain object-array body returns: the whole body must be
/// an array of flat records; no framing, no sentinel substitution.
pub open spec fn spec_json_body_table(body: Seq<char>) -> Result<
    Seq<(Seq<char>, ColType, Seq<Seq<char>>)>,
    ParseError,
> {
    match sp_records(body) {
        Some(rs) => spec_table_from_records(rs, Seq::empty()),
        None => Err(ParseError::InvalidBody),
    }
}

/// Parses a plain object-array body, as `spec_json_body_table` describes.
pub fn json_body_to_table(body: &str) -> (r: Result<Table, ParseError>)
    ensures
        match r {
            Ok(t) => spec_json_body_table(body@) == Ok::<_, ParseError>(t@) && t.wf(),
            Err(e) => spec_json_body_table(body@) == Err::<
                Seq<(Seq<char>, ColType, Seq<Seq<char>>)>,
                ParseError,
            >(e),
        },
{
    match parse_json_records(body) {
        Some(records) => {
            let forced: Vec<(String, ColType)> = Vec::new();
            proof {
                assert(forced_view(forced@) =~= Seq::<(Seq<char>, ColType)>::empty());
            }
            table_from_records(&records, &forced)
        },
        None => Err(ParseError::InvalidBody),
    }
}

} // verus!
