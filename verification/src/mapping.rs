use vstd::prelude::*;

use crate::strutil::str_eq;
use crate::table::{cols_view, names_of, row_count_of, table_wf, ColType, Column, Table};

verus! {

/// Why a field mapping could not be applied.
#[derive(Clone, Copy, Debug, PartialEq, Eq, Structural)]
pub enum MappingError {
    /// A pair names a source column the table does not have.
    MissingSourceColumn,
}

/// The column that carries a row's identity; a source column of this name
/// survives the mapping unrenamed.
pub open spec fn identity_col() -> Seq<char> {
    "symbol"@
}

pub open spec fn pairs_view(ps: Seq<(String, String)>) -> Seq<(Seq<char>, Seq<char>)> {
    ps.map_values(|p: (String, String)| (p.0@, p.1@))
}

pub open spec fn sources_of(pairs: Seq<(Seq<char>, Seq<char>)>) -> Seq<Seq<char>> {
    pairs.map_values(|p: (Seq<char>, Seq<char>)| p.0)
}

pub open spec fn targets_of(pairs: Seq<(Seq<char>, Seq<char>)>) -> Seq<Seq<char>> {
    pairs.map_values(|p: (Seq<char>, Seq<char>)| p.1)
}

/// First column index named `name`, at or after `i` (the length if none).
pub open spec fn sp_idx(
    tv: Seq<(Seq<char>, ColType, Seq<Seq<char>>)>,
    name: Seq<char>,
    i: int,
) -> int
    decreases tv.len() - i,
    when 0 <= i <= tv.len()
{
    if i < tv.len() {
        if tv[i].0 == name {
            i
        } else {
            sp_idx(tv, name, i + 1)
        }
    } else {
        tv.len() as int
    }
}

pub proof fn lemma_sp_idx(tv: Seq<(Seq<char>, ColType, Seq<Seq<char>>)>, name: Seq<char>, i: int)
    requires
        0 <= i <= tv.len(),
    ensures
        i <= sp_idx(tv, name, i) <= tv.len(),
        sp_idx(tv, name, i) < tv.len() ==> tv[sp_idx(tv, name, i)].0 == name,
        forall|k: int| i <= k < sp_idx(tv, name, i) ==> (#[trigger] tv[k].0) != name,
        sp_idx(tv, name, i) == tv.len() ==> forall|k: int|
            i <= k < tv.len() ==> (#[trigger] tv[k].0) != name,
    decreases tv.len() - i,
{
    if i < tv.len() && tv[i].0 != name {
        lemma_sp_idx(tv, name, i + 1);
    }
}

/// Every pair's source column exists in the table.
pub open spec fn all_sources_present(
    tv: Seq<(Seq<char>, ColType, Seq<Seq<char>>)>,
    pairs: Seq<(Seq<char>, Seq<char>)>,
) -> bool {
    forall|k: int| 0 <= k < pairs.len() ==> names_of(tv).contains((#[trigger] pairs[k]).0)
}

/// The original columns that survive: those named like the identity column,
/// and those that no pair renames.  `acc` carries the columns kept so far.
pub open spec fn sp_keep(
    tv: Seq<(Seq<char>, ColType, Seq<Seq<char>>)>,
    srcs: Seq<Seq<char>>,
    i: int,
    acc: Seq<(Seq<char>, ColType, Seq<Seq<char>>)>,
) -> Seq<(Seq<char>, ColType, Seq<Seq<char>>)>
    decreases tv.len() - i,
    when 0 <= i <= tv.len()
{
    if i < tv.len() {
        if tv[i].0 == identity_col() || !srcs.contains(tv[i].0) {
            sp_keep(tv, srcs, i + 1, acc.push(tv[i]))
        } else {
            sp_keep(tv, srcs, i + 1, acc)
        }
    } else {
        acc
    }
}

/// One renamed column per pair, appended in pair order; a pair whose target
/// name is already present replaces that column in place.  Every alias reads
/// the original table, so one source may feed several targets.
pub open spec fn sp_add(
    tv: Seq<(Seq<char>, ColType, Seq<Seq<char>>)>,
    pairs: Seq<(Seq<char>, Seq<char>)>,
    i: int,
    acc: Seq<(Seq<char>, ColType, Seq<Seq<char>>)>,
) -> Seq<(Seq<char>, ColType, Seq<Seq<char>>)>
    decreases pairs.len() - i,
    when 0 <= i <= pairs.len()
{
    if i < pairs.len() {
        let si = sp_idx(tv, pairs[i].0, 0);
        let col = if si < tv.len() {
            (pairs[i].1, tv[si].1, tv[si].2)
        } else {
            (pairs[i].1, ColType::Text, Seq::<Seq<char>>::empty())
        };
        let ti = sp_idx(acc, pairs[i].1, 0);
        let acc2 = if ti < acc.len() {
            acc.update(ti, col)
        } else {
            acc.push(col)
        };
        sp_add(tv, pairs, i + 1, acc2)
    } else {
        acc
    }
}

/// What applying a field mapping returns, for every input.
pub open spec fn spec_apply_mapping(
    tv: Seq<(Seq<char>, ColType, Seq<Seq<char>>)>,
    pairs: Seq<(Seq<char>, Seq<char>)>,
) -> Result<Seq<(Seq<char>, ColType, Seq<Seq<char>>)>, MappingError> {
    if !all_sources_present(tv, pairs) {
        Err(MappingError::MissingSourceColumn)
    } else {
        Ok(sp_add(tv, pairs, 0, sp_keep(tv, sources_of(pairs), 0, Seq::empty())))
    }
}

// ---------------------------------------------------------------------------
// Well-formedness is preserved
// ---------------------------------------------------------------------------

/// A column fit for a table with `rc` rows.
pub open spec fn col_ok(c: (Seq<char>, ColType, Seq<Seq<char>>), rc: nat) -> bool {
    c.2.len() == rc && (c.1 == ColType::Float64 ==> forall|r: int|
        0 <= r < c.2.len() ==> crate::json::is_number_text(#[trigger] c.2[r]))
}

pub open spec fn cols_ok(acc: Seq<(Seq<char>, ColType, Seq<Seq<char>>)>, rc: nat) -> bool {
    forall|i: int| 0 <= i < acc.len() ==> col_ok(#[trigger] acc[i], rc)
}

pub open spec fn names_distinct(acc: Seq<(Seq<char>, ColType, Seq<Seq<char>>)>) -> bool {
    forall|i: int, j: int| 0 <= i < j < acc.len() ==> (#[trigger] acc[i].0) != (#[trigger] acc[j].0)
}

proof fn lemma_keep_wf(
    tv: Seq<(Seq<char>, ColType, Seq<Seq<char>>)>,
    srcs: Seq<Seq<char>>,
    i: int,
    acc: Seq<(Seq<char>, ColType, Seq<Seq<char>>)>,
)
    requires
        table_wf(tv),
        0 <= i <= tv.len(),
        cols_ok(acc, row_count_of(tv)),
        names_distinct(acc),
        forall|a: int|
            0 <= a < acc.len() ==> exists|k: int|
                0 <= k < i && (#[trigger] acc[a].0) == tv[k].0,
    ensures
        cols_ok(sp_keep(tv, srcs, i, acc), row_count_of(tv)),
        names_distinct(sp_keep(tv, srcs, i, acc)),
        forall|a: int|
            0 <= a < sp_keep(tv, srcs, i, acc).len() ==> exists|k: int|
                0 <= k < tv.len() && (#[trigger] sp_keep(tv, srcs, i, acc)[a].0) == tv[k].0,
    decreases tv.len() - i,
{
    if i < tv.len() {
        if tv[i].0 == identity_col() || !srcs.contains(tv[i].0) {
            let acc2 = acc.push(tv[i]);
            assert forall|a: int| 0 <= a < acc2.len() implies exists|k: int|
                0 <= k < i + 1 && (#[trigger] acc2[a].0) == tv[k].0 by {
                if a < acc.len() {
                    let k = choose|k: int| 0 <= k < i && acc[a].0 == tv[k].0;
                    assert(0 <= k < i + 1 && acc2[a].0 == tv[k].0);
                } else {
                    assert(0 <= i < i + 1 && acc2[a].0 == tv[i].0);
                }
            }
            assert(names_distinct(acc2)) by {
                assert forall|a: int, b: int| 0 <= a < b < acc2.len() implies acc2[a].0
                    != acc2[b].0 by {
                    if b == acc.len() {
                        let k = choose|k: int| 0 <= k < i && acc[a].0 == tv[k].0;
                        assert(tv[k].0 != tv[i as int].0);
                    }
                }
            }
            assert(col_ok(tv[i], row_count_of(tv)));
            lemma_keep_wf(tv, srcs, i + 1, acc2);
        } else {
            lemma_keep_wf(tv, srcs, i + 1, acc);
        }
    }
}

proof fn lemma_add_wf(
    tv: Seq<(Seq<char>, ColType, Seq<Seq<char>>)>,
    pairs: Seq<(Seq<char>, Seq<char>)>,
    i: int,
    acc: Seq<(Seq<char>, ColType, Seq<Seq<char>>)>,
)
    requires
        table_wf(tv),
        all_sources_present(tv, pairs),
        0 <= i <= pairs.len(),
        cols_ok(acc, row_count_of(tv)),
        names_distinct(acc),
    ensures
        cols_ok(sp_add(tv, pairs, i, acc), row_count_of(tv)),
        names_distinct(sp_add(tv, pairs, i, acc)),
    decreases pairs.len() - i,
{
    if i < pairs.len() {
        lemma_sp_idx(tv, pairs[i].0, 0);
        let si = sp_idx(tv, pairs[i].0, 0);
        assert(names_of(tv).contains(pairs[i].0));
        assert(si < tv.len()) by {
            let w = choose|w: int| 0 <= w < names_of(tv).len() && names_of(tv)[w] == pairs[i].0;
            if si == tv.len() {
                assert(tv[w].0 == pairs[i].0);
            }
        }
        let col = (pairs[i].1, tv[si].1, tv[si].2);
        assert(col_ok(tv[si], row_count_of(tv)));
        lemma_sp_idx(acc, pairs[i].1, 0);
        let ti = sp_idx(acc, pairs[i].1, 0);
        if ti < acc.len() {
            let acc2 = acc.update(ti, col);
            assert(cols_ok(acc2, row_count_of(tv))) by {
                assert forall|a: int| 0 <= a < acc2.len() implies col_ok(
                    #[trigger] acc2[a],
                    row_count_of(tv),
                ) by {
                    if a != ti {
                        assert(acc2[a] == acc[a]);
                    }
                }
            }
            assert(names_distinct(acc2)) by {
                assert forall|a: int, b: int| 0 <= a < b < acc2.len() implies acc2[a].0
                    != acc2[b].0 by {
                    assert(acc2[ti].0 == acc[ti].0);
                    if a != ti {
                        assert(acc2[a] == acc[a]);
                    }
                    if b != ti {
                        assert(acc2[b] == acc[b]);
                    }
                }
            }
            lemma_add_wf(tv, pairs, i + 1, acc2);
        } else {
            let acc2 = acc.push(col);
            assert(cols_ok(acc2, row_count_of(tv))) by {
                assert forall|a: int| 0 <= a < acc2.len() implies col_ok(
                    #[trigger] acc2[a],
                    row_count_of(tv),
                ) by {
                    if a < acc.len() {
                        assert(acc2[a] == acc[a]);
                    } else {
                        assert(acc2[a] == col);
                    }
                }
            }
            assert(names_distinct(acc2)) by {
                assert forall|a: int, b: int| 0 <= a < b < acc2.len() implies acc2[a].0
                    != acc2[b].0 by {
                    if b == acc.len() {
                        assert(acc2[b].0 == pairs[i].1);
                        assert(acc2[a] == acc[a]);
                    }
                }
            }
            lemma_add_wf(tv, pairs, i + 1, acc2);
        }
    }
}

/// Applying a mapping to a well-formed table yields a well-formed table
/// whose columns keep the row count.
pub proof fn lemma_mapping_preserves_wf(
    tv: Seq<(Seq<char>, ColType, Seq<Seq<char>>)>,
    pairs: Seq<(Seq<char>, Seq<char>)>,
)
    requires
        table_wf(tv),
    ensures
        match spec_apply_mapping(tv, pairs) {
            Ok(res) => table_wf(res) && cols_ok(res, row_count_of(tv)),
            Err(_) => true,
        },
{
    if all_sources_present(tv, pairs) {
        let kept = sp_keep(tv, sources_of(pairs), 0, Seq::empty());
        lemma_keep_wf(tv, sources_of(pairs), 0, Seq::empty());
        lemma_add_wf(tv, pairs, 0, kept);
        let res = sp_add(tv, pairs, 0, kept);
        assert(table_wf(res)) by {
            if res.len() > 0 {
                assert(col_ok(res[0], row_count_of(tv)));
                assert(row_count_of(res) == row_count_of(tv));
            }
        }
    }
}

// ---------------------------------------------------------------------------
// Executable mapping
// ---------------------------------------------------------------------------

/// A fresh copy of a column's cells.
fn clone_cells(v: &Vec<String>) -> (r: Vec<String>)
    ensures
        r@ == v@,
{
    let mut r: Vec<String> = Vec::new();
    let mut i: usize = 0;
    while i < v.len()
        invariant
            i <= v.len(),
            r@ =~= v@.take(i as int),
        decreases v.len() - i,
    {
        r.push(v[i].clone());
        proof {
            assert(r@ =~= v@.take(i + 1 as int));
        }
        i += 1;
    }
    proof {
        assert(r@ =~= v@);
    }
    r
}

/// First index of a column named `name` (the length if none), mirroring
/// `sp_idx`.
fn idx_of(cols: &Vec<Column>, name: &str) -> (r: usize)
    ensures
        r as int == sp_idx(cols_view(cols@), name@, 0),
        r <= cols.len(),
{
    let ghost cv = cols_view(cols@);
    let mut k: usize = 0;
    while k < cols.len()
        invariant
            k <= cols.len(),
            cv == cols_view(cols@),
            cv.len() == cols.len(),
            sp_idx(cv, name@, 0) == sp_idx(cv, name@, k as int),
        decreases cols.len() - k,
    {
        if str_eq(cols[k].name.as_str(), name) {
            proof {
                assert(cv[k as int].0 == name@);
            }
            return k;
        }
        k += 1;
    }
    cols.len()
}

/// Whether some pair renames a source column of this name.
fn pairs_source_contains(pairs: &Vec<(String, String)>, name: &str) -> (r: bool)
    ensures
        r == sources_of(pairs_view(pairs@)).contains(name@),
{
    let ghost srcs = sources_of(pairs_view(pairs@));
    let mut k: usize = 0;
    while k < pairs.len()
        invariant
            k <= pairs.len(),
            srcs == sources_of(pairs_view(pairs@)),
            srcs.len() == pairs.len(),
            forall|j: int| 0 <= j < k ==> (#[trigger] srcs[j]) != name@,
        decreases pairs.len() - k,
    {
        if str_eq(pairs[k].0.as_str(), name) {
            proof {
                assert(srcs[k as int] == name@);
            }
            return true;
        }
        k += 1;
    }
    proof {
        if srcs.contains(name@) {
            let w = choose|w: int| 0 <= w < srcs.len() && srcs[w] == name@;
            assert(false);
        }
    }
    false
}

/// Renames and drops columns as the source's field mapping declares: every
/// `(source, target)` pair copies the source column under the target name
/// (replacing an existing column of that name); original columns survive
/// only if they carry the identity name or no pair renames them.
#[verifier::loop_isolation(false)]
pub fn apply_field_mapping(t: &Table, pairs: &Vec<(String, String)>) -> (r: Result<
    Table,
    MappingError,
>)
    requires
        t.wf(),
    ensures
        match r {
            Ok(t2) => spec_apply_mapping(t@, pairs_view(pairs@)) == Ok::<_, MappingError>(t2@)
                && t2.wf() && cols_ok(t2@, row_count_of(t@)),
            Err(e) => spec_apply_mapping(t@, pairs_view(pairs@)) == Err::<
                Seq<(Seq<char>, ColType, Seq<Seq<char>>)>,
                MappingError,
            >(e),
        },
{
    let ghost tv = t@;
    let ghost pv = pairs_view(pairs@);

    // every source column must exist
    let mut k: usize = 0;
    while k < pairs.len()
        invariant
            k <= pairs.len(),
            forall|j: int| 0 <= j < k ==> names_of(tv).contains((#[trigger] pv[j]).0),
        decreases pairs.len() - k,
    {
        match t.col_index(pairs[k].0.as_str()) {
            Some(ix) => {
                proof {
                    assert(names_of(tv)[ix as int] == tv[ix as int].0);
                    assert(names_of(tv).contains(pv[k as int].0));
                }
            },
            None => {
                proof {
                    if names_of(tv).contains(pv[k as int].0) {
                        let w = choose|w: int|
                            0 <= w < names_of(tv).len() && names_of(tv)[w] == pv[k as int].0;
                        assert(tv[w].0 == pv[k as int].0);
                        assert(false);
                    }
                    assert(!all_sources_present(tv, pv));
                }
                return Err(MappingError::MissingSourceColumn);
            },
        }
        k += 1;
    }
    proof {
        assert(all_sources_present(tv, pv));
    }

    // originals that survive
    let ghost srcs = sources_of(pv);
    let mut cols: Vec<Column> = Vec::new();
    proof {
        assert(cols_view(cols@) =~= Seq::<(Seq<char>, ColType, Seq<Seq<char>>)>::empty());
    }
    let mut i: usize = 0;
    while i < t.cols.len()
        invariant
            i <= t.cols.len(),
            sp_keep(tv, srcs, 0, Seq::empty()) == sp_keep(tv, srcs, i as int, cols_view(cols@)),
        decreases t.cols.len() - i,
    {
        let name = &t.cols[i].name;
        proof {
            assert(tv[i as int] == t.cols@[i as int]@);
        }
        let keep = str_eq(name.as_str(), "symbol") || !pairs_source_contains(pairs, name.as_str());
        if keep {
            let ghost before = cols_view(cols@);
            let c = Column {
                name: name.clone(),
                ty: t.cols[i].ty,
                cells: clone_cells(&t.cols[i].cells),
            };
            proof {
                assert(c@ == tv[i as int]);
            }
            cols.push(c);
            proof {
                assert(cols_view(cols@) =~= before.push(tv[i as int]));
            }
        }
        i += 1;
    }
    let ghost kept = sp_keep(tv, srcs, 0, Seq::empty());
    proof {
        assert(kept == cols_view(cols@));
    }

    // renamed copies, in pair order
    let mut k: usize = 0;
    while k < pairs.len()
        invariant
            k <= pairs.len(),
            sp_add(tv, pv, 0, kept) == sp_add(tv, pv, k as int, cols_view(cols@)),
        decreases pairs.len() - k,
    {
        let src = &pairs[k].0;
        let tgt = &pairs[k].1;
        let ghost si = sp_idx(tv, pv[k as int].0, 0);
        match t.col_index(src.as_str()) {
            Some(ix) => {
                proof {
                    lemma_sp_idx(tv, pv[k as int].0, 0);
                    assert(tv[ix as int].0 == pv[k as int].0);
                    if si == tv.len() {
                        assert(false);
                    }
                    if ix as int != si {
                        assert(tv[si].0 == pv[k as int].0);
                        assert(false);
                    }
                }
                let ghost before = cols_view(cols@);
                let newcol = Column {
                    name: tgt.clone(),
                    ty: t.cols[ix].ty,
                    cells: clone_cells(&t.cols[ix].cells),
                };
                proof {
                    assert(newcol@ == (pv[k as int].1, tv[si].1, tv[si].2));
                }
                let ti = idx_of(&cols, tgt.as_str());
                if ti < cols.len() {
                    cols.set(ti, newcol);
                    proof {
                        assert(cols_view(cols@) =~= before.update(ti as int, (
                            pv[k as int].1,
                            tv[si].1,
                            tv[si].2,
                        )));
                    }
                } else {
                    cols.push(newcol);
                    proof {
                        assert(cols_view(cols@) =~= before.push((
                            pv[k as int].1,
                            tv[si].1,
                            tv[si].2,
                        )));
                    }
                }
            },
            None => {
                proof {
                    assert(names_of(tv).contains(pv[k as int].0));
                    let w = choose|w: int|
                        0 <= w < names_of(tv).len() && names_of(tv)[w] == pv[k as int].0;
                    assert(tv[w].0 == pv[k as int].0);
                    assert(false);
                }
                return Err(MappingError::MissingSourceColumn);
            },
        }
        k += 1;
    }
    let t2 = Table { cols };
    proof {
        assert(spec_apply_mapping(tv, pv) == Ok::<_, MappingError>(t2@));
        lemma_mapping_preserves_wf(tv, pv);
    }
    Ok(t2)
}

// ---------------------------------------------------------------------------
// Mapping completeness
// ---------------------------------------------------------------------------

proof fn lemma_keep_names_one(
    tv: Seq<(Seq<char>, ColType, Seq<Seq<char>>)>,
    srcs: Seq<Seq<char>>,
    i: int,
    acc: Seq<(Seq<char>, ColType, Seq<Seq<char>>)>,
    n: Seq<char>,
)
    requires
        0 <= i <= tv.len(),
    ensures
        names_of(sp_keep(tv, srcs, i, acc)).contains(n) <==> (names_of(acc).contains(n) || exists|
            k: int,
        |
            i <= k < tv.len() && (#[trigger] tv[k].0) == n && (n == identity_col()
                || !srcs.contains(n))),
    decreases tv.len() - i,
{
    if i < tv.len() {
        if tv[i].0 == identity_col() || !srcs.contains(tv[i].0) {
            let acc2 = acc.push(tv[i]);
            lemma_keep_names_one(tv, srcs, i + 1, acc2, n);
            assert(names_of(acc2) =~= names_of(acc).push(tv[i].0));
            if names_of(acc2).contains(n) && !names_of(acc).contains(n) {
                assert(names_of(acc2)[names_of(acc2).len() - 1] == tv[i].0);
                let w = choose|w: int|
                    0 <= w < names_of(acc2).len() && names_of(acc2)[w] == n;
                if w < names_of(acc).len() {
                    assert(names_of(acc)[w] == n);
                    assert(false);
                }
                assert(tv[i].0 == n);
            }
            if names_of(acc).contains(n) {
                let w = choose|w: int| 0 <= w < names_of(acc).len() && names_of(acc)[w] == n;
                assert(names_of(acc2)[w] == n);
                assert(names_of(acc2).contains(n));
            }
            if tv[i].0 == n {
                assert(names_of(acc2)[names_of(acc).len() as int] == n);
                assert(names_of(acc2).contains(n));
            }
        } else {
            lemma_keep_names_one(tv, srcs, i + 1, acc, n);
        }
    }
}

proof fn lemma_add_names_one(
    tv: Seq<(Seq<char>, ColType, Seq<Seq<char>>)>,
    pairs: Seq<(Seq<char>, Seq<char>)>,
    i: int,
    acc: Seq<(Seq<char>, ColType, Seq<Seq<char>>)>,
    n: Seq<char>,
)
    requires
        0 <= i <= pairs.len(),
    ensures
        names_of(sp_add(tv, pairs, i, acc)).contains(n) <==> (names_of(acc).contains(n) || exists|
            k: int,
        | i <= k < pairs.len() && (#[trigger] pairs[k]).1 == n),
    decreases pairs.len() - i,
{
    if i < pairs.len() {
        let si = sp_idx(tv, pairs[i].0, 0);
        let col = if si < tv.len() {
            (pairs[i].1, tv[si].1, tv[si].2)
        } else {
            (pairs[i].1, ColType::Text, Seq::<Seq<char>>::empty())
        };
        lemma_sp_idx(acc, pairs[i].1, 0);
        let ti = sp_idx(acc, pairs[i].1, 0);
        if ti < acc.len() {
            let acc2 = acc.update(ti, col);
            lemma_add_names_one(tv, pairs, i + 1, acc2, n);
            assert(names_of(acc2) =~= names_of(acc));
            if pairs[i].1 == n {
                assert(acc[ti].0 == pairs[i].1);
                assert(names_of(acc)[ti] == n);
                assert(names_of(acc).contains(n));
            }
            if exists|k: int| i <= k < pairs.len() && (#[trigger] pairs[k]).1 == n {
                let k = choose|k: int| i <= k < pairs.len() && (#[trigger] pairs[k]).1 == n;
                if k > i {
                    assert(exists|k2: int|
                        i + 1 <= k2 < pairs.len() && (#[trigger] pairs[k2]).1 == n);
                }
            }
        } else {
            let acc2 = acc.push(col);
            lemma_add_names_one(tv, pairs, i + 1, acc2, n);
            assert(names_of(acc2) =~= names_of(acc).push(pairs[i].1));
            if names_of(acc2).contains(n) && !names_of(acc).contains(n) {
                let w = choose|w: int|
                    0 <= w < names_of(acc2).len() && names_of(acc2)[w] == n;
                if w < names_of(acc).len() {
                    assert(names_of(acc)[w] == n);
                    assert(false);
                }
                assert(pairs[i].1 == n);
            }
            if names_of(acc).contains(n) {
                let w = choose|w: int| 0 <= w < names_of(acc).len() && names_of(acc)[w] == n;
                assert(names_of(acc2)[w] == n);
            }
            if pairs[i].1 == n {
                assert(names_of(acc2)[names_of(acc).len() as int] == n);
                assert(names_of(acc2).contains(n));
            }
            if exists|k: int| i <= k < pairs.len() && (#[trigger] pairs[k]).1 == n {
                let k = choose|k: int| i <= k < pairs.len() && (#[trigger] pairs[k]).1 == n;
                if k > i {
                    assert(exists|k2: int|
                        i + 1 <= k2 < pairs.len() && (#[trigger] pairs[k2]).1 == n);
                }
            }
        }
    }
}

/// Mapping completeness: when every column of the provisional table is a
/// declared source (or the identity column, itself then among the targets),
/// the mapped table's column names are exactly the mapping's target names.
pub proof fn lemma_mapping_completeness(
    tv: Seq<(Seq<char>, ColType, Seq<Seq<char>>)>,
    pairs: Seq<(Seq<char>, Seq<char>)>,
)
    requires
        table_wf(tv),
        all_sources_present(tv, pairs),
        forall|k: int|
            0 <= k < tv.len() ==> (#[trigger] tv[k].0) == identity_col() || sources_of(
                pairs,
            ).contains(tv[k].0),
        names_of(tv).contains(identity_col()) ==> targets_of(pairs).contains(identity_col()),
    ensures
        match spec_apply_mapping(tv, pairs) {
            Ok(res) => forall|n: Seq<char>|
                #![trigger names_of(res).contains(n)]
                #![trigger targets_of(pairs).contains(n)]
                names_of(res).contains(n) <==> targets_of(pairs).contains(n),
            Err(_) => true,
        },
{
    let srcs = sources_of(pairs);
    let kept = sp_keep(tv, srcs, 0, Seq::empty());
    let res = sp_add(tv, pairs, 0, kept);
    assert(spec_apply_mapping(tv, pairs) == Ok::<_, MappingError>(res));
    assert forall|n: Seq<char>|
        names_of(res).contains(n) <==> targets_of(pairs).contains(n) by {
        lemma_keep_names_one(tv, srcs, 0, Seq::empty(), n);
        lemma_add_names_one(tv, pairs, 0, kept, n);
        assert(names_of(Seq::<(Seq<char>, ColType, Seq<Seq<char>>)>::empty()).len() == 0);
        assert(!names_of(Seq::<(Seq<char>, ColType, Seq<Seq<char>>)>::empty()).contains(n));
        if names_of(kept).contains(n) {
            // a kept original is the identity column, which the premises put
            // among the targets
            let k = choose|k: int|
                0 <= k < tv.len() && (#[trigger] tv[k].0) == n && (n == identity_col()
                    || !srcs.contains(n));
            if n != identity_col() {
                assert(srcs.contains(tv[k].0));
                assert(false);
            }
            assert(names_of(tv)[k] == n);
            assert(names_of(tv).contains(identity_col()));
        }
        if targets_of(pairs).contains(n) {
            let w = choose|w: int|
                0 <= w < targets_of(pairs).len() && targets_of(pairs)[w] == n;
            assert(pairs[w].1 == n);
            assert(names_of(res).contains(n));
        }
        if names_of(res).contains(n) && !names_of(kept).contains(n) {
            let w = choose|w: int| 0 <= w < pairs.len() && (#[trigger] pairs[w]).1 == n;
            assert(targets_of(pairs)[w] == n);
        }
    }
}

} // verus!
