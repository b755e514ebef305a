use vstd::prelude::*;

use crate::json::{is_number_str, is_number_text};
use crate::strutil::{chars_of, string_of, str_eq};
use crate::table::{cells_view, names_of, row_count_of, table_wf, ColType, Column, Table};
use crate::parse::{forced_view, sp_forced};

verus! {

// ---------------------------------------------------------------------------
// The cache stores one table per file as comma-separated text with a header
// row.  Fields that hold a comma, a quote or a line break are quoted, with
// inner quotes doubled.  The writer and the reader below are both pinned to
// spec functions, and `lemma_store_load` proves that reading a stored table
// back (with its own schema) yields the table unchanged.
// ---------------------------------------------------------------------------

pub open spec fn is_field_stop(c: char) -> bool {
    c == ',' || c == '\n' || c == '\r'
}

/// A field must be quoted when it holds a separator, a quote or a line break.
pub open spec fn needs_quote(s: Seq<char>) -> bool {
    exists|i: int| 0 <= i < s.len() && (is_field_stop(#[trigger] s[i]) || s[i] == '"')
}

/// Field content with every quote doubled; `acc` is the output so far.
pub open spec fn sp_esc(c: Seq<char>, i: int, acc: Seq<char>) -> Seq<char>
    decreases c.len() - i,
    when 0 <= i <= c.len()
{
    if i < c.len() {
        if c[i] == '"' {
            sp_esc(c, i + 1, acc + seq!['"', '"'])
        } else {
            sp_esc(c, i + 1, acc.push(c[i]))
        }
    } else {
        acc
    }
}

/// A cell as it stands in the file.
pub open spec fn enc_field(c: Seq<char>) -> Seq<char> {
    if needs_quote(c) {
        seq!['"'] + sp_esc(c, 0, Seq::empty()) + seq!['"']
    } else {
        c
    }
}

/// A row: its cells encoded and joined with commas.
pub open spec fn sp_row_enc(cells: Seq<Seq<char>>, j: int, acc: Seq<char>) -> Seq<char>
    decreases cells.len() - j,
    when 0 <= j <= cells.len()
{
    if j < cells.len() {
        let sep: Seq<char> = if j == 0 {
            Seq::empty()
        } else {
            seq![',']
        };
        sp_row_enc(cells, j + 1, acc + sep + enc_field(cells[j]))
    } else {
        acc
    }
}

/// Row `r` of the table, as cell texts in column order.
pub open spec fn row_of(tv: Seq<(Seq<char>, ColType, Seq<Seq<char>>)>, r: int) -> Seq<Seq<char>> {
    Seq::new(tv.len(), |j: int| tv[j].2[r])
}

/// The data rows from `r` on, each encoded and newline-terminated.
pub open spec fn sp_csv_rows(
    tv: Seq<(Seq<char>, ColType, Seq<Seq<char>>)>,
    r: int,
    acc: Seq<char>,
) -> Seq<char>
    decreases row_count_of(tv) - r,
    when 0 <= r <= row_count_of(tv)
{
    if r < row_count_of(tv) {
        sp_csv_rows(tv, r + 1, acc + sp_row_enc(row_of(tv, r), 0, Seq::empty()) + seq!['\n'])
    } else {
        acc
    }
}

/// The whole file: header row, then one line per row.
pub open spec fn spec_store_csv(tv: Seq<(Seq<char>, ColType, Seq<Seq<char>>)>) -> Seq<char> {
    sp_csv_rows(tv, 0, sp_row_enc(names_of(tv), 0, Seq::empty()) + seq!['\n'])
}

// ---------------------------------------------------------------------------
// Writer
// ---------------------------------------------------------------------------

fn is_stop_c(c: char) -> (r: bool)
    ensures
        r == is_field_stop(c),
{
    c == ',' || c == '\n' || c == '\r'
}

fn field_needs_quote(c: &Vec<char>) -> (r: bool)
    ensures
        r == needs_quote(c@),
{
    let mut i: usize = 0;
    while i < c.len()
        invariant
            i <= c.len(),
            forall|k: int| 0 <= k < i ==> !(is_field_stop(#[trigger] c@[k]) || c@[k] == '"'),
        decreases c.len() - i,
    {
        if is_stop_c(c[i]) || c[i] == '"' {
            return true;
        }
        i += 1;
    }
    false
}

/// Appends the encoding of one cell to `out`.
fn push_field(out: &mut Vec<char>, cell: &String)
    ensures
        final(out)@ == old(out)@ + enc_field(cell@),
{
    let cs = chars_of(cell.as_str());
    if field_needs_quote(&cs) {
        let ghost base = out@;
        out.push('"');
        let mut i: usize = 0;
        while i < cs.len()
            invariant
                i <= cs.len(),
                cs@ == cell@,
                out@ == base + seq!['"'] + sp_esc_partial(cell@, i as int),
                sp_esc(cell@, 0, Seq::empty()) == sp_esc(cell@, i as int, sp_esc_partial(
                    cell@,
                    i as int,
                )),
            decreases cs.len() - i,
        {
            let ghost before = sp_esc_partial(cell@, i as int);
            if cs[i] == '"' {
                out.push('"');
                out.push('"');
                proof {
                    assert(out@ =~= base + seq!['"'] + (before + seq!['"', '"']));
                }
            } else {
                out.push(cs[i]);
                proof {
                    assert(out@ =~= base + seq!['"'] + before.push(cell@[i as int]));
                }
            }
            proof {
                assert(sp_esc_partial(cell@, i + 1 as int) == if cell@[i as int] == '"' {
                    before + seq!['"', '"']
                } else {
                    before.push(cell@[i as int])
                }) by {
                    lemma_sp_esc_partial_step(cell@, i as int);
                }
            }
            i += 1;
        }
        out.push('"');
        proof {
            assert(sp_esc_partial(cell@, cell@.len() as int) == sp_esc(
                cell@,
                0,
                Seq::empty(),
            )) by {
                lemma_sp_esc_partial_full(cell@);
            }
            assert(out@ =~= old(out)@ + enc_field(cell@));
        }
    } else {
        let mut i: usize = 0;
        while i < cs.len()
            invariant
                i <= cs.len(),
                cs@ == cell@,
                out@ == old(out)@ + cell@.take(i as int),
            decreases cs.len() - i,
        {
            out.push(cs[i]);
            proof {
                assert(out@ =~= old(out)@ + cell@.take(i + 1 as int));
            }
            i += 1;
        }
        proof {
            assert(cell@.take(cell@.len() as int) =~= cell@);
        }
    }
}

/// The escaped form of the first `i` characters.
pub open spec fn sp_esc_partial(c: Seq<char>, i: int) -> Seq<char>
    decreases i,
    when 0 <= i <= c.len()
{
    if i <= 0 {
        Seq::empty()
    } else if c[i - 1] == '"' {
        sp_esc_partial(c, i - 1) + seq!['"', '"']
    } else {
        sp_esc_partial(c, i - 1).push(c[i - 1])
    }
}

proof fn lemma_sp_esc_partial_step(c: Seq<char>, i: int)
    requires
        0 <= i < c.len(),
    ensures
        sp_esc_partial(c, i + 1) == if c[i] == '"' {
            sp_esc_partial(c, i) + seq!['"', '"']
        } else {
            sp_esc_partial(c, i).push(c[i])
        },
{
}

proof fn lemma_sp_esc_shift(c: Seq<char>, i: int, acc: Seq<char>)
    requires
        0 <= i <= c.len(),
    ensures
        sp_esc(c, i, acc) == acc + sp_esc_suffix(c, i),
    decreases c.len() - i,
{
    if i < c.len() {
        if c[i] == '"' {
            lemma_sp_esc_shift(c, i + 1, acc + seq!['"', '"']);
            lemma_sp_esc_shift(c, i + 1, seq!['"', '"']);
            assert(acc + (seq!['"', '"'] + sp_esc_suffix(c, i + 1)) =~= (acc + seq!['"', '"'])
                + sp_esc_suffix(c, i + 1));
        } else {
            lemma_sp_esc_shift(c, i + 1, acc.push(c[i]));
            lemma_sp_esc_shift(c, i + 1, seq![c[i]]);
            assert(acc + (seq![c[i]] + sp_esc_suffix(c, i + 1)) =~= acc.push(c[i])
                + sp_esc_suffix(c, i + 1));
        }
    } else {
        assert(acc + Seq::<char>::empty() =~= acc);
    }
}

/// The escaped form of the characters from `i` on.
pub open spec fn sp_esc_suffix(c: Seq<char>, i: int) -> Seq<char>
    decreases c.len() - i,
    when 0 <= i <= c.len()
{
    if i < c.len() {
        if c[i] == '"' {
            seq!['"', '"'] + sp_esc_suffix(c, i + 1)
        } else {
            seq![c[i]] + sp_esc_suffix(c, i + 1)
        }
    } else {
        Seq::empty()
    }
}

proof fn lemma_sp_esc_partial_full(c: Seq<char>)
    ensures
        sp_esc_partial(c, c.len() as int) == sp_esc(c, 0, Seq::empty()),
{
    lemma_sp_esc_partial_suffix(c, 0);
    lemma_sp_esc_shift(c, 0, Seq::empty());
    assert(Seq::<char>::empty() + sp_esc_suffix(c, 0) =~= sp_esc_suffix(c, 0));
    assert(sp_esc_partial(c, 0) + sp_esc_suffix(c, 0) =~= sp_esc_suffix(c, 0));
    assert(sp_esc_partial(c, c.len() as int) + sp_esc_suffix(c, c.len() as int) =~= sp_esc_partial(
        c,
        c.len() as int,
    ));
}

proof fn lemma_sp_esc_partial_suffix(c: Seq<char>, i: int)
    requires
        0 <= i <= c.len(),
    ensures
        sp_esc_partial(c, i) + sp_esc_suffix(c, i) == sp_esc_partial(c, c.len() as int)
            + sp_esc_suffix(c, c.len() as int),
    decreases c.len() - i,
{
    if i < c.len() {
        lemma_sp_esc_partial_suffix(c, i + 1);
        lemma_sp_esc_partial_step(c, i);
        if c[i] == '"' {
            assert(sp_esc_partial(c, i) + (seq!['"', '"'] + sp_esc_suffix(c, i + 1))
                =~= (sp_esc_partial(c, i) + seq!['"', '"']) + sp_esc_suffix(c, i + 1));
        } else {
            assert(sp_esc_partial(c, i) + (seq![c[i]] + sp_esc_suffix(c, i + 1))
                =~= sp_esc_partial(c, i).push(c[i]) + sp_esc_suffix(c, i + 1));
        }
    } else {
    }
}

/// Appends the encoding of one row (no terminator) to `out`.
fn push_row(out: &mut Vec<char>, cells: &Vec<String>)
    ensures
        final(out)@ == old(out)@ + sp_row_enc(cells_view(cells@), 0, Seq::empty()),
{
    let ghost base = out@;
    let ghost cv = cells_view(cells@);
    let mut j: usize = 0;
    while j < cells.len()
        invariant
            j <= cells.len(),
            cv == cells_view(cells@),
            cv.len() == cells.len(),
            base == old(out)@,
            out@.len() >= base.len(),
            out@.take(base.len() as int) == base,
            sp_row_enc(cv, 0, Seq::empty()) == sp_row_enc(
                cv,
                j as int,
                out@.skip(base.len() as int),
            ),
        decreases cells.len() - j,
    {
        let ghost suffix = out@.skip(base.len() as int);
        if j > 0 {
            out.push(',');
        }
        push_field(out, &cells[j]);
        proof {
            assert(cv[j as int] == cells@[j as int]@);
            let sep: Seq<char> = if j == 0 {
                Seq::empty()
            } else {
                seq![',']
            };
            assert(out@.skip(base.len() as int) =~= suffix + sep + enc_field(cv[j as int]));
            assert(out@.take(base.len() as int) =~= base);
        }
        j += 1;
    }
    proof {
        assert(out@ =~= out@.take(base.len() as int) + out@.skip(base.len() as int));
    }
}

/// The table as comma-separated text with a header row, as
/// `spec_store_csv` describes.
#[verifier::loop_isolation(false)]
pub fn write_csv(t: &Table) -> (r: String)
    requires
        t.wf(),
    ensures
        r@ == spec_store_csv(t@),
{
    let mut out: Vec<char> = Vec::new();
    let mut names: Vec<String> = Vec::new();
    let mut j: usize = 0;
    while j < t.cols.len()
        invariant
            j <= t.cols.len(),
            cells_view(names@) =~= names_of(t@).take(j as int),
        decreases t.cols.len() - j,
    {
        names.push(t.cols[j].name.clone());
        proof {
            assert(cells_view(names@) =~= names_of(t@).take(j + 1 as int));
        }
        j += 1;
    }
    proof {
        assert(cells_view(names@) =~= names_of(t@));
    }
    push_row(&mut out, &names);
    out.push('\n');
    proof {
        assert(out@ =~= sp_row_enc(names_of(t@), 0, Seq::empty()) + seq!['\n']);
    }
    let n_rows = t.n_rows();
    let mut r: usize = 0;
    while r < n_rows
        invariant
            r <= n_rows,
            spec_store_csv(t@) == sp_csv_rows(t@, r as int, out@),
        decreases n_rows - r,
    {
        let ghost base = out@;
        let mut row: Vec<String> = Vec::new();
        let mut j: usize = 0;
        while j < t.cols.len()
            invariant
                j <= t.cols.len(),
                r < n_rows,
                cells_view(row@) =~= row_of(t@, r as int).take(j as int),
            decreases t.cols.len() - j,
        {
            proof {
                assert(t@[j as int].2.len() == row_count_of(t@));
            }
            row.push(t.cols[j].cells[r].clone());
            proof {
                assert(t@[j as int].2[r as int] == t.cols@[j as int].cells@[r as int]@);
                assert(cells_view(row@) =~= row_of(t@, r as int).take(j + 1 as int));
            }
            j += 1;
        }
        proof {
            assert(cells_view(row@) =~= row_of(t@, r as int));
        }
        push_row(&mut out, &row);
        out.push('\n');
        proof {
            assert(out@ =~= base + sp_row_enc(row_of(t@, r as int), 0, Seq::empty())
                + seq!['\n']);
        }
        r += 1;
    }
    string_of(&out)
}

// ---------------------------------------------------------------------------
// Reader
// ---------------------------------------------------------------------------

/// An unquoted field: everything up to a separator or line break; a bare
/// quote inside it is refused.
pub open spec fn sp_uq(s: Seq<char>, i: int, acc: Seq<char>) -> Option<(Seq<char>, int)>
    decreases s.len() - i,
    when 0 <= i <= s.len()
{
    if i >= s.len() {
        Some((acc, i))
    } else if is_field_stop(s[i]) {
        Some((acc, i))
    } else if s[i] == '"' {
        None
    } else {
        sp_uq(s, i + 1, acc.push(s[i]))
    }
}

/// A quoted field, from just after the opening quote; a doubled quote stands
/// for one quote.
pub open spec fn sp_q(s: Seq<char>, i: int, acc: Seq<char>) -> Option<(Seq<char>, int)>
    decreases s.len() - i,
    when 0 <= i <= s.len()
{
    if i >= s.len() {
        None
    } else if s[i] == '"' {
        if i + 1 < s.len() && s[i + 1] == '"' {
            sp_q(s, i + 2, acc.push('"'))
        } else {
            Some((acc, i + 1))
        }
    } else {
        sp_q(s, i + 1, acc.push(s[i]))
    }
}

pub open spec fn sp_csv_field(s: Seq<char>, i: int) -> Option<(Seq<char>, int)>
    recommends
        0 <= i <= s.len(),
{
    if i < s.len() && s[i] == '"' {
        sp_q(s, i + 1, Seq::empty())
    } else {
        sp_uq(s, i, Seq::empty())
    }
}

pub proof fn lemma_sp_uq_bounds(s: Seq<char>, i: int, acc: Seq<char>)
    requires
        0 <= i <= s.len(),
    ensures
        match sp_uq(s, i, acc) {
            Some((f, j)) => i <= j <= s.len(),
            None => true,
        },
    decreases s.len() - i,
{
    if i < s.len() && !is_field_stop(s[i]) && s[i] != '"' {
        lemma_sp_uq_bounds(s, i + 1, acc.push(s[i]));
    }
}

pub proof fn lemma_sp_q_bounds(s: Seq<char>, i: int, acc: Seq<char>)
    requires
        0 <= i <= s.len(),
    ensures
        match sp_q(s, i, acc) {
            Some((f, j)) => i < j <= s.len(),
            None => true,
        },
    decreases s.len() - i,
{
    if i < s.len() {
        if s[i] == '"' {
            if i + 1 < s.len() && s[i + 1] == '"' {
                lemma_sp_q_bounds(s, i + 2, acc.push('"'));
            }
        } else {
            lemma_sp_q_bounds(s, i + 1, acc.push(s[i]));
        }
    }
}

pub proof fn lemma_sp_csv_field_bounds(s: Seq<char>, i: int)
    requires
        0 <= i <= s.len(),
    ensures
        match sp_csv_field(s, i) {
            Some((f, j)) => i <= j <= s.len(),
            None => true,
        },
{
    if i < s.len() && s[i] == '"' {
        lemma_sp_q_bounds(s, i + 1, Seq::empty());
    } else {
        lemma_sp_uq_bounds(s, i, Seq::empty());
    }
}

/// One line: fields separated by commas, ended by a line break or the end
/// of the text.  Returns the cells and the position after the terminator.
pub open spec fn sp_csv_row(s: Seq<char>, i: int, acc: Seq<Seq<char>>) -> Option<
    (Seq<Seq<char>>, int),
>
    decreases s.len() - i,
    when 0 <= i <= s.len()
{
    proof {
        lemma_sp_csv_field_bounds(s, i);
    }
    match sp_csv_field(s, i) {
        Some((f, j)) => {
            let acc2 = acc.push(f);
            if j >= s.len() {
                Some((acc2, j))
            } else if s[j] == ',' {
                sp_csv_row(s, j + 1, acc2)
            } else if s[j] == '\n' {
                Some((acc2, j + 1))
            } else if s[j] == '\r' {
                if j + 1 < s.len() && s[j + 1] == '\n' {
                    Some((acc2, j + 2))
                } else {
                    Some((acc2, j + 1))
                }
            } else {
                None
            }
        },
        None => None,
    }
}

pub proof fn lemma_sp_csv_row_bounds(s: Seq<char>, i: int, acc: Seq<Seq<char>>)
    requires
        0 <= i <= s.len(),
    ensures
        match sp_csv_row(s, i, acc) {
            Some((r, j)) => i <= j <= s.len() && (i < s.len() ==> i < j),
            None => true,
        },
    decreases s.len() - i,
{
    lemma_sp_csv_field_bounds(s, i);
    match sp_csv_field(s, i) {
        Some((f, j)) => {
            if j < s.len() && s[j] == ',' {
                lemma_sp_csv_row_bounds(s, j + 1, acc.push(f));
            }
        },
        None => {},
    }
}

/// The whole text as rows.
pub open spec fn sp_csv_parse(s: Seq<char>, i: int, acc: Seq<Seq<Seq<char>>>) -> Option<
    Seq<Seq<Seq<char>>>,
>
    decreases s.len() - i,
    when 0 <= i <= s.len()
{
    if i >= s.len() {
        Some(acc)
    } else {
        proof {
            lemma_sp_csv_row_bounds(s, i, Seq::empty());
        }
        match sp_csv_row(s, i, Seq::empty()) {
            Some((r, j)) => sp_csv_parse(s, j, acc.push(r)),
            None => None,
        }
    }
}

fn scan_uq(s: &Vec<char>, i: usize, acc: Vec<char>) -> (r: Option<(Vec<char>, usize)>)
    requires
        i <= s.len(),
    ensures
        r is Some <==> sp_uq(s@, i as int, acc@) is Some,
        r matches Some((f, j)) ==> sp_uq(s@, i as int, acc@) == Some((f@, j as int)) && i <= j
            <= s.len(),
    decreases s.len() - i,
{
    if i >= s.len() {
        Some((acc, i))
    } else if is_stop_c(s[i]) {
        Some((acc, i))
    } else if s[i] == '"' {
        None
    } else {
        let mut acc = acc;
        acc.push(s[i]);
        scan_uq(s, i + 1, acc)
    }
}

fn scan_q(s: &Vec<char>, i: usize, acc: Vec<char>) -> (r: Option<(Vec<char>, usize)>)
    requires
        i <= s.len(),
    ensures
        r is Some <==> sp_q(s@, i as int, acc@) is Some,
        r matches Some((f, j)) ==> sp_q(s@, i as int, acc@) == Some((f@, j as int)) && i < j
            <= s.len(),
    decreases s.len() - i,
{
    if i >= s.len() {
        None
    } else if s[i] == '"' {
        if i + 1 < s.len() && s[i + 1] == '"' {
            let mut acc = acc;
            acc.push('"');
            scan_q(s, i + 2, acc)
        } else {
            Some((acc, i + 1))
        }
    } else {
        let mut acc = acc;
        acc.push(s[i]);
        scan_q(s, i + 1, acc)
    }
}

fn scan_csv_field(s: &Vec<char>, i: usize) -> (r: Option<(Vec<char>, usize)>)
    requires
        i <= s.len(),
    ensures
        r is Some <==> sp_csv_field(s@, i as int) is Some,
        r matches Some((f, j)) ==> sp_csv_field(s@, i as int) == Some((f@, j as int)) && i <= j
            <= s.len(),
{
    if i < s.len() && s[i] == '"' {
        scan_q(s, i + 1, Vec::new())
    } else {
        scan_uq(s, i, Vec::new())
    }
}

fn scan_csv_row(s: &Vec<char>, i: usize, acc: Vec<String>) -> (r: Option<(Vec<String>, usize)>)
    requires
        i <= s.len(),
    ensures
        r is Some <==> sp_csv_row(s@, i as int, cells_view(acc@)) is Some,
        r matches Some((row, j)) ==> sp_csv_row(s@, i as int, cells_view(acc@)) == Some(
            (cells_view(row@), j as int),
        ) && i <= j <= s.len(),
    decreases s.len() - i,
{
    match scan_csv_field(s, i) {
        Some((f, j)) => {
            let ghost acc0 = cells_view(acc@);
            let mut acc = acc;
            acc.push(string_of(&f));
            proof {
                assert(cells_view(acc@) =~= acc0.push(f@));
            }
            if j >= s.len() {
                Some((acc, j))
            } else if s[j] == ',' {
                scan_csv_row(s, j + 1, acc)
            } else if s[j] == '\n' {
                Some((acc, j + 1))
            } else if s[j] == '\r' {
                if j + 1 < s.len() && s[j + 1] == '\n' {
                    Some((acc, j + 2))
                } else {
                    Some((acc, j + 1))
                }
            } else {
                None
            }
        },
        None => None,
    }
}

/// The rows of `rows`, as character sequences.
pub open spec fn rows_view(rows: Seq<Vec<String>>) -> Seq<Seq<Seq<char>>> {
    rows.map_values(|r: Vec<String>| cells_view(r@))
}

fn scan_csv(s: &Vec<char>, i: usize, acc: Vec<Vec<String>>) -> (r: Option<Vec<Vec<String>>>)
    requires
        i <= s.len(),
    ensures
        r is Some <==> sp_csv_parse(s@, i as int, rows_view(acc@)) is Some,
        r matches Some(rows) ==> sp_csv_parse(s@, i as int, rows_view(acc@)) == Some(
            rows_view(rows@),
        ),
    decreases s.len() - i,
{
    if i >= s.len() {
        Some(acc)
    } else {
        proof {
            assert(cells_view(Seq::<String>::empty()) =~= Seq::<Seq<char>>::empty());
            lemma_sp_csv_row_bounds(s@, i as int, Seq::empty());
        }
        match scan_csv_row(s, i, Vec::new()) {
            Some((row, j)) => {
                let ghost acc0 = rows_view(acc@);
                let mut acc = acc;
                acc.push(row);
                proof {
                    assert(rows_view(acc@) =~= acc0.push(cells_view(row@)));
                }
                scan_csv(s, j, acc)
            },
            None => None,
        }
    }
}

/// The raw rows of comma-separated text, without any schema applied.
pub fn parse_csv_text(text: &str) -> (r: Option<Vec<Vec<String>>>)
    ensures
        r is Some <==> sp_csv_parse(text@, 0, Seq::empty()) is Some,
        r matches Some(rows) ==> sp_csv_parse(text@, 0, Seq::empty()) == Some(rows_view(rows@)),
{
    let s = chars_of(text);
    proof {
        assert(rows_view(Seq::<Vec<String>>::empty()) =~= Seq::<Seq<Seq<char>>>::empty());
    }
    scan_csv(&s, 0, Vec::new())
}

// ---------------------------------------------------------------------------
// Loading a cached table under a declared schema
// ---------------------------------------------------------------------------

/// The type a schema declares for a column (text when it declares none).
pub open spec fn csv_ty(hdr: Seq<Seq<char>>, schema: Seq<(Seq<char>, ColType)>, j: int) -> ColType {
    match sp_forced(schema, hdr[j], 0) {
        Some(t) => t,
        None => ColType::Text,
    }
}

pub open spec fn csv_hdr_dup(hdr: Seq<Seq<char>>) -> bool {
    exists|i: int, j: int| 0 <= i < j < hdr.len() && (#[trigger] hdr[i]) == (#[trigger] hdr[j])
}

pub open spec fn csv_arity_ok(rows: Seq<Seq<Seq<char>>>) -> bool {
    forall|r: int| 0 <= r < rows.len() ==> (#[trigger] rows[r]).len() == rows[0].len()
}

pub open spec fn csv_floats_ok(rows: Seq<Seq<Seq<char>>>, schema: Seq<(Seq<char>, ColType)>) -> bool {
    forall|r: int, j: int|
        1 <= r < rows.len() && 0 <= j < rows[0].len() && csv_ty(rows[0], schema, j)
            == ColType::Float64 ==> is_number_text(#[trigger] rows[r][j])
}

pub open spec fn csv_built(
    rows: Seq<Seq<Seq<char>>>,
    schema: Seq<(Seq<char>, ColType)>,
) -> Seq<(Seq<char>, ColType, Seq<Seq<char>>)> {
    Seq::new(
        rows[0].len(),
        |j: int|
            (
                rows[0][j],
                csv_ty(rows[0], schema, j),
                Seq::new((rows.len() - 1) as nat, |r: int| rows[r + 1][j]),
            ),
    )
}

/// What loading cached text under a schema returns: the rows re-typed by
/// the schema, or nothing when the text is not a consistent table whose
/// declared float columns coerce.
pub open spec fn spec_load_csv(s: Seq<char>, schema: Seq<(Seq<char>, ColType)>) -> Option<
    Seq<(Seq<char>, ColType, Seq<Seq<char>>)>,
> {
    match sp_csv_parse(s, 0, Seq::empty()) {
        Some(rows) => {
            if rows.len() == 0 {
                None
            } else if csv_hdr_dup(rows[0]) {
                None
            } else if !csv_arity_ok(rows) {
                None
            } else if !csv_floats_ok(rows, schema) {
                None
            } else {
                Some(csv_built(rows, schema))
            }
        },
        None => None,
    }
}

/// Loads cached text under a schema, as `spec_load_csv` describes.
#[verifier::loop_isolation(false)]
pub fn load_csv(text: &str, schema: &Vec<(String, ColType)>) -> (r: Option<Table>)
    ensures
        r is Some <==> spec_load_csv(text@, forced_view(schema@)) is Some,
        r matches Some(t) ==> spec_load_csv(text@, forced_view(schema@)) == Some(t@) && t.wf(),
{
    let s = chars_of(text);
    let ghost sv = forced_view(schema@);
    let rows_opt = {
        proof {
            assert(rows_view(Seq::<Vec<String>>::empty()) =~= Seq::<Seq<Seq<char>>>::empty());
        }
        scan_csv(&s, 0, Vec::new())
    };
    match rows_opt {
        Some(rows) => {
            let ghost rv = rows_view(rows@);
            if rows.len() == 0 {
                return None;
            }
            let hdr = &rows[0];
            let ghost hv = rv[0];
            proof {
                assert(hv == cells_view(hdr@));
            }
            let n = hdr.len();

            // duplicate header names
            let mut i: usize = 0;
            while i < n
                invariant
                    i <= n,
                    forall|a: int, b: int|
                        0 <= a < b < n && a < i ==> (#[trigger] hv[a]) != (#[trigger] hv[b]),
                decreases n - i,
            {
                let mut j2: usize = i + 1;
                while j2 < n
                    invariant
                        i < j2 <= n,
                        forall|b: int| i < b < j2 ==> (#[trigger] hv[b]) != hv[i as int],
                    decreases n - j2,
                {
                    if str_eq(hdr[i].as_str(), hdr[j2].as_str()) {
                        proof {
                            assert(hv[i as int] == hv[j2 as int]);
                            assert(csv_hdr_dup(hv));
                        }
                        return None;
                    }
                    j2 += 1;
                }
                i += 1;
            }
            proof {
                assert(!csv_hdr_dup(hv));
            }

            // equal arity
            let mut r: usize = 0;
            while r < rows.len()
                invariant
                    r <= rows.len(),
                    forall|k: int| 0 <= k < r ==> (#[trigger] rv[k]).len() == hv.len(),
                decreases rows.len() - r,
            {
                if rows[r].len() != n {
                    proof {
                        assert(rv[r as int].len() != hv.len());
                        assert(!csv_arity_ok(rv));
                    }
                    return None;
                }
                r += 1;
            }
            proof {
                assert(csv_arity_ok(rv));
            }

            // build, validating float cells
            let mut cols: Vec<Column> = Vec::new();
            let mut j: usize = 0;
            while j < n
                invariant
                    j <= n,
                    cols@.len() == j,
                    forall|a: int, b: int|
                        1 <= a < rv.len() && 0 <= b < j && csv_ty(hv, sv, b) == ColType::Float64
                            ==> is_number_text(#[trigger] rv[a][b]),
                    forall|b: int| 0 <= b < j ==> (#[trigger] cols@[b]@) == csv_built(rv, sv)[b],
                decreases n - j,
            {
                let name = &hdr[j];
                let ty = match crate::parse::schema_lookup(schema, name) {
                    Some(t) => t,
                    None => ColType::Text,
                };
                proof {
                    assert(ty == csv_ty(hv, sv, j as int));
                }
                let mut cells: Vec<String> = Vec::new();
                let mut a: usize = 1;
                while a < rows.len()
                    invariant
                        1 <= a <= rows.len(),
                        j < n,
                        ty == csv_ty(hv, sv, j as int),
                        cells@.len() == a - 1,
                        forall|k: int|
                            0 <= k < a - 1 ==> (#[trigger] cells@[k])@ == rv[k + 1][j as int],
                        forall|k: int|
                            1 <= k < a && ty == ColType::Float64 ==> is_number_text(
                                #[trigger] rv[k][j as int],
                            ),
                    decreases rows.len() - a,
                {
                    proof {
                        assert(rv[a as int] == cells_view(rows@[a as int]@));
                        assert(rv[a as int].len() == hv.len());
                    }
                    let cell = &rows[a][j];
                    proof {
                        assert(cell@ == rv[a as int][j as int]);
                    }
                    if matches!(ty, ColType::Float64) {
                        if !is_number_str(cell.as_str()) {
                            proof {
                                assert(!csv_floats_ok(rv, sv));
                            }
                            return None;
                        }
                    }
                    cells.push(cell.clone());
                    a += 1;
                }
                let col = Column { name: name.clone(), ty, cells };
                proof {
                    assert(col@.2 =~= Seq::new((rv.len() - 1) as nat, |k: int| rv[k + 1][j as int]));
                    assert(col@ =~~= csv_built(rv, sv)[j as int]);
                }
                cols.push(col);
                j += 1;
            }
            proof {
                assert(csv_floats_ok(rv, sv));
            }
            let t = Table { cols };
            proof {
                assert(t@ =~~= csv_built(rv, sv));
                assert forall|p: int| 0 <= p < t@.len() implies (#[trigger] t@[p].2).len()
                    == row_count_of(t@) by {
                    assert(t@[p].2.len() == rv.len() - 1);
                }
                assert(table_wf(t@));
            }
            Some(t)
        },
        None => None,
    }
}

// ---------------------------------------------------------------------------
// Cache round trip: a stored table, loaded under its own schema, comes back
// unchanged.
// ---------------------------------------------------------------------------

/// The schema a table declares for itself: its column names and types.
pub open spec fn schema_of(tv: Seq<(Seq<char>, ColType, Seq<Seq<char>>)>) -> Seq<
    (Seq<char>, ColType),
> {
    tv.map_values(|c: (Seq<char>, ColType, Seq<Seq<char>>)| (c.0, c.1))
}

proof fn lemma_uq_rt(s: Seq<char>, i: int, c: Seq<char>, acc: Seq<char>)
    requires
        0 <= i,
        i + c.len() <= s.len(),
        s.subrange(i, i + c.len()) == c,
        !needs_quote(c),
        i + c.len() == s.len() || is_field_stop(s[i + c.len()]),
    ensures
        sp_uq(s, i, acc) == Some((acc + c, i + c.len())),
    decreases c.len(),
{
    if c.len() == 0 {
        assert(acc + c =~= acc);
    } else {
        assert(c[0] == s.subrange(i, i + c.len())[0]);
        assert(s[i] == c[0]);
        assert(!(is_field_stop(c[0]) || c[0] == '"'));
        let c2 = c.drop_first();
        assert(s.subrange(i + 1, i + 1 + c2.len()) =~= c2) by {
            assert forall|k: int| 0 <= k < c2.len() implies s.subrange(i + 1, i + 1 + c2.len())[k]
                == c2[k] by {
                assert(s[i + 1 + k] == s.subrange(i, i + c.len())[k + 1]);
            }
        }
        assert(!needs_quote(c2)) by {
            if needs_quote(c2) {
                let w = choose|w: int|
                    0 <= w < c2.len() && (is_field_stop(c2[w]) || c2[w] == '"');
                assert(c[w + 1] == c2[w]);
                assert(needs_quote(c));
            }
        }
        lemma_uq_rt(s, i + 1, c2, acc.push(c[0]));
        assert(acc.push(c[0]) + c2 =~= acc + c);
    }
}

proof fn lemma_q_rt(s: Seq<char>, i: int, c: Seq<char>, k: int, acc: Seq<char>)
    requires
        0 <= k <= c.len(),
        0 <= i,
        i + sp_esc_suffix(c, k).len() + 1 <= s.len(),
        s.subrange(i, i + sp_esc_suffix(c, k).len()) == sp_esc_suffix(c, k),
        s[i + sp_esc_suffix(c, k).len()] == '"',
        i + sp_esc_suffix(c, k).len() + 1 == s.len() || s[i + sp_esc_suffix(c, k).len() + 1]
            != '"',
    ensures
        sp_q(s, i, acc) == Some((acc + c.skip(k), i + sp_esc_suffix(c, k).len() + 1)),
    decreases c.len() - k,
{
    let suf = sp_esc_suffix(c, k);
    if k == c.len() {
        assert(suf.len() == 0);
        assert(s[i] == '"');
        assert(acc + c.skip(k) =~= acc);
    } else {
        let rest = sp_esc_suffix(c, k + 1);
        if c[k] == '"' {
            assert(suf =~= seq!['"', '"'] + rest);
            assert(s[i] == suf[0] && s[i + 1] == suf[1]) by {
                assert(s[i] == s.subrange(i, i + suf.len())[0]);
                assert(s[i + 1] == s.subrange(i, i + suf.len())[1]);
            }
            assert(s[i] == '"' && s[i + 1] == '"');
            assert(s.subrange(i + 2, i + 2 + rest.len()) =~= rest) by {
                assert forall|m: int| 0 <= m < rest.len() implies s.subrange(
                    i + 2,
                    i + 2 + rest.len(),
                )[m] == rest[m] by {
                    assert(s[i + 2 + m] == s.subrange(i, i + suf.len())[m + 2]);
                }
            }
            lemma_q_rt(s, i + 2, c, k + 1, acc.push('"'));
            assert(acc.push('"') + c.skip(k + 1) =~= acc + c.skip(k));
        } else {
            assert(suf =~= seq![c[k]] + rest);
            assert(s[i] == suf[0]) by {
                assert(s[i] == s.subrange(i, i + suf.len())[0]);
            }
            assert(s[i] == c[k] && s[i] != '"');
            assert(s.subrange(i + 1, i + 1 + rest.len()) =~= rest) by {
                assert forall|m: int| 0 <= m < rest.len() implies s.subrange(
                    i + 1,
                    i + 1 + rest.len(),
                )[m] == rest[m] by {
                    assert(s[i + 1 + m] == s.subrange(i, i + suf.len())[m + 1]);
                }
            }
            lemma_q_rt(s, i + 1, c, k + 1, acc.push(c[k]));
            assert(acc.push(c[k]) + c.skip(k + 1) =~= acc + c.skip(k));
        }
    }
}

proof fn lemma_field_rt(s: Seq<char>, i: int, c: Seq<char>)
    requires
        0 <= i,
        i + enc_field(c).len() <= s.len(),
        s.subrange(i, i + enc_field(c).len()) == enc_field(c),
        i + enc_field(c).len() == s.len() || is_field_stop(s[i + enc_field(c).len()]),
    ensures
        sp_csv_field(s, i) == Some((c, i + enc_field(c).len())),
{
    let enc = enc_field(c);
    if needs_quote(c) {
        lemma_sp_esc_shift(c, 0, Seq::empty());
        let esc = sp_esc_suffix(c, 0);
        assert(Seq::<char>::empty() + esc =~= esc);
        assert(enc =~= seq!['"'] + esc + seq!['"']);
        assert(s[i] == enc[0]) by {
            assert(s[i] == s.subrange(i, i + enc.len())[0]);
        }
        assert(s[i] == '"');
        assert(s.subrange(i + 1, i + 1 + esc.len()) =~= esc) by {
            assert forall|m: int| 0 <= m < esc.len() implies s.subrange(
                i + 1,
                i + 1 + esc.len(),
            )[m] == esc[m] by {
                assert(s[i + 1 + m] == s.subrange(i, i + enc.len())[m + 1]);
            }
        }
        assert(s[i + 1 + esc.len()] == enc[enc.len() - 1]) by {
            assert(s[i + 1 + esc.len()] == s.subrange(i, i + enc.len())[enc.len() - 1]);
        }
        assert(s[i + 1 + esc.len()] == '"');
        assert(i + 1 + esc.len() + 1 == s.len() || s[i + 1 + esc.len() + 1] != '"') by {
            if i + enc.len() < s.len() {
                assert(is_field_stop(s[i + enc.len()]));
            }
        }
        lemma_q_rt(s, i + 1, c, 0, Seq::empty());
        assert(Seq::<char>::empty() + c.skip(0) =~= c);
    } else {
        if c.len() == 0 {
            assert(i == s.len() || is_field_stop(s[i]));
            assert(!(i < s.len() && s[i] == '"'));
            lemma_uq_rt(s, i, c, Seq::empty());
        } else {
            assert(s[i] == c[0]) by {
                assert(s[i] == s.subrange(i, i + enc.len())[0]);
            }
            assert(!(is_field_stop(c[0]) || c[0] == '"'));
            lemma_uq_rt(s, i, c, Seq::empty());
        }
        assert(Seq::<char>::empty() + c =~= c);
    }
}

/// The encoding of the cells from `j` on, with the comma that precedes
/// every cell but the first.
pub open spec fn row_enc_suffix(cells: Seq<Seq<char>>, j: int) -> Seq<char>
    decreases cells.len() - j,
    when 0 <= j <= cells.len()
{
    if j < cells.len() {
        let sep: Seq<char> = if j == 0 {
            Seq::empty()
        } else {
            seq![',']
        };
        sep + enc_field(cells[j]) + row_enc_suffix(cells, j + 1)
    } else {
        Seq::empty()
    }
}

proof fn lemma_row_enc_shift(cells: Seq<Seq<char>>, j: int, acc: Seq<char>)
    requires
        0 <= j <= cells.len(),
    ensures
        sp_row_enc(cells, j, acc) == acc + row_enc_suffix(cells, j),
    decreases cells.len() - j,
{
    if j < cells.len() {
        let sep: Seq<char> = if j == 0 {
            Seq::empty()
        } else {
            seq![',']
        };
        lemma_row_enc_shift(cells, j + 1, acc + sep + enc_field(cells[j]));
        assert(acc + sep + enc_field(cells[j]) + row_enc_suffix(cells, j + 1) =~= acc + (sep
            + enc_field(cells[j]) + row_enc_suffix(cells, j + 1)));
    } else {
        assert(acc + Seq::<char>::empty() =~= acc);
    }
}

proof fn lemma_row_rt(s: Seq<char>, i: int, cells: Seq<Seq<char>>, j: int, acc: Seq<Seq<char>>)
    requires
        0 <= j < cells.len(),
        0 <= i,
        i + enc_field(cells[j]).len() + row_enc_suffix(cells, j + 1).len() + 1 <= s.len(),
        s.subrange(
            i,
            i + enc_field(cells[j]).len() + row_enc_suffix(cells, j + 1).len(),
        ) == enc_field(cells[j]) + row_enc_suffix(cells, j + 1),
        s[i + enc_field(cells[j]).len() + row_enc_suffix(cells, j + 1).len()] == '\n',
    ensures
        sp_csv_row(s, i, acc) == Some(
            (
                acc + cells.skip(j),
                i + enc_field(cells[j]).len() + row_enc_suffix(cells, j + 1).len() + 1,
            ),
        ),
    decreases cells.len() - j,
{
    let enc = enc_field(cells[j]);
    let rest = row_enc_suffix(cells, j + 1);
    let seg = enc + rest;
    assert(s.subrange(i, i + enc.len()) =~= enc) by {
        assert forall|m: int| 0 <= m < enc.len() implies s.subrange(i, i + enc.len())[m]
            == enc[m] by {
            assert(s[i + m] == s.subrange(i, i + seg.len())[m]);
        }
    }
    let e = i + enc.len();
    if j + 1 < cells.len() {
        assert(rest[0] == ',');
        assert(s[e] == rest[0]) by {
            assert(s[e] == s.subrange(i, i + seg.len())[enc.len() as int]);
        }
        lemma_field_rt(s, i, cells[j]);
        assert(sp_csv_field(s, i) == Some((cells[j], e)));
        let enc2 = enc_field(cells[j + 1]);
        let rest2 = row_enc_suffix(cells, j + 2);
        assert(rest =~= seq![','] + enc2 + rest2);
        assert(s.subrange(e + 1, e + 1 + enc2.len() + rest2.len()) =~= enc2 + rest2) by {
            assert forall|m: int| 0 <= m < enc2.len() + rest2.len() implies s.subrange(
                e + 1,
                e + 1 + enc2.len() + rest2.len(),
            )[m] == (enc2 + rest2)[m] by {
                assert(s[e + 1 + m] == s.subrange(i, i + seg.len())[enc.len() + 1 + m]);
                assert((enc2 + rest2)[m] == rest[m + 1]);
            }
        }
        assert(s[e + 1 + enc2.len() + rest2.len()] == '\n');
        lemma_row_rt(s, e + 1, cells, j + 1, acc.push(cells[j]));
        assert(acc.push(cells[j]) + cells.skip(j + 1) =~= acc + cells.skip(j));
    } else {
        assert(rest.len() == 0);
        assert(seg =~= enc);
        lemma_field_rt(s, i, cells[j]);
        assert(sp_csv_field(s, i) == Some((cells[j], e)));
        assert(s[e] == '\n');
        assert(acc.push(cells[j]) =~= acc + cells.skip(j));
    }
}

/// The encoded, newline-terminated data rows from `r` on.
pub open spec fn csv_rows_suffix(tv: Seq<(Seq<char>, ColType, Seq<Seq<char>>)>, r: int) -> Seq<
    char,
>
    decreases row_count_of(tv) - r,
    when 0 <= r <= row_count_of(tv)
{
    if r < row_count_of(tv) {
        sp_row_enc(row_of(tv, r), 0, Seq::empty()) + seq!['\n'] + csv_rows_suffix(tv, r + 1)
    } else {
        Seq::empty()
    }
}

proof fn lemma_csv_rows_shift(tv: Seq<(Seq<char>, ColType, Seq<Seq<char>>)>, r: int, acc: Seq<char>)
    requires
        0 <= r <= row_count_of(tv),
    ensures
        sp_csv_rows(tv, r, acc) == acc + csv_rows_suffix(tv, r),
    decreases row_count_of(tv) - r,
{
    if r < row_count_of(tv) {
        let line = sp_row_enc(row_of(tv, r), 0, Seq::empty()) + seq!['\n'];
        assert(acc + sp_row_enc(row_of(tv, r), 0, Seq::empty()) + seq!['\n'] =~= acc + line);
        lemma_csv_rows_shift(tv, r + 1, acc + line);
        assert(acc + line + csv_rows_suffix(tv, r + 1) =~= acc + (line + csv_rows_suffix(
            tv,
            r + 1,
        )));
        assert(csv_rows_suffix(tv, r) == line + csv_rows_suffix(tv, r + 1));
    } else {
        assert(acc + Seq::<char>::empty() =~= acc);
    }
}

proof fn lemma_parse_rows_rt(
    s: Seq<char>,
    i: int,
    tv: Seq<(Seq<char>, ColType, Seq<Seq<char>>)>,
    r: int,
    acc: Seq<Seq<Seq<char>>>,
)
    requires
        tv.len() > 0,
        0 <= r <= row_count_of(tv),
        0 <= i,
        i + csv_rows_suffix(tv, r).len() == s.len(),
        s.subrange(i, s.len() as int) == csv_rows_suffix(tv, r),
    ensures
        sp_csv_parse(s, i, acc) == Some(
            acc + Seq::new((row_count_of(tv) - r) as nat, |m: int| row_of(tv, r + m)),
        ),
    decreases row_count_of(tv) - r,
{
    if r == row_count_of(tv) {
        assert(i == s.len());
        assert(acc + Seq::new(0, |m: int| row_of(tv, r + m)) =~= acc);
    } else {
        let cells = row_of(tv, r);
        assert(cells.len() == tv.len());
        lemma_row_enc_shift(cells, 0, Seq::empty());
        let line = sp_row_enc(cells, 0, Seq::empty());
        assert(line =~= Seq::<char>::empty() + row_enc_suffix(cells, 0));
        assert(line == row_enc_suffix(cells, 0));
        let rest_rows = csv_rows_suffix(tv, r + 1);
        let seg = csv_rows_suffix(tv, r);
        assert(seg =~= line + seq!['\n'] + rest_rows);
        // the first line: field encodings followed by the terminator
        let enc0 = enc_field(cells[0]);
        let rest0 = row_enc_suffix(cells, 1);
        assert(row_enc_suffix(cells, 0) =~= enc0 + rest0);
        assert(s.subrange(i, i + enc0.len() + rest0.len()) =~= enc0 + rest0) by {
            assert forall|m: int| 0 <= m < enc0.len() + rest0.len() implies s.subrange(
                i,
                i + enc0.len() + rest0.len(),
            )[m] == (enc0 + rest0)[m] by {
                assert(s[i + m] == s.subrange(i, s.len() as int)[m]);
                assert((enc0 + rest0)[m] == seg[m]);
            }
        }
        assert(s[i + enc0.len() + rest0.len()] == '\n') by {
            assert(s[i + line.len()] == s.subrange(i, s.len() as int)[line.len() as int]);
            assert(seg[line.len() as int] == '\n');
        }
        lemma_row_rt(s, i, cells, 0, Seq::empty());
        assert(sp_csv_row(s, i, Seq::empty()) == Some(
            (Seq::<Seq<char>>::empty() + cells, i + line.len() + 1),
        ));
        assert(Seq::<Seq<char>>::empty() + cells =~= cells);
        let i2 = i + line.len() + 1;
        assert(s.subrange(i2, s.len() as int) =~= rest_rows) by {
            assert forall|m: int| 0 <= m < rest_rows.len() implies s.subrange(
                i2,
                s.len() as int,
            )[m] == rest_rows[m] by {
                assert(s[i2 + m] == s.subrange(i, s.len() as int)[line.len() + 1 + m]);
                assert(seg[line.len() + 1 + m] == rest_rows[m]);
            }
        }
        assert(i < s.len()) by {
            assert(seg.len() > 0);
        }
        lemma_parse_rows_rt(s, i2, tv, r + 1, acc.push(cells));
        assert(acc.push(cells) + Seq::new((row_count_of(tv) - r - 1) as nat, |m: int| row_of(
            tv,
            r + 1 + m,
        )) =~= acc + Seq::new((row_count_of(tv) - r) as nat, |m: int| row_of(tv, r + m)));
    }
}

proof fn lemma_schema_first(tv: Seq<(Seq<char>, ColType, Seq<Seq<char>>)>, j: int, k: int)
    requires
        table_wf(tv),
        0 <= k <= j < tv.len(),
    ensures
        sp_forced(schema_of(tv), tv[j].0, k) == Some(tv[j].1),
    decreases j - k,
{
    assert(schema_of(tv)[k] == (tv[k].0, tv[k].1));
    if k < j {
        assert(tv[k].0 != tv[j].0);
        lemma_schema_first(tv, j, k + 1);
    }
}

/// Cache round trip: storing a well-formed table and loading the text back
/// under the table's own declared schema reproduces the table exactly --
/// same column names, same types, same row count, every cell unchanged.
pub proof fn lemma_store_load(tv: Seq<(Seq<char>, ColType, Seq<Seq<char>>)>)
    requires
        table_wf(tv),
        tv.len() > 0,
    ensures
        spec_load_csv(spec_store_csv(tv), schema_of(tv)) == Some(tv),
{
    let names = names_of(tv);
    lemma_row_enc_shift(names, 0, Seq::empty());
    let header = sp_row_enc(names, 0, Seq::empty());
    assert(header =~= Seq::<char>::empty() + row_enc_suffix(names, 0));
    assert(header == row_enc_suffix(names, 0));
    lemma_csv_rows_shift(tv, 0, header + seq!['\n']);
    let s = spec_store_csv(tv);
    assert(s == header + seq!['\n'] + csv_rows_suffix(tv, 0));

    // parse the header line
    let enc0 = enc_field(names[0]);
    let rest0 = row_enc_suffix(names, 1);
    assert(row_enc_suffix(names, 0) =~= enc0 + rest0);
    assert(s.subrange(0, enc0.len() + rest0.len() as int) =~= enc0 + rest0) by {
        assert forall|m: int| 0 <= m < enc0.len() + rest0.len() implies s.subrange(
            0,
            enc0.len() + rest0.len() as int,
        )[m] == (enc0 + rest0)[m] by {
            assert(s[m] == (header + seq!['\n'] + csv_rows_suffix(tv, 0))[m]);
        }
    }
    assert(s[enc0.len() + rest0.len() as int] == '\n') by {
        assert(s[header.len() as int] == (header + seq!['\n'] + csv_rows_suffix(tv, 0))[
            header.len() as int]);
    }
    lemma_row_rt(s, 0, names, 0, Seq::empty());
    assert(sp_csv_row(s, 0, Seq::empty()) == Some(
        (Seq::<Seq<char>>::empty() + names, header.len() + 1 as int),
    ));
    assert(Seq::<Seq<char>>::empty() + names =~= names);
    let i2: int = header.len() as int + 1;
    assert(s.subrange(i2 as int, s.len() as int) =~= csv_rows_suffix(tv, 0)) by {
        assert forall|m: int| 0 <= m < csv_rows_suffix(tv, 0).len() implies s.subrange(
            i2 as int,
            s.len() as int,
        )[m] == csv_rows_suffix(tv, 0)[m] by {
            assert(s[i2 + m] == (header + seq!['\n'] + csv_rows_suffix(tv, 0))[i2 + m]);
        }
    }
    assert(0 < s.len()) by {
        assert(s.len() == header.len() + 1 + csv_rows_suffix(tv, 0).len());
    }
    lemma_parse_rows_rt(s, i2, tv, 0, Seq::empty().push(names));
    let data_rows = Seq::new(row_count_of(tv), |m: int| row_of(tv, 0 + m));
    let rows = Seq::<Seq<Seq<char>>>::empty().push(names) + data_rows;
    assert(sp_csv_parse(s, 0, Seq::empty()) == Some(rows));

    // the parsed rows rebuild the table
    assert(rows.len() == 1 + row_count_of(tv));
    assert(rows[0] =~= names);
    assert(rows[0].len() == tv.len());
    assert(!csv_hdr_dup(rows[0])) by {
        if csv_hdr_dup(rows[0]) {
            let (a, b) = choose|a: int, b: int|
                0 <= a < b < rows[0].len() && rows[0][a] == rows[0][b];
            assert(tv[a].0 == tv[b].0);
        }
    }
    assert(csv_arity_ok(rows)) by {
        assert forall|r: int| 0 <= r < rows.len() implies (#[trigger] rows[r]).len()
            == rows[0].len() by {
            if r > 0 {
                assert(rows[r] == data_rows[r - 1]);
                assert(rows[r].len() == row_of(tv, r - 1).len());
            }
        }
    }
    assert forall|j: int| 0 <= j < tv.len() implies csv_ty(rows[0], schema_of(tv), j) == tv[j].1 by {
        assert(rows[0][j] == tv[j].0);
        lemma_schema_first(tv, j, 0);
    }
    assert(csv_floats_ok(rows, schema_of(tv))) by {
        assert forall|r: int, j: int|
            1 <= r < rows.len() && 0 <= j < rows[0].len() && csv_ty(rows[0], schema_of(tv), j)
                == ColType::Float64 implies is_number_text(#[trigger] rows[r][j]) by {
            assert(rows[r] == data_rows[r - 1]);
            assert(rows[r][j] == tv[j].2[r - 1]);
            assert(tv[j].1 == ColType::Float64);
        }
    }
    assert(csv_built(rows, schema_of(tv)) =~~= tv) by {
        assert forall|j: int| 0 <= j < tv.len() implies csv_built(rows, schema_of(tv))[j]
            =~~= tv[j] by {
            assert(rows[0][j] == tv[j].0);
            assert(csv_ty(rows[0], schema_of(tv), j) == tv[j].1);
            assert(Seq::new((rows.len() - 1) as nat, |r: int| rows[r + 1][j]) =~= tv[j].2) by {
                assert forall|r: int| 0 <= r < row_count_of(tv) implies rows[r + 1][j] == tv[
                    j].2[r] by {
                    assert(rows[r + 1] == data_rows[r]);
                    assert(data_rows[r] == row_of(tv, r));
                }
                assert(tv[j].2.len() == row_count_of(tv));
            }
        }
    }
    assert(spec_load_csv(s, schema_of(tv)) == Some(csv_built(rows, schema_of(tv))));
    assert(csv_built(rows, schema_of(tv)) == tv);
}

} // verus!
