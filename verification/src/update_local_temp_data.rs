use vstd::prelude::*;

use crate::strutil::str_eq;
use crate::table::cells_view;

verus! {

// ---------------------------------------------------------------------------
// The long-lived per-symbol history files are appended to once per day from
// a same-day snapshot.  What to append, and whether today's row is already
// there, is computed here; reading and appending the files stays outside.
// ---------------------------------------------------------------------------

/// The value the history row carries under a header name: fixed positions
/// of the snapshot row, the symbol, today's date, zero for the corporate
/// action columns, and empty text for anything else.
pub open spec fn history_value(
    h: Seq<char>,
    symbol: Seq<char>,
    row: Seq<Seq<char>>,
    date: Seq<char>,
) -> Seq<char> {
    if h == "close"@ {
        row[2]
    } else if h == "open"@ {
        row[10]
    } else if h == "volume"@ {
        row[5]
    } else if h == "low"@ {
        row[9]
    } else if h == "high"@ {
        row[8]
    } else if h == "adjclose"@ {
        row[11]
    } else if h == "dividends"@ {
        "0"@
    } else if h == "splits"@ {
        "0"@
    } else if h == "symbol"@ {
        symbol
    } else if h == "date"@ {
        date
    } else {
        Seq::empty()
    }
}

/// The history line: one value per header, comma-separated, ended the way
/// the history files end their lines.
pub open spec fn sp_history_line(
    headers: Seq<Seq<char>>,
    j: int,
    symbol: Seq<char>,
    row: Seq<Seq<char>>,
    date: Seq<char>,
    acc: Seq<char>,
) -> Seq<char>
    decreases headers.len() - j,
    when 0 <= j <= headers.len()
{
    if j < headers.len() {
        let sep: Seq<char> = if j == 0 {
            Seq::empty()
        } else {
            ","@
        };
        sp_history_line(
            headers,
            j + 1,
            symbol,
            row,
            date,
            acc + sep + history_value(headers[j], symbol, row, date),
        )
    } else {
        acc + "\r\n"@
    }
}

/// One history-file line for a snapshot row, under the file's own headers.
pub fn row_to_csv(
    symbol: String,
    row: &Vec<String>,
    headers: &Vec<String>,
    date_ymd: &str,
) -> (r: String)
    requires
        row@.len() >= 12,
        headers@.len() > 0,
    ensures
        r@ == sp_history_line(
            cells_view(headers@),
            0,
            symbol@,
            cells_view(row@),
            date_ymd@,
            Seq::empty(),
        ),
{
    let ghost hv = cells_view(headers@);
    let ghost rv = cells_view(row@);
    let mut out: String = String::new();
    let mut j: usize = 0;
    while j < headers.len()
        invariant
            j <= headers.len(),
            hv == cells_view(headers@),
            rv == cells_view(row@),
            rv.len() >= 12,
            hv.len() == headers.len(),
            sp_history_line(hv, 0, symbol@, rv, date_ymd@, Seq::empty()) == sp_history_line(
                hv,
                j as int,
                symbol@,
                rv,
                date_ymd@,
                out@,
            ),
        decreases headers.len() - j,
    {
        let ghost before = out@;
        if j > 0 {
            out.append(",");
        }
        let h = &headers[j];
        if str_eq(h.as_str(), "close") {
            out.append(row[2].as_str());
        } else if str_eq(h.as_str(), "open") {
            out.append(row[10].as_str());
        } else if str_eq(h.as_str(), "volume") {
            out.append(row[5].as_str());
        } else if str_eq(h.as_str(), "low") {
            out.append(row[9].as_str());
        } else if str_eq(h.as_str(), "high") {
            out.append(row[8].as_str());
        } else if str_eq(h.as_str(), "adjclose") {
            out.append(row[11].as_str());
        } else if str_eq(h.as_str(), "dividends") {
            out.append("0");
        } else if str_eq(h.as_str(), "splits") {
            out.append("0");
        } else if str_eq(h.as_str(), "symbol") {
            out.append(symbol.as_str());
        } else if str_eq(h.as_str(), "date") {
            out.append(date_ymd);
        }
        proof {
            assert(hv[j as int] == headers@[j as int]@);
            let sep: Seq<char> = if j == 0 {
                Seq::empty()
            } else {
                ","@
            };
            assert(out@ =~= before + sep + history_value(hv[j as int], symbol@, rv, date_ymd@));
        }
        j += 1;
    }
    out.append("\r\n");
    out
}

/// The position of a header name in a header row, if it occurs (its first
/// occurrence).
pub fn header_position(headers: &Vec<String>, name: &str) -> (r: Option<usize>)
    ensures
        match r {
            Some(ix) => ix < headers@.len() && headers@[ix as int]@ == name@ && forall|k: int|
                0 <= k < ix ==> (#[trigger] headers@[k])@ != name@,
            None => forall|k: int| 0 <= k < headers@.len() ==> (#[trigger] headers@[k])@ != name@,
        },
{
    let mut i: usize = 0;
    while i < headers.len()
        invariant
            i <= headers.len(),
            forall|k: int| 0 <= k < i ==> (#[trigger] headers@[k])@ != name@,
        decreases headers.len() - i,
    {
        if str_eq(headers[i].as_str(), name) {
            return Some(i);
        }
        i += 1;
    }
    None
}

/// Whether some record already carries `date` in the given column: when it
/// does, today's row has been appended before and must not be appended
/// again.
pub fn has_row_dated(records: &Vec<Vec<String>>, date_idx: usize, date: &str) -> (r: bool)
    ensures
        r == exists|k: int|
            0 <= k < records@.len() && date_idx < (#[trigger] records@[k])@.len()
                && records@[k]@[date_idx as int]@ == date@,
{
    let mut k: usize = 0;
    while k < records.len()
        invariant
            k <= records.len(),
            forall|m: int|
                0 <= m < k ==> !(date_idx < (#[trigger] records@[m])@.len()
                    && records@[m]@[date_idx as int]@ == date@),
        decreases records.len() - k,
    {
        if date_idx < records[k].len() {
            if str_eq(records[k][date_idx].as_str(), date) {
                return true;
            }
        }
        k += 1;
    }
    false
}

} // verus!
