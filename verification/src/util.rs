//! Date helper and the formatting of one day's quote into a line of the
//! local CSV store.

use vstd::prelude::*;

verus! {

/// Date helpers.
pub struct DateUtils;

/// Formatting helpers for the local CSV store.
pub struct IoUtils;

/// Which realtime quote table a row comes from; the two tables lay out
/// their columns differently.
#[derive(Debug, Clone, Copy, PartialEq, Eq, Structural)]
pub enum RowFormat {
    /// Eastmoney stock quotes: symbol, code, name, latest, change %,
    /// change, volume, amount, ... (the spot table of individual stocks).
    Eastmoney,
    /// Sina index quotes: symbol, code, name, latest, change %, change,
    /// volume, amount, buy, high, low, open, previous close, ...
    SinaIndex,
}

pub open spec fn is_digit(c: char) -> bool {
    '0' <= c && c <= '9'
}

pub open spec fn digit_value(c: char) -> int {
    (c as int) - ('0' as int)
}

/// Two decimal digits at `s[i]`, `s[i + 1]` whose value lies in `lo..=hi`.
pub open spec fn two_digits_in(s: Seq<char>, i: int, lo: int, hi: int) -> bool {
    &&& is_digit(s[i])
    &&& is_digit(s[i + 1])
    &&& lo <= 10 * digit_value(s[i]) + digit_value(s[i + 1]) <= hi
}

/// The shape of a `%Y-%m-%d` date as chrono writes it: a year of at least
/// four digits (with a sign outside 0..=9999), a month 01..=12 and a day
/// 01..=31, separated by '-'.
pub open spec fn is_ymd_date(s: Seq<char>) -> bool {
    let n = s.len() as int;
    &&& n >= 10
    &&& s[n - 6] == '-'
    &&& s[n - 3] == '-'
    &&& two_digits_in(s, n - 5, 1, 12)
    &&& two_digits_in(s, n - 2, 1, 31)
    &&& forall|i: int| 1 <= i < n - 6 ==> is_digit(#[trigger] s[i])
    &&& (is_digit(s[0]) || s[0] == '+' || s[0] == '-')
}

impl DateUtils {
    /// Today's local date in the form year-month-day (`%Y-%m-%d`).
    ///
    /// Reads `std::time::SystemTime::now`, converts it with chrono's
    /// `From<SystemTime> for DateTime<Local>` (which also takes clocks before
    /// 1970) and formats it with `DateTime::format`. The date depends on the
    /// clock, so only its shape is promised, as chrono documents the `%Y`,
    /// `%m` and `%d` specifiers; which day it names is left unsaid. chrono
    /// still panics on a clock outside its years -262144..=262143 and on
    /// local zone data with no usable offset; neither is a value a
    /// `requires` can name.
    #[verifier::external_body]
    pub fn now_fmt_ymd() -> (res: String)
        ensures
            is_ymd_date(res@),
    {
        chrono::DateTime::<chrono::Local>::from(std::time::SystemTime::now()).format("%Y-%m-%d").to_string()
    }
}

/// The value an Eastmoney quote row gives to the column `header` of the
/// local CSV store, if any: close, open, volume, low, high and adjclose are
/// cells 2, 10, 5, 9, 8 and 11 of the row, dividends and splits are "0".
pub open spec fn em_cell(date: Seq<char>, symbol: Seq<char>, row: Seq<Seq<char>>, header: Seq<char>)
    -> Option<Seq<char>> {
    if header == "close"@ {
        Some(row[2])
    } else if header == "open"@ {
        Some(row[10])
    } else if header == "volume"@ {
        Some(row[5])
    } else if header == "low"@ {
        Some(row[9])
    } else if header == "high"@ {
        Some(row[8])
    } else if header == "adjclose"@ {
        Some(row[11])
    } else if header == "dividends"@ {
        Some(seq!['0'])
    } else if header == "splits"@ {
        Some(seq!['0'])
    } else if header == "symbol"@ {
        Some(symbol)
    } else if header == "date"@ {
        Some(date)
    } else {
        None
    }
}

/// The value a Sina index quote row gives to the column `header` of the
/// local CSV store, if any: open, close, high, low, volume, money, change and
/// adjclose are cells 11, 3, 9, 10, 6, 7, 4 and 12 of the row.
pub open spec fn spot_cell(date: Seq<char>, symbol: Seq<char>, row: Seq<Seq<char>>, header: Seq<char>)
    -> Option<Seq<char>> {
    if header == "date"@ {
        Some(date)
    } else if header == "open"@ {
        Some(row[11])
    } else if header == "close"@ {
        Some(row[3])
    } else if header == "high"@ {
        Some(row[9])
    } else if header == "low"@ {
        Some(row[10])
    } else if header == "volume"@ {
        Some(row[6])
    } else if header == "money"@ {
        Some(row[7])
    } else if header == "change"@ {
        Some(row[4])
    } else if header == "adjclose"@ {
        Some(row[12])
    } else if header == "symbol"@ {
        Some(symbol)
    } else {
        None
    }
}

pub open spec fn quote_cell(
    format: RowFormat,
    date: Seq<char>,
    symbol: Seq<char>,
    row: Seq<Seq<char>>,
    header: Seq<char>,
) -> Option<Seq<char>> {
    match format {
        RowFormat::Eastmoney => em_cell(date, symbol, row, header),
        RowFormat::SinaIndex => spot_cell(date, symbol, row, header),
    }
}

/// The number of cells a quote row of the given table must have at least.
pub open spec fn row_width(format: RowFormat) -> nat {
    match format {
        RowFormat::Eastmoney => 12,
        RowFormat::SinaIndex => 13,
    }
}

/// `row_width`, computed.
pub fn row_width_exec(format: RowFormat) -> (res: usize)
    ensures
        res == row_width(format),
{
    match format {
        RowFormat::Eastmoney => 12,
        RowFormat::SinaIndex => 13,
    }
}

/// The fields of the CSV line, one per header and in header order; a header
/// the quote gives no value for gets an empty field.
pub open spec fn row_fields(
    format: RowFormat,
    date: Seq<char>,
    symbol: Seq<char>,
    row: Seq<Seq<char>>,
    headers: Seq<Seq<char>>,
) -> Seq<Seq<char>> {
    Seq::new(
        headers.len(),
        |i: int|
            match quote_cell(format, date, symbol, row, headers[i]) {
                Some(v) => v,
                None => Seq::empty(),
            },
    )
}

/// The fields separated by ','.
pub open spec fn join_fields(fields: Seq<Seq<char>>) -> Seq<char>
    decreases fields.len(),
{
    if fields.len() == 0 {
        Seq::empty()
    } else if fields.len() == 1 {
        fields[0]
    } else {
        join_fields(fields.drop_last()) + seq![','] + fields.last()
    }
}

/// A CSV line: the fields separated by ',' and ended by "\r\n".
pub open spec fn csv_line(fields: Seq<Seq<char>>) -> Seq<char> {
    join_fields(fields) + seq!['\r', '\n']
}

pub open spec fn strings_view(v: Seq<String>) -> Seq<Seq<char>> {
    v.map_values(|s: String| s@)
}

/// Whether `s` holds the text `lit`.
pub(crate) fn is_text(s: &String, lit: &str) -> (res: bool)
    ensures
        res == (s@ == lit@),
{
    let t = String::from_str(lit);
    *s == t
}

/// The cell of `row` for `header`, as `quote_cell` states.
fn cell_for(format: RowFormat, date: &String, symbol: &String, row: &Vec<String>, header: &String) -> (res:
    Option<String>)
    requires
        row.len() >= row_width(format),
    ensures
        match quote_cell(format, date@, symbol@, strings_view(row@), header@) {
            Some(v) => res is Some && res->0@ == v,
            None => res is None,
        },
{
    proof {
        reveal_strlit("0");
    }
    match format {
        RowFormat::Eastmoney => {
            if is_text(header, "close") {
                Some(row[2].clone())
            } else if is_text(header, "open") {
                Some(row[10].clone())
            } else if is_text(header, "volume") {
                Some(row[5].clone())
            } else if is_text(header, "low") {
                Some(row[9].clone())
            } else if is_text(header, "high") {
                Some(row[8].clone())
            } else if is_text(header, "adjclose") {
                Some(row[11].clone())
            } else if is_text(header, "dividends") {
                Some(String::from_str("0"))
            } else if is_text(header, "splits") {
                Some(String::from_str("0"))
            } else if is_text(header, "symbol") {
                Some(symbol.clone())
            } else if is_text(header, "date") {
                Some(date.clone())
            } else {
                None
            }
        },
        RowFormat::SinaIndex => {
            if is_text(header, "date") {
                Some(date.clone())
            } else if is_text(header, "open") {
                Some(row[11].clone())
            } else if is_text(header, "close") {
                Some(row[3].clone())
            } else if is_text(header, "high") {
                Some(row[9].clone())
            } else if is_text(header, "low") {
                Some(row[10].clone())
            } else if is_text(header, "volume") {
                Some(row[6].clone())
            } else if is_text(header, "money") {
                Some(row[7].clone())
            } else if is_text(header, "change") {
                Some(row[4].clone())
            } else if is_text(header, "adjclose") {
                Some(row[12].clone())
            } else if is_text(header, "symbol") {
                Some(symbol.clone())
            } else {
                None
            }
        },
    }
}

impl IoUtils {
    /// The CSV line that records one day's quote of a stock or index under
    /// the given headers, as `format` lays out the quote's cells.
    pub fn row_to_csv(
        format: RowFormat,
        current_date: &String,
        symbol: &String,
        row: &Vec<String>,
        headers: &Vec<String>,
    ) -> (res: String)
        requires
            row.len() >= row_width(format),
            headers.len() >= 1,
        ensures
            res@ == csv_line(
                row_fields(format, current_date@, symbol@, strings_view(row@), strings_view(headers@)),
            ),
    {
        let ghost fields = row_fields(
            format,
            current_date@,
            symbol@,
            strings_view(row@),
            strings_view(headers@),
        );
        let mut out = String::new();
        let mut i: usize = 0;
        while i < headers.len()
            invariant
                i <= headers.len(),
                row.len() >= row_width(format),
                fields == row_fields(
                    format,
                    current_date@,
                    symbol@,
                    strings_view(row@),
                    strings_view(headers@),
                ),
                out@ == join_fields(fields.take(i as int)),
            decreases headers.len() - i,
        {
            let ghost prev = out@;
            if i > 0 {
                proof {
                    reveal_strlit(",");
                }
                out.append(",");
            }
            let cell = cell_for(format, current_date, symbol, row, &headers[i]);
            match cell {
                Some(v) => {
                    out.append(v.as_str());
                },
                None => {},
            }
            proof {
                let t = fields.take(i + 1);
                assert(t.drop_last() =~= fields.take(i as int));
                assert(t.last() == fields[i as int]);
                if i == 0 {
                    assert(out@ =~= t[0]);
                } else {
                    assert(out@ =~= join_fields(t.drop_last()) + seq![','] + t.last());
                }
            }
            i = i + 1;
        }
        proof {
            assert(fields.take(headers.len() as int) =~= fields);
            reveal_strlit("\r\n");
        }
        out.append("\r\n");
        out
    }

    /// The CSV line for one day's Eastmoney stock quote (`row` holds the
    /// quote's cells as text).
    pub fn em_row_to_csv(current_date: String, symbol: String, row: &Vec<String>, headers: &Vec<String>) -> (res:
        String)
        requires
            row.len() >= 12,
            headers.len() >= 1,
        ensures
            res@ == csv_line(
                row_fields(
                    RowFormat::Eastmoney,
                    current_date@,
                    symbol@,
                    strings_view(row@),
                    strings_view(headers@),
                ),
            ),
    {
        Self::row_to_csv(RowFormat::Eastmoney, &current_date, &symbol, row, headers)
    }

    /// The CSV line for one day's Sina index quote (`row` holds the quote's
    /// cells as text).
    pub fn spot_index_row_to_csv(current_date: String, symbol: String, row: &Vec<String>, headers: &Vec<String>) -> (res:
        String)
        requires
            row.len() >= 13,
            headers.len() >= 1,
        ensures
            res@ == csv_line(
                row_fields(
                    RowFormat::SinaIndex,
                    current_date@,
                    symbol@,
                    strings_view(row@),
                    strings_view(headers@),
                ),
            ),
    {
        Self::row_to_csv(RowFormat::SinaIndex, &current_date, &symbol, row, headers)
    }
}

} // verus!
