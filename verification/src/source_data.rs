//! The local CSV store of daily quotes: reading a stored file, and deciding
//! for one stored file whether and what to append for the day being updated.

use vstd::prelude::*;
use vstd::string::StringSliceAdditionalSpecFns;
use vstd::utf8::*;

use crate::util::{csv_line, quote_cell, row_fields, row_width, row_width_exec, strings_view, IoUtils, RowFormat};

verus! {

broadcast use {encode_utf8_valid_utf8, encode_utf8_decode_utf8};

/// The `csv` crate's error type, carried through opaquely.
#[verifier::external_type_specification]
#[verifier::external_body]
pub struct ExCsvError(csv::Error);

/// The header record of the CSV text `bytes`, as the `csv` crate reads it
/// (default settings, first record taken as header); `None` when reading it
/// fails.
pub uninterp spec fn csv_header_record(bytes: Seq<u8>) -> Option<Seq<Seq<char>>>;

/// The records after the header of the CSV text `bytes`, as the `csv` crate
/// reads them (default settings); `None` when reading any of them fails.
pub uninterp spec fn csv_data_records(bytes: Seq<u8>) -> Option<Seq<Seq<Seq<char>>>>;

pub open spec fn table_view(t: Seq<Vec<String>>) -> Seq<Seq<Seq<char>>> {
    t.map_values(|r: Vec<String>| strings_view(r@))
}

/// A field as the CSV reader gives it for text without any quote character:
/// no record terminator ('\r' or '\n') and no delimiter (',') in it.
pub open spec fn plain_field(f: Seq<char>) -> bool {
    forall|k: int| 0 <= k < f.len() ==> #[trigger] f[k] != '\r' && f[k] != '\n' && f[k] != ','
}

/// Every field of every record is a plain field.
pub open spec fn plain_table(t: Seq<Seq<Seq<char>>>) -> bool {
    forall|i: int, j: int| 0 <= i < t.len() && 0 <= j < t[i].len() ==> plain_field(#[trigger] t[i][j])
}

/// The byte of the CSV quote character '"'.
pub open spec fn quote_byte() -> u8 {
    34u8
}

/// Calls `csv::ReaderBuilder::from_reader` with headers enabled and then
/// `Reader::headers`. Claims that the result is the header record named by
/// `csv_header_record`, each field as text, and, as csv-core's reader
/// (default `Terminator::CRLF`: '\r', '\n' and "\r\n" end a record, ','
/// ends a field) copies such bytes into a field only inside quotes, that a
/// text with no '"' gives fields without '\r', '\n' or ','.
#[verifier::external_body]
fn read_csv_headers(bytes: &[u8]) -> (res: Result<Vec<String>, csv::Error>)
    ensures
        res is Ok <==> csv_header_record(bytes@) is Some,
        res matches Ok(h) ==> csv_header_record(bytes@) == Some(strings_view(h@)),
        res matches Ok(h) ==> (!bytes@.contains(quote_byte()) ==> plain_table(seq![strings_view(h@)])),
{
    let mut rdr = csv::ReaderBuilder::new().has_headers(true).from_reader(bytes);
    rdr.headers().map(|h| h.iter().map(String::from).collect())
}

/// Calls `csv::ReaderBuilder::from_reader` with headers enabled and collects
/// `Reader::records`, stopping at the first error. Claims that the result is
/// the sequence named by `csv_data_records` and, as for the header, that a
/// text with no '"' gives fields without '\r', '\n' or ','.
#[verifier::external_body]
fn read_csv_records(bytes: &[u8]) -> (res: Result<Vec<Vec<String>>, csv::Error>)
    ensures
        res is Ok <==> csv_data_records(bytes@) is Some,
        res matches Ok(rs) ==> csv_data_records(bytes@) == Some(table_view(rs@)),
        res matches Ok(rs) ==> (!bytes@.contains(quote_byte()) ==> plain_table(table_view(rs@))),
{
    let mut rdr = csv::ReaderBuilder::new().has_headers(true).from_reader(bytes);
    rdr.records().map(|r| r.map(|rec| rec.iter().map(String::from).collect())).collect()
}

/// A stored file could not be read as CSV.
#[derive(Debug)]
pub enum LoadError {
    /// A record after the header is malformed.
    Record(csv::Error),
}

/// The records of a stored CSV file from what the CSV reader gave: the header
/// record first, then the other records. A header that could not be read
/// gives no records at all (the other records are then not looked at); a
/// failure reading the other records is an error.
pub fn header_then_records(
    header: Result<Vec<String>, csv::Error>,
    records: Result<Vec<Vec<String>>, csv::Error>,
) -> (res: Result<Vec<Vec<String>>, LoadError>)
    ensures
        header is Err ==> (res matches Ok(v) && v@.len() == 0),
        header matches Ok(h) ==> (match records {
            Ok(rs) => res matches Ok(v) && table_view(v@) == seq![strings_view(h@)] + table_view(rs@),
            Err(_) => res is Err,
        }),
{
    match header {
        Err(_) => Ok(Vec::new()),
        Ok(headers) => {
            match records {
                Err(e) => Err(LoadError::Record(e)),
                Ok(records) => {
                    let ghost rs = records@;
                    let ghost h = headers;
                    let mut all: Vec<Vec<String>> = Vec::new();
                    all.push(headers);
                    let mut records = records;
                    all.append(&mut records);
                    proof {
                        assert(all@ =~= seq![h] + rs);
                        assert(table_view(all@) =~= seq![strings_view(h@)] + table_view(rs));
                    }
                    Ok(all)
                },
            }
        },
    }
}

/// The records of a stored CSV file, header first. A file whose header
/// cannot be read gives no records at all; a malformed later record is an
/// error.
pub fn load_csv(bytes: &[u8]) -> (res: Result<Vec<Vec<String>>, LoadError>)
    ensures
        csv_header_record(bytes@) is None ==> (res matches Ok(v) && v@.len() == 0),
        csv_header_record(bytes@) matches Some(h) ==> (match csv_data_records(bytes@) {
            Some(rs) => res matches Ok(v) && table_view(v@) == seq![h] + rs,
            None => res is Err,
        }),
        res matches Ok(v) ==> (!bytes@.contains(quote_byte()) ==> plain_table(table_view(v@))),
{
    let header = read_csv_headers(bytes);
    let records = read_csv_records(bytes);
    let ghost gh = header;
    let ghost gr = records;
    let res = header_then_records(header, records);
    proof {
        if gh is Ok && gr is Ok && !bytes@.contains(quote_byte()) {
            lemma_plain_concat(strings_view(gh->Ok_0@), table_view(gr->Ok_0@));
        }
    }
    res
}

proof fn lemma_plain_concat(h: Seq<Seq<char>>, rv: Seq<Seq<Seq<char>>>)
    requires
        plain_table(seq![h]),
        plain_table(rv),
    ensures
        plain_table(seq![h] + rv),
{
    let hv = seq![h];
    let t = hv + rv;
    assert forall|i: int, j: int| 0 <= i < t.len() && 0 <= j < t[i].len() implies plain_field(#[trigger] t[i][j]) by {
        if i == 0 {
            assert(t[i] == hv[0]);
            assert(plain_field(hv[0][j]));
        } else {
            assert(t[i] == rv[i - 1]);
            assert(plain_field(rv[i - 1][j]));
        }
    }
}

/// Whether a stored file's name (as UTF-8 bytes) ends with ".csv".
pub open spec fn is_csv_name(name: Seq<u8>) -> bool {
    &&& name.len() >= 4
    &&& name.subrange(name.len() - 4, name.len() as int) == seq![46u8, 99u8, 115u8, 118u8]
}

/// The symbol a stored file is named after: its first eight bytes, e.g.
/// "sh600000" for "sh600000.csv".
pub open spec fn file_symbol(name: Seq<u8>) -> Seq<char> {
    decode_utf8(name.subrange(0, 8))
}

/// The bare code of a stored file's symbol: bytes two to eight of its name,
/// e.g. "600000" for "sh600000.csv".
pub open spec fn file_symbol_code(name: Seq<u8>) -> Seq<char> {
    decode_utf8(name.subrange(2, 8))
}

/// The position of the first field equal to `x`.
pub open spec fn first_index_of(s: Seq<Seq<char>>, x: Seq<char>) -> Option<int>
    decreases s.len(),
{
    if s.len() == 0 {
        None
    } else if s[0] == x {
        Some(0)
    } else {
        match first_index_of(s.drop_first(), x) {
            Some(i) => Some(i + 1),
            None => None,
        }
    }
}

/// The outcome of looking for the day being updated among the records of a
/// stored file, in order, by the date field at position `pos`.
#[derive(Debug, Clone, Copy, PartialEq, Eq, Structural)]
pub enum DateScan {
    /// A record holds the date.
    Found,
    /// No record holds the date.
    Absent,
    /// A record before any match is too short to have a date field.
    ShortRecord,
}

pub open spec fn scan_dates(records: Seq<Seq<Seq<char>>>, pos: int, date: Seq<char>) -> DateScan
    decreases records.len(),
{
    if records.len() == 0 {
        DateScan::Absent
    } else if records[0].len() <= pos {
        DateScan::ShortRecord
    } else if records[0][pos] == date {
        DateScan::Found
    } else {
        scan_dates(records.drop_first(), pos, date)
    }
}

/// The realtime quotes of the day, as the text of their cells.
pub struct QuoteTable {
    /// The "symbol" column, when the table has one; `None` marks a missing
    /// value.
    pub symbols: Option<Vec<Option<String>>>,
    /// The cells of each quote, in column order.
    pub rows: Vec<Vec<String>>,
}

pub open spec fn opt_strings_view(v: Seq<Option<String>>) -> Seq<Option<Seq<char>>> {
    v.map_values(|o: Option<String>|
        match o {
            Some(s) => Some(s@),
            None => None,
        })
}

impl QuoteTable {
    /// The symbol column, when present, has one value per quote.
    pub open spec fn wf(&self) -> bool {
        self.symbols matches Some(s) ==> s@.len() == self.rows@.len()
    }

    pub open spec fn symbols_view(&self) -> Option<Seq<Option<Seq<char>>>> {
        match self.symbols {
            Some(s) => Some(opt_strings_view(s@)),
            None => None,
        }
    }

    pub open spec fn rows_view(&self) -> Seq<Seq<Seq<char>>> {
        table_view(self.rows@)
    }
}

/// The first quote whose symbol is the bare code or the full symbol.
pub open spec fn first_quote(symbols: Seq<Option<Seq<char>>>, code: Seq<char>, symbol: Seq<char>) -> Option<
    int,
>
    decreases symbols.len(),
{
    if symbols.len() == 0 {
        None
    } else if symbols[0] == Some(code) || symbols[0] == Some(symbol) {
        Some(0)
    } else {
        match first_quote(symbols.drop_first(), code, symbol) {
            Some(i) => Some(i + 1),
            None => None,
        }
    }
}

proof fn lemma_first_index_bound(s: Seq<Seq<char>>, x: Seq<char>)
    ensures
        first_index_of(s, x) matches Some(i) ==> 0 <= i < s.len(),
    decreases s.len(),
{
    if s.len() > 0 {
        lemma_first_index_bound(s.drop_first(), x);
    }
}

proof fn lemma_first_quote_bound(symbols: Seq<Option<Seq<char>>>, code: Seq<char>, symbol: Seq<char>)
    ensures
        first_quote(symbols, code, symbol) matches Some(k) ==> 0 <= k < symbols.len(),
    decreases symbols.len(),
{
    if symbols.len() > 0 {
        lemma_first_quote_bound(symbols.drop_first(), code, symbol);
    }
}

/// What to do with one stored file when updating a day.
#[derive(Debug)]
pub enum FileAction {
    /// Not a CSV file: leave it alone.
    NotCsv,
    /// The file could not be read: leave it alone.
    LoadFailed,
    /// The file already has a record for the day.
    AlreadyPresent,
    /// The day's quotes hold nothing for the file's symbol.
    NoQuote,
    /// Append this line to the file.
    Append(String),
}

/// The update cannot go on.
#[derive(Debug, PartialEq, Eq, Structural)]
pub enum PlanError {
    /// The day's quotes have no "symbol" column to select by.
    SymbolColumnMissing,
}

/// Which quote, if any, a stored file takes when updating a day.
#[derive(Debug)]
pub enum FileQuote {
    /// Not a CSV file: leave it alone.
    NotCsv,
    /// The file could not be read: leave it alone.
    LoadFailed,
    /// The file already has a record for the day.
    AlreadyPresent,
    /// The day's quotes hold nothing for the file's symbol.
    NoQuote,
    /// The quote at `index` is the file's, and `symbol` is the symbol the
    /// file is named after.
    Quote { index: usize, symbol: String },
}

/// The inputs on which choosing a file's quote does not fail: a CSV file
/// name has char boundaries at bytes 2 and 8, and a loaded CSV file has a
/// header with a "date" field and no record before the day's record (if any)
/// too short for that field.
pub open spec fn selection_inputs_ok(name: Seq<u8>, records: Option<Seq<Seq<Seq<char>>>>, date: Seq<char>) -> bool {
    is_csv_name(name) ==> {
        &&& is_char_boundary(name, 8)
        &&& is_char_boundary(name, 2)
        &&& (records matches Some(r) ==> {
            &&& r.len() >= 1
            &&& first_index_of(r[0], "date"@) matches Some(pos)
            &&& scan_dates(r, pos, date) != DateScan::ShortRecord
        })
    }
}

/// The inputs on which deciding a file's update with a built-in row format
/// does not fail: those of `selection_inputs_ok`, and the quote chosen has
/// every cell the row format reads.
pub open spec fn plan_inputs_ok(
    name: Seq<u8>,
    records: Option<Seq<Seq<Seq<char>>>>,
    date: Seq<char>,
    quotes: QuoteTable,
    format: RowFormat,
) -> bool {
    &&& selection_inputs_ok(name, records, date)
    &&& (is_csv_name(name) ==> (records matches Some(r) ==> {
        let pos = first_index_of(r[0], "date"@)->0;
        scan_dates(r, pos, date) == DateScan::Absent ==> (quotes.symbols_view() matches Some(syms) ==> (
        first_quote(syms, file_symbol_code(name), file_symbol(name)) matches Some(k)
            ==> quotes.rows_view()[k].len() >= row_width(format)))
    }))
}

pub open spec fn opt_table_view(records: Option<&Vec<Vec<String>>>) -> Option<Seq<Seq<Seq<char>>>> {
    match records {
        Some(r) => Some(table_view(r@)),
        None => None,
    }
}

fn ends_with_csv(name: &[u8]) -> (res: bool)
    ensures
        res == is_csv_name(name@),
{
    let n = name.len();
    if n < 4 {
        return false;
    }
    let r = name[n - 4] == 46u8 && name[n - 3] == 99u8 && name[n - 2] == 115u8 && name[n - 1] == 118u8;
    proof {
        let tail = name@.subrange(n - 4, n as int);
        if r {
            assert(tail =~= seq![46u8, 99u8, 115u8, 118u8]);
        } else {
            assert(tail[0] == name@[n - 4]);
            assert(tail[1] == name@[n - 3]);
            assert(tail[2] == name@[n - 2]);
            assert(tail[3] == name@[n - 1]);
        }
    }
    r
}

fn index_of_text(s: &Vec<String>, lit: &str) -> (res: Option<usize>)
    ensures
        res matches Some(p) ==> first_index_of(strings_view(s@), lit@) == Some(p as int),
        res is None ==> first_index_of(strings_view(s@), lit@) is None,
{
    let t = String::from_str(lit);
    let mut i: usize = 0;
    proof {
        lemma_first_index_bound(strings_view(s@), lit@);
    }
    assert(strings_view(s@).skip(0) =~= strings_view(s@));
    while i < s.len()
        invariant
            i <= s.len(),
            t@ == lit@,
            first_index_of(strings_view(s@), lit@) == match first_index_of(
                strings_view(s@).skip(i as int),
                lit@,
            ) {
                Some(j) => Some(j + i),
                None => None,
            },
        decreases s.len() - i,
    {
        let ghost rest = strings_view(s@).skip(i as int);
        assert(rest[0] == s@[i as int]@);
        if s[i] == t {
            return Some(i);
        }
        assert(rest.drop_first() =~= strings_view(s@).skip(i + 1));
        i = i + 1;
    }
    None
}

/// Looks for `date` at position `pos` of each record, in order.
fn scan_records(records: &Vec<Vec<String>>, pos: usize, date: &String) -> (res: DateScan)
    ensures
        res == scan_dates(table_view(records@), pos as int, date@),
{
    let mut i: usize = 0;
    assert(table_view(records@).skip(0) =~= table_view(records@));
    while i < records.len()
        invariant
            i <= records.len(),
            scan_dates(table_view(records@), pos as int, date@) == scan_dates(
                table_view(records@).skip(i as int),
                pos as int,
                date@,
            ),
        decreases records.len() - i,
    {
        let ghost rest = table_view(records@).skip(i as int);
        assert(rest[0] == strings_view(records@[i as int]@));
        let rec = &records[i];
        if rec.len() <= pos {
            return DateScan::ShortRecord;
        }
        if rec[pos] == *date {
            return DateScan::Found;
        }
        assert(rest.drop_first() =~= table_view(records@).skip(i + 1));
        i = i + 1;
    }
    DateScan::Absent
}

fn find_quote(symbols: &Vec<Option<String>>, code: &String, symbol: &String) -> (res: Option<usize>)
    ensures
        res matches Some(k) ==> first_quote(opt_strings_view(symbols@), code@, symbol@) == Some(k as int),
        res is None ==> first_quote(opt_strings_view(symbols@), code@, symbol@) is None,
{
    let mut i: usize = 0;
    proof {
        lemma_first_quote_bound(opt_strings_view(symbols@), code@, symbol@);
    }
    assert(opt_strings_view(symbols@).skip(0) =~= opt_strings_view(symbols@));
    while i < symbols.len()
        invariant
            i <= symbols.len(),
            first_quote(opt_strings_view(symbols@), code@, symbol@) == match first_quote(
                opt_strings_view(symbols@).skip(i as int),
                code@,
                symbol@,
            ) {
                Some(j) => Some(j + i),
                None => None,
            },
        decreases symbols.len() - i,
    {
        let ghost rest = opt_strings_view(symbols@).skip(i as int);
        assert(rest[0] == opt_strings_view(symbols@)[i as int]);
        match &symbols[i] {
            Some(s) => {
                if *s == *code || *s == *symbol {
                    return Some(i);
                }
            },
            None => {},
        }
        assert(rest.drop_first() =~= opt_strings_view(symbols@).skip(i + 1));
        i = i + 1;
    }
    None
}

/// Splits a stored file's name into its symbol (bytes 0..8) and the bare
/// code (bytes 2..8).
fn split_symbol(file_name: &str) -> (res: (String, String))
    requires
        is_char_boundary(file_name.spec_bytes(), 8),
        is_char_boundary(file_name.spec_bytes(), 2),
    ensures
        res.0@ == file_symbol(file_name.spec_bytes()),
        res.1@ == file_symbol_code(file_name.spec_bytes()),
{
    let ghost b = file_name.spec_bytes();
    proof {
        assert(valid_utf8(b));
        is_char_boundary_iff_not_is_continuation_byte(b, 2);
        valid_utf8_split(b, 8);
        is_char_boundary_iff_not_is_continuation_byte(b.subrange(0, 8), 2);
    }
    let (sym, _) = file_name.split_at(8);
    proof {
        assert(sym.spec_bytes()[2] == b[2]);
    }
    let (_, code) = sym.split_at(2);
    proof {
        assert(code.spec_bytes() =~= b.subrange(2, 8));
        assert(decode_utf8(encode_utf8(sym@)) == sym@);
        assert(decode_utf8(encode_utf8(code@)) == code@);
    }
    (String::from_str(sym), String::from_str(code))
}

/// Chooses the quote one stored file takes when recording the quotes of
/// `current_date`: files that are not ".csv" or could not be loaded are left
/// alone; a file already holding the day is left alone; otherwise it is the
/// first quote whose symbol is the file's bare code or full symbol, if there
/// is one. Any row formatter can then write the line to append.
pub fn select_file_quote(
    file_name: &str,
    records: Option<&Vec<Vec<String>>>,
    current_date: &String,
    quotes: &QuoteTable,
) -> (res: Result<FileQuote, PlanError>)
    requires
        quotes.wf(),
        selection_inputs_ok(file_name.spec_bytes(), opt_table_view(records), current_date@),
    ensures
        !is_csv_name(file_name.spec_bytes()) ==> res matches Ok(FileQuote::NotCsv),
        is_csv_name(file_name.spec_bytes()) ==> match records {
            None => res matches Ok(FileQuote::LoadFailed),
            Some(r) => {
                let t = table_view(r@);
                let pos = first_index_of(t[0], "date"@)->0;
                let name = file_name.spec_bytes();
                if scan_dates(t, pos, current_date@) == DateScan::Found {
                    res matches Ok(FileQuote::AlreadyPresent)
                } else {
                    match quotes.symbols_view() {
                        None => res matches Err(PlanError::SymbolColumnMissing),
                        Some(syms) => match first_quote(syms, file_symbol_code(name), file_symbol(name)) {
                            None => res matches Ok(FileQuote::NoQuote),
                            Some(k) => res matches Ok(FileQuote::Quote { index, symbol }) && index == k
                                && k < quotes.rows@.len() && symbol@ == file_symbol(name),
                        },
                    }
                }
            },
        },
        is_csv_name(file_name.spec_bytes()) ==> match records {
            None => true,
            Some(r) => {
                let t = table_view(r@);
                let pos = first_index_of(t[0], "date"@)->0;
                res matches Ok(FileQuote::AlreadyPresent) <==> exists|i: int|
                    0 <= i < t.len() && pos < t[i].len() && #[trigger] t[i][pos] == current_date@
            },
        },
{
    proof {
        if let Some(r) = records {
            let t = table_view(r@);
            if t.len() > 0 {
                law_date_scan_looks_at_every_record(t, first_index_of(t[0], "date"@)->0, current_date@);
            }
        }
    }
    let name = file_name.as_bytes();
    if !ends_with_csv(name) {
        return Ok(FileQuote::NotCsv);
    }
    let (symbol, code) = split_symbol(file_name);
    match records {
        None => Ok(FileQuote::LoadFailed),
        Some(r) => {
            let header = &r[0];
            proof {
                assert(table_view(r@)[0] == strings_view(header@));
                reveal_strlit("date");
            }
            let pos = index_of_text(header, "date").unwrap();
            match scan_records(r, pos, current_date) {
                DateScan::Absent => {},
                _ => {
                    return Ok(FileQuote::AlreadyPresent);
                },
            }
            match &quotes.symbols {
                None => Err(PlanError::SymbolColumnMissing),
                Some(syms) => {
                    match find_quote(syms, &code, &symbol) {
                        None => Ok(FileQuote::NoQuote),
                        Some(k) => {
                            proof {
                                lemma_first_quote_bound(opt_strings_view(syms@), code@, symbol@);
                                assert(quotes.symbols_view() == Some(opt_strings_view(syms@)));
                            }
                            Ok(FileQuote::Quote { index: k, symbol })
                        },
                    }
                },
            }
        },
    }
}

/// Decides what to do with one stored file when recording the quotes of
/// `current_date`, writing the chosen quote (`select_file_quote`) with the
/// built-in row format `format` under the file's header.
pub fn plan_file_update(
    file_name: &str,
    records: Option<&Vec<Vec<String>>>,
    current_date: &String,
    quotes: &QuoteTable,
    format: RowFormat,
) -> (res: Result<FileAction, PlanError>)
    requires
        quotes.wf(),
        plan_inputs_ok(file_name.spec_bytes(), opt_table_view(records), current_date@, *quotes, format),
    ensures
        !is_csv_name(file_name.spec_bytes()) ==> res matches Ok(FileAction::NotCsv),
        is_csv_name(file_name.spec_bytes()) ==> match records {
            None => res matches Ok(FileAction::LoadFailed),
            Some(r) => {
                let t = table_view(r@);
                let header = t[0];
                let pos = first_index_of(header, "date"@)->0;
                let name = file_name.spec_bytes();
                if scan_dates(t, pos, current_date@) == DateScan::Found {
                    res matches Ok(FileAction::AlreadyPresent)
                } else {
                    match quotes.symbols_view() {
                        None => res == Err::<FileAction, PlanError>(PlanError::SymbolColumnMissing),
                        Some(syms) => match first_quote(syms, file_symbol_code(name), file_symbol(name)) {
                            None => res matches Ok(FileAction::NoQuote),
                            Some(k) => res matches Ok(FileAction::Append(line)) && line@ == csv_line(
                                row_fields(
                                    format,
                                    current_date@,
                                    file_symbol(name),
                                    quotes.rows_view()[k],
                                    header,
                                ),
                            ),
                        },
                    }
                }
            },
        },
        is_csv_name(file_name.spec_bytes()) ==> match records {
            None => true,
            Some(r) => {
                let t = table_view(r@);
                let pos = first_index_of(t[0], "date"@)->0;
                res matches Ok(FileAction::AlreadyPresent) <==> exists|i: int|
                    0 <= i < t.len() && pos < t[i].len() && #[trigger] t[i][pos] == current_date@
            },
        },
{
    match select_file_quote(file_name, records, current_date, quotes) {
        Ok(FileQuote::NotCsv) => Ok(FileAction::NotCsv),
        Ok(FileQuote::LoadFailed) => Ok(FileAction::LoadFailed),
        Ok(FileQuote::AlreadyPresent) => Ok(FileAction::AlreadyPresent),
        Ok(FileQuote::NoQuote) => Ok(FileAction::NoQuote),
        Err(e) => Err(e),
        Ok(FileQuote::Quote { index, symbol }) => {
            let r = records.unwrap();
            let header = &r[0];
            proof {
                assert(table_view(r@)[0] == strings_view(header@));
                assert(quotes.rows_view()[index as int] == strings_view(quotes.rows@[index as int]@));
            }
            let line = IoUtils::row_to_csv(format, current_date, &symbol, &quotes.rows[index], header);
            Ok(FileAction::Append(line))
        },
    }
}

/// Whether `select_file_quote` may be called on these inputs: the quote
/// table is well formed and `selection_inputs_ok` holds.
pub fn selection_inputs_hold(
    file_name: &str,
    records: Option<&Vec<Vec<String>>>,
    current_date: &String,
    quotes: &QuoteTable,
) -> (res: bool)
    ensures
        res == (quotes.wf() && selection_inputs_ok(file_name.spec_bytes(), opt_table_view(records), current_date@)),
{
    let wf = match &quotes.symbols {
        Some(s) => s.len() == quotes.rows.len(),
        None => true,
    };
    if !wf {
        return false;
    }
    let name = file_name.as_bytes();
    if !ends_with_csv(name) {
        return true;
    }
    if !file_name.is_char_boundary(8) || !file_name.is_char_boundary(2) {
        return false;
    }
    let r = match records {
        None => {
            return true;
        },
        Some(r) => r,
    };
    if r.len() == 0 {
        return false;
    }
    let header = &r[0];
    proof {
        assert(table_view(r@)[0] == strings_view(header@));
        reveal_strlit("date");
    }
    let pos = match index_of_text(header, "date") {
        Some(p) => p,
        None => {
            return false;
        },
    };
    match scan_records(r, pos, current_date) {
        DateScan::ShortRecord => false,
        _ => true,
    }
}

/// Whether `plan_file_update` may be called on these inputs: the quote
/// table is well formed and `plan_inputs_ok` holds.
pub fn plan_inputs_hold(
    file_name: &str,
    records: Option<&Vec<Vec<String>>>,
    current_date: &String,
    quotes: &QuoteTable,
    format: RowFormat,
) -> (res: bool)
    ensures
        res == (quotes.wf() && plan_inputs_ok(
            file_name.spec_bytes(),
            opt_table_view(records),
            current_date@,
            *quotes,
            format,
        )),
{
    if !selection_inputs_hold(file_name, records, current_date, quotes) {
        return false;
    }
    match select_file_quote(file_name, records, current_date, quotes) {
        Ok(FileQuote::Quote { index, .. }) => {
            proof {
                assert(quotes.rows_view()[index as int] == strings_view(quotes.rows@[index as int]@));
            }
            quotes.rows[index].len() >= row_width_exec(format)
        },
        _ => true,
    }
}

proof fn lemma_scan_push(t: Seq<Seq<Seq<char>>>, pos: int, date: Seq<char>, f: Seq<Seq<char>>)
    requires
        scan_dates(t, pos, date) == DateScan::Absent,
        pos < f.len(),
        f[pos] == date,
    ensures
        scan_dates(t.push(f), pos, date) == DateScan::Found,
    decreases t.len(),
{
    if t.len() == 0 {
        assert(t.push(f).drop_first() =~= Seq::<Seq<Seq<char>>>::empty());
    } else {
        lemma_scan_push(t.drop_first(), pos, date, f);
        assert(t.push(f).drop_first() =~= t.drop_first().push(f));
    }
}

/// The date scan of a stored file's records looks at every record, not only
/// some of them: it finds the day only when some record holds it at the date
/// position, it reports the day absent exactly when every record is long
/// enough and none holds the day, and it reports a short record only when
/// some record is too short. So when no record is too short, the day is found
/// exactly when some record, wherever it stands, holds it.
pub proof fn law_date_scan_looks_at_every_record(t: Seq<Seq<Seq<char>>>, pos: int, d: Seq<char>)
    ensures
        scan_dates(t, pos, d) == DateScan::Found ==> exists|i: int|
            0 <= i < t.len() && pos < t[i].len() && #[trigger] t[i][pos] == d,
        scan_dates(t, pos, d) == DateScan::Absent <==> forall|i: int|
            0 <= i < t.len() ==> pos < #[trigger] t[i].len() && t[i][pos] != d,
        scan_dates(t, pos, d) == DateScan::ShortRecord ==> exists|i: int|
            0 <= i < t.len() && #[trigger] t[i].len() <= pos,
        (forall|i: int| 0 <= i < t.len() ==> pos < #[trigger] t[i].len()) ==> (scan_dates(t, pos, d)
            == DateScan::Found <==> exists|i: int| 0 <= i < t.len() && #[trigger] t[i][pos] == d),
    decreases t.len(),
{
    if t.len() > 0 {
        let rest = t.drop_first();
        law_date_scan_looks_at_every_record(rest, pos, d);
        assert forall|i: int| 0 <= i < rest.len() implies #[trigger] rest[i] == t[i + 1] by {}
        if scan_dates(t, pos, d) == DateScan::Found && !(pos < t[0].len() && t[0][pos] == d) {
            let i = choose|i: int| 0 <= i < rest.len() && pos < rest[i].len() && #[trigger] rest[i][pos] == d;
            assert(t[i + 1] == rest[i]);
        }
        if scan_dates(t, pos, d) == DateScan::ShortRecord && pos < t[0].len() {
            let i = choose|i: int| 0 <= i < rest.len() && #[trigger] rest[i].len() <= pos;
            assert(t[i + 1] == rest[i]);
        }
        if forall|i: int| 0 <= i < t.len() ==> pos < #[trigger] t[i].len() && t[i][pos] != d {
            assert forall|i: int| 0 <= i < rest.len() implies pos < #[trigger] rest[i].len() && rest[i][pos]
                != d by {
                assert(t[i + 1] == rest[i]);
            }
        }
        if (forall|i: int| 0 <= i < t.len() ==> pos < #[trigger] t[i].len()) {
            assert forall|i: int| 0 <= i < rest.len() implies pos < #[trigger] rest[i].len() by {
                assert(t[i + 1] == rest[i]);
            }
            if exists|i: int| 0 <= i < t.len() && #[trigger] t[i][pos] == d {
                let i = choose|i: int| 0 <= i < t.len() && #[trigger] t[i][pos] == d;
                if i > 0 {
                    assert(rest[i - 1] == t[i]);
                }
            }
        }
        if scan_dates(t, pos, d) == DateScan::Absent {
            assert forall|i: int| 0 <= i < t.len() implies pos < #[trigger] t[i].len() && t[i][pos] != d by {
                if i > 0 {
                    assert(rest[i - 1] == t[i]);
                }
            }
        }
        if scan_dates(t, pos, d) != DateScan::Absent && pos < t[0].len() && t[0][pos] != d {
            let i = choose|i: int| !(0 <= i < rest.len() ==> pos < #[trigger] rest[i].len() && rest[i][pos] != d);
            assert(t[i + 1] == rest[i]);
        }
    }
}

proof fn lemma_first_index_hit(s: Seq<Seq<char>>, x: Seq<char>)
    ensures
        first_index_of(s, x) matches Some(i) ==> s[i] == x,
    decreases s.len(),
{
    if s.len() > 0 {
        lemma_first_index_hit(s.drop_first(), x);
        lemma_first_index_bound(s.drop_first(), x);
        if let Some(i) = first_index_of(s.drop_first(), x) {
            assert(s.drop_first()[i] == s[i + 1]);
        }
    }
}

/// Once the fields of the line planned for a stored file (the quote's fields
/// under the file's header) are among the file's records, the file holds the
/// day, and planning the same day again leaves the file alone. This speaks
/// of the records only: whether the appended text is read back as these
/// fields rests on the CSV reader and is not proved here.
pub proof fn law_update_is_idempotent(
    records: Seq<Seq<Seq<char>>>,
    date: Seq<char>,
    format: RowFormat,
    symbol: Seq<char>,
    row: Seq<Seq<char>>,
)
    requires
        records.len() >= 1,
        first_index_of(records[0], "date"@) is Some,
        scan_dates(records, first_index_of(records[0], "date"@)->0, date) == DateScan::Absent,
    ensures
        ({
            let grown = records.push(row_fields(format, date, symbol, row, records[0]));
            &&& grown[0] == records[0]
            &&& scan_dates(grown, first_index_of(records[0], "date"@)->0, date) == DateScan::Found
        }),
{
    let header = records[0];
    let pos = first_index_of(header, "date"@)->0;
    lemma_first_index_bound(header, "date"@);
    lemma_first_index_hit(header, "date"@);
    let f = row_fields(format, date, symbol, row, header);
    reveal_strlit("date");
    reveal_strlit("close");
    reveal_strlit("open");
    reveal_strlit("volume");
    reveal_strlit("low");
    reveal_strlit("high");
    reveal_strlit("adjclose");
    reveal_strlit("dividends");
    reveal_strlit("splits");
    reveal_strlit("symbol");
    reveal_strlit("money");
    reveal_strlit("change");
    assert(header[pos] == "date"@);
    assert("date"@[0] == 'd');
    assert("date"@ != "close"@);
    assert("date"@ != "open"@ && "open"@[0] == 'o');
    assert("date"@ != "high"@ && "high"@[0] == 'h');
    assert(quote_cell(format, date, symbol, row, "date"@) == Some(date));
    assert(f[pos] == date);
    lemma_scan_push(records, pos, date, f);
}

} // verus!
