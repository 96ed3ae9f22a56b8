use qlib_data::command::{UpdateCommand, UpdateDay, UpdateTarget, UpdateToday};
use qlib_data::normalize_data::{adjusted_price_plan, normalize_plan, normalized_path, AdjustPlan, ColumnOp};
use qlib_data::source_data::{
    header_then_records, load_csv, plan_file_update, plan_inputs_hold, select_file_quote, selection_inputs_hold, FileAction,
    FileQuote, LoadError, PlanError, QuoteTable,
};
use qlib_data::util::{DateUtils, IoUtils, RowFormat};
use qlib_data::Source;

const K: ColumnOp = ColumnOp::Keep;
const M: ColumnOp = ColumnOp::Multiply;
const D: ColumnOp = ColumnOp::Divide;

fn strings(v: &[&str]) -> Vec<String> {
    v.iter().map(|s| s.to_string()).collect()
}

fn table(rows: &[&[&str]]) -> Vec<Vec<String>> {
    rows.iter().map(|r| strings(r)).collect()
}

/// An Eastmoney quote row; cell i holds "e<i>".
fn em_row() -> Vec<String> {
    (0..12).map(|i| format!("e{}", i)).collect()
}

/// A Sina index quote row; cell i holds "s<i>".
fn spot_row() -> Vec<String> {
    (0..13).map(|i| format!("s{}", i)).collect()
}

// The command module's smoke test: parsing types exist; it asserts nothing.
#[test]
fn test_opt() {}

#[test]
fn source_from_string_is_always_sina() {
    assert_eq!(Source::from("sina".to_string()), Source::SINA);
    assert_eq!(Source::from("tencent".to_string()), Source::SINA);
    assert_eq!(Source::from(String::new()), Source::SINA);
}

#[test]
fn em_row_to_csv_follows_the_headers() {
    let headers = strings(&["date", "open", "high", "volume", "low", "close", "adjclose", "dividends", "splits", "symbol"]);
    let line = IoUtils::em_row_to_csv("2023-10-27".to_string(), "sh600000".to_string(), &em_row(), &headers);
    assert_eq!(line, "2023-10-27,e10,e8,e5,e9,e2,e11,0,0,sh600000\r\n");
}

#[test]
fn em_row_to_csv_leaves_unknown_headers_empty() {
    let headers = strings(&["date", "money", "close", "change"]);
    let line = IoUtils::em_row_to_csv("2023-10-27".to_string(), "sh600000".to_string(), &em_row(), &headers);
    assert_eq!(line, "2023-10-27,,e2,\r\n");
    let only = strings(&["factor"]);
    let line = IoUtils::em_row_to_csv("2023-10-27".to_string(), "sh600000".to_string(), &em_row(), &only);
    assert_eq!(line, "\r\n");
}

#[test]
fn spot_index_row_to_csv_follows_the_headers() {
    let headers = strings(&["date", "open", "close", "high", "low", "volume", "money", "change", "adjclose", "symbol"]);
    let line = IoUtils::spot_index_row_to_csv("2023-10-31".to_string(), "sh000300".to_string(), &spot_row(), &headers);
    assert_eq!(line, "2023-10-31,s11,s3,s9,s10,s6,s7,s4,s12,sh000300\r\n");
    // the index table has no dividends or splits
    let headers = strings(&["dividends", "splits", "symbol"]);
    let line = IoUtils::spot_index_row_to_csv("2023-10-31".to_string(), "sh000300".to_string(), &spot_row(), &headers);
    assert_eq!(line, ",,sh000300\r\n");
}

#[test]
fn row_to_csv_dispatches_on_the_format() {
    let headers = strings(&["close", "open"]);
    let d = "2023-10-27".to_string();
    let s = "sh600000".to_string();
    assert_eq!(IoUtils::row_to_csv(RowFormat::Eastmoney, &d, &s, &spot_row(), &headers), "s2,s10\r\n");
    assert_eq!(IoUtils::row_to_csv(RowFormat::SinaIndex, &d, &s, &spot_row(), &headers), "s3,s11\r\n");
}

#[test]
fn load_csv_puts_the_header_first() {
    let text = b"date,close,symbol\n2023-10-26,7.01,sh600000\n2023-10-27,7.10,sh600000\n";
    let records = load_csv(text).unwrap();
    assert_eq!(records, table(&[&["date", "close", "symbol"], &["2023-10-26", "7.01", "sh600000"], &["2023-10-27", "7.10", "sh600000"]]));
}

#[test]
fn load_csv_of_header_only_and_empty_text() {
    assert_eq!(load_csv(b"date,close\n").unwrap(), table(&[&["date", "close"]]));
    // an empty text has an empty header record
    assert_eq!(load_csv(b"").unwrap(), vec![Vec::<String>::new()]);
}

#[test]
fn load_csv_without_readable_header_is_empty() {
    let text: &[u8] = &[0xff, 0xfe, b',', b'a', b'\n', b'1', b',', b'2', b'\n'];
    assert_eq!(load_csv(text).unwrap(), Vec::<Vec<String>>::new());
}

#[test]
fn load_csv_rejects_a_malformed_record() {
    let res = load_csv(b"date,close\n2023-10-26,7.01,extra\n");
    assert!(matches!(res, Err(LoadError::Record(_))));
}

fn quotes() -> QuoteTable {
    QuoteTable {
        symbols: Some(vec![Some("600001".to_string()), None, Some("600000".to_string())]),
        rows: vec![em_row(), em_row(), {
            let mut r = em_row();
            r[2] = "7.77".to_string();
            r
        }],
    }
}

fn stored() -> Vec<Vec<String>> {
    table(&[&["date", "close", "symbol"], &["2023-10-26", "7.01", "sh600000"]])
}

#[test]
fn plan_skips_files_that_are_not_csv() {
    let res = plan_file_update("README.md", None, &"2023-10-27".to_string(), &quotes(), RowFormat::Eastmoney);
    assert!(matches!(res, Ok(FileAction::NotCsv)));
    // names shorter than a symbol are fine when they are not CSV files
    let res = plan_file_update("a", None, &"2023-10-27".to_string(), &quotes(), RowFormat::Eastmoney);
    assert!(matches!(res, Ok(FileAction::NotCsv)));
}

#[test]
fn plan_leaves_unreadable_files_alone() {
    let res = plan_file_update("sh600000.csv", None, &"2023-10-27".to_string(), &quotes(), RowFormat::Eastmoney);
    assert!(matches!(res, Ok(FileAction::LoadFailed)));
}

#[test]
fn plan_appends_the_quote_of_the_bare_code() {
    let r = stored();
    let res = plan_file_update("sh600000.csv", Some(&r), &"2023-10-27".to_string(), &quotes(), RowFormat::Eastmoney);
    match res {
        Ok(FileAction::Append(line)) => assert_eq!(line, "2023-10-27,7.77,sh600000\r\n"),
        other => panic!("unexpected {:?}", other),
    }
}

#[test]
fn plan_matches_the_full_symbol_too() {
    let q = QuoteTable {
        symbols: Some(vec![Some("sz000001".to_string()), Some("sh000300".to_string())]),
        rows: vec![spot_row(), spot_row()],
    };
    let r = table(&[&["date", "open", "symbol"], &["2023-10-30", "3571.6", "sh000300"]]);
    let res = plan_file_update("sh000300.csv", Some(&r), &"2023-10-31".to_string(), &q, RowFormat::SinaIndex);
    match res {
        Ok(FileAction::Append(line)) => assert_eq!(line, "2023-10-31,s11,sh000300\r\n"),
        other => panic!("unexpected {:?}", other),
    }
}

#[test]
fn plan_without_quote_for_the_symbol() {
    let r = stored();
    let res = plan_file_update("sz300841.csv", Some(&r), &"2023-10-27".to_string(), &quotes(), RowFormat::Eastmoney);
    assert!(matches!(res, Ok(FileAction::NoQuote)));
}

#[test]
fn plan_leaves_a_file_holding_the_day_alone() {
    let r = stored();
    let res = plan_file_update("sh600000.csv", Some(&r), &"2023-10-26".to_string(), &quotes(), RowFormat::Eastmoney);
    assert!(matches!(res, Ok(FileAction::AlreadyPresent)));
}

#[test]
fn plan_without_symbol_column_fails() {
    let q = QuoteTable { symbols: None, rows: vec![em_row()] };
    let r = stored();
    let res = plan_file_update("sh600000.csv", Some(&r), &"2023-10-27".to_string(), &q, RowFormat::Eastmoney);
    assert!(matches!(res, Err(PlanError::SymbolColumnMissing)));
    // a file holding the day needs no quote at all
    let res = plan_file_update("sh600000.csv", Some(&r), &"2023-10-26".to_string(), &q, RowFormat::Eastmoney);
    assert!(matches!(res, Ok(FileAction::AlreadyPresent)));
}

#[test]
fn updating_the_same_day_twice_appends_once() {
    let mut r = stored();
    let d = "2023-10-27".to_string();
    let line = match plan_file_update("sh600000.csv", Some(&r), &d, &quotes(), RowFormat::Eastmoney) {
        Ok(FileAction::Append(line)) => line,
        other => panic!("unexpected {:?}", other),
    };
    let mut text = String::from("date,close,symbol\n2023-10-26,7.01,sh600000\n");
    text.push_str(&line);
    r = load_csv(text.as_bytes()).unwrap();
    assert_eq!(r.len(), 3);
    let again = plan_file_update("sh600000.csv", Some(&r), &d, &quotes(), RowFormat::Eastmoney);
    assert!(matches!(again, Ok(FileAction::AlreadyPresent)));
}

#[test]
fn plan_inputs_hold_detects_what_would_fail() {
    let d = "2023-10-27".to_string();
    let q = quotes();
    let r = stored();
    assert!(plan_inputs_hold("sh600000.csv", Some(&r), &d, &q, RowFormat::Eastmoney));
    assert!(plan_inputs_hold("x.md", None, &d, &q, RowFormat::Eastmoney));
    // too short a CSV name to hold a symbol
    assert!(!plan_inputs_hold("a.csv", None, &d, &q, RowFormat::Eastmoney));
    // byte 8 inside a character
    assert!(!plan_inputs_hold("sh60000é.csv", None, &d, &q, RowFormat::Eastmoney));
    // no header record, no date column, a short record before the day
    let empty: Vec<Vec<String>> = Vec::new();
    assert!(!plan_inputs_hold("sh600000.csv", Some(&empty), &d, &q, RowFormat::Eastmoney));
    let nodate = table(&[&["day", "close"]]);
    assert!(!plan_inputs_hold("sh600000.csv", Some(&nodate), &d, &q, RowFormat::Eastmoney));
    let short = table(&[&["close", "date"], &["7.0"]]);
    assert!(!plan_inputs_hold("sh600000.csv", Some(&short), &d, &q, RowFormat::Eastmoney));
    // a quote too narrow for the row format
    let narrow = QuoteTable { symbols: Some(vec![Some("600000".to_string())]), rows: vec![strings(&["1"])] };
    assert!(!plan_inputs_hold("sh600000.csv", Some(&r), &d, &narrow, RowFormat::Eastmoney));
    // a symbol column of another length than the rows
    let bad = QuoteTable { symbols: Some(vec![]), rows: vec![em_row()] };
    assert!(!plan_inputs_hold("sh600000.csv", Some(&r), &d, &bad, RowFormat::Eastmoney));
}

fn csv_error() -> csv::Error {
    let mut rdr = csv::ReaderBuilder::new().from_reader(&b"a,b\n1,2,3\n"[..]);
    rdr.records().next().unwrap().unwrap_err()
}

#[test]
fn header_then_records_puts_the_header_first() {
    let res = header_then_records(Ok(strings(&["date", "close"])), Ok(table(&[&["2023-10-26", "7.01"], &["2023-10-27", "7.10"]])));
    assert_eq!(res.unwrap(), table(&[&["date", "close"], &["2023-10-26", "7.01"], &["2023-10-27", "7.10"]]));
    let res = header_then_records(Ok(strings(&["date"])), Ok(Vec::new()));
    assert_eq!(res.unwrap(), table(&[&["date"]]));
}

#[test]
fn header_then_records_without_header_is_empty() {
    let res = header_then_records(Err(csv_error()), Ok(table(&[&["1", "2"]])));
    assert_eq!(res.unwrap(), Vec::<Vec<String>>::new());
    // the records are not looked at when the header failed
    let res = header_then_records(Err(csv_error()), Err(csv_error()));
    assert_eq!(res.unwrap(), Vec::<Vec<String>>::new());
}

#[test]
fn header_then_records_reports_a_bad_record() {
    let res = header_then_records(Ok(strings(&["a", "b"])), Err(csv_error()));
    assert!(matches!(res, Err(LoadError::Record(_))));
}

#[test]
fn select_file_quote_gives_the_index_of_the_quote() {
    let r = stored();
    let d = "2023-10-27".to_string();
    match select_file_quote("sh600000.csv", Some(&r), &d, &quotes()) {
        Ok(FileQuote::Quote { index, symbol }) => {
            assert_eq!(index, 2);
            assert_eq!(symbol, "sh600000");
        }
        other => panic!("unexpected {:?}", other),
    }
    // the first of two matching quotes is taken, by full symbol as well
    let q = QuoteTable {
        symbols: Some(vec![None, Some("sh600000".to_string()), Some("600000".to_string())]),
        rows: vec![strings(&["x"]), strings(&["y"]), strings(&["z"])],
    };
    match select_file_quote("sh600000.csv", Some(&r), &d, &q) {
        Ok(FileQuote::Quote { index, symbol }) => {
            assert_eq!(index, 1);
            assert_eq!(symbol, "sh600000");
        }
        other => panic!("unexpected {:?}", other),
    }
}

#[test]
fn select_file_quote_needs_no_particular_row_width() {
    let r = stored();
    let d = "2023-10-27".to_string();
    let narrow = QuoteTable { symbols: Some(vec![Some("600000".to_string())]), rows: vec![strings(&["1"])] };
    assert!(selection_inputs_hold("sh600000.csv", Some(&r), &d, &narrow));
    assert!(!plan_inputs_hold("sh600000.csv", Some(&r), &d, &narrow, RowFormat::Eastmoney));
    match select_file_quote("sh600000.csv", Some(&r), &d, &narrow) {
        Ok(FileQuote::Quote { index, .. }) => assert_eq!(index, 0),
        other => panic!("unexpected {:?}", other),
    }
}

#[test]
fn select_file_quote_other_outcomes() {
    let r = stored();
    let d = "2023-10-27".to_string();
    assert!(matches!(select_file_quote("notes.txt", None, &d, &quotes()), Ok(FileQuote::NotCsv)));
    assert!(matches!(select_file_quote("sh600000.csv", None, &d, &quotes()), Ok(FileQuote::LoadFailed)));
    let day = "2023-10-26".to_string();
    assert!(matches!(select_file_quote("sh600000.csv", Some(&r), &day, &quotes()), Ok(FileQuote::AlreadyPresent)));
    assert!(matches!(select_file_quote("sz300841.csv", Some(&r), &d, &quotes()), Ok(FileQuote::NoQuote)));
    let q = QuoteTable { symbols: None, rows: vec![em_row()] };
    assert!(matches!(select_file_quote("sh600000.csv", Some(&r), &d, &q), Err(PlanError::SymbolColumnMissing)));
}

#[test]
fn selection_inputs_hold_detects_what_would_fail() {
    let d = "2023-10-27".to_string();
    let q = quotes();
    let r = stored();
    assert!(selection_inputs_hold("sh600000.csv", Some(&r), &d, &q));
    assert!(selection_inputs_hold("x.md", None, &d, &q));
    assert!(!selection_inputs_hold("a.csv", None, &d, &q));
    let nodate = table(&[&["day", "close"]]);
    assert!(!selection_inputs_hold("sh600000.csv", Some(&nodate), &d, &q));
    let short = table(&[&["close", "date"], &["7.0"]]);
    assert!(!selection_inputs_hold("sh600000.csv", Some(&short), &d, &q));
    let bad = QuoteTable { symbols: Some(vec![]), rows: vec![em_row()] };
    assert!(!selection_inputs_hold("sh600000.csv", Some(&r), &d, &bad));
}

#[test]
fn update_target_of_each_command() {
    let today = UpdateCommand::UpdateToday(UpdateToday { date: None });
    assert_eq!(qlib_data::command::update_target(&today), UpdateTarget::Today);
    let today_dated = UpdateCommand::UpdateToday(UpdateToday { date: Some("2023-10-27".to_string()) });
    assert_eq!(qlib_data::command::update_target(&today_dated), UpdateTarget::Day("2023-10-27".to_string()));
    let day = UpdateCommand::UpdateDay(UpdateDay { date: Some("2023-10-27".to_string()) });
    assert_eq!(qlib_data::command::update_target(&day), UpdateTarget::Day("2023-10-27".to_string()));
    // update-day without a date defaults to the current day
    let undated = UpdateCommand::UpdateDay(UpdateDay { date: None });
    assert_eq!(qlib_data::command::update_target(&undated), UpdateTarget::Today);
}

#[test]
fn adjusted_price_plan_with_adjclose() {
    let cols = strings(&["date", "open", "close", "high", "low", "volume", "adjclose", "symbol"]);
    let plan = adjusted_price_plan(&cols);
    assert_eq!(plan, AdjustPlan::Adjust { ops: vec![K, M, M, M, M, D, K, K, K] });
}

#[test]
fn adjusted_price_plan_without_adjclose() {
    let cols = strings(&["date", "open", "close", "factor"]);
    assert_eq!(adjusted_price_plan(&cols), AdjustPlan::FillFactor);
}

#[test]
fn normalize_plan_scales_by_first_close() {
    let cols = strings(&["date", "open", "close", "high", "low", "volume", "money", "change", "factor", "symbol"]);
    assert_eq!(normalize_plan(&cols), vec![K, D, D, D, D, M, D, K, D, K]);
}

#[test]
fn normalized_path_replaces_every_source() {
    assert_eq!(normalized_path("source/sh600000.csv"), "normalize/sh600000.csv");
    assert_eq!(normalized_path("/data/source/source.csv"), "/data/normalize/normalize.csv");
    assert_eq!(normalized_path("sosource"), "sonormalize");
    assert_eq!(normalized_path("sourc/é"), "sourc/é");
    assert_eq!(normalized_path(""), "");
}

#[test]
fn now_fmt_ymd_has_the_date_shape() {
    let d = DateUtils::now_fmt_ymd();
    let c: Vec<char> = d.chars().collect();
    let n = c.len();
    assert!(n >= 10);
    assert_eq!(c[n - 3], '-');
    assert_eq!(c[n - 6], '-');
    let month: u32 = d[d.len() - 5..d.len() - 3].parse().unwrap();
    let day: u32 = d[d.len() - 2..].parse().unwrap();
    assert!((1..=12).contains(&month));
    assert!((1..=31).contains(&day));
}
