use ysv::text::{decimal_text, parse_i64};
use csv::ByteRecord;
use linked_hash_map::LinkedHashMap;
use ysv::date::{parse_date_with_formats, parse_excel_ordinal_date, CalendarDate};
use ysv::transformation::{
    apply_change_case, apply_date_multiple_formats, apply_excel_ordinal_date, apply_from,
    apply_input, apply_line_number, apply_parse_date, apply_replace, replace_with_mapping,
    safe_to_utf8,
};
use ysv::{CellValue, OperationError, StringCase, Transformation};

fn text(s: &str) -> CellValue {
    CellValue::from_string(s.to_string())
}

fn excel(s: &str) -> String {
    apply_excel_ordinal_date(text(s)).unwrap().to_string()
}

#[test]
fn excel_ordinal_38142_is_epoch_plus_38141_days() {
    assert_eq!(excel("38142"), "2004-06-04");
}

#[test]
fn excel_ordinal_38083_is_2004_04_06() {
    assert_eq!(excel("38083"), "2004-04-06");
}

#[test]
fn excel_ordinal_around_the_fictitious_leap_day() {
    assert_eq!(excel("1"), "1900-01-01");
    assert_eq!(excel("59"), "1900-02-28");
    assert_eq!(excel("60"), "1900-02-28");
    assert_eq!(excel("61"), "1900-03-01");
    assert_eq!(excel("0"), "1899-12-31");
}

#[test]
fn excel_ordinal_rejects_what_is_no_day() {
    assert_eq!(excel("abc"), "");
    assert_eq!(excel(""), "");
    assert_eq!(excel("9223372036854775807"), "");
    assert!(parse_excel_ordinal_date("12.5").is_none());
    assert!(matches!(apply_excel_ordinal_date(CellValue::String(None)), Ok(CellValue::Date(None))));
}

#[test]
fn date_day_numbers_bound_the_range() {
    assert!(CalendarDate::from_day_number(95745399).is_some());
    assert!(CalendarDate::from_day_number(95745400).is_none());
    assert!(CalendarDate::from_day_number(-95746129).is_some());
    assert!(CalendarDate::from_day_number(-95746130).is_none());
    assert_eq!(CalendarDate::from_day_number(1).unwrap().to_string(), "0001-01-01");
}

#[test]
fn multiple_formats_first_one_fits() {
    let formats = vec!["%Y-%m-%d".to_string(), "%m/%d/%Y".to_string()];
    let value = apply_date_multiple_formats(text("2020-01-02"), &formats).unwrap();
    assert_eq!(value.to_string(), "2020-01-02");
    let second = apply_date_multiple_formats(text("01/02/2020"), &formats).unwrap();
    assert_eq!(second.to_string(), "2020-01-02");
}

#[test]
fn multiple_formats_none_fits() {
    let formats = vec!["%Y-%m-%d".to_string(), "%m/%d/%Y".to_string()];
    let err = apply_date_multiple_formats(text("13/40/2020"), &formats).unwrap_err();
    match &err {
        OperationError::NotADate { value, formats: tried } => {
            assert_eq!(value, "13/40/2020");
            assert_eq!(tried, &formats);
        }
        _ => panic!("expected a date failure"),
    }
    assert_eq!(
        err.description(),
        "Value '13/40/2020' could not be recognized as date in any of formats: %Y-%m-%d, %m/%d/%Y"
    );
    assert!(parse_date_with_formats("13/40/2020", &formats).is_none());
}

#[test]
fn single_format_date() {
    let ok = apply_parse_date(text("02.01.2020"), &"%d.%m.%Y".to_string()).unwrap();
    assert_eq!(ok.to_string(), "2020-01-02");
    let bad = apply_parse_date(text("2020"), &"%d.%m.%Y".to_string());
    assert!(matches!(bad, Err(OperationError::NotADate { .. })));
}

#[test]
fn case_change() {
    let up = apply_change_case(text("hello"), StringCase::Uppercase).unwrap();
    assert_eq!(up.to_string(), "HELLO");
    let low = apply_change_case(text("HeLLo"), StringCase::Lowercase).unwrap();
    assert_eq!(low.to_string(), "hello");
    let absent = apply_change_case(CellValue::String(None), StringCase::Uppercase).unwrap();
    assert!(matches!(absent, CellValue::String(None)));
}

#[test]
fn case_change_of_a_date_is_an_error() {
    let date = apply_excel_ordinal_date(text("1")).unwrap();
    let err = apply_change_case(date, StringCase::Lowercase).unwrap_err();
    assert!(matches!(&err, OperationError::NotText { operation } if operation == "lowercase"));
    assert_eq!(err.description(), "Warning: cannot apply the 'lowercase' transformation to a date value.");
}

#[test]
fn replacements_apply_in_order() {
    let mut mapping = LinkedHashMap::new();
    mapping.insert("a".to_string(), "b".to_string());
    mapping.insert("b".to_string(), "c".to_string());
    assert_eq!(replace_with_mapping("abba".to_string(), &mapping), "cccc");
    let value = apply_replace(text("a-b"), &mapping).unwrap();
    assert_eq!(value.to_string(), "c-c");
}

#[test]
fn replacement_of_a_date_is_an_error() {
    let mapping = LinkedHashMap::new();
    let date = apply_excel_ordinal_date(text("2")).unwrap();
    assert!(matches!(apply_replace(date, &mapping), Err(OperationError::NotText { .. })));
}

#[test]
fn input_reads_fields_and_tolerates_bad_bytes() {
    let record = ByteRecord::from(vec![b"abc".to_vec(), vec![0xff, 0xfe], "é".as_bytes().to_vec()]);
    assert_eq!(apply_input(&record, &0).to_string(), "abc");
    assert_eq!(apply_input(&record, &1).to_string(), "");
    assert_eq!(apply_input(&record, &2).to_string(), "é");
    assert!(matches!(apply_input(&record, &3), CellValue::String(None)));
    assert_eq!(safe_to_utf8(b"xyz"), "xyz");
    assert_eq!(safe_to_utf8(&[0xc3]), "");
}

#[test]
fn line_number_and_from() {
    assert_eq!(apply_line_number(1234).to_string(), "1234");
    assert_eq!(apply_line_number(0).to_string(), "0");
    assert_eq!(apply_from(&"col".to_string()).to_string(), "col? Ni!");
}

#[test]
fn apply_dispatches_each_operation() {
    let record = ByteRecord::from(vec!["x", "y"]);
    let slice = Transformation::Slice { start: 0, end: 3 };
    assert_eq!(slice.apply(text("abcdef"), &record, 1).unwrap().to_string(), "abcdef");
    let value = Transformation::Value { value: "v".to_string() };
    assert_eq!(value.apply(text("ignored"), &record, 1).unwrap().to_string(), "v");
    let input = Transformation::Input(1);
    assert_eq!(input.apply(CellValue::empty_string(), &record, 1).unwrap().to_string(), "y");
    let line = Transformation::LineNumber;
    assert_eq!(line.apply(CellValue::empty_string(), &record, 42).unwrap().to_string(), "42");
}

#[test]
fn empty_and_absent_values_render_empty() {
    assert_eq!(CellValue::empty_string().to_string(), "");
    assert_eq!(CellValue::String(None).to_string(), "");
    assert_eq!(CellValue::Date(None).to_string(), "");
}

#[test]
fn date_range_ends_render() {
    let first = CalendarDate::from_day_number(-95746129).unwrap();
    assert_eq!(first.to_string(), "-262143-01-01");
    let last = CalendarDate::from_day_number(95745399).unwrap();
    assert_eq!(last.to_string(), "+262142-12-31");
    assert_eq!(last.day_number(), 95745399);
}

#[test]
fn empty_pattern_replacement_surrounds_every_character() {
    let mut mapping = LinkedHashMap::new();
    mapping.insert(String::new(), "x".to_string());
    assert_eq!(replace_with_mapping("abc".to_string(), &mapping), "xaxbxcx");
    assert_eq!(replace_with_mapping(String::new(), &mapping), "x");
}

#[test]
fn overlapping_matches_are_taken_left_to_right() {
    let mut mapping = LinkedHashMap::new();
    mapping.insert("aa".to_string(), "b".to_string());
    assert_eq!(replace_with_mapping("aaaaa".to_string(), &mapping), "bba");
}

#[test]
fn date_step_refuses_absent_text() {
    let formats = vec!["%Y".to_string()];
    let err = apply_date_multiple_formats(CellValue::String(None), &formats).unwrap_err();
    assert!(matches!(&err, OperationError::NoText { operation } if operation == "date"));
    assert_eq!(err.description(), "Warning: cannot apply the 'date' transformation to an absent value.");
    assert!(apply_parse_date(CellValue::String(None), &"%Y".to_string()).is_err());
}

#[test]
fn case_change_keeps_empty_text_empty() {
    let up = apply_change_case(CellValue::empty_string(), StringCase::Uppercase).unwrap();
    assert_eq!(up.to_string(), "");
}

#[test]
fn integer_parsing_matches_std() {
    for s in ["0", "42", "-42", "+7", "007", "-0", "9223372036854775807", "-9223372036854775808"] {
        assert_eq!(parse_i64(s), s.parse::<i64>().ok(), "{}", s);
    }
    for s in ["", "+", "-", "+-1", " 1", "1 ", "1.0", "9223372036854775808", "-9223372036854775809", "١"] {
        assert_eq!(parse_i64(s), None, "{}", s);
    }
    assert_eq!(decimal_text(0), "0");
    assert_eq!(decimal_text(1907), "1907");
    assert_eq!(decimal_text(usize::MAX), usize::MAX.to_string());
}
