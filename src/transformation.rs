//! Compiled transformations and what each does to a cell.
use vstd::prelude::*;
use vstd::utf8::{decode_utf8, valid_utf8};
use csv::ByteRecord;
use crate::date::{
    excel_date_of, first_parsed_day, parse_date_with_formats, parse_excel_ordinal_date,
    CalendarDate,
};
use crate::error::{OperationError, OperationErrorView};
use crate::mapping::{mapping_entries, mapping_pairs, ReplaceMapping};
use crate::pattern::{regex_replace_all, Pattern};
use crate::record::{record_field, record_fields};
use crate::text::{decimal, decimal_text, lower_of, replace_literal, replaced, to_lower, to_upper, upper_of, utf8_text};
use crate::value::{CellValue, CellView};

verus! {

/// One step of a compiled chain, bound to the columns of an input header.
#[derive(Debug)]
pub enum Transformation {
    /// The field at this position of the record.
    Input(usize),
    /// Reserved: the value passes unchanged.
    Slice { start: usize, end: usize },
    /// Literal substitutions, applied one after another.
    Replace { replace: ReplaceMapping },
    /// Every match of the pattern replaced through the template.
    ReplaceRegex { pattern: Pattern, replace: String },
    /// A constant text.
    Value { value: String },
    /// Reserved reference to another column.
    From { from: String },
    /// A date read under one format.
    Date { format: String },
    /// A date read under the first of several formats that fits.
    DateMultiple { formats: Vec<String> },
    /// A date read from a spreadsheet serial number.
    ExcelOrdinalDate,
    Uppercase,
    Lowercase,
    /// The position of the record in the whole run, from 1.
    LineNumber,
}

/// A transformation with its parameters as text.
pub enum Operation {
    Input(usize),
    Slice { start: usize, end: usize },
    Replace(Seq<(Seq<char>, Seq<char>)>),
    ReplaceRegex { pattern: Seq<char>, replace: Seq<char> },
    Value(Seq<char>),
    From(Seq<char>),
    Date(Seq<char>),
    DateMultiple(Seq<Seq<char>>),
    ExcelOrdinalDate,
    Uppercase,
    Lowercase,
    LineNumber,
}

impl View for Transformation {
    type V = Operation;

    open spec fn view(&self) -> Operation {
        match self {
            Transformation::Input(i) => Operation::Input(*i),
            Transformation::Slice { start, end } => Operation::Slice { start: *start, end: *end },
            Transformation::Replace { replace } => Operation::Replace(mapping_entries(*replace)),
            Transformation::ReplaceRegex { pattern, replace } => Operation::ReplaceRegex {
                pattern: pattern.source(),
                replace: replace@,
            },
            Transformation::Value { value } => Operation::Value(value@),
            Transformation::From { from } => Operation::From(from@),
            Transformation::Date { format } => Operation::Date(format@),
            Transformation::DateMultiple { formats } => Operation::DateMultiple(
                formats@.map_values(|f: String| f@),
            ),
            Transformation::ExcelOrdinalDate => Operation::ExcelOrdinalDate,
            Transformation::Uppercase => Operation::Uppercase,
            Transformation::Lowercase => Operation::Lowercase,
            Transformation::LineNumber => Operation::LineNumber,
        }
    }
}

/// Known string case transformations.
pub enum StringCase {
    Uppercase,
    Lowercase,
}

pub type ApplyResult = Result<CellValue, OperationError>;

pub open spec fn result_view(r: ApplyResult) -> Result<CellView, OperationErrorView> {
    match r {
        Ok(v) => Ok(v@),
        Err(e) => Err(e@),
    }
}

/// The text of a field: its UTF-8 decoding, or empty text where the bytes are not UTF-8.
pub open spec fn field_text(bytes: Seq<u8>) -> Seq<char> {
    if valid_utf8(bytes) {
        decode_utf8(bytes)
    } else {
        Seq::empty()
    }
}

/// The text at a position of a record, absent past its last field.
pub open spec fn input_text(fields: Seq<Seq<u8>>, index: int) -> Option<Seq<char>> {
    if 0 <= index < fields.len() {
        Some(field_text(fields[index]))
    } else {
        None
    }
}

/// A function applied to present text; absent text stays absent.
pub open spec fn map_text(s: Option<Seq<char>>, f: spec_fn(Seq<char>) -> Seq<char>) -> Option<Seq<char>> {
    match s {
        Some(t) => Some(f(t)),
        None => None,
    }
}

/// A step from text to text; a date is refused.
pub open spec fn text_step(v: CellView, name: Seq<char>, f: spec_fn(Seq<char>) -> Seq<char>) -> Result<
    CellView,
    OperationErrorView,
> {
    match v {
        CellView::Text(s) => Ok(CellView::Text(map_text(s, f))),
        CellView::Date(_) => Err(OperationErrorView::NotText { operation: name }),
    }
}

/// Each substitution applied in order, each to the result of the one before.
pub open spec fn replaced_by_mapping(s: Seq<char>, entries: Seq<(Seq<char>, Seq<char>)>) -> Seq<char>
    decreases entries.len(),
{
    if entries.len() == 0 {
        s
    } else {
        replaced_by_mapping(replaced(s, entries[0].0, entries[0].1), entries.drop_first())
    }
}

/// A step from text to a date under a list of formats; absent text and a date are refused.
pub open spec fn date_step(v: CellView, formats: Seq<Seq<char>>) -> Result<CellView, OperationErrorView> {
    match v {
        CellView::Text(Some(s)) => match first_parsed_day(s, formats) {
            Some(d) => Ok(CellView::Date(Some(d))),
            None => Err(OperationErrorView::NotADate { value: s, formats }),
        },
        CellView::Text(None) => Err(OperationErrorView::NoText { operation: "date"@ }),
        CellView::Date(_) => Err(OperationErrorView::NotText { operation: "date"@ }),
    }
}

/// What an operation makes of a value, on a record with these fields at this line.
pub open spec fn applied(t: Operation, v: CellView, fields: Seq<Seq<u8>>, line: nat) -> Result<
    CellView,
    OperationErrorView,
> {
    match t {
        Operation::Input(i) => Ok(CellView::Text(input_text(fields, i as int))),
        Operation::Slice { .. } => Ok(v),
        Operation::Replace(entries) => text_step(
            v,
            "replace"@,
            |s: Seq<char>| replaced_by_mapping(s, entries),
        ),
        Operation::ReplaceRegex { pattern, replace } => text_step(
            v,
            "replace_regex"@,
            |s: Seq<char>| regex_replace_all(pattern, s, replace),
        ),
        Operation::Value(s) => Ok(CellView::Text(Some(s))),
        Operation::From(name) => Ok(CellView::Text(Some(name + "? Ni!"@))),
        Operation::Date(format) => date_step(v, seq![format]),
        Operation::DateMultiple(formats) => date_step(v, formats),
        Operation::ExcelOrdinalDate => match v {
            CellView::Text(Some(s)) => Ok(CellView::Date(excel_date_of(s))),
            CellView::Text(None) => Ok(CellView::Date(None)),
            CellView::Date(_) => Err(OperationErrorView::NotText { operation: "excel-ordinal"@ }),
        },
        Operation::Uppercase => text_step(v, "uppercase"@, |s: Seq<char>| upper_of(s)),
        Operation::Lowercase => text_step(v, "lowercase"@, |s: Seq<char>| lower_of(s)),
        Operation::LineNumber => Ok(CellView::Text(Some(decimal(line)))),
    }
}

/// Decodes a field as UTF-8; bytes that are not UTF-8 give empty text.
pub fn safe_to_utf8(bytes: &[u8]) -> (r: String)
    ensures
        r@ == field_text(bytes@),
{
    match utf8_text(vstd::slice::slice_to_vec(bytes)) {
        Some(s) => s,
        None => String::new(),
    }
}

/// The field at `index` of the record, as text.
pub fn apply_input(row: &ByteRecord, index: &usize) -> (r: CellValue)
    ensures
        r@ == CellView::Text(input_text(record_fields(*row), *index as int)),
{
    match record_field(row, *index) {
        Some(bytes) => CellValue::String(Some(safe_to_utf8(bytes.as_slice()))),
        None => CellValue::String(None),
    }
}

pub fn apply_line_number(line_number: usize) -> (r: CellValue)
    ensures
        r@ == CellView::Text(Some(decimal(line_number as nat))),
{
    CellValue::String(Some(decimal_text(line_number)))
}

pub fn apply_from(column_name: &String) -> (r: CellValue)
    ensures
        r@ == CellView::Text(Some(column_name@ + "? Ni!"@)),
{
    let mut s = column_name.clone();
    s.append("? Ni!");
    CellValue::String(Some(s))
}

/// Change a string to the upper or lower case.
pub fn apply_change_case(value: CellValue, case: StringCase) -> (r: ApplyResult)
    ensures
        result_view(r) == (match case {
            StringCase::Uppercase => text_step(value@, "uppercase"@, |s: Seq<char>| upper_of(s)),
            StringCase::Lowercase => text_step(value@, "lowercase"@, |s: Seq<char>| lower_of(s)),
        }),
        value@ == CellView::Text(Some(Seq::<char>::empty())) ==> (r matches Ok(v) && v@
            == CellView::Text(Some(Seq::<char>::empty()))),
{
    match value {
        CellValue::String(Some(content)) => {
            let changed = match case {
                StringCase::Lowercase => to_lower(content.as_str()),
                StringCase::Uppercase => to_upper(content.as_str()),
            };
            proof {
                if content@.len() == 0 {
                    assert(changed@ =~= Seq::<char>::empty());
                }
            }
            Ok(CellValue::String(Some(changed)))
        },
        CellValue::String(None) => Ok(CellValue::String(None)),
        CellValue::Date(_) => Err(
            OperationError::NotText {
                operation: match case {
                    StringCase::Lowercase => "lowercase".to_string(),
                    StringCase::Uppercase => "uppercase".to_string(),
                },
            },
        ),
    }
}

/// Applies each substitution of the mapping in order, each to the result of the one before.
pub fn replace_with_mapping(value: String, mapping: &ReplaceMapping) -> (r: String)
    ensures
        r@ == replaced_by_mapping(value@, mapping_entries(*mapping)),
{
    let pairs = mapping_pairs(mapping);
    let ghost entries = mapping_entries(*mapping);
    let mut result = value;
    let mut i: usize = 0;
    assert(entries.subrange(0, entries.len() as int) =~= entries);
    while i < pairs.len()
        invariant
            i <= pairs@.len(),
            entries == pairs@.map_values(|p: (String, String)| (p.0@, p.1@)),
            replaced_by_mapping(value@, entries) == replaced_by_mapping(
                result@,
                entries.subrange(i as int, entries.len() as int),
            ),
        decreases pairs@.len() - i,
    {
        let ghost rest = entries.subrange(i as int, entries.len() as int);
        assert(rest[0] == (pairs@[i as int].0@, pairs@[i as int].1@));
        assert(rest.drop_first() =~= entries.subrange(i + 1, entries.len() as int));
        result = replace_literal(result.as_str(), pairs[i].0.as_str(), pairs[i].1.as_str());
        i += 1;
    }
    assert(entries.subrange(i as int, entries.len() as int) =~= Seq::<(Seq<char>, Seq<char>)>::empty());
    result
}

pub fn apply_replace(value: CellValue, mapping: &ReplaceMapping) -> (r: ApplyResult)
    ensures
        result_view(r) == text_step(
            value@,
            "replace"@,
            |s: Seq<char>| replaced_by_mapping(s, mapping_entries(*mapping)),
        ),
{
    match value {
        CellValue::String(Some(content)) => Ok(
            CellValue::String(Some(replace_with_mapping(content, mapping))),
        ),
        CellValue::String(None) => Ok(CellValue::String(None)),
        CellValue::Date(_) => Err(OperationError::NotText { operation: "replace".to_string() }),
    }
}

pub fn apply_replace_regex(value: CellValue, regex: &Pattern, replace: &String) -> (r: ApplyResult)
    ensures
        result_view(r) == text_step(
            value@,
            "replace_regex"@,
            |s: Seq<char>| regex_replace_all(regex.source(), s, replace@),
        ),
{
    match value {
        CellValue::String(Some(content)) => Ok(
            CellValue::String(Some(regex.replace_all(content.as_str(), replace.as_str()))),
        ),
        CellValue::String(None) => Ok(CellValue::String(None)),
        CellValue::Date(_) => Err(
            OperationError::NotText { operation: "replace_regex".to_string() },
        ),
    }
}

/// Reads a date under the first of the formats that fits; absent text is an error.
pub fn apply_date_multiple_formats(value: CellValue, formats: &Vec<String>) -> (r: ApplyResult)
    ensures
        result_view(r) == date_step(value@, formats@.map_values(|f: String| f@)),
{
    match value {
        CellValue::String(Some(content)) => match parse_date_with_formats(content.as_str(), formats) {
            Some(date) => Ok(CellValue::Date(Some(date))),
            None => {
                let mut tried: Vec<String> = Vec::new();
                let mut i: usize = 0;
                while i < formats.len()
                    invariant
                        i <= formats@.len(),
                        tried@.len() == i,
                        forall|j: int| 0 <= j < i ==> #[trigger] tried@[j]@ == formats@[j]@,
                    decreases formats@.len() - i,
                {
                    tried.push(formats[i].clone());
                    i += 1;
                }
                assert(tried@.map_values(|f: String| f@) =~= formats@.map_values(|f: String| f@));
                Err(OperationError::NotADate { value: content, formats: tried })
            },
        },
        CellValue::String(None) => Err(OperationError::NoText { operation: "date".to_string() }),
        CellValue::Date(_) => Err(OperationError::NotText { operation: "date".to_string() }),
    }
}

/// Reads a date under one format.
pub fn apply_parse_date(value: CellValue, format: &String) -> (r: ApplyResult)
    ensures
        result_view(r) == date_step(value@, seq![format@]),
{
    let formats = vec![format.clone()];
    assert(formats@.map_values(|f: String| f@) =~= seq![format@]);
    apply_date_multiple_formats(value, &formats)
}

/// Reads a date from a spreadsheet serial number; text that is none gives no date.
pub fn apply_excel_ordinal_date(value: CellValue) -> (r: ApplyResult)
    ensures
        result_view(r) == applied(Operation::ExcelOrdinalDate, value@, Seq::empty(), 0),
{
    match value {
        CellValue::String(Some(content)) => Ok(
            CellValue::Date(parse_excel_ordinal_date(content.as_str())),
        ),
        CellValue::String(None) => Ok(CellValue::Date(None)),
        CellValue::Date(_) => Err(
            OperationError::NotText { operation: "excel-ordinal".to_string() },
        ),
    }
}

impl Transformation {
    /// Applies the transformation to a value, on a record at a line of the run.
    pub fn apply(&self, value: CellValue, row: &ByteRecord, line_number: usize) -> (r: ApplyResult)
        ensures
            result_view(r) == applied(self@, value@, record_fields(*row), line_number as nat),
    {
        match self {
            Transformation::Input(index) => Ok(apply_input(row, index)),
            Transformation::Slice { .. } => Ok(value),
            Transformation::Lowercase => apply_change_case(value, StringCase::Lowercase),
            Transformation::Uppercase => apply_change_case(value, StringCase::Uppercase),
            Transformation::Replace { replace } => apply_replace(value, replace),
            Transformation::ReplaceRegex { pattern, replace } => apply_replace_regex(
                value,
                pattern,
                replace,
            ),
            Transformation::Value { value: text } => Ok(CellValue::from_string(text.clone())),
            Transformation::LineNumber => Ok(apply_line_number(line_number)),
            Transformation::From { from } => Ok(apply_from(from)),
            Transformation::Date { format } => apply_parse_date(value, format),
            Transformation::DateMultiple { formats } => apply_date_multiple_formats(value, formats),
            Transformation::ExcelOrdinalDate => apply_excel_ordinal_date(value),
        }
    }
}

} // verus!
