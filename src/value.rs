//! The value a chain of transformations carries: text or a date, each possibly absent.
use vstd::prelude::*;
use crate::date::{date_text, CalendarDate};

verus! {

/// A cell's value; `None` is an unknown value, which differs from empty text.
#[derive(Debug)]
pub enum CellValue {
    String(Option<String>),
    Date(Option<CalendarDate>),
}

/// A cell's value as text or as a day number.
pub enum CellView {
    Text(Option<Seq<char>>),
    Date(Option<int>),
}

impl View for CellValue {
    type V = CellView;

    open spec fn view(&self) -> CellView {
        match self {
            CellValue::String(s) => CellView::Text(
                match s {
                    Some(t) => Some(t@),
                    None => None,
                },
            ),
            CellValue::Date(d) => CellView::Date(
                match d {
                    Some(x) => Some(x@),
                    None => None,
                },
            ),
        }
    }
}

/// The text written for a value; an absent value is written as empty text.
pub open spec fn rendered(v: CellView) -> Seq<char> {
    match v {
        CellView::Text(Some(s)) => s,
        CellView::Date(Some(d)) => date_text(d),
        _ => Seq::empty(),
    }
}

impl CellValue {
    /// Empty text, the value a chain starts from.
    pub fn empty_string() -> (r: CellValue)
        ensures
            r@ == CellView::Text(Some(Seq::empty())),
    {
        CellValue::String(Some(String::new()))
    }

    pub fn from_string(value: String) -> (r: CellValue)
        ensures
            r@ == CellView::Text(Some(value@)),
    {
        CellValue::String(Some(value))
    }

    /// The text written for the value in an output cell.
    pub fn to_string(&self) -> (r: String)
        ensures
            r@ == rendered(self@),
    {
        match self {
            CellValue::String(Some(s)) => s.clone(),
            CellValue::Date(Some(d)) => d.to_string(),
            _ => String::new(),
        }
    }
}

} // verus!
