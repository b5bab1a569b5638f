//! Errors of configuration and of cell transformations.
use vstd::prelude::*;

verus! {

/// An error with a kind and a description for a person to read.
#[derive(Debug)]
pub struct PrintableError {
    pub error_type: String,
    pub error_description: String,
}

/// An error found while compiling the configuration against a header.
#[derive(Debug)]
pub struct ConfigParseError {
    pub column: Option<String>,
    pub transformation: Option<String>,
    pub error_type: String,
    pub error_description: String,
}

/// A compile error as text.
pub struct ConfigParseErrorView {
    pub column: Option<Seq<char>>,
    pub transformation: Option<Seq<char>>,
    pub error_type: Seq<char>,
    pub error_description: Seq<char>,
}

/// Optional text as a sequence of characters.
pub open spec fn opt_view(s: Option<String>) -> Option<Seq<char>> {
    match s {
        Some(t) => Some(t@),
        None => None,
    }
}

impl View for ConfigParseError {
    type V = ConfigParseErrorView;

    open spec fn view(&self) -> ConfigParseErrorView {
        ConfigParseErrorView {
            column: opt_view(self.column),
            transformation: opt_view(self.transformation),
            error_type: self.error_type@,
            error_description: self.error_description@,
        }
    }
}

/// Why a transformation could not be applied to a cell.
#[derive(Debug)]
pub enum OperationError {
    /// The operation reads text and was handed a date.
    NotText { operation: String },
    /// The operation reads text and was handed none: the value is absent.
    NoText { operation: String },
    /// The text is no date under any of the formats tried.
    NotADate { value: String, formats: Vec<String> },
}

/// A transformation failure as text.
pub enum OperationErrorView {
    NotText { operation: Seq<char> },
    NoText { operation: Seq<char> },
    NotADate { value: Seq<char>, formats: Seq<Seq<char>> },
}

impl View for OperationError {
    type V = OperationErrorView;

    open spec fn view(&self) -> OperationErrorView {
        match self {
            OperationError::NotText { operation } => OperationErrorView::NotText {
                operation: operation@,
            },
            OperationError::NoText { operation } => OperationErrorView::NoText {
                operation: operation@,
            },
            OperationError::NotADate { value, formats } => OperationErrorView::NotADate {
                value: value@,
                formats: formats@.map_values(|f: String| f@),
            },
        }
    }
}

/// The formats joined by ", ".
pub open spec fn joined(formats: Seq<Seq<char>>) -> Seq<char>
    decreases formats.len(),
{
    if formats.len() == 0 {
        Seq::empty()
    } else if formats.len() == 1 {
        formats[0]
    } else {
        joined(formats.drop_last()) + ", "@ + formats.last()
    }
}

/// The line that describes a transformation failure.
pub open spec fn operation_error_text(e: OperationErrorView) -> Seq<char> {
    match e {
        OperationErrorView::NotText { operation } => "Warning: cannot apply the '"@ + operation
            + "' transformation to a date value."@,
        OperationErrorView::NoText { operation } => "Warning: cannot apply the '"@ + operation
            + "' transformation to an absent value."@,
        OperationErrorView::NotADate { value, formats } => "Value '"@ + value
            + "' could not be recognized as date in any of formats: "@ + joined(formats),
    }
}

impl OperationError {
    /// A line that describes the error.
    pub fn description(&self) -> (r: String)
        ensures
            r@ == operation_error_text(self@),
    {
        match self {
            OperationError::NotText { operation } => {
                let mut r = "Warning: cannot apply the '".to_string();
                r.append(operation.as_str());
                r.append("' transformation to a date value.");
                r
            },
            OperationError::NoText { operation } => {
                let mut r = "Warning: cannot apply the '".to_string();
                r.append(operation.as_str());
                r.append("' transformation to an absent value.");
                r
            },
            OperationError::NotADate { value, formats } => {
                let mut r = "Value '".to_string();
                r.append(value.as_str());
                r.append("' could not be recognized as date in any of formats: ");
                let ghost all = formats@.map_values(|f: String| f@);
                let ghost start = r@;
                let mut i: usize = 0;
                while i < formats.len()
                    invariant
                        i <= formats@.len(),
                        all == formats@.map_values(|f: String| f@),
                        r@ == start + joined(all.subrange(0, i as int)),
                    decreases formats@.len() - i,
                {
                    let ghost before = r@;
                    if i > 0 {
                        r.append(", ");
                    }
                    r.append(formats[i].as_str());
                    proof {
                        let next = all.subrange(0, i + 1);
                        assert(next.drop_last() =~= all.subrange(0, i as int));
                        if i == 0 {
                            assert(joined(all.subrange(0, 0)) =~= Seq::<char>::empty());
                            assert(r@ =~= start + joined(next));
                        } else {
                            assert(r@ =~= start + joined(next));
                        }
                    }
                    i += 1;
                }
                assert(all.subrange(0, i as int) =~= all);
                r
            },
        }
    }
}

} // verus!
