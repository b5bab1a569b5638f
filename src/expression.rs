//! The declarative shapes of a configuration: columns and their expressions.
use vstd::prelude::*;
use crate::mapping::ReplaceMapping;

verus! {

/// A regular expression and the template that replaces its matches.
#[derive(Debug)]
pub struct ReplaceRegex {
    pub pattern: String,
    pub replace: String,
}

/// One declared step of a column.
#[derive(Debug)]
pub enum Expression {
    /// The input column of this name.
    Input { input: String },
    /// The first of these input columns that the header has.
    MultipleInput { input: Vec<String> },
    /// Literal substitutions, in order.
    Replace { replace: ReplaceMapping },
    /// A regular expression replacement.
    ReplaceRegex { replace_regex: ReplaceRegex },
    /// The value of a variable, or empty text.
    Variable { var: String },
    /// A constant text.
    Value { value: String },
    /// A date format, or `excel-ordinal` for spreadsheet serial dates.
    Date { date: String },
    /// Date formats tried in order.
    MultipleDate { date: Vec<String> },
    /// `uppercase`, `lowercase` or `line-number`.
    Operation(String),
    /// Reserved.
    From { from: String },
    /// Reserved.
    Trim { trim: usize },
}

/// The specification of one output column.
#[derive(Debug)]
pub enum Column {
    /// Shorthand for the one input column of this name.
    Input(String),
    /// A chain of expressions.
    Expressions(Vec<Expression>),
}

/// The position of the column called `name`, if there is one.
fn position_of(columns: &Vec<(String, Column)>, name: &String) -> (r: Option<usize>)
    ensures
        r matches Some(i) ==> i < columns@.len() && columns@[i as int].0@ == name@,
        r is None ==> forall|i: int| 0 <= i < columns@.len() ==> columns@[i].0@ != name@,
{
    let mut i: usize = 0;
    while i < columns.len()
        invariant
            i <= columns@.len(),
            forall|j: int| 0 <= j < i ==> columns@[j].0@ != name@,
        decreases columns@.len() - i,
    {
        if columns[i].0 == *name {
            return Some(i);
        }
        i += 1;
    }
    None
}

/// A configuration: output columns by name, in the order they are written.
/// No two output columns share a name.
#[derive(Debug)]
pub struct Config {
    version: i8,
    columns: Vec<(String, Column)>,
}

impl View for Config {
    type V = Seq<(String, Column)>;

    closed spec fn view(&self) -> Seq<(String, Column)> {
        self.columns@
    }
}

impl Config {
    #[verifier::type_invariant]
    spec fn distinct_names(&self) -> bool {
        forall|i: int, j: int|
            0 <= i < j < self.columns@.len() ==> #[trigger] self.columns@[i].0@
                != #[trigger] self.columns@[j].0@
    }

    pub closed spec fn spec_version(&self) -> i8 {
        self.version
    }

    /// A configuration of this version with no column yet.
    pub fn new(version: i8) -> (r: Config)
        ensures
            r@ == Seq::<(String, Column)>::empty(),
            r.spec_version() == version,
    {
        Config { version, columns: Vec::new() }
    }

    pub fn version(&self) -> (r: i8)
        ensures
            r == self.spec_version(),
    {
        self.version
    }

    /// The output columns, in declared order.
    pub fn columns(&self) -> (r: &Vec<(String, Column)>)
        ensures
            r@ == self@,
    {
        &self.columns
    }

    /// The output columns, in declared order.
    pub fn into_columns(self) -> (r: Vec<(String, Column)>)
        ensures
            r@ == self@,
    {
        self.columns
    }

    /// Declares an output column. A name declared before loses its old place
    /// and specification: the column goes last.
    pub fn insert(&mut self, name: String, column: Column)
        ensures
            (forall|i: int| 0 <= i < old(self)@.len() ==> old(self)@[i].0@ != name@) ==> final(self)@
                == old(self)@.push((name, column)),
            forall|i: int|
                0 <= i < old(self)@.len() && old(self)@[i].0@ == name@ ==> final(self)@ == old(
                    self,
                )@.remove(i).push((name, column)),
            final(self).spec_version() == old(self).spec_version(),
    {
        proof {
            use_type_invariant(&*self);
        }
        let ghost before = self.columns@;
        let ghost key = name@;
        let mut taken = Config { version: self.version, columns: Vec::new() };
        core::mem::swap(self, &mut taken);
        let Config { version, columns: mut columns } = taken;
        let found = position_of(&columns, &name);
        match found {
            Some(at) => {
                columns.remove(at);
                proof {
                    assert forall|j: int| 0 <= j < before.len() && before[j].0@ == key implies j
                        == at as int by {
                        if j != at as int {
                            assert(before[j].0@ != before[at as int].0@);
                        }
                    }
                }
            },
            None => {},
        }
        let ghost kept = columns@;
        assert(forall|j: int| 0 <= j < kept.len() ==> kept[j].0@ != key) by {
            assert forall|j: int| 0 <= j < kept.len() implies kept[j].0@ != key by {
                if let Some(at) = found {
                    assert(before[at as int].0@ == key);
                    if j < at {
                        assert(kept[j] == before[j]);
                    } else {
                        assert(kept[j] == before[j + 1]);
                        assert(before[j + 1].0@ != before[at as int].0@);
                    }
                } else {
                    assert(kept[j] == before[j]);
                }
            }
        }
        assert(forall|a: int, b: int| 0 <= a < b < kept.len() ==> #[trigger] kept[a].0@ != #[trigger] kept[b].0@)
            by {
            assert forall|a: int, b: int| 0 <= a < b < kept.len() implies #[trigger] kept[a].0@
                != #[trigger] kept[b].0@ by {
                if let Some(at) = found {
                    let a0 = if a < at { a } else { a + 1 };
                    let b0 = if b < at { b } else { b + 1 };
                    assert(kept[a] == before[a0] && kept[b] == before[b0]);
                    assert(before[a0].0@ != before[b0].0@);
                } else {
                    assert(kept[a] == before[a] && kept[b] == before[b]);
                }
            }
        }
        columns.push((name, column));
        *self = Config { version, columns };
    }
}

} // verus!
