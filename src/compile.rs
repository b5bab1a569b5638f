//! Compiling column specifications against an input header.
use vstd::prelude::*;
use csv::StringRecord;
use crate::error::{ConfigParseError, ConfigParseErrorView};
use crate::expression::{Column, Config, Expression, ReplaceRegex};
use crate::mapping::{mapping_copy, mapping_entries};
use crate::names::{header_index_map, index_by_name, InputColumnIndexByName, Variables};
use crate::pattern::{regex_rejection, Pattern};
use crate::record::{field_names, text_fields};
use crate::transformation::{Operation, Transformation};

verus! {

pub type MaybeSomeTransformation = Result<Option<Transformation>, ConfigParseError>;

pub type MaybeTransformationsChain = Result<Vec<Transformation>, ConfigParseError>;

/// The date format that selects spreadsheet serial dates.
pub const EXCEL_ORDINAL: &'static str = "excel-ordinal";

pub const UNKNOWN_TRANSFORMATION: &'static str = "This transformation is not supported. Please refer to documentation for the list of supported transformations.";

/// The compiled output columns for one input header.
#[derive(Debug)]
pub struct Transformer {
    /// Output column names, in declared order.
    pub headers: Vec<String>,
    /// One chain per output column, in the same order.
    pub columns: Vec<Vec<Transformation>>,
}

pub open spec fn texts(v: Seq<String>) -> Seq<Seq<char>> {
    v.map_values(|s: String| s@)
}

pub open spec fn step_view(r: MaybeSomeTransformation) -> Result<Option<Operation>, ConfigParseErrorView> {
    match r {
        Ok(Some(t)) => Ok(Some(t@)),
        Ok(None) => Ok(None),
        Err(e) => Err(e@),
    }
}

pub open spec fn ops(chain: Seq<Transformation>) -> Seq<Operation> {
    chain.map_values(|t: Transformation| t@)
}

pub open spec fn chain_view(r: MaybeTransformationsChain) -> Result<Seq<Operation>, ConfigParseErrorView> {
    match r {
        Ok(chain) => Ok(ops(chain@)),
        Err(e) => Err(e@),
    }
}

/// The input column an alias list binds to: the first name, in declared
/// order, that the header has.
pub open spec fn first_present(names: Seq<Seq<char>>, index: Map<Seq<char>, usize>) -> Option<usize>
    decreases names.len(),
{
    if names.len() == 0 {
        None
    } else if index.contains_key(names[0]) {
        Some(index[names[0]])
    } else {
        first_present(names.drop_first(), index)
    }
}

pub open spec fn input_of(i: Option<usize>) -> Option<Operation> {
    match i {
        Some(i) => Some(Operation::Input(i)),
        None => None,
    }
}

pub open spec fn lookup(index: Map<Seq<char>, usize>, name: Seq<char>) -> Option<usize> {
    if index.contains_key(name) {
        Some(index[name])
    } else {
        None
    }
}

pub open spec fn unknown_transformation(name: Seq<char>) -> ConfigParseErrorView {
    ConfigParseErrorView {
        column: None,
        transformation: Some(name),
        error_type: "unknown-transformation"@,
        error_description: UNKNOWN_TRANSFORMATION@,
    }
}

pub open spec fn regex_error(pattern: Seq<char>, message: Seq<char>) -> ConfigParseErrorView {
    ConfigParseErrorView {
        column: None,
        transformation: Some("replace_regex"@),
        error_type: "regex"@,
        error_description: "Cannot parse regular expression:\n\n  "@ + pattern + "\n\nbecause: "@
            + message,
    }
}

/// What one expression compiles to: an operation, nothing (an input column the
/// header lacks), or an error.
pub open spec fn compiled_step(
    e: Expression,
    index: Map<Seq<char>, usize>,
    vars: Map<Seq<char>, String>,
) -> Result<Option<Operation>, ConfigParseErrorView> {
    match e {
        Expression::Input { input } => Ok(input_of(lookup(index, input@))),
        Expression::MultipleInput { input } => Ok(input_of(first_present(texts(input@), index))),
        Expression::Trim { trim } => Ok(Some(Operation::Slice { start: 0, end: trim })),
        Expression::Replace { replace } => Ok(Some(Operation::Replace(mapping_entries(replace)))),
        Expression::ReplaceRegex { replace_regex } => match regex_rejection(replace_regex.pattern@) {
            None => Ok(
                Some(
                    Operation::ReplaceRegex {
                        pattern: replace_regex.pattern@,
                        replace: replace_regex.replace@,
                    },
                ),
            ),
            Some(message) => Err(regex_error(replace_regex.pattern@, message)),
        },
        Expression::Variable { var } => Ok(
            Some(
                Operation::Value(
                    if vars.contains_key(var@) {
                        vars[var@]@
                    } else {
                        Seq::empty()
                    },
                ),
            ),
        ),
        Expression::Value { value } => Ok(Some(Operation::Value(value@))),
        Expression::From { from } => Ok(Some(Operation::From(from@))),
        Expression::Date { date } => Ok(
            Some(
                if date@ == EXCEL_ORDINAL@ {
                    Operation::ExcelOrdinalDate
                } else {
                    Operation::Date(date@)
                },
            ),
        ),
        Expression::MultipleDate { date } => Ok(Some(Operation::DateMultiple(texts(date@)))),
        Expression::Operation(name) => if name@ == "uppercase"@ {
            Ok(Some(Operation::Uppercase))
        } else if name@ == "lowercase"@ {
            Ok(Some(Operation::Lowercase))
        } else if name@ == "line-number"@ {
            Ok(Some(Operation::LineNumber))
        } else {
            Err(unknown_transformation(name@))
        },
    }
}

/// A chain of expressions compiled in order: the first error wins, and steps
/// that compile to nothing are left out.
pub open spec fn compiled_steps(
    steps: Seq<Expression>,
    index: Map<Seq<char>, usize>,
    vars: Map<Seq<char>, String>,
) -> Result<Seq<Operation>, ConfigParseErrorView>
    decreases steps.len(),
{
    if steps.len() == 0 {
        Ok(Seq::empty())
    } else {
        match compiled_steps(steps.drop_last(), index, vars) {
            Err(e) => Err(e),
            Ok(prefix) => match compiled_step(steps.last(), index, vars) {
                Err(e) => Err(e),
                Ok(Some(op)) => Ok(prefix.push(op)),
                Ok(None) => Ok(prefix),
            },
        }
    }
}

/// What a column specification compiles to.
pub open spec fn compiled_column(
    c: Column,
    index: Map<Seq<char>, usize>,
    vars: Map<Seq<char>, String>,
) -> Result<Seq<Operation>, ConfigParseErrorView> {
    match c {
        Column::Input(name) => compiled_steps(seq![Expression::Input { input: name }], index, vars),
        Column::Expressions(steps) => compiled_steps(steps@, index, vars),
    }
}

/// A compile error, marked with the output column it was found in.
pub open spec fn in_column(e: ConfigParseErrorView, name: Seq<char>) -> ConfigParseErrorView {
    ConfigParseErrorView { column: Some(name), ..e }
}

/// Every column compiled in declared order; the first column that fails
/// fails the whole configuration.
pub open spec fn compiled_columns(
    columns: Seq<(String, Column)>,
    index: Map<Seq<char>, usize>,
    vars: Map<Seq<char>, String>,
) -> Result<Seq<Seq<Operation>>, ConfigParseErrorView>
    decreases columns.len(),
{
    if columns.len() == 0 {
        Ok(Seq::empty())
    } else {
        match compiled_columns(columns.drop_last(), index, vars) {
            Err(e) => Err(e),
            Ok(prefix) => match compiled_column(columns.last().1, index, vars) {
                Err(e) => Err(in_column(e, columns.last().0@)),
                Ok(chain) => Ok(prefix.push(chain)),
            },
        }
    }
}

/// The output column names of a configuration, in declared order.
pub open spec fn column_names(columns: Seq<(String, Column)>) -> Seq<Seq<char>> {
    columns.map_values(|c: (String, Column)| c.0@)
}

fn copy_texts(v: &Vec<String>) -> (r: Vec<String>)
    ensures
        r@ == v@,
{
    let mut r: Vec<String> = Vec::new();
    let mut i: usize = 0;
    while i < v.len()
        invariant
            i <= v@.len(),
            r@ == v@.subrange(0, i as int),
        decreases v@.len() - i,
    {
        r.push(v[i].clone());
        i += 1;
        assert(r@ =~= v@.subrange(0, i as int));
    }
    assert(v@.subrange(0, i as int) =~= v@);
    r
}

/// Binds an input column name to its position in the header; a name that the
/// header lacks compiles to nothing.
pub fn compile_singular_input(
    input_column_name: &String,
    input_column_index_by_name: &InputColumnIndexByName,
) -> (r: MaybeSomeTransformation)
    ensures
        step_view(r) == Ok::<Option<Operation>, ConfigParseErrorView>(
            input_of(lookup(input_column_index_by_name@, input_column_name@)),
        ),
{
    match input_column_index_by_name.get(input_column_name) {
        Some(index) => Ok(Some(Transformation::Input(*index))),
        None => Ok(None),
    }
}

/// Provided a list of several input column names, finds the first one that the
/// header has, in the order of the list, and binds to it.
pub fn compile_multiple_input(
    input_column_names: &Vec<String>,
    input_column_index_by_name: &InputColumnIndexByName,
) -> (r: MaybeSomeTransformation)
    ensures
        step_view(r) == Ok::<Option<Operation>, ConfigParseErrorView>(
            input_of(first_present(texts(input_column_names@), input_column_index_by_name@)),
        ),
{
    let ghost all = texts(input_column_names@);
    let ghost index = input_column_index_by_name@;
    let mut i: usize = 0;
    assert(all.subrange(0, all.len() as int) =~= all);
    while i < input_column_names.len()
        invariant
            i <= input_column_names@.len(),
            all == texts(input_column_names@),
            index == input_column_index_by_name@,
            first_present(all, index) == first_present(all.subrange(i as int, all.len() as int), index),
        decreases input_column_names@.len() - i,
    {
        let ghost rest = all.subrange(i as int, all.len() as int);
        assert(rest[0] == input_column_names@[i as int]@);
        assert(rest.drop_first() =~= all.subrange(i + 1, all.len() as int));
        match input_column_index_by_name.get(&input_column_names[i]) {
            Some(index) => {
                return Ok(Some(Transformation::Input(*index)));
            },
            None => {},
        }
        i += 1;
    }
    assert(all.subrange(i as int, all.len() as int) =~= Seq::<Seq<char>>::empty());
    Ok(None)
}

/// Compiles the pattern of a regular expression replacement; a pattern that
/// does not compile is an error of kind `regex` that quotes it.
pub fn compile_replace_regex(replace_regex: &ReplaceRegex) -> (r: MaybeSomeTransformation)
    ensures
        step_view(r) == compiled_step(
            Expression::ReplaceRegex { replace_regex: *replace_regex },
            Map::empty(),
            Map::empty(),
        ),
{
    match Pattern::compile(&replace_regex.pattern) {
        Ok(pattern) => Ok(
            Some(Transformation::ReplaceRegex { pattern, replace: replace_regex.replace.clone() }),
        ),
        Err(message) => {
            let mut description = "Cannot parse regular expression:\n\n  ".to_string();
            description.append(replace_regex.pattern.as_str());
            description.append("\n\nbecause: ");
            description.append(message.as_str());
            Err(
                ConfigParseError {
                    column: None,
                    transformation: Some("replace_regex".to_string()),
                    error_type: "regex".to_string(),
                    error_description: description,
                },
            )
        },
    }
}

pub fn compile_date_with_multiple_formats(formats: &Vec<String>) -> (r: MaybeSomeTransformation)
    ensures
        step_view(r) == Ok::<Option<Operation>, ConfigParseErrorView>(
            Some(Operation::DateMultiple(texts(formats@))),
        ),
{
    Ok(Some(Transformation::DateMultiple { formats: copy_texts(formats) }))
}

/// The operations that take no parameter, by name.
fn transformation_without_parameters(transformation_name: &String) -> (r: MaybeSomeTransformation)
    ensures
        step_view(r) == compiled_step(
            Expression::Operation(*transformation_name),
            Map::empty(),
            Map::empty(),
        ),
{
    if *transformation_name == "uppercase".to_string() {
        Ok(Some(Transformation::Uppercase))
    } else if *transformation_name == "lowercase".to_string() {
        Ok(Some(Transformation::Lowercase))
    } else if *transformation_name == "line-number".to_string() {
        Ok(Some(Transformation::LineNumber))
    } else {
        Err(
            ConfigParseError {
                column: None,
                transformation: Some(transformation_name.clone()),
                error_type: "unknown-transformation".to_string(),
                error_description: UNKNOWN_TRANSFORMATION.to_string(),
            },
        )
    }
}

/// A variable is read once, here; a missing one reads as empty text.
fn variable_transformation(name: &String, variables: &Variables) -> (r: MaybeSomeTransformation)
    ensures
        step_view(r) == compiled_step(Expression::Variable { var: *name }, Map::empty(), variables@),
{
    let value = match variables.get(name) {
        Some(value) => value.clone(),
        None => String::new(),
    };
    Ok(Some(Transformation::Value { value }))
}

fn from_transformation(name: &String) -> (r: MaybeSomeTransformation)
    ensures
        step_view(r) == Ok::<Option<Operation>, ConfigParseErrorView>(Some(Operation::From(name@))),
{
    Ok(Some(Transformation::From { from: name.clone() }))
}

/// The format `excel-ordinal` selects spreadsheet serial dates, once, here;
/// any other format is kept for reading dates with it.
fn date_transformation(format: &String) -> (r: MaybeSomeTransformation)
    ensures
        step_view(r) == compiled_step(Expression::Date { date: *format }, Map::empty(), Map::empty()),
{
    if *format == EXCEL_ORDINAL.to_string() {
        Ok(Some(Transformation::ExcelOrdinalDate))
    } else {
        Ok(Some(Transformation::Date { format: format.clone() }))
    }
}

/// Compiles one expression against the header's index and the variables.
pub fn compile_expression(
    step: &Expression,
    input_column_index_by_name: &InputColumnIndexByName,
    variables: &Variables,
) -> (r: MaybeSomeTransformation)
    ensures
        step_view(r) == compiled_step(*step, input_column_index_by_name@, variables@),
{
    match step {
        Expression::Input { input } => compile_singular_input(input, input_column_index_by_name),
        Expression::MultipleInput { input } => compile_multiple_input(
            input,
            input_column_index_by_name,
        ),
        Expression::Trim { trim } => Ok(Some(Transformation::Slice { start: 0, end: *trim })),
        Expression::Replace { replace } => Ok(
            Some(Transformation::Replace { replace: mapping_copy(replace) }),
        ),
        Expression::ReplaceRegex { replace_regex } => compile_replace_regex(replace_regex),
        Expression::Variable { var } => variable_transformation(var, variables),
        Expression::Value { value } => Ok(Some(Transformation::Value { value: value.clone() })),
        Expression::From { from } => from_transformation(from),
        Expression::Date { date } => date_transformation(date),
        Expression::MultipleDate { date } => compile_date_with_multiple_formats(date),
        Expression::Operation(value) => transformation_without_parameters(value),
    }
}

/// Compiles a chain of expressions in order, leaving out the steps that
/// compile to nothing; the first error ends the compilation.
pub fn expressions_to_transformations_chain(
    expressions: &Vec<Expression>,
    input_column_index_by_name: &InputColumnIndexByName,
    variables: &Variables,
) -> (r: MaybeTransformationsChain)
    ensures
        chain_view(r) == compiled_steps(expressions@, input_column_index_by_name@, variables@),
{
    let ghost index = input_column_index_by_name@;
    let ghost vars = variables@;
    let mut chain: Vec<Transformation> = Vec::new();
    let mut i: usize = 0;
    assert(expressions@.subrange(0, 0) =~= Seq::<Expression>::empty());
    assert(ops(chain@) =~= Seq::<Operation>::empty());
    while i < expressions.len()
        invariant
            i <= expressions@.len(),
            index == input_column_index_by_name@,
            vars == variables@,
            compiled_steps(expressions@.subrange(0, i as int), index, vars) == Ok::<
                Seq<Operation>,
                ConfigParseErrorView,
            >(ops(chain@)),
        decreases expressions@.len() - i,
    {
        let ghost next = expressions@.subrange(0, i + 1);
        assert(next.drop_last() =~= expressions@.subrange(0, i as int));
        assert(next.last() == expressions@[i as int]);
        match compile_expression(&expressions[i], input_column_index_by_name, variables) {
            Err(e) => {
                proof {
                    lemma_steps_error_stays(expressions@, i as int + 1, index, vars);
                    assert(expressions@.subrange(0, expressions@.len() as int) =~= expressions@);
                }
                return Err(e);
            },
            Ok(Some(t)) => {
                let ghost before = chain@;
                chain.push(t);
                assert(ops(chain@) =~= ops(before).push(t@));
            },
            Ok(None) => {},
        }
        i += 1;
    }
    assert(expressions@.subrange(0, i as int) =~= expressions@);
    Ok(chain)
}

/// Once a prefix of a chain fails, every longer prefix fails with the same error.
proof fn lemma_steps_error_stays(
    steps: Seq<Expression>,
    n: int,
    index: Map<Seq<char>, usize>,
    vars: Map<Seq<char>, String>,
)
    requires
        0 <= n <= steps.len(),
        compiled_steps(steps.subrange(0, n), index, vars) is Err,
    ensures
        compiled_steps(steps, index, vars) == compiled_steps(steps.subrange(0, n), index, vars),
    decreases steps.len() - n,
{
    if n < steps.len() {
        let next = steps.subrange(0, n + 1);
        assert(next.drop_last() =~= steps.subrange(0, n));
        lemma_steps_error_stays(steps, n + 1, index, vars);
    } else {
        assert(steps.subrange(0, n) =~= steps);
    }
}

/// The shorthand of a column: one input column by name.
pub fn shorthand_input_to_transformations_chain(
    input_column_name: &String,
    input_column_index_by_name: &InputColumnIndexByName,
    variables: &Variables,
) -> (r: MaybeTransformationsChain)
    ensures
        chain_view(r) == compiled_column(
            Column::Input(*input_column_name),
            input_column_index_by_name@,
            variables@,
        ),
{
    let ghost steps = seq![Expression::Input { input: *input_column_name }];
    let ghost idx = input_column_index_by_name@;
    let ghost vars = variables@;
    assert(steps.drop_last() =~= Seq::<Expression>::empty());
    assert(compiled_steps(steps.drop_last(), idx, vars) == Ok::<Seq<Operation>, ConfigParseErrorView>(
        Seq::empty(),
    ));
    assert(steps.last() == Expression::Input { input: *input_column_name });
    match compile_singular_input(input_column_name, input_column_index_by_name) {
        Ok(Some(t)) => {
            let chain = vec![t];
            assert(ops(chain@) =~= seq![t@]);
            assert(Seq::<Operation>::empty().push(t@) =~= seq![t@]);
            Ok(chain)
        },
        _ => {
            let chain: Vec<Transformation> = Vec::new();
            assert(ops(chain@) =~= Seq::<Operation>::empty());
            Ok(chain)
        },
    }
}

pub fn column_to_transformations_chain(
    column: &Column,
    input_column_index_by_name: &InputColumnIndexByName,
    variables: &Variables,
) -> (r: MaybeTransformationsChain)
    ensures
        chain_view(r) == compiled_column(*column, input_column_index_by_name@, variables@),
{
    match column {
        Column::Input(input_column_name) => shorthand_input_to_transformations_chain(
            input_column_name,
            input_column_index_by_name,
            variables,
        ),
        Column::Expressions(steps) => expressions_to_transformations_chain(
            steps,
            input_column_index_by_name,
            variables,
        ),
    }
}

/// The index of the columns of an input header by name; a later duplicate
/// name takes the place of an earlier one.
pub fn get_input_columns_index_map(headers: &StringRecord) -> (r: InputColumnIndexByName)
    ensures
        r@ == header_index_map(text_fields(*headers)),
{
    index_by_name(&field_names(headers))
}

/// Compiles every declared output column, in declared order, against an input
/// header; the first column that fails fails the whole, marked with its name.
pub fn create_transformer(
    config: &Config,
    headers: &StringRecord,
    variables: &Variables,
) -> (r: Result<Transformer, ConfigParseError>)
    ensures
        r is Ok <==> compiled_columns(
            config@,
            header_index_map(text_fields(*headers)),
            variables@,
        ) is Ok,
        r matches Ok(t) ==> texts(t.headers@) == column_names(config@) && Ok::<
            Seq<Seq<Operation>>,
            ConfigParseErrorView,
        >(t.columns@.map_values(|c: Vec<Transformation>| ops(c@))) == compiled_columns(
            config@,
            header_index_map(text_fields(*headers)),
            variables@,
        ),
        r matches Err(e) ==> Err::<Seq<Seq<Operation>>, ConfigParseErrorView>(e@) == compiled_columns(
            config@,
            header_index_map(text_fields(*headers)),
            variables@,
        ),
{
    let index = get_input_columns_index_map(headers);
    let ghost idx = index@;
    let ghost vars = variables@;
    let ghost all = config@;
    let mut names: Vec<String> = Vec::new();
    let mut columns: Vec<Vec<Transformation>> = Vec::new();
    let mut i: usize = 0;
    assert(all.subrange(0, 0) =~= Seq::<(String, Column)>::empty());
    assert(columns@.map_values(|c: Vec<Transformation>| ops(c@)) =~= Seq::<Seq<Operation>>::empty());
    assert(texts(names@) =~= Seq::<Seq<char>>::empty());
    assert(column_names(all.subrange(0, 0)) =~= Seq::<Seq<char>>::empty());
    while i < config.columns().len()
        invariant
            i <= all.len(),
            all == config@,
            idx == index@,
            idx == header_index_map(text_fields(*headers)),
            vars == variables@,
            texts(names@) == column_names(all.subrange(0, i as int)),
            compiled_columns(all.subrange(0, i as int), idx, vars) == Ok::<
                Seq<Seq<Operation>>,
                ConfigParseErrorView,
            >(columns@.map_values(|c: Vec<Transformation>| ops(c@))),
        decreases all.len() - i,
    {
        let ghost next = all.subrange(0, i + 1);
        assert(next.drop_last() =~= all.subrange(0, i as int));
        assert(next.last() == all[i as int]);
        let (name, column) = &config.columns()[i];
        match column_to_transformations_chain(column, &index, variables) {
            Err(e) => {
                let marked = ConfigParseError { column: Some(name.clone()), ..e };
                proof {
                    assert(marked@ == in_column(e@, name@));
                    assert(compiled_columns(next, idx, vars) == Err::<
                        Seq<Seq<Operation>>,
                        ConfigParseErrorView,
                    >(in_column(e@, name@)));
                    lemma_columns_error_stays(all, i as int + 1, idx, vars);
                    assert(compiled_columns(all, idx, vars) == Err::<
                        Seq<Seq<Operation>>,
                        ConfigParseErrorView,
                    >(marked@));
                }
                return Err(marked);
            },
            Ok(chain) => {
                let ghost before = columns@;
                let ghost before_names = names@;
                names.push(name.clone());
                columns.push(chain);
                assert(columns@.map_values(|c: Vec<Transformation>| ops(c@)) =~= before.map_values(
                    |c: Vec<Transformation>| ops(c@),
                ).push(ops(chain@)));
                assert(texts(names@) =~= texts(before_names).push(name@));
                assert(column_names(next) =~= column_names(all.subrange(0, i as int)).push(name@));
            },
        }
        i += 1;
    }
    assert(all.subrange(0, i as int) =~= all);
    Ok(Transformer { headers: names, columns })
}

/// Once a prefix of the columns fails, every longer prefix fails with the same error.
proof fn lemma_columns_error_stays(
    columns: Seq<(String, Column)>,
    n: int,
    index: Map<Seq<char>, usize>,
    vars: Map<Seq<char>, String>,
)
    requires
        0 <= n <= columns.len(),
        compiled_columns(columns.subrange(0, n), index, vars) is Err,
    ensures
        compiled_columns(columns, index, vars) == compiled_columns(columns.subrange(0, n), index, vars),
    decreases columns.len() - n,
{
    if n < columns.len() {
        let next = columns.subrange(0, n + 1);
        assert(next.drop_last() =~= columns.subrange(0, n));
        lemma_columns_error_stays(columns, n + 1, index, vars);
    } else {
        assert(columns.subrange(0, n) =~= columns);
    }
}

/// The input column that a step asks for by its one name, when the header lacks it.
pub open spec fn missing_in_step(e: Expression, index: Map<Seq<char>, usize>) -> Seq<Seq<char>> {
    match e {
        Expression::Input { input } => if index.contains_key(input@) {
            Seq::empty()
        } else {
            seq![input@]
        },
        _ => Seq::empty(),
    }
}

/// The input columns that the steps of a chain ask for by one name and the
/// header lacks, in order. Alias lists are not counted: they fall back silently.
pub open spec fn missing_in_steps(steps: Seq<Expression>, index: Map<Seq<char>, usize>) -> Seq<Seq<char>>
    decreases steps.len(),
{
    if steps.len() == 0 {
        Seq::empty()
    } else {
        missing_in_steps(steps.drop_last(), index) + missing_in_step(steps.last(), index)
    }
}

pub open spec fn missing_in_column(c: Column, index: Map<Seq<char>, usize>) -> Seq<Seq<char>> {
    match c {
        Column::Input(name) => missing_in_step(Expression::Input { input: name }, index),
        Column::Expressions(steps) => missing_in_steps(steps@, index),
    }
}

/// The missing input columns of every output column, in declared order.
pub open spec fn missing_inputs(columns: Seq<(String, Column)>, index: Map<Seq<char>, usize>) -> Seq<
    Seq<char>,
>
    decreases columns.len(),
{
    if columns.len() == 0 {
        Seq::empty()
    } else {
        missing_inputs(columns.drop_last(), index) + missing_in_column(columns.last().1, index)
    }
}

fn missing_in_steps_of(steps: &Vec<Expression>, index: &InputColumnIndexByName, out: &mut Vec<String>)
    ensures
        texts(final(out)@) == texts(old(out)@) + missing_in_steps(steps@, index@),
{
    let ghost start = texts(out@);
    let mut i: usize = 0;
    assert(steps@.subrange(0, 0) =~= Seq::<Expression>::empty());
    assert(start + missing_in_steps(steps@.subrange(0, 0), index@) =~= start);
    while i < steps.len()
        invariant
            i <= steps@.len(),
            texts(out@) == start + missing_in_steps(steps@.subrange(0, i as int), index@),
        decreases steps@.len() - i,
    {
        let ghost next = steps@.subrange(0, i + 1);
        assert(next.drop_last() =~= steps@.subrange(0, i as int));
        assert(next.last() == steps@[i as int]);
        let ghost before = texts(out@);
        match &steps[i] {
            Expression::Input { input } => {
                if index.get(input).is_none() {
                    out.push(input.clone());
                    assert(texts(out@) =~= before + seq![input@]);
                } else {
                    assert(before + Seq::<Seq<char>>::empty() =~= before);
                }
            },
            _ => {
                assert(before + Seq::<Seq<char>>::empty() =~= before);
            },
        }
        assert(texts(out@) =~= start + missing_in_steps(next, index@));
        i += 1;
    }
    assert(steps@.subrange(0, i as int) =~= steps@);
}

/// The input columns that the configuration asks for by one name and the
/// header lacks; each gives a warning, and its step is left out of its chain.
pub fn missing_input_columns(config: &Config, headers: &StringRecord) -> (r: Vec<String>)
    ensures
        texts(r@) == missing_inputs(config@, header_index_map(text_fields(*headers))),
{
    let index = get_input_columns_index_map(headers);
    let ghost all = config@;
    let mut out: Vec<String> = Vec::new();
    let mut i: usize = 0;
    assert(all.subrange(0, 0) =~= Seq::<(String, Column)>::empty());
    assert(texts(out@) =~= Seq::<Seq<char>>::empty());
    while i < config.columns().len()
        invariant
            i <= all.len(),
            all == config@,
            index@ == header_index_map(text_fields(*headers)),
            texts(out@) == missing_inputs(all.subrange(0, i as int), index@),
        decreases all.len() - i,
    {
        let ghost next = all.subrange(0, i + 1);
        assert(next.drop_last() =~= all.subrange(0, i as int));
        assert(next.last() == all[i as int]);
        let ghost before = texts(out@);
        match &config.columns()[i].1 {
            Column::Input(name) => {
                if index.get(name).is_none() {
                    out.push(name.clone());
                    assert(texts(out@) =~= before + seq![name@]);
                } else {
                    assert(before + Seq::<Seq<char>>::empty() =~= before);
                }
            },
            Column::Expressions(steps) => {
                missing_in_steps_of(steps, &index, &mut out);
            },
        }
        i += 1;
    }
    assert(all.subrange(0, i as int) =~= all);
    out
}

/// A chain with an expression that fails to compile fails as a whole.
pub proof fn lemma_failing_step_fails_chain(
    steps: Seq<Expression>,
    s: int,
    index: Map<Seq<char>, usize>,
    vars: Map<Seq<char>, String>,
)
    requires
        0 <= s < steps.len(),
        compiled_step(steps[s], index, vars) is Err,
    ensures
        compiled_steps(steps, index, vars) is Err,
{
    let next = steps.subrange(0, s + 1);
    assert(next.drop_last() =~= steps.subrange(0, s));
    assert(next.last() == steps[s]);
    lemma_steps_error_stays(steps, s + 1, index, vars);
}

/// A configuration with a column that fails to compile fails as a whole.
pub proof fn lemma_failing_column_fails_configuration(
    columns: Seq<(String, Column)>,
    c: int,
    index: Map<Seq<char>, usize>,
    vars: Map<Seq<char>, String>,
)
    requires
        0 <= c < columns.len(),
        compiled_column(columns[c].1, index, vars) is Err,
    ensures
        compiled_columns(columns, index, vars) is Err,
{
    let next = columns.subrange(0, c + 1);
    assert(next.drop_last() =~= columns.subrange(0, c));
    assert(next.last() == columns[c]);
    lemma_columns_error_stays(columns, c + 1, index, vars);
}

/// A regular expression that does not compile makes the whole configuration
/// fail, whatever the header and the variables; the step itself fails with an
/// error of kind `regex` that quotes the pattern.
pub proof fn lemma_invalid_pattern_fails_configuration(
    columns: Seq<(String, Column)>,
    c: int,
    s: int,
    index: Map<Seq<char>, usize>,
    vars: Map<Seq<char>, String>,
)
    requires
        0 <= c < columns.len(),
        columns[c].1 is Expressions,
        0 <= s < columns[c].1->Expressions_0@.len(),
        columns[c].1->Expressions_0@[s] is ReplaceRegex,
        regex_rejection(columns[c].1->Expressions_0@[s]->replace_regex.pattern@) is Some,
    ensures
        compiled_columns(columns, index, vars) is Err,
        compiled_step(columns[c].1->Expressions_0@[s], index, vars) matches Err(e) && e.error_type
            == "regex"@ && e.error_description.subrange(36, 36 + columns[c].1->Expressions_0@[s]->replace_regex.pattern@.len() as int)
            == columns[c].1->Expressions_0@[s]->replace_regex.pattern@,
{
    let steps = columns[c].1->Expressions_0@;
    let pattern = steps[s]->replace_regex.pattern@;
    let message = regex_rejection(pattern)->Some_0;
    let head = "Cannot parse regular expression:\n\n  "@;
    assert(head.len() == 36) by {
        reveal_strlit("Cannot parse regular expression:\n\n  ");
    }
    let text = head + pattern + "\n\nbecause: "@ + message;
    assert(text.subrange(36, 36 + pattern.len() as int) =~= pattern);
    lemma_failing_step_fails_chain(steps, s, index, vars);
    lemma_failing_column_fails_configuration(columns, c, index, vars);
}

} // verus!
