//! Running compiled chains over records: one cell, one row, a whole run.
use vstd::prelude::*;
use csv::{ByteRecord, StringRecord};
use crate::compile::{
    column_names, compiled_columns, create_transformer, lemma_invalid_pattern_fails_configuration, ops,
    texts, Transformer,
};
use crate::pattern::regex_rejection;
use crate::error::{ConfigParseError, ConfigParseErrorView, OperationError, OperationErrorView};
use crate::expression::{Column, Config};
use crate::names::{header_index_map, Variables};
use crate::record::{record_fields, text_fields};
use crate::transformation::{applied, result_view, Operation, Transformation};
use crate::value::{rendered, CellValue, CellView};

verus! {

/// A chain folded over a record from empty text: each operation takes the
/// value of the one before, and the first failure ends the chain.
pub open spec fn folded(chain: Seq<Operation>, fields: Seq<Seq<u8>>, line: nat) -> Result<
    CellView,
    OperationErrorView,
>
    decreases chain.len(),
{
    if chain.len() == 0 {
        Ok(CellView::Text(Some(Seq::empty())))
    } else {
        match folded(chain.drop_last(), fields, line) {
            Err(e) => Err(e),
            Ok(v) => applied(chain.last(), v, fields, line),
        }
    }
}

/// The text of an output cell: the chain's value, or empty text where it failed.
pub open spec fn cell_text(chain: Seq<Operation>, fields: Seq<Seq<u8>>, line: nat) -> Seq<char> {
    match folded(chain, fields, line) {
        Ok(v) => rendered(v),
        Err(_) => Seq::empty(),
    }
}

/// The cells of an output row, one per chain.
pub open spec fn row_texts(columns: Seq<Seq<Operation>>, fields: Seq<Seq<u8>>, line: nat) -> Seq<Seq<char>> {
    columns.map_values(|c: Seq<Operation>| cell_text(c, fields, line))
}

/// The failures of the chains of a row, in column order.
pub open spec fn row_failures(columns: Seq<Seq<Operation>>, fields: Seq<Seq<u8>>, line: nat) -> Seq<
    OperationErrorView,
>
    decreases columns.len(),
{
    if columns.len() == 0 {
        Seq::empty()
    } else {
        let before = row_failures(columns.drop_last(), fields, line);
        match folded(columns.last(), fields, line) {
            Err(e) => before.push(e),
            Ok(_) => before,
        }
    }
}

pub open spec fn chains(t: Transformer) -> Seq<Seq<Operation>> {
    t.columns@.map_values(|c: Vec<Transformation>| ops(c@))
}

/// Folds a chain over a record, from empty text.
pub fn evaluate_chain(
    transformations_chain: &Vec<Transformation>,
    record: &ByteRecord,
    line_number: usize,
) -> (r: Result<CellValue, OperationError>)
    ensures
        result_view(r) == folded(ops(transformations_chain@), record_fields(*record), line_number as nat),
{
    let ghost chain = ops(transformations_chain@);
    let ghost fields = record_fields(*record);
    let mut value = CellValue::empty_string();
    let mut i: usize = 0;
    assert(chain.subrange(0, 0) =~= Seq::<Operation>::empty());
    while i < transformations_chain.len()
        invariant
            i <= transformations_chain@.len(),
            chain == ops(transformations_chain@),
            fields == record_fields(*record),
            folded(chain.subrange(0, i as int), fields, line_number as nat) == Ok::<
                CellView,
                OperationErrorView,
            >(value@),
        decreases transformations_chain@.len() - i,
    {
        let ghost next = chain.subrange(0, i + 1);
        assert(next.drop_last() =~= chain.subrange(0, i as int));
        assert(next.last() == transformations_chain@[i as int]@);
        match transformations_chain[i].apply(value, record, line_number) {
            Ok(v) => {
                value = v;
            },
            Err(e) => {
                proof {
                    lemma_fold_error_stays(chain, i as int + 1, fields, line_number as nat);
                }
                return Err(e);
            },
        }
        i += 1;
    }
    assert(chain.subrange(0, i as int) =~= chain);
    Ok(value)
}

/// Once a prefix of a chain fails, the whole chain fails with the same error.
proof fn lemma_fold_error_stays(chain: Seq<Operation>, n: int, fields: Seq<Seq<u8>>, line: nat)
    requires
        0 <= n <= chain.len(),
        folded(chain.subrange(0, n), fields, line) is Err,
    ensures
        folded(chain, fields, line) == folded(chain.subrange(0, n), fields, line),
    decreases chain.len() - n,
{
    if n < chain.len() {
        let next = chain.subrange(0, n + 1);
        assert(next.drop_last() =~= chain.subrange(0, n));
        lemma_fold_error_stays(chain, n + 1, fields, line);
    } else {
        assert(chain.subrange(0, n) =~= chain);
    }
}

/// The text of one output cell, and the failure to report where the chain failed.
pub fn apply_transformations_chain(
    transformations_chain: &Vec<Transformation>,
    record: &ByteRecord,
    line_number: usize,
) -> (r: (String, Option<OperationError>))
    ensures
        r.0@ == cell_text(ops(transformations_chain@), record_fields(*record), line_number as nat),
        r.1 is Some <==> folded(ops(transformations_chain@), record_fields(*record), line_number as nat) is Err,
        r.1 matches Some(e) ==> folded(ops(transformations_chain@), record_fields(*record), line_number as nat)
            == Err::<CellView, OperationErrorView>(e@),
{
    match evaluate_chain(transformations_chain, record, line_number) {
        Ok(value) => (value.to_string(), None),
        Err(e) => (String::new(), Some(e)),
    }
}

/// An output row and the failures met while computing it.
#[derive(Debug)]
pub struct TransformedRow {
    pub fields: Vec<String>,
    pub errors: Vec<OperationError>,
}

/// Applies every column's chain to a record.
pub fn transform(record: &ByteRecord, transformer: &Transformer, line_number: usize) -> (r: TransformedRow)
    ensures
        texts(r.fields@) == row_texts(chains(*transformer), record_fields(*record), line_number as nat),
        r.errors@.map_values(|e: OperationError| e@) == row_failures(
            chains(*transformer),
            record_fields(*record),
            line_number as nat,
        ),
{
    let ghost all = chains(*transformer);
    let ghost fields = record_fields(*record);
    let ghost line = line_number as nat;
    let mut out: Vec<String> = Vec::new();
    let mut errors: Vec<OperationError> = Vec::new();
    let mut i: usize = 0;
    assert(texts(out@) =~= row_texts(all.subrange(0, 0), fields, line));
    assert(errors@.map_values(|e: OperationError| e@) =~= Seq::<OperationErrorView>::empty());
    assert(all.subrange(0, 0) =~= Seq::<Seq<Operation>>::empty());
    while i < transformer.columns.len()
        invariant
            i <= transformer.columns@.len(),
            all == chains(*transformer),
            fields == record_fields(*record),
            line == line_number as nat,
            texts(out@) == row_texts(all.subrange(0, i as int), fields, line),
            errors@.map_values(|e: OperationError| e@) == row_failures(all.subrange(0, i as int), fields, line),
        decreases transformer.columns@.len() - i,
    {
        let ghost next = all.subrange(0, i + 1);
        assert(next.drop_last() =~= all.subrange(0, i as int));
        assert(next.last() == ops(transformer.columns@[i as int]@));
        let (text, failure) = apply_transformations_chain(&transformer.columns[i], record, line_number);
        let ghost before = out@;
        let ghost before_errors = errors@;
        out.push(text);
        assert(texts(out@) =~= texts(before).push(cell_text(next.last(), fields, line)));
        assert(row_texts(next, fields, line) =~= row_texts(all.subrange(0, i as int), fields, line).push(
            cell_text(next.last(), fields, line),
        ));
        match failure {
            Some(e) => {
                errors.push(e);
                assert(errors@.map_values(|e: OperationError| e@) =~= before_errors.map_values(
                    |e: OperationError| e@,
                ).push(e@));
            },
            None => {},
        }
        i += 1;
    }
    assert(all.subrange(0, i as int) =~= all);
    TransformedRow { fields: out, errors }
}

/// Where a run stands: the line number of the next record, counted from 1
/// over all sources together, and whether the output header is out.
#[derive(Debug)]
pub struct RunState {
    next_line: usize,
    header_written: bool,
}

impl RunState {
    pub closed spec fn line(&self) -> nat {
        self.next_line as nat
    }

    pub closed spec fn header_written(&self) -> bool {
        self.header_written
    }

    /// A run before its first source.
    pub fn new() -> (r: RunState)
        ensures
            r.line() == 1,
            !r.header_written(),
    {
        RunState { next_line: 1, header_written: false }
    }

    /// The line number the next record gets.
    pub fn line_number(&self) -> (r: usize)
        ensures
            r == self.line(),
    {
        self.next_line
    }

    /// Starts a source: compiles the configuration against its header. The
    /// output header comes with the first source that compiles, and only then;
    /// line numbers go on from the sources before.
    pub fn begin_source(
        &mut self,
        config: &Config,
        headers: &StringRecord,
        variables: &Variables,
    ) -> (r: Result<(Transformer, Option<Vec<String>>), ConfigParseError>)
        ensures
            r is Ok <==> compiled_columns(
                config@,
                header_index_map(text_fields(*headers)),
                variables@,
            ) is Ok,
            r matches Ok((t, header)) ==> texts(t.headers@) == column_names(config@) && Ok::<
                Seq<Seq<Operation>>,
                ConfigParseErrorView,
            >(chains(t)) == compiled_columns(
                config@,
                header_index_map(text_fields(*headers)),
                variables@,
            ) && (header is Some <==> !old(self).header_written()) && (header matches Some(h)
                ==> texts(h@) == column_names(config@)),
            r matches Err(e) ==> Err::<Seq<Seq<Operation>>, ConfigParseErrorView>(e@)
                == compiled_columns(config@, header_index_map(text_fields(*headers)), variables@),
            final(self).line() == old(self).line(),
            final(self).header_written() == (old(self).header_written() || r is Ok),
    {
        match create_transformer(config, headers, variables) {
            Ok(t) => {
                if self.header_written {
                    Ok((t, None))
                } else {
                    self.header_written = true;
                    let mut header: Vec<String> = Vec::new();
                    let mut i: usize = 0;
                    while i < t.headers.len()
                        invariant
                            i <= t.headers@.len(),
                            header@ == t.headers@.subrange(0, i as int),
                        decreases t.headers@.len() - i,
                    {
                        header.push(t.headers[i].clone());
                        i += 1;
                        assert(header@ =~= t.headers@.subrange(0, i as int));
                    }
                    assert(t.headers@.subrange(0, i as int) =~= t.headers@);
                    Ok((t, Some(header)))
                }
            },
            Err(e) => Err(e),
        }
    }

    /// Whether another record can be numbered.
    pub fn can_take_row(&self) -> (r: bool)
        ensures
            r == (self.line() < usize::MAX),
    {
        self.next_line < usize::MAX
    }

    /// Transforms the next record of the run, at the next line number.
    pub fn next_row(&mut self, transformer: &Transformer, record: &ByteRecord) -> (r: TransformedRow)
        requires
            old(self).line() < usize::MAX,
        ensures
            texts(r.fields@) == row_texts(chains(*transformer), record_fields(*record), old(self).line()),
            r.errors@.map_values(|e: OperationError| e@) == row_failures(
                chains(*transformer),
                record_fields(*record),
                old(self).line(),
            ),
            final(self).line() == old(self).line() + 1,
            final(self).header_written() == old(self).header_written(),
    {
        let row = transform(record, transformer, self.next_line);
        self.next_line = self.next_line + 1;
        row
    }
}

/// The number of records in the sources.
pub open spec fn records_before(sources: Seq<(StringRecord, Vec<ByteRecord>)>) -> nat
    decreases sources.len(),
{
    if sources.len() == 0 {
        0
    } else {
        records_before(sources.drop_last()) + sources.last().1@.len()
    }
}

/// The output rows of the records of one source, the first of them at `first_line`.
pub open spec fn source_rows(columns: Seq<Seq<Operation>>, records: Seq<ByteRecord>, first_line: nat) -> Seq<
    Seq<Seq<char>>,
> {
    Seq::new(
        records.len(),
        |k: int| row_texts(columns, record_fields(records[k]), first_line + k as nat),
    )
}

/// What a run over the sources in order writes: the header once, from the
/// first source, then the rows of every source, numbered from 1 on without a
/// break between sources. Each source is compiled against its own header; the
/// first that fails to compile stops the run.
pub open spec fn run_output(
    columns: Seq<(String, Column)>,
    vars: Map<Seq<char>, String>,
    sources: Seq<(StringRecord, Vec<ByteRecord>)>,
) -> Result<Seq<Seq<Seq<char>>>, ConfigParseErrorView>
    decreases sources.len(),
{
    if sources.len() == 0 {
        Ok(Seq::empty())
    } else {
        match run_output(columns, vars, sources.drop_last()) {
            Err(e) => Err(e),
            Ok(before) => match compiled_columns(
                columns,
                header_index_map(text_fields(sources.last().0)),
                vars,
            ) {
                Err(e) => Err(e),
                Ok(compiled) => {
                    let rows = source_rows(
                        compiled,
                        sources.last().1@,
                        1 + records_before(sources.drop_last()),
                    );
                    if sources.len() == 1 {
                        Ok(seq![column_names(columns)] + rows)
                    } else {
                        Ok(before + rows)
                    }
                },
            },
        }
    }
}

pub open spec fn rows_view(rows: Seq<Vec<String>>) -> Seq<Seq<Seq<char>>> {
    rows.map_values(|row: Vec<String>| texts(row@))
}

proof fn lemma_records_prefix(sources: Seq<(StringRecord, Vec<ByteRecord>)>, n: int)
    requires
        0 <= n < sources.len(),
    ensures
        records_before(sources.subrange(0, n)) + sources[n].1@.len() <= records_before(sources),
    decreases sources.len() - n,
{
    let next = sources.subrange(0, n + 1);
    assert(next.drop_last() =~= sources.subrange(0, n));
    if n + 1 < sources.len() {
        lemma_records_prefix(sources, n + 1);
    } else {
        assert(next =~= sources);
    }
}

/// Runs the configuration over sources held in memory, each a header and its
/// records, and gives every row written, the header first.
pub fn run(
    config: &Config,
    variables: &Variables,
    sources: &Vec<(StringRecord, Vec<ByteRecord>)>,
) -> (r: Result<Vec<Vec<String>>, ConfigParseError>)
    requires
        records_before(sources@) < usize::MAX,
    ensures
        r matches Ok(rows) ==> run_output(config@, variables@, sources@) == Ok::<
            Seq<Seq<Seq<char>>>,
            ConfigParseErrorView,
        >(rows_view(rows@)),
        r matches Err(e) ==> run_output(config@, variables@, sources@) == Err::<
            Seq<Seq<Seq<char>>>,
            ConfigParseErrorView,
        >(e@),
{
    let ghost cols = config@;
    let ghost vars = variables@;
    let mut state = RunState::new();
    let mut out: Vec<Vec<String>> = Vec::new();
    let mut s: usize = 0;
    assert(sources@.subrange(0, 0) =~= Seq::<(StringRecord, Vec<ByteRecord>)>::empty());
    assert(rows_view(out@) =~= Seq::<Seq<Seq<char>>>::empty());
    while s < sources.len()
        invariant
            s <= sources@.len(),
            cols == config@,
            vars == variables@,
            records_before(sources@) < usize::MAX,
            state.line() == 1 + records_before(sources@.subrange(0, s as int)),
            state.header_written() == (s > 0),
            run_output(cols, vars, sources@.subrange(0, s as int)) == Ok::<
                Seq<Seq<Seq<char>>>,
                ConfigParseErrorView,
            >(rows_view(out@)),
        decreases sources@.len() - s,
    {
        let ghost prefix = sources@.subrange(0, s as int);
        let ghost next = sources@.subrange(0, s + 1);
        assert(next.drop_last() =~= prefix);
        assert(next.last() == sources@[s as int]);
        proof {
            lemma_records_prefix(sources@, s as int);
        }
        let (headers, records) = &sources[s];
        match state.begin_source(config, headers, variables) {
            Err(e) => {
                proof {
                    lemma_run_error_stays(cols, vars, sources@, s as int + 1);
                }
                return Err(e);
            },
            Ok((transformer, header)) => {
                let ghost compiled = chains(transformer);
                let ghost first = 1 + records_before(prefix);
                let ghost start = rows_view(out@);
                match header {
                    Some(h) => {
                        out.push(h);
                    },
                    None => {},
                }
                let ghost base = rows_view(out@);
                assert(base == if s == 0 {
                    seq![column_names(cols)]
                } else {
                    start
                }) by {
                    if s == 0 {
                        assert(start =~= Seq::<Seq<Seq<char>>>::empty());
                        assert(base =~= seq![column_names(cols)]);
                    }
                };
                let mut k: usize = 0;
                assert(records@.subrange(0, 0) =~= Seq::<ByteRecord>::empty());
                assert(base + source_rows(compiled, records@.subrange(0, 0), first) =~= base);
                while k < records.len()
                    invariant
                        k <= records@.len(),
                        compiled == chains(transformer),
                        records@.len() == sources@[s as int].1@.len(),
                        first + records@.len() <= records_before(sources@) + 1,
                        records_before(sources@) < usize::MAX,
                        state.line() == first + k,
                        state.header_written(),
                        rows_view(out@) == base + source_rows(compiled, records@.subrange(0, k as int), first),
                    decreases records@.len() - k,
                {
                    let ghost before = rows_view(out@);
                    let row = state.next_row(&transformer, &records[k]);
                    let ghost row_view = row_texts(compiled, record_fields(records@[k as int]), (first + k) as nat);
                    assert(texts(row.fields@) == row_view);
                    out.push(row.fields);
                    assert(rows_view(out@) =~= before.push(row_view));
                    assert(source_rows(compiled, records@.subrange(0, k + 1), first) =~= source_rows(
                        compiled,
                        records@.subrange(0, k as int),
                        first,
                    ).push(row_view));
                    k += 1;
                }
                assert(records@.subrange(0, k as int) =~= records@);
                proof {
                    if s == 0 {
                        assert(next.len() == 1);
                    }
                    assert(rows_view(out@) =~= if s == 0 {
                        seq![column_names(cols)] + source_rows(compiled, records@, first)
                    } else {
                        start + source_rows(compiled, records@, first)
                    });
                }
            },
        }
        s += 1;
    }
    assert(sources@.subrange(0, s as int) =~= sources@);
    Ok(out)
}

/// Once a run over a prefix of the sources fails, the run over all of them
/// fails with the same error.
proof fn lemma_run_error_stays(
    columns: Seq<(String, Column)>,
    vars: Map<Seq<char>, String>,
    sources: Seq<(StringRecord, Vec<ByteRecord>)>,
    n: int,
)
    requires
        0 <= n <= sources.len(),
        run_output(columns, vars, sources.subrange(0, n)) is Err,
    ensures
        run_output(columns, vars, sources) == run_output(columns, vars, sources.subrange(0, n)),
    decreases sources.len() - n,
{
    if n < sources.len() {
        let next = sources.subrange(0, n + 1);
        assert(next.drop_last() =~= sources.subrange(0, n));
        lemma_run_error_stays(columns, vars, sources, n + 1);
    } else {
        assert(sources.subrange(0, n) =~= sources);
    }
}

/// A regular expression that does not compile stops a run before its first
/// row: nothing is written, not even the header. With at least one source
/// the run fails; with none there is nothing to compile and nothing is written.
pub proof fn lemma_invalid_pattern_stops_run(
    columns: Seq<(String, Column)>,
    vars: Map<Seq<char>, String>,
    sources: Seq<(StringRecord, Vec<ByteRecord>)>,
    c: int,
    s: int,
)
    requires
        0 <= c < columns.len(),
        columns[c].1 is Expressions,
        0 <= s < columns[c].1->Expressions_0@.len(),
        columns[c].1->Expressions_0@[s] is ReplaceRegex,
        regex_rejection(columns[c].1->Expressions_0@[s]->replace_regex.pattern@) is Some,
    ensures
        sources.len() > 0 ==> run_output(columns, vars, sources) is Err,
        run_output(columns, vars, sources) matches Ok(rows) ==> rows.len() == 0,
{
    if sources.len() > 0 {
        let first = sources.subrange(0, 1);
        assert(first.drop_last() =~= Seq::<(StringRecord, Vec<ByteRecord>)>::empty());
        lemma_invalid_pattern_fails_configuration(
            columns,
            c,
            s,
            header_index_map(text_fields(first.last().0)),
            vars,
        );
        lemma_run_error_stays(columns, vars, sources, 1);
    }
}

/// The first row of every run that writes anything is the output column
/// names in declared order, whatever the order of the input headers.
pub proof fn lemma_header_in_declared_order(
    columns: Seq<(String, Column)>,
    vars: Map<Seq<char>, String>,
    sources: Seq<(StringRecord, Vec<ByteRecord>)>,
)
    requires
        sources.len() > 0,
        run_output(columns, vars, sources) is Ok,
    ensures
        run_output(columns, vars, sources)->Ok_0.len() > 0,
        run_output(columns, vars, sources)->Ok_0[0] == column_names(columns),
    decreases sources.len(),
{
    if sources.len() > 1 {
        lemma_header_in_declared_order(columns, vars, sources.drop_last());
    }
}

/// A run that writes anything writes the header and one row per record.
pub proof fn lemma_run_length(
    columns: Seq<(String, Column)>,
    vars: Map<Seq<char>, String>,
    sources: Seq<(StringRecord, Vec<ByteRecord>)>,
)
    requires
        sources.len() > 0,
        run_output(columns, vars, sources) is Ok,
    ensures
        run_output(columns, vars, sources)->Ok_0.len() == 1 + records_before(sources),
    decreases sources.len(),
{
    if sources.len() > 1 {
        lemma_run_length(columns, vars, sources.drop_last());
    } else {
        assert(sources.drop_last() =~= Seq::<(StringRecord, Vec<ByteRecord>)>::empty());
    }
}

/// Line numbers run on across sources, in a run that compiles every source.
proof fn lemma_line_numbers_in_run(
    columns: Seq<(String, Column)>,
    vars: Map<Seq<char>, String>,
    sources: Seq<(StringRecord, Vec<ByteRecord>)>,
    j: int,
    k: int,
)
    requires
        run_output(columns, vars, sources) is Ok,
        0 <= j < sources.len(),
        0 <= k < sources[j].1@.len(),
    ensures
        compiled_columns(columns, header_index_map(text_fields(sources[j].0)), vars) is Ok,
        ({
            let n = 1 + records_before(sources.subrange(0, j)) + k;
            &&& n < run_output(columns, vars, sources)->Ok_0.len()
            &&& run_output(columns, vars, sources)->Ok_0[n] == row_texts(
                compiled_columns(columns, header_index_map(text_fields(sources[j].0)), vars)->Ok_0,
                record_fields(sources[j].1@[k]),
                n as nat,
            )
        }),
    decreases sources.len(),
{
    let last = sources.len() - 1;
    let before = sources.drop_last();
    lemma_run_length(columns, vars, sources);
    if j == last {
        assert(sources.subrange(0, j) =~= before);
        if sources.len() > 1 {
            lemma_run_length(columns, vars, before);
        } else {
            assert(before =~= Seq::<(StringRecord, Vec<ByteRecord>)>::empty());
        }
    } else {
        assert(before[j] == sources[j]);
        assert(before.subrange(0, j) =~= sources.subrange(0, j));
        lemma_line_numbers_in_run(columns, vars, before, j, k);
        lemma_run_length(columns, vars, before);
    }
}

/// Line numbers run on across sources: record `k` of source `j` is written
/// at row `n`, after the header and the records of the sources before it,
/// and it is transformed at line number `n`, counted from 1 over the whole
/// run. This holds of what the run has written by the end of source `j`,
/// whatever the sources after it do; it asks only that the sources up to `j`
/// compile, since otherwise the record is never transformed.
pub proof fn lemma_line_numbers_run_on(
    columns: Seq<(String, Column)>,
    vars: Map<Seq<char>, String>,
    sources: Seq<(StringRecord, Vec<ByteRecord>)>,
    j: int,
    k: int,
)
    requires
        0 <= j < sources.len(),
        0 <= k < sources[j].1@.len(),
        run_output(columns, vars, sources.subrange(0, j + 1)) is Ok,
    ensures
        compiled_columns(columns, header_index_map(text_fields(sources[j].0)), vars) is Ok,
        ({
            let n = 1 + records_before(sources.subrange(0, j)) + k;
            let written = run_output(columns, vars, sources.subrange(0, j + 1))->Ok_0;
            &&& n < written.len()
            &&& written[n] == row_texts(
                compiled_columns(columns, header_index_map(text_fields(sources[j].0)), vars)->Ok_0,
                record_fields(sources[j].1@[k]),
                n as nat,
            )
        }),
        run_output(columns, vars, sources) is Ok ==> run_output(columns, vars, sources)->Ok_0[1
            + records_before(sources.subrange(0, j)) + k] == run_output(
            columns,
            vars,
            sources.subrange(0, j + 1),
        )->Ok_0[1 + records_before(sources.subrange(0, j)) + k],
{
    let prefix = sources.subrange(0, j + 1);
    assert(prefix[j] == sources[j]);
    assert(prefix.subrange(0, j) =~= sources.subrange(0, j));
    lemma_line_numbers_in_run(columns, vars, prefix, j, k);
    if run_output(columns, vars, sources) is Ok {
        lemma_line_numbers_in_run(columns, vars, sources, j, k);
    }
}

} // verus!
