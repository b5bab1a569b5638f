use csv::{ByteRecord, StringRecord};
use ysv::compile::compile_replace_regex;
use ysv::pipeline::{apply_transformations_chain, transform};
use ysv::{create_transformer, run, Column, Config, Expression, ReplaceRegex, RunState, Variables};

fn config_of(columns: Vec<(String, Column)>) -> Config {
    let mut config = Config::new(1);
    for (name, column) in columns {
        config.insert(name, column);
    }
    config
}

fn source(header: &[&str], rows: &[&[&str]]) -> (StringRecord, Vec<ByteRecord>) {
    (
        StringRecord::from(header.to_vec()),
        rows.iter().map(|r| ByteRecord::from(r.to_vec())).collect(),
    )
}

fn cells(items: &[&str]) -> Vec<String> {
    items.iter().map(|s| s.to_string()).collect()
}

fn name_upper_config() -> Config {
    config_of(vec![(
            "NAME".to_string(),
            Column::Expressions(vec![
                Expression::Input { input: "name".to_string() },
                Expression::Operation("uppercase".to_string()),
            ]),
        )])
}

#[test]
fn uppercase_chain_over_hello() {
    let sources = vec![source(&["name"], &[&["hello"]])];
    let out = run(&name_upper_config(), &Variables::new(), &sources).unwrap();
    assert_eq!(out, vec![cells(&["NAME"]), cells(&["HELLO"])]);
}

#[test]
fn uppercase_chain_without_the_column() {
    let sources = vec![source(&["other"], &[&["hello"]])];
    let out = run(&name_upper_config(), &Variables::new(), &sources).unwrap();
    assert_eq!(out, vec![cells(&["NAME"]), cells(&[""])]);
}

#[test]
fn line_numbers_run_on_across_sources() {
    let config = config_of(vec![
            ("n".to_string(), Column::Expressions(vec![Expression::Operation("line-number".to_string())])),
            ("v".to_string(), Column::Input("v".to_string())),
        ]);
    let sources = vec![
        source(&["v"], &[&["a"], &["b"], &["c"]]),
        source(&["x", "v"], &[&["1", "d"], &["2", "e"]]),
    ];
    let out = run(&config, &Variables::new(), &sources).unwrap();
    assert_eq!(
        out,
        vec![
            cells(&["n", "v"]),
            cells(&["1", "a"]),
            cells(&["2", "b"]),
            cells(&["3", "c"]),
            cells(&["4", "d"]),
            cells(&["5", "e"]),
        ]
    );
}

#[test]
fn invalid_regex_writes_nothing() {
    let config = config_of(vec![
            ("a".to_string(), Column::Input("a".to_string())),
            (
                "b".to_string(),
                Column::Expressions(vec![Expression::ReplaceRegex {
                    replace_regex: ReplaceRegex { pattern: "(unclosed".to_string(), replace: "x".to_string() },
                }]),
            ),
        ]);
    let sources = vec![source(&["a"], &[&["1"], &["2"]])];
    let err = run(&config, &Variables::new(), &sources).unwrap_err();
    assert_eq!(err.error_type, "regex");
    assert_eq!(err.column, Some("b".to_string()));
    let mut state = RunState::new();
    let begun = state.begin_source(&config, &sources[0].0, &Variables::new());
    assert!(begun.is_err());
}

#[test]
fn header_order_follows_the_configuration() {
    let config = config_of(vec![
            ("third".to_string(), Column::Input("c".to_string())),
            ("first".to_string(), Column::Input("a".to_string())),
        ]);
    let sources = vec![source(&["a", "b", "c"], &[&["1", "2", "3"]]), source(&["c", "a"], &[&["9", "8"]])];
    let out = run(&config, &Variables::new(), &sources).unwrap();
    assert_eq!(out, vec![cells(&["third", "first"]), cells(&["3", "1"]), cells(&["9", "8"])]);
}

#[test]
fn no_sources_write_nothing() {
    let out = run(&name_upper_config(), &Variables::new(), &Vec::new()).unwrap();
    assert!(out.is_empty());
}

#[test]
fn run_state_writes_the_header_once() {
    let config = name_upper_config();
    let vars = Variables::new();
    let mut state = RunState::new();
    let header = StringRecord::from(vec!["name"]);
    let (t1, h1) = state.begin_source(&config, &header, &vars).unwrap();
    assert_eq!(h1, Some(cells(&["NAME"])));
    assert_eq!(state.line_number(), 1);
    let row = state.next_row(&t1, &ByteRecord::from(vec!["x"]));
    assert_eq!(row.fields, cells(&["X"]));
    assert_eq!(state.line_number(), 2);
    let (_t2, h2) = state.begin_source(&config, &header, &vars).unwrap();
    assert_eq!(h2, None);
    assert_eq!(state.line_number(), 2);
    assert!(state.can_take_row());
}

#[test]
fn failing_cell_is_empty_and_reported() {
    let config = config_of(vec![
            (
                "d".to_string(),
                Column::Expressions(vec![
                    Expression::Input { input: "d".to_string() },
                    Expression::Date { date: "%Y-%m-%d".to_string() },
                    Expression::Operation("uppercase".to_string()),
                ]),
            ),
            ("k".to_string(), Column::Input("d".to_string())),
        ]);
    let header = StringRecord::from(vec!["d"]);
    let t = create_transformer(&config, &header, &Variables::new()).unwrap();
    let row = transform(&ByteRecord::from(vec!["2020-05-06"]), &t, 1);
    assert_eq!(row.fields, cells(&["", "2020-05-06"]));
    assert_eq!(row.errors.len(), 1);
    let (cell, failure) = apply_transformations_chain(&t.columns[0], &ByteRecord::from(vec!["junk"]), 1);
    assert_eq!(cell, "");
    assert!(failure.is_some());
}

#[test]
fn date_chain_renders_dates() {
    let config = config_of(vec![(
            "when".to_string(),
            Column::Expressions(vec![
                Expression::Input { input: "serial".to_string() },
                Expression::Date { date: "excel-ordinal".to_string() },
            ]),
        )]);
    let sources = vec![source(&["serial"], &[&["38083"], &["x"]])];
    let out = run(&config, &Variables::new(), &sources).unwrap();
    assert_eq!(out, vec![cells(&["when"]), cells(&["2004-04-06"]), cells(&[""])]);
}

#[test]
fn regex_replacement_uses_groups() {
    let step = ReplaceRegex { pattern: "(\\w+)@(\\w+)".to_string(), replace: "$2 at $1".to_string() };
    let t = compile_replace_regex(&step).unwrap().unwrap();
    let out = t.apply(ysv::CellValue::from_string("me@home, you@work".to_string()), &ByteRecord::new(), 1);
    assert_eq!(out.unwrap().to_string(), "home at me, work at you");
}

#[test]
fn variables_and_values_fill_cells() {
    let mut vars = Variables::new();
    vars.insert("REGION".to_string(), "north".to_string());
    let config = config_of(vec![
            ("r".to_string(), Column::Expressions(vec![Expression::Variable { var: "REGION".to_string() }])),
            ("c".to_string(), Column::Expressions(vec![Expression::Value { value: "const".to_string() }])),
            (
                "t".to_string(),
                Column::Expressions(vec![Expression::Input { input: "a".to_string() }, Expression::Trim { trim: 1 }]),
            ),
        ]);
    let sources = vec![source(&["a"], &[&["long text"]])];
    let out = run(&config, &vars, &sources).unwrap();
    assert_eq!(out, vec![cells(&["r", "c", "t"]), cells(&["north", "const", "long text"])]);
}

#[test]
fn alias_list_without_match_yields_empty_cells() {
    let config = config_of(vec![(
            "date".to_string(),
            Column::Expressions(vec![Expression::MultipleInput {
                input: cells(&["Date", "date", "Transaction Date"]),
            }]),
        )]);
    let sources = vec![source(&["Event Date", "Happening Date"], &[&["1", "2"], &["3", "4"]])];
    let out = run(&config, &Variables::new(), &sources).unwrap();
    assert_eq!(out, vec![cells(&["date"]), cells(&[""]), cells(&[""])]);
}
