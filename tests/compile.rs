use csv::StringRecord;
use linked_hash_map::LinkedHashMap;
use ysv::compile::{
    compile_expression, compile_multiple_input, compile_replace_regex, compile_singular_input,
    create_transformer, expressions_to_transformations_chain, get_input_columns_index_map,
};
use ysv::{Column, Config, Expression, InputColumnIndexByName, ReplaceRegex, Transformation, Variables};

fn config_of(columns: Vec<(String, Column)>) -> Config {
    let mut config = Config::new(1);
    for (name, column) in columns {
        config.insert(name, column);
    }
    config
}

fn strings(items: &[&str]) -> Vec<String> {
    items.iter().map(|s| s.to_string()).collect()
}

#[test]
fn test_compile_multiple_input_first() {
    let names = strings(&["Date", "date"]);
    let mut indices = InputColumnIndexByName::new();
    indices.insert("date".to_string(), 2);
    indices.insert("Date".to_string(), 1);
    let transformation = compile_multiple_input(&names, &indices).unwrap().unwrap();
    assert!(matches!(transformation, Transformation::Input(1)));
}

#[test]
fn test_compile_multiple_input_second() {
    let names = strings(&["Date", "date", "Transaction Date"]);
    let mut indices = InputColumnIndexByName::new();
    indices.insert("Transaction Date".to_string(), 5);
    indices.insert("Event Date".to_string(), 1);
    let transformation = compile_multiple_input(&names, &indices).unwrap().unwrap();
    assert!(matches!(transformation, Transformation::Input(5)));
}

#[test]
fn test_compile_multiple_input_empty() {
    let names = strings(&["Date", "date", "Transaction Date"]);
    let mut indices = InputColumnIndexByName::new();
    indices.insert("Happening Date".to_string(), 5);
    indices.insert("Event Date".to_string(), 1);
    let maybe_some_transformation = compile_multiple_input(&names, &indices);
    assert!(maybe_some_transformation.unwrap().is_none());
}

#[test]
fn empty_alias_list_binds_nothing() {
    let mut indices = InputColumnIndexByName::new();
    indices.insert("a".to_string(), 0);
    assert!(compile_multiple_input(&Vec::new(), &indices).unwrap().is_none());
}

#[test]
fn singular_input_found_and_missing() {
    let mut indices = InputColumnIndexByName::new();
    indices.insert("name".to_string(), 3);
    let found = compile_singular_input(&"name".to_string(), &indices).unwrap();
    assert!(matches!(found, Some(Transformation::Input(3))));
    let missing = compile_singular_input(&"other".to_string(), &indices).unwrap();
    assert!(missing.is_none());
}

#[test]
fn later_duplicate_header_name_wins() {
    let headers = StringRecord::from(vec!["a", "b", "a"]);
    let index = get_input_columns_index_map(&headers);
    assert_eq!(index.get(&"a".to_string()), Some(&2));
    assert_eq!(index.get(&"b".to_string()), Some(&1));
    assert_eq!(index.get(&"c".to_string()), None);
}

#[test]
fn name_map_insert_replaces_value() {
    let mut variables = Variables::new();
    variables.insert("x".to_string(), "1".to_string());
    variables.insert("x".to_string(), "2".to_string());
    assert_eq!(variables.get(&"x".to_string()), Some(&"2".to_string()));
}

#[test]
fn invalid_regex_is_a_regex_error() {
    let step = ReplaceRegex { pattern: "(abc".to_string(), replace: "x".to_string() };
    let err = compile_replace_regex(&step).unwrap_err();
    assert_eq!(err.error_type, "regex");
    assert!(err.error_description.contains("(abc"));
    assert!(err.error_description.starts_with("Cannot parse regular expression:"));
    assert_eq!(err.transformation, Some("replace_regex".to_string()));
}

#[test]
fn valid_regex_compiles() {
    let step = ReplaceRegex { pattern: "(\\d+)-(\\d+)".to_string(), replace: "$2".to_string() };
    let compiled = compile_replace_regex(&step).unwrap().unwrap();
    match compiled {
        Transformation::ReplaceRegex { pattern, replace } => {
            assert_eq!(pattern.as_str(), "(\\d+)-(\\d+)");
            assert_eq!(replace, "$2");
        }
        _ => panic!("expected a regex replacement"),
    }
}

#[test]
fn unknown_operation_is_an_error() {
    let index = InputColumnIndexByName::new();
    let vars = Variables::new();
    let err = compile_expression(&Expression::Operation("titlecase".to_string()), &index, &vars)
        .unwrap_err();
    assert_eq!(err.error_type, "unknown-transformation");
    assert_eq!(err.transformation, Some("titlecase".to_string()));
}

#[test]
fn known_operations_compile() {
    let index = InputColumnIndexByName::new();
    let vars = Variables::new();
    let up = compile_expression(&Expression::Operation("uppercase".to_string()), &index, &vars);
    assert!(matches!(up, Ok(Some(Transformation::Uppercase))));
    let low = compile_expression(&Expression::Operation("lowercase".to_string()), &index, &vars);
    assert!(matches!(low, Ok(Some(Transformation::Lowercase))));
    let line = compile_expression(&Expression::Operation("line-number".to_string()), &index, &vars);
    assert!(matches!(line, Ok(Some(Transformation::LineNumber))));
}

#[test]
fn variables_resolve_at_compile_time() {
    let index = InputColumnIndexByName::new();
    let mut vars = Variables::new();
    vars.insert("CITY".to_string(), "Paris".to_string());
    match compile_expression(&Expression::Variable { var: "CITY".to_string() }, &index, &vars) {
        Ok(Some(Transformation::Value { value })) => assert_eq!(value, "Paris"),
        _ => panic!("expected a value"),
    }
    match compile_expression(&Expression::Variable { var: "NONE".to_string() }, &index, &vars) {
        Ok(Some(Transformation::Value { value })) => assert_eq!(value, ""),
        _ => panic!("expected a value"),
    }
}

#[test]
fn excel_ordinal_format_is_chosen_at_compile_time() {
    let index = InputColumnIndexByName::new();
    let vars = Variables::new();
    let excel = compile_expression(&Expression::Date { date: "excel-ordinal".to_string() }, &index, &vars);
    assert!(matches!(excel, Ok(Some(Transformation::ExcelOrdinalDate))));
    match compile_expression(&Expression::Date { date: "%Y".to_string() }, &index, &vars) {
        Ok(Some(Transformation::Date { format })) => assert_eq!(format, "%Y"),
        _ => panic!("expected a date format"),
    }
}

#[test]
fn missing_inputs_drop_out_of_the_chain() {
    let mut index = InputColumnIndexByName::new();
    index.insert("b".to_string(), 0);
    let vars = Variables::new();
    let steps = vec![
        Expression::Input { input: "a".to_string() },
        Expression::Input { input: "b".to_string() },
        Expression::Operation("uppercase".to_string()),
    ];
    let chain = expressions_to_transformations_chain(&steps, &index, &vars).unwrap();
    assert_eq!(chain.len(), 2);
    assert!(matches!(chain[0], Transformation::Input(0)));
    assert!(matches!(chain[1], Transformation::Uppercase));
}

#[test]
fn first_failing_step_ends_the_chain() {
    let index = InputColumnIndexByName::new();
    let vars = Variables::new();
    let steps = vec![
        Expression::Operation("bogus".to_string()),
        Expression::ReplaceRegex {
            replace_regex: ReplaceRegex { pattern: "(".to_string(), replace: String::new() },
        },
    ];
    let err = expressions_to_transformations_chain(&steps, &index, &vars).unwrap_err();
    assert_eq!(err.error_type, "unknown-transformation");
}

#[test]
fn output_columns_keep_declared_order() {
    let config = config_of(vec![
            ("z".to_string(), Column::Input("c".to_string())),
            ("a".to_string(), Column::Input("a".to_string())),
            ("m".to_string(), Column::Input("b".to_string())),
        ]);
    let headers = StringRecord::from(vec!["b", "c", "a"]);
    let t = create_transformer(&config, &headers, &Variables::new()).unwrap();
    assert_eq!(t.headers, strings(&["z", "a", "m"]));
    assert!(matches!(t.columns[0][..], [Transformation::Input(1)]));
    assert!(matches!(t.columns[1][..], [Transformation::Input(2)]));
    assert!(matches!(t.columns[2][..], [Transformation::Input(0)]));
}

#[test]
fn failing_column_is_named_in_the_error() {
    let config = config_of(vec![
            ("ok".to_string(), Column::Input("a".to_string())),
            (
                "bad".to_string(),
                Column::Expressions(vec![Expression::Operation("nope".to_string())]),
            ),
        ]);
    let headers = StringRecord::from(vec!["a"]);
    let err = create_transformer(&config, &headers, &Variables::new()).unwrap_err();
    assert_eq!(err.column, Some("bad".to_string()));
    assert_eq!(err.error_type, "unknown-transformation");
}

#[test]
fn replace_mapping_is_copied_in_order() {
    let mut mapping = LinkedHashMap::new();
    mapping.insert("a".to_string(), "b".to_string());
    mapping.insert("b".to_string(), "c".to_string());
    let index = InputColumnIndexByName::new();
    let vars = Variables::new();
    match compile_expression(&Expression::Replace { replace: mapping }, &index, &vars) {
        Ok(Some(Transformation::Replace { replace })) => {
            let pairs: Vec<(String, String)> =
                replace.iter().map(|(k, v)| (k.clone(), v.clone())).collect();
            assert_eq!(
                pairs,
                vec![("a".to_string(), "b".to_string()), ("b".to_string(), "c".to_string())]
            );
        }
        _ => panic!("expected a replacement"),
    }
}

#[test]
fn environment_entries_with_the_prefix_become_variables() {
    let env = vec![
        ("YSV_VAR_CITY".to_string(), "Oslo".to_string()),
        ("HOME".to_string(), "/root".to_string()),
        ("YSV_VAR_".to_string(), "empty name".to_string()),
        ("YSV_VAR_CITY".to_string(), "Bergen".to_string()),
        ("XYSV_VAR_A".to_string(), "no".to_string()),
    ];
    let vars = ysv::options::determine_variables(&env);
    assert_eq!(vars.get(&"CITY".to_string()), Some(&"Bergen".to_string()));
    assert_eq!(vars.get(&"".to_string()), Some(&"empty name".to_string()));
    assert_eq!(vars.get(&"HOME".to_string()), None);
    assert_eq!(vars.get(&"A".to_string()), None);
}

#[test]
fn missing_single_inputs_are_listed_in_order() {
    let config = config_of(vec![
            ("a".to_string(), Column::Input("absent".to_string())),
            (
                "b".to_string(),
                Column::Expressions(vec![
                    Expression::Input { input: "here".to_string() },
                    Expression::MultipleInput { input: strings(&["nope", "never"]) },
                    Expression::Input { input: "gone".to_string() },
                ]),
            ),
        ]);
    let headers = StringRecord::from(vec!["here"]);
    let missing = ysv::compile::missing_input_columns(&config, &headers);
    assert_eq!(missing, strings(&["absent", "gone"]));
}

#[test]
fn redeclared_column_moves_last_with_its_new_specification() {
    let mut config = Config::new(3);
    config.insert("a".to_string(), Column::Input("x".to_string()));
    config.insert("b".to_string(), Column::Input("y".to_string()));
    config.insert("a".to_string(), Column::Input("z".to_string()));
    assert_eq!(config.version(), 3);
    let names: Vec<&String> = config.columns().iter().map(|(n, _)| n).collect();
    assert_eq!(names, vec!["b", "a"]);
    assert!(matches!(&config.columns()[1].1, Column::Input(s) if s == "z"));
}
