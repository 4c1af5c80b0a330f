use terin::args::{bind, get_serialized_arguments, Parsed};
use terin::encode::{encode, encode_token, is_numeric_token};
use terin::error::Kind;
use terin::scan::{
    classify, scan_arguments, starts_flag, step, Binding, Pending, Scan, Scanner, Step, Token,
    Value,
};

fn strings(list: &[&str]) -> Vec<String> {
    list.iter().map(|item| item.to_string()).collect()
}

fn document(schema: &str, argv: &[&str]) -> String {
    match get_serialized_arguments(schema, &strings(argv)) {
        Ok(Parsed::Document(text)) => text,
        other => panic!("no document: {:?}", other),
    }
}

fn decoded(text: &str) -> serde_json::Value {
    serde_json::from_str(text).unwrap()
}

const EXAMPLE: &str = "{\"index\":1,\"text\":\"test\",\"count\":null}";

#[test]
fn a_long_flag_with_a_number_binds_the_number() {
    let text = document(EXAMPLE, &["--count", "5"]);
    assert_eq!(text, "{ \"count\": 5 }");
    let value = decoded(&text);
    let object = value.as_object().unwrap();
    assert_eq!(object.len(), 1);
    assert_eq!(object["count"].as_u64(), Some(5));
}

#[test]
fn an_unknown_short_flag_is_refused() {
    let failure = get_serialized_arguments(EXAMPLE, &strings(&["-q"])).unwrap_err();
    assert_eq!(failure.kind, Kind::InvalidOption);
    assert_eq!(
        failure.message,
        "Option `'q'` was not recognized, try `'--help'` to see all options"
    );
    assert_eq!(failure.exit_code, 1);
}

#[test]
fn an_unknown_long_flag_is_refused_by_its_name() {
    let failure = get_serialized_arguments(EXAMPLE, &strings(&["--no-such"])).unwrap_err();
    assert_eq!(failure.kind, Kind::InvalidOption);
    assert_eq!(
        failure.message,
        "Option `'no_such'` was not recognized, try `'--help'` to see all options"
    );
}

#[test]
fn a_leading_value_goes_to_the_first_field() {
    let schema = "{\"name\":1,\"jeje\":\"\",\"count\":null}";
    let text = document(schema, &["42"]);
    assert_eq!(text, "{ \"name\": 42 }");
    assert_eq!(decoded(&text)["name"].as_u64(), Some(42));
}

#[test]
fn a_run_of_values_is_an_array_that_the_next_flag_closes() {
    let schema = "{\"tags\":[],\"quiet\":null}";
    let text = document(schema, &["--tags", "a", "b", "-q"]);
    assert_eq!(text, "{ \"tags\": [\"a\", \"b\"], \"quiet\": true }");
    let value = decoded(&text);
    let tags: Vec<&str> =
        value["tags"].as_array().unwrap().iter().map(|tag| tag.as_str().unwrap()).collect();
    assert_eq!(tags, vec!["a", "b"]);
    assert_eq!(value["quiet"].as_bool(), Some(true));
}

#[test]
fn a_flag_at_the_end_is_a_switch_that_is_on() {
    let schema = "{\"quiet\":false}";
    let text = document(schema, &["--quiet"]);
    assert_eq!(text, "{ \"quiet\": true }");
    assert_eq!(decoded(&text)["quiet"].as_bool(), Some(true));
}

#[test]
fn no_arguments_give_an_empty_object() {
    let text = document(EXAMPLE, &[]);
    assert_eq!(text, "{  }");
    assert_eq!(decoded(&text).as_object().unwrap().len(), 0);
}

#[test]
fn a_record_spelled_as_arguments_binds_back_onto_itself() {
    let schema = "{\"index\":null,\"text\":null,\"quiet\":null,\"in_file\":null}";
    let argv = ["--index", "7", "--quiet", "--text", "test", "--in-file", "a.txt"];
    let text = document(schema, &argv);
    let value = decoded(&text);
    let object = value.as_object().unwrap();
    let keys: Vec<&str> = object.keys().map(|key| key.as_str()).collect();
    assert_eq!(keys, vec!["index", "quiet", "text", "in_file"]);
    assert_eq!(object["index"].as_u64(), Some(7));
    assert_eq!(object["quiet"].as_bool(), Some(true));
    assert_eq!(object["text"].as_str(), Some("test"));
    assert_eq!(object["in_file"].as_str(), Some("a.txt"));
}

#[test]
fn hyphens_of_a_long_flag_are_the_underscores_of_the_field() {
    let schema = "{\"append_f\":null,\"append_a\":null}";
    assert_eq!(document(schema, &["--append-a", "x"]), "{ \"append_a\": \"x\" }");
}

#[test]
fn a_cluster_names_one_option_for_each_character() {
    let schema = "{\"alpha\":null,\"beta\":null,\"count\":null}";
    assert_eq!(
        document(schema, &["-abc"]),
        "{ \"alpha\": true, \"beta\": true, \"count\": true }"
    );
}

#[test]
fn the_value_behind_a_cluster_goes_to_its_last_option() {
    let schema = "{\"alpha\":null,\"beta\":null}";
    assert_eq!(document(schema, &["-ab", "5"]), "{ \"alpha\":, \"beta\": 5 }");
}

#[test]
fn the_case_of_a_short_flag_tells_two_fields_apart() {
    let schema = "{\"append_f\":null,\"append_a\":null}";
    assert_eq!(
        document(schema, &["-a", "x", "-A", "y"]),
        "{ \"append_f\": \"x\", \"append_a\": \"y\" }"
    );
}

#[test]
fn values_before_any_flag_are_an_array_for_the_first_field() {
    let schema = "{\"files\":[],\"quiet\":null}";
    assert_eq!(
        document(schema, &["a", "12", "c", "--quiet"]),
        "{ \"files\": [\"a\", 12, \"c\"], \"quiet\": true }"
    );
}

#[test]
fn a_value_behind_a_lone_hyphen_goes_to_the_first_field() {
    let schema = "{\"file\":null,\"quiet\":null}";
    assert_eq!(
        document(schema, &["--quiet", "-", "x"]),
        "{ \"quiet\": true, \"file\": \"x\" }"
    );
}

#[test]
fn a_token_that_begins_with_a_hyphen_is_never_a_value() {
    let schema = "{\"count\":null}";
    let failure = get_serialized_arguments(schema, &strings(&["--count", "-5"])).unwrap_err();
    assert_eq!(failure.kind, Kind::InvalidOption);
    assert_eq!(
        failure.message,
        "Option `'5'` was not recognized, try `'--help'` to see all options"
    );
}

#[test]
fn a_value_without_a_field_to_take_it_is_refused() {
    let failure = get_serialized_arguments("{}", &strings(&["42"])).unwrap_err();
    assert_eq!(failure.kind, Kind::InvalidOption);
    assert_eq!(
        failure.message,
        "Option `'42'` was not recognized, try `'--help'` to see all options"
    );
}

#[test]
fn help_ends_the_scan_whatever_follows() {
    let fields = strings(&["index", "text"]);
    for argv in [
        vec!["--help"],
        vec!["-h"],
        vec!["--help", "--bogus", "-zzz"],
        vec!["-hzzz", "--bogus"],
        vec!["--index", "3", "-ih", "--bogus"],
        vec!["-h", "--version"],
    ] {
        assert_eq!(scan_arguments(&fields, &strings(&argv)), Ok(Scan::Help));
    }
}

#[test]
fn version_ends_the_scan_whatever_follows() {
    let fields = strings(&["index", "text"]);
    for argv in [vec!["--version"], vec!["-V"], vec!["-Vq", "x"], vec!["--version", "--help"]] {
        assert_eq!(scan_arguments(&fields, &strings(&argv)), Ok(Scan::Version));
    }
}

#[test]
fn a_failure_before_help_comes_first() {
    let fields = strings(&["index"]);
    let failure = scan_arguments(&fields, &strings(&["--bogus", "--help"])).unwrap_err();
    assert_eq!(failure.kind, Kind::InvalidOption);
    let failure = scan_arguments(&fields, &strings(&["-qh"])).unwrap_err();
    assert_eq!(failure.kind, Kind::InvalidOption);
}

#[test]
fn help_hands_out_the_table_of_the_options() {
    let parsed = get_serialized_arguments(EXAMPLE, &strings(&["--help"])).unwrap();
    match parsed {
        Parsed::Help(table) => {
            let longs: Vec<&str> = table.iter().map(|option| option.long.as_str()).collect();
            assert_eq!(longs, vec!["help", "version", "index", "text", "count"]);
            let shorts: Vec<char> = table.iter().map(|option| option.short).collect();
            assert_eq!(shorts, vec!['h', 'V', 'i', 't', 'c']);
        },
        other => panic!("no help: {:?}", other),
    }
    assert_eq!(get_serialized_arguments(EXAMPLE, &strings(&["-V"])), Ok(Parsed::Version));
}

#[test]
fn three_fields_with_one_first_character_fail_every_parse() {
    let schema = "{\"other\":1,\"alpha\":null,\"apple\":null,\"avocado\":null}";
    for argv in [vec![], vec!["--other", "1"], vec!["--help"], vec!["-q"]] {
        let failure = get_serialized_arguments(schema, &strings(&argv)).unwrap_err();
        assert_eq!(failure.kind, Kind::OptionsTooSimilar);
        assert_eq!(
            failure.message,
            "There are too many options begining with `'a'`, can't assign a short name"
        );
    }
}

#[test]
fn binding_onto_given_fields_needs_no_record() {
    let fields = strings(&["index", "text"]);
    assert_eq!(
        bind(&fields, &strings(&["-t", "hello", "world"])),
        Ok(Parsed::Document("{ \"text\": [\"hello\", \"world\"] }".to_string()))
    );
}

#[test]
fn the_scan_gives_the_bindings_in_the_order_of_their_keys() {
    let fields = strings(&["files", "level", "quiet"]);
    let scan = scan_arguments(&fields, &strings(&["x", "-q", "--level", "3", "--files", "a", "b"]));
    assert_eq!(
        scan,
        Ok(Scan::Bindings(vec![
            Binding { key: "files".to_string(), value: Value::Scalar("x".to_string()) },
            Binding { key: "quiet".to_string(), value: Value::True },
            Binding { key: "level".to_string(), value: Value::Scalar("3".to_string()) },
            Binding { key: "files".to_string(), value: Value::Array(strings(&["a", "b"])) },
        ]))
    );
}

#[test]
fn the_state_machine_opens_and_closes_an_array() {
    let fields = strings(&["first"]);
    let state = Scanner::new();
    assert_eq!(state.pending, Pending::NoOpenKey);
    let state = state.open_key("tags".to_string(), true);
    assert_eq!(state.pending, Pending::KeyAwaitingValue { key: "tags".to_string() });
    let state = state.take_value(&fields, "a", true).unwrap();
    assert_eq!(
        state.pending,
        Pending::KeyInArray { key: "tags".to_string(), items: strings(&["a"]) }
    );
    let state = state.take_value(&fields, "b", true).unwrap();
    let state = state.take_value(&fields, "c", false).unwrap();
    assert_eq!(state.pending, Pending::NoOpenKey);
    let state = state.take_value(&fields, "d", false).unwrap();
    assert_eq!(
        state.finish(),
        vec![
            Binding { key: "tags".to_string(), value: Value::Array(strings(&["a", "b", "c"])) },
            Binding { key: "first".to_string(), value: Value::Scalar("d".to_string()) },
        ]
    );
}

#[test]
fn a_key_that_still_waits_is_closed_with_nothing() {
    let state = Scanner::new().open_key("a".to_string(), true).open_key("b".to_string(), false);
    assert_eq!(
        state.finish(),
        vec![
            Binding { key: "a".to_string(), value: Value::Nothing },
            Binding { key: "b".to_string(), value: Value::True },
        ]
    );
    let state = Scanner::new().open_key("a".to_string(), true);
    assert_eq!(state.finish(), vec![Binding { key: "a".to_string(), value: Value::Nothing }]);
}

#[test]
fn numeric_tokens_are_bare_and_all_others_quoted() {
    assert!(is_numeric_token("42"));
    assert!(is_numeric_token(""));
    assert!(is_numeric_token("\u{663}"));
    assert!(!is_numeric_token("4x"));
    assert!(!is_numeric_token("-4"));
    assert!(!is_numeric_token("1.5"));
    assert_eq!(encode_token("42", true), "42");
    assert_eq!(encode_token("42", false), "\"42\"");
    assert_eq!(encode_token("a b", false), "\"a b\"");
}

#[test]
fn each_kind_of_value_has_its_place_in_the_document() {
    let bindings = vec![
        Binding { key: "a".to_string(), value: Value::True },
        Binding { key: "b".to_string(), value: Value::Nothing },
        Binding { key: "c".to_string(), value: Value::Scalar("7".to_string()) },
        Binding { key: "d".to_string(), value: Value::Scalar("x".to_string()) },
        Binding { key: "e".to_string(), value: Value::Array(strings(&["1", "y", "3"])) },
        Binding { key: "f".to_string(), value: Value::Array(Vec::new()) },
        Binding { key: "g".to_string(), value: Value::Array(strings(&["z"])) },
    ];
    assert_eq!(
        encode(&bindings),
        "{ \"a\": true, \"b\":, \"c\": 7, \"d\": \"x\", \"e\": [1, \"y\", 3], \"f\": [], \"g\": [\"z\"] }"
    );
}

#[test]
fn a_token_is_a_long_flag_a_cluster_or_a_value() {
    assert_eq!(classify("--name"), Token::LongFlag);
    assert_eq!(classify("--"), Token::LongFlag);
    assert_eq!(classify("-abc"), Token::ShortCluster);
    assert_eq!(classify("-"), Token::ShortCluster);
    assert_eq!(classify("-5"), Token::ShortCluster);
    assert_eq!(classify("value"), Token::Value);
    assert_eq!(classify("a-b"), Token::Value);
    assert_eq!(classify(""), Token::Value);
    assert!(starts_flag("-x"));
    assert!(starts_flag("--x"));
    assert!(!starts_flag("x-"));
    assert!(!starts_flag(""));
}

#[test]
fn a_step_ends_the_scan_or_leads_on() {
    let fields = strings(&["index", "in_file"]);
    assert_eq!(step(Scanner::new(), &fields, "--help", false), Ok(Step::Help));
    assert_eq!(step(Scanner::new(), &fields, "-iV", true), Ok(Step::Version));
    assert_eq!(
        step(Scanner::new(), &fields, "--in-file", true),
        Ok(Step::Go(Scanner {
            done: Vec::new(),
            pending: Pending::KeyAwaitingValue { key: "in_file".to_string() },
        }))
    );
    assert_eq!(
        step(Scanner::new(), &fields, "x", false),
        Ok(Step::Go(Scanner {
            done: vec![Binding { key: "index".to_string(), value: Value::Scalar("x".to_string()) }],
            pending: Pending::NoOpenKey,
        }))
    );
    assert_eq!(
        step(Scanner::new(), &fields, "--", false).unwrap_err().message,
        "Option `''` was not recognized, try `'--help'` to see all options"
    );
}
