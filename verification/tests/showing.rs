use terin::info::{Metadata, Package};
use terin::show::{
    data, error, get_highlighted_text, has_balanced_marks, help, information, information_markup,
    option_spans, split_marks, title, version, warning, Color, Paint, Span,
};

fn span(text: &str, paint: Paint, bold: bool) -> Span {
    Span { text: text.to_string(), paint, bold }
}

fn package() -> Package {
    Package {
        name: "terin".to_string(),
        description: Some("binds arguments".to_string()),
        version: "0.1.0".to_string(),
        metadata: None,
    }
}

#[test]
fn the_metadata_falls_back_on_the_name_and_on_args() {
    let mut info = package();
    assert_eq!(info.get_metadata(), ("terin".to_string(), "args".to_string()));
    info.metadata = Some(Metadata { title: None, default_argument: None });
    assert_eq!(info.get_metadata(), ("terin".to_string(), "args".to_string()));
    info.metadata =
        Some(Metadata { title: Some("Terin".to_string()), default_argument: None });
    assert_eq!(info.get_metadata(), ("Terin".to_string(), "args".to_string()));
    info.metadata =
        Some(Metadata { title: None, default_argument: Some("file".to_string()) });
    assert_eq!(info.get_metadata(), ("terin".to_string(), "file".to_string()));
}

#[test]
fn the_marks_cut_a_text_into_pieces() {
    assert_eq!(split_marks("a`b`c"), vec!["a", "b", "c"]);
    assert_eq!(split_marks("`b`"), vec!["", "b", ""]);
    assert_eq!(split_marks("plain"), vec!["plain"]);
    assert_eq!(split_marks(""), vec![""]);
    assert!(has_balanced_marks("a`b`c"));
    assert!(has_balanced_marks("no marks"));
    assert!(!has_balanced_marks("a`b"));
    assert!(!has_balanced_marks("`a`b`"));
}

#[test]
fn a_text_without_marks_is_left_as_it_is() {
    assert_eq!(
        get_highlighted_text("plain", Color::Red),
        vec![span("plain", Paint::Plain, false)]
    );
}

#[test]
fn what_stands_between_marks_is_highlighted_and_the_first_of_it_in_bold() {
    assert_eq!(
        get_highlighted_text("a `b` c `d`", Color::Cyan),
        vec![
            span("a ", Paint::White, false),
            span("b", Paint::Highlight(Color::Cyan), true),
            span(" c ", Paint::White, false),
            span("d", Paint::Highlight(Color::Cyan), false),
            span("", Paint::White, false),
        ]
    );
}

#[test]
fn a_message_stands_behind_its_pointer() {
    assert_eq!(information_markup("Parsed args", "done"), "`Parsed args \u{276f}` done");
    assert_eq!(
        information("Parsed args", "done", Color::Green),
        vec![
            span("", Paint::White, false),
            span("Parsed args \u{276f}", Paint::Highlight(Color::Green), true),
            span(" done", Paint::White, false),
        ]
    );
    assert_eq!(
        data("x", Color::Purple),
        vec![
            span("", Paint::White, false),
            span("\t\u{276f}", Paint::Highlight(Color::Purple), true),
            span(" x", Paint::White, false),
        ]
    );
    assert_eq!(
        title("Options", Color::Yellow),
        vec![
            span("", Paint::White, false),
            span("Options", Paint::Highlight(Color::Yellow), true),
            span("", Paint::White, false),
        ]
    );
}

#[test]
fn warnings_are_yellow_and_failures_red() {
    assert_eq!(
        warning("careful"),
        vec![
            span("", Paint::White, false),
            span("Warning \u{276f}", Paint::Highlight(Color::Yellow), true),
            span(" careful", Paint::White, false),
        ]
    );
    assert_eq!(
        error("Option `'q'` was not recognized"),
        vec![
            span("", Paint::White, false),
            span("Error \u{276f}", Paint::Highlight(Color::Red), true),
            span(" Option ", Paint::White, false),
            span("'q'", Paint::Highlight(Color::Red), false),
            span(" was not recognized", Paint::White, false),
        ]
    );
}

#[test]
fn the_version_line_names_the_title_and_the_version() {
    assert_eq!(
        version(&package()),
        vec![
            span("", Paint::White, false),
            span("\u{276f} terin", Paint::Highlight(Color::Green), true),
            span(" version ", Paint::White, false),
            span("0.1.0", Paint::Highlight(Color::Green), false),
            span("", Paint::White, false),
        ]
    );
}

#[test]
fn a_longer_name_gets_fewer_tabs() {
    let names = vec![
        "help".to_string(),
        "version".to_string(),
        "eightchr".to_string(),
        "sixteen-chars-xx".to_string(),
        "seventeen-chars-x".to_string(),
    ];
    let table = terin::args::Option::from(&names).unwrap();
    let rests: Vec<String> =
        table.iter().map(|option| option_spans(option)[4].text.clone()).collect();
    assert_eq!(
        rests,
        vec![
            "\t\t\tShow this help message",
            "\t\t\tShow application version",
            "\t\tdescription (TODO)",
            "\t\tdescription (TODO)",
            "\tdescription (TODO)",
        ]
    );
    assert_eq!(
        option_spans(&table[0]),
        vec![
            span("  ", Paint::Plain, false),
            span("-h", Paint::Plain, true),
            span(", ", Paint::Plain, false),
            span("--help", Paint::Plain, true),
            span("\t\t\tShow this help message", Paint::Plain, false),
        ]
    );
}

#[test]
fn the_help_has_a_head_a_usage_line_and_a_line_for_each_option() {
    let names = vec!["help".to_string(), "version".to_string(), "count".to_string()];
    let table = terin::args::Option::from(&names).unwrap();
    let lines = help(&package(), &table);
    assert_eq!(lines.len(), 6);
    assert_eq!(
        lines[0],
        vec![
            span("", Paint::White, false),
            span("terin", Paint::Highlight(Color::Yellow), true),
            span(" 0.1.0, binds arguments", Paint::White, false),
        ]
    );
    assert_eq!(
        lines[1],
        vec![
            span("", Paint::White, false),
            span("Usage:", Paint::Highlight(Color::Red), true),
            span(" terin ", Paint::White, false),
            span("[Options]...", Paint::Highlight(Color::Purple), false),
            span(" ", Paint::White, false),
            span("<args>", Paint::Blue, false),
            span("\n", Paint::White, false),
        ]
    );
    assert_eq!(
        lines[2],
        vec![
            span("", Paint::White, false),
            span("Options:", Paint::Highlight(Color::Purple), true),
            span("", Paint::White, false),
        ]
    );
    assert_eq!(lines[5][3], span("--count", Paint::Plain, true));
}

#[test]
fn a_package_that_says_nothing_of_itself_has_a_short_head() {
    let mut info = package();
    info.description = None;
    info.metadata = Some(Metadata {
        title: Some("Terin".to_string()),
        default_argument: Some("xlsx file".to_string()),
    });
    let lines = help(&info, &Vec::new());
    assert_eq!(lines.len(), 3);
    assert_eq!(lines[0][1], span("Terin", Paint::Highlight(Color::Yellow), true));
    assert_eq!(lines[0][2], span(" 0.1.0", Paint::White, false));
    assert_eq!(lines[1][5], span("<xlsx file>", Paint::Blue, false));
}

#[test]
fn the_runs_are_painted_one_after_the_other() {
    let spans = vec![
        span("", Paint::White, false),
        span("Error \u{276f}", Paint::Highlight(Color::Red), true),
        span(" gone", Paint::White, false),
        span("-h", Paint::Plain, true),
        span("plain", Paint::Plain, false),
        span("<args>", Paint::Blue, false),
    ];
    colored::control::set_override(false);
    assert_eq!(terin::show::render(&spans), "Error \u{276f} gone-hplain<args>");
    colored::control::set_override(true);
    assert_eq!(
        terin::show::render(&spans),
        "\u{1b}[37m\u{1b}[0m\u{1b}[1;31mError \u{276f}\u{1b}[0m\u{1b}[37m gone\u{1b}[0m\
         \u{1b}[1m-h\u{1b}[0mplain\u{1b}[34m<args>\u{1b}[0m"
    );
    assert_eq!(terin::show::render(&Vec::new()), "");
    colored::control::unset_override();
}
