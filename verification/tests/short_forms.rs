use terin::args::{
    field_for_char, get_char_from_field_name, get_option_from_char, stands_twice,
};
use terin::error::Kind;

fn names(list: &[&str]) -> Vec<String> {
    list.iter().map(|name| name.to_string()).collect()
}

#[test]
fn reserved_names_keep_their_short_forms() {
    let all = names(&["help", "version", "host", "verbose"]);
    assert_eq!(get_char_from_field_name("help".to_string(), &all), Ok('h'));
    assert_eq!(get_char_from_field_name("version".to_string(), &all), Ok('V'));
}

#[test]
fn names_that_share_nothing_get_their_lower_case_first_character() {
    let all = names(&["index", "text", "count"]);
    assert_eq!(get_char_from_field_name("index".to_string(), &all), Ok('i'));
    assert_eq!(get_char_from_field_name("text".to_string(), &all), Ok('t'));
    assert_eq!(get_char_from_field_name("count".to_string(), &all), Ok('c'));
}

#[test]
fn an_upper_case_first_character_is_folded() {
    let all = names(&["Name", "other"]);
    assert_eq!(get_char_from_field_name("Name".to_string(), &all), Ok('n'));
}

#[test]
fn of_two_names_the_first_gets_lower_case_and_the_second_upper_case() {
    let all = names(&["name", "append_f", "count", "append_a"]);
    assert_eq!(get_char_from_field_name("append_f".to_string(), &all), Ok('a'));
    assert_eq!(get_char_from_field_name("append_a".to_string(), &all), Ok('A'));
    assert_eq!(get_char_from_field_name("name".to_string(), &all), Ok('n'));
}

#[test]
fn a_field_in_h_gets_the_upper_case_form() {
    let all = names(&["help", "version", "host"]);
    assert_eq!(get_char_from_field_name("host".to_string(), &all), Ok('H'));
    assert_eq!(get_char_from_field_name("host".to_string(), &names(&["host"])), Ok('H'));
    assert_eq!(get_char_from_field_name("Host".to_string(), &names(&["Host"])), Ok('H'));
}

#[test]
fn a_field_in_v_gets_the_lower_case_form() {
    let all = names(&["help", "version", "verbose"]);
    assert_eq!(get_char_from_field_name("verbose".to_string(), &all), Ok('v'));
    assert_eq!(get_char_from_field_name("Verbose".to_string(), &names(&["Verbose"])), Ok('v'));
    let table = terin::args::Option::from(&all).unwrap();
    let shorts: Vec<char> = table.iter().map(|option| option.short).collect();
    assert_eq!(shorts, vec!['h', 'V', 'v']);
    let fields = names(&["verbose"]);
    assert_eq!(get_option_from_char('v', &fields), Ok("verbose".to_string()));
    assert_eq!(get_option_from_char('V', &fields), Ok("version".to_string()));
}

#[test]
fn two_fields_in_h_or_in_v_cannot_both_be_placed() {
    for list in [["host", "hello"], ["verbose", "values"], ["Host", "hint"]] {
        let all = names(&list);
        for name in list {
            let failure = get_char_from_field_name(name.to_string(), &all).unwrap_err();
            assert_eq!(failure.kind, Kind::OptionsTooSimilar);
        }
        let failure = terin::args::Option::from(&all).unwrap_err();
        assert_eq!(failure.kind, Kind::OptionsTooSimilar);
    }
    let failure =
        get_char_from_field_name("hello".to_string(), &names(&["host", "hello"])).unwrap_err();
    assert_eq!(
        failure.message,
        "There are too many options begining with `'h'`, can't assign a short name"
    );
}

#[test]
fn two_names_in_a_character_without_cases_cannot_be_told_apart() {
    let all = names(&["1st", "1nd"]);
    let failure = get_char_from_field_name("1st".to_string(), &all).unwrap_err();
    assert_eq!(failure.kind, Kind::OptionsTooSimilar);
    assert_eq!(get_char_from_field_name("1st".to_string(), &names(&["1st", "x"])), Ok('1'));
}

#[test]
fn the_two_cases_of_a_letter_are_one_character() {
    let all = names(&["Name", "note"]);
    assert_eq!(get_char_from_field_name("Name".to_string(), &all), Ok('n'));
    assert_eq!(get_char_from_field_name("note".to_string(), &all), Ok('N'));
    assert_eq!(get_option_from_char('n', &all), Ok("Name".to_string()));
    assert_eq!(get_option_from_char('N', &all), Ok("note".to_string()));
}

#[test]
fn a_name_that_stands_twice_has_no_option() {
    let all = names(&["help", "version", "count", "count"]);
    assert!(stands_twice(&all, "count"));
    assert!(!stands_twice(&all, "help"));
    assert!(!stands_twice(&all, "other"));
    let failure = terin::args::Option::new("count".to_string(), &all).unwrap_err();
    assert_eq!(failure.kind, Kind::OptionsTooSimilar);
    assert_eq!(
        failure.message,
        "There are too many options begining with `'count'`, can't assign a short name"
    );
    let all = names(&["help", "version", "version"]);
    assert_eq!(terin::args::Option::from(&all).unwrap_err().kind, Kind::OptionsTooSimilar);
}

#[test]
fn in_a_table_all_short_forms_differ_and_the_reserved_ones_stay() {
    let lists: [&[&str]; 4] = [
        &["help", "version", "verbose", "host", "index", "in-file", "1st", "Name", "other"],
        &["help", "version", "Verbose"],
        &["host", "version", "help", "x", "X2"],
        &["help", "version"],
    ];
    for list in lists {
        let table = terin::args::Option::from(&names(list)).unwrap();
        for (i, first) in table.iter().enumerate() {
            assert_eq!(first.short == 'h', first.long == "help");
            assert_eq!(first.short == 'V', first.long == "version");
            for second in table.iter().skip(i + 1) {
                assert_ne!(first.short, second.short);
            }
        }
    }
}

#[test]
fn three_names_with_one_first_character_are_too_similar() {
    let all = names(&["alpha", "beta", "apple", "avocado"]);
    for name in ["alpha", "apple", "avocado"] {
        let failure = get_char_from_field_name(name.to_string(), &all).unwrap_err();
        assert_eq!(failure.kind, Kind::OptionsTooSimilar);
        assert_eq!(
            failure.message,
            "There are too many options begining with `'a'`, can't assign a short name"
        );
        assert_eq!(failure.exit_code, 1);
    }
    assert_eq!(get_char_from_field_name("beta".to_string(), &all), Ok('b'));
}

#[test]
fn a_name_that_is_not_listed_goes_by_the_names_that_are() {
    let all = names(&["beta"]);
    assert_eq!(get_char_from_field_name("alpha".to_string(), &all), Ok('a'));
    let all = names(&["axe"]);
    assert_eq!(get_char_from_field_name("alpha".to_string(), &all), Ok('a'));
}

#[test]
fn an_empty_name_has_no_short_form() {
    let all = names(&["", "a"]);
    let failure = get_char_from_field_name(String::new(), &all).unwrap_err();
    assert_eq!(failure.kind, Kind::InvalidOption);
    assert_eq!(get_char_from_field_name("a".to_string(), &all), Ok('a'));
}

#[test]
fn h_and_upper_case_v_stand_for_the_reserved_options() {
    let fields = names(&["host", "verbose", "help"]);
    assert_eq!(get_option_from_char('h', &fields), Ok("help".to_string()));
    assert_eq!(get_option_from_char('V', &fields), Ok("version".to_string()));
    assert_eq!(get_option_from_char('H', &fields), Ok("host".to_string()));
    assert_eq!(get_option_from_char('v', &fields), Ok("verbose".to_string()));
}

#[test]
fn a_single_field_is_found_in_either_case() {
    let fields = names(&["quiet", "index"]);
    assert_eq!(get_option_from_char('q', &fields), Ok("quiet".to_string()));
    assert_eq!(get_option_from_char('Q', &fields), Ok("quiet".to_string()));
    assert_eq!(get_option_from_char('i', &fields), Ok("index".to_string()));
}

#[test]
fn of_two_fields_the_case_picks_one() {
    let fields = names(&["append_f", "count", "append_a"]);
    assert_eq!(get_option_from_char('a', &fields), Ok("append_f".to_string()));
    assert_eq!(get_option_from_char('A', &fields), Ok("append_a".to_string()));
}

#[test]
fn a_character_without_case_picks_the_second_of_two() {
    let fields = names(&["1st", "1nd"]);
    assert_eq!(get_option_from_char('1', &fields), Ok("1nd".to_string()));
    assert_eq!(field_for_char('1', true, &fields), Ok("1st".to_string()));
    assert_eq!(field_for_char('1', false, &fields), Ok("1nd".to_string()));
    let fields = names(&["\u{e9}t\u{e9}", "\u{e9}cole"]);
    assert_eq!(get_option_from_char('\u{e9}', &fields), Ok("\u{e9}t\u{e9}".to_string()));
}

#[test]
fn a_character_that_no_field_begins_with_is_refused() {
    let fields = names(&["index", "text"]);
    let failure = get_option_from_char('q', &fields).unwrap_err();
    assert_eq!(failure.kind, Kind::InvalidOption);
    assert_eq!(
        failure.message,
        "Option `'q'` was not recognized, try `'--help'` to see all options"
    );
}

#[test]
fn a_character_that_three_fields_begin_with_is_too_similar() {
    let fields = names(&["alpha", "apple", "avocado"]);
    let failure = get_option_from_char('a', &fields).unwrap_err();
    assert_eq!(failure.kind, Kind::OptionsTooSimilar);
    let failure = get_option_from_char('A', &fields).unwrap_err();
    assert_eq!(failure.kind, Kind::OptionsTooSimilar);
    assert_eq!(
        failure.message,
        "There are too many options begining with `'A'`, can't assign a short name"
    );
}

#[test]
fn fields_without_a_first_character_are_passed_over() {
    let fields = names(&["", "alpha"]);
    assert_eq!(get_option_from_char('a', &fields), Ok("alpha".to_string()));
}

#[test]
fn the_table_holds_each_option_with_its_short_form_and_description() {
    let all = names(&["help", "version", "index", "in-file"]);
    let table = terin::args::Option::from(&all).unwrap();
    assert_eq!(table.len(), 4);
    assert_eq!(table[0].long, "help");
    assert_eq!(table[0].short, 'h');
    assert_eq!(table[0].description, "Show this help message");
    assert_eq!(table[1].long, "version");
    assert_eq!(table[1].short, 'V');
    assert_eq!(table[1].description, "Show application version");
    assert_eq!(table[2].long, "index");
    assert_eq!(table[2].short, 'i');
    assert_eq!(table[2].description, "description (TODO)");
    assert_eq!(table[3].long, "in-file");
    assert_eq!(table[3].short, 'I');
}

#[test]
fn the_table_fails_as_its_first_name_without_a_short_form() {
    let all = names(&["beta", "b2", "alpha", "apple", "avocado", "b3"]);
    let failure = terin::args::Option::from(&all).unwrap_err();
    assert_eq!(failure.kind, Kind::OptionsTooSimilar);
    assert_eq!(
        failure.message,
        "There are too many options begining with `'b'`, can't assign a short name"
    );
}

#[test]
fn an_option_is_made_with_its_own_name() {
    let all = names(&["count"]);
    let option = terin::args::Option::new("count".to_string(), &all).unwrap();
    assert_eq!(option.long, "count");
    assert_eq!(option.short, 'c');
    assert_eq!(option.description, "description (TODO)");
}

#[test]
fn the_short_form_of_a_field_is_read_as_that_field() {
    let fields =
        names(&["index", "text", "count", "append_f", "append_a", "host", "verbose", "Name"]);
    let options = terin::schema::option_names_of(&fields);
    let table = terin::args::Option::from(&options).unwrap();
    let shorts: Vec<char> = table.iter().map(|option| option.short).collect();
    assert_eq!(shorts, vec!['h', 'V', 'i', 't', 'c', 'a', 'A', 'H', 'v', 'n']);
    for (field, option) in fields.iter().zip(table.iter().skip(2)) {
        assert_eq!(get_option_from_char(option.short, &fields), Ok(field.clone()));
    }
}
