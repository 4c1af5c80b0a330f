use terin::text::{
    before_first_in, chars_of, join, occurs_at, replace_all_in, same_text, string_of_char,
    swap_char_in,
};

#[test]
fn a_string_hands_out_its_characters() {
    assert_eq!(chars_of("a\u{276f}b"), vec!['a', '\u{276f}', 'b']);
    assert_eq!(chars_of(""), Vec::<char>::new());
    assert_eq!(string_of_char('q'), "q");
}

#[test]
fn texts_are_the_same_when_their_characters_are() {
    assert!(same_text("help", "help"));
    assert!(!same_text("help", "helps"));
    assert!(!same_text("help", "Help"));
    assert!(same_text("", ""));
}

#[test]
fn one_character_is_swapped_for_another() {
    assert_eq!(swap_char_in("in_file_x", '_', '-'), "in-file-x");
    assert_eq!(swap_char_in("a-b", '-', '_'), "a_b");
    assert_eq!(swap_char_in("plain", '_', '-'), "plain");
}

#[test]
fn occurrences_are_replaced_from_the_left() {
    assert_eq!(replace_all_in("field and field", "field", "required option"),
        "required option and required option");
    assert_eq!(replace_all_in("aaa", "aa", "b"), "ba");
    assert_eq!(replace_all_in("abc", "", "x"), "abc");
    assert_eq!(replace_all_in("", "a", "x"), "");
    assert_eq!(replace_all_in("abc", "abcd", "x"), "abc");
}

#[test]
fn the_text_is_cut_before_the_first_occurrence() {
    assert_eq!(before_first_in("one at line 2 at line 3", "at line"), "one ");
    assert_eq!(before_first_in("nothing here", "at line"), "nothing here");
    assert_eq!(before_first_in("abc", ""), "");
    assert_eq!(before_first_in("", "x"), "");
}

#[test]
fn a_pattern_occurs_where_its_characters_stand() {
    let text = vec!['a', 'b', 'c'];
    assert!(occurs_at(&text, 1, &vec!['b', 'c']));
    assert!(!occurs_at(&text, 2, &vec!['b', 'c']));
    assert!(!occurs_at(&text, 2, &vec!['c', 'd']));
    assert!(occurs_at(&text, 3, &Vec::new()));
}

#[test]
fn parts_are_joined_with_the_separator_between() {
    let parts = vec!["a".to_string(), "b".to_string(), "c".to_string()];
    assert_eq!(join(&parts, ", "), "a, b, c");
    assert_eq!(join(&vec!["a".to_string()], ", "), "a");
    assert_eq!(join(&Vec::new(), ", "), "");
}
