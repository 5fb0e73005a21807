use nkap::interactive::{
    assist_mode, main_menu, parse_number, select_entry, selects_entry, show_command, Menu, Reply,
    COMMANDS,
};

#[test]
fn numbers_are_read_as_decimal_digits() {
    assert_eq!(parse_number("0"), Some(0));
    assert_eq!(parse_number("7"), Some(7));
    assert_eq!(parse_number("42"), Some(42));
    assert_eq!(parse_number("007"), Some(7));
    assert_eq!(parse_number("+5"), Some(5));
    assert_eq!(parse_number("1234567890"), Some(1234567890));
}

#[test]
fn what_is_no_number() {
    for text in ["", "+", "-", "-1", "-0", "++1", "1+", " 1", "1 ", "1_000", "0x10", "1.0", "a", "\u{663}"] {
        assert_eq!(parse_number(text), None, "{:?}", text);
    }
}

#[test]
fn numbers_agree_with_the_standard_parser() {
    let max = usize::MAX.to_string();
    let texts = [
        "0".to_string(),
        "00".to_string(),
        "+0".to_string(),
        "+".to_string(),
        String::new(),
        "18446744073709551615".to_string(),
        "18446744073709551616".to_string(),
        "4294967295".to_string(),
        "4294967296".to_string(),
        "000000000000000000000000000000000000001".to_string(),
        "99999999999999999999999999".to_string(),
        format!("{}0", max),
        format!("+{}", max),
        max,
        "12a".to_string(),
        "\u{ff11}".to_string(),
    ];
    for text in texts.iter() {
        assert_eq!(parse_number(text), text.parse::<usize>().ok(), "{:?}", text);
    }
}

#[test]
fn the_menu_has_two_commands() {
    assert_eq!(COMMANDS, 2);
}

#[test]
fn a_selection_is_a_number_of_the_menu() {
    assert!(selects_entry("0", 2));
    assert!(selects_entry("1", 2));
    assert!(selects_entry("2", 2));
    assert!(!selects_entry("3", 2));
    assert!(selects_entry("+2", 2));
    assert!(selects_entry("02", 2));
    assert!(!selects_entry("", 2));
    assert!(!selects_entry("one", 2));
    assert!(!selects_entry(" 1", 2));
    assert!(selects_entry("0", 0));
    assert!(!selects_entry("1", 0));
}

#[test]
fn what_is_typed_is_trimmed() {
    assert!(show_command("1\n", 2));
    assert!(show_command("  2 \r\n", 2));
    assert!(show_command("\t0", 2));
    assert!(!show_command("3\n", 2));
    assert!(!show_command("\n", 2));
    assert!(!show_command("1 2\n", 2));
    assert!(!show_command("abc\n1\n", 2));
    assert_eq!(main_menu("1\n"), Menu::Exchange);
    assert_eq!(main_menu(" 2 "), Menu::List);
    assert_eq!(main_menu("0\r\n"), Menu::Exit);
    assert_eq!(main_menu("\u{a0}1\u{3000}"), Menu::Exchange);
    assert_eq!(main_menu("+1\n"), Menu::Invalid);
}

#[test]
fn entries_go_by_the_letter() {
    assert_eq!(select_entry("1"), Menu::Exchange);
    assert_eq!(select_entry("2"), Menu::List);
    assert_eq!(select_entry("0"), Menu::Exit);
    assert_eq!(select_entry("01"), Menu::Invalid);
    assert_eq!(select_entry("+1"), Menu::Invalid);
    assert_eq!(select_entry("1 "), Menu::Invalid);
    assert_eq!(select_entry("3"), Menu::Invalid);
    assert_eq!(select_entry(""), Menu::Invalid);
}

#[test]
fn a_selection_starts_the_text_afresh() {
    assert_eq!(
        assist_mode(String::new(), "1\n"),
        (String::new(), Reply::Exchange)
    );
    assert_eq!(
        assist_mode(String::new(), "2\n"),
        (String::new(), Reply::List)
    );
    assert_eq!(
        assist_mode(String::new(), " 0 \n"),
        (String::new(), Reply::Exit)
    );
    assert_eq!(
        assist_mode(String::new(), "+1\n"),
        (String::new(), Reply::Invalid)
    );
    assert_eq!(
        assist_mode(String::new(), "00\n"),
        (String::new(), Reply::Invalid)
    );
}

#[test]
fn what_selects_nothing_is_kept() {
    assert_eq!(
        assist_mode(String::new(), "7\n"),
        ("7\n".to_string(), Reply::Invalid)
    );
    assert_eq!(
        assist_mode("7\n".to_string(), "1\n"),
        ("7\n1\n".to_string(), Reply::Invalid)
    );
    assert_eq!(
        assist_mode(String::new(), ""),
        (String::new(), Reply::Invalid)
    );
    assert_eq!(
        assist_mode("\n".to_string(), "2\n"),
        (String::new(), Reply::List)
    );
    assert_eq!(
        assist_mode(" ".to_string(), "\n"),
        (" \n".to_string(), Reply::Invalid)
    );
}
