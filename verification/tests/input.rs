use lifesim::util::input::{parse_usize, trim};
use lifesim::util::{
    collect_input, collect_input_str, collect_with_options, options_message, InputError,
    OptionsError,
};

#[test]
fn a_line_is_trimmed_at_both_ends() {
    assert_eq!(collect_input_str("  hello world \r\n"), "hello world");
    assert_eq!(collect_input_str("hello"), "hello");
    assert_eq!(collect_input_str(""), "");
    assert_eq!(collect_input_str(" \t\n"), "");
    assert_eq!(collect_input_str("\u{3000}a b\u{a0}"), "a b");
    assert_eq!(trim(" x "), "x");
}

#[test]
fn whitespace_is_what_the_standard_library_calls_whitespace() {
    let mut buffer = [0u8; 4];
    for code in 0..=0x10FFFFu32 {
        if let Some(c) = char::from_u32(code) {
            let text: &str = c.encode_utf8(&mut buffer);
            assert_eq!(trim(text), text.trim(), "code point {code:#x}");
        }
    }
}

#[test]
fn trimming_agrees_with_the_standard_library() {
    for text in ["", " ", "a", " a", "a ", "  a  b  ", "\n\ta\u{2003}", "\u{200b} a", "é \u{85}"] {
        assert_eq!(trim(text), text.trim());
    }
}

#[test]
fn numbers_are_read_like_the_standard_library_reads_them() {
    for text in [
        "", "+", "-", "0", "3", "+3", "-3", "++3", "003", "12a", "a12", "1 2", " 1", "1 ", "٣",
        "18446744073709551615", "18446744073709551616", "99999999999999999999999", "+0", "1_000",
        "0x10", "1.0", "4294967295", "4294967296",
    ] {
        assert_eq!(parse_usize(text), text.parse::<usize>().ok(), "text {text:?}");
    }
}

#[test]
fn a_typed_number_is_collected() {
    assert_eq!(collect_input(" 42\n"), Ok(42));
    assert_eq!(collect_input("+7"), Ok(7));
    assert_eq!(collect_input("abc"), Err(InputError::Other));
    assert_eq!(collect_input(""), Err(InputError::Other));
    assert_eq!(collect_input("4 2"), Err(InputError::Other));
}

#[test]
fn invalid_menu_input_is_asked_for_again_and_valid_input_selects() {
    assert_eq!(collect_with_options(5, "0"), Err(OptionsError::InvalidResponse));
    assert_eq!(collect_with_options(5, "6"), Err(OptionsError::InvalidResponse));
    assert_eq!(collect_with_options(5, "abc"), Err(OptionsError::InvalidResponse));
    assert_eq!(collect_with_options(5, "3"), Ok(2));
}

#[test]
fn every_number_of_the_list_selects_its_option() {
    assert_eq!(collect_with_options(5, "1\n"), Ok(0));
    assert_eq!(collect_with_options(5, " 5 \n"), Ok(4));
    assert_eq!(collect_with_options(2, "2"), Ok(1));
    assert_eq!(collect_with_options(2, "3"), Err(OptionsError::InvalidResponse));
    assert_eq!(collect_with_options(5, ""), Err(OptionsError::InvalidResponse));
    assert_eq!(collect_with_options(5, "-1"), Err(OptionsError::InvalidResponse));
}

#[test]
fn fewer_than_two_options_are_refused() {
    assert_eq!(collect_with_options(0, "1"), Err(OptionsError::NotEnoughOptions));
    assert_eq!(collect_with_options(1, "1"), Err(OptionsError::NotEnoughOptions));
    assert_eq!(options_message("Pick", &vec![]), Err(OptionsError::NotEnoughOptions));
    assert_eq!(
        options_message("Pick", &vec!["only".to_string()]),
        Err(OptionsError::NotEnoughOptions)
    );
}

#[test]
fn the_message_numbers_the_options_from_one() {
    let options = vec!["Yes".to_string(), "No".to_string(), "Maybe".to_string()];
    assert_eq!(
        options_message("Well?", &options),
        Ok("Well? (Respond with 1-3)\n1-) Yes\n2-) No\n3-) Maybe\n".to_string())
    );
    let twelve: Vec<String> = (0..12).map(|i| format!("o{i}")).collect();
    let message = options_message("", &twelve).unwrap();
    assert!(message.starts_with(" (Respond with 1-12)\n1-) o0\n"));
    assert!(message.ends_with("11-) o10\n12-) o11\n"));
}
