use otp_auth::text::append;
use otp_auth::text::chars_of;
use otp_auth::text::joined;
use otp_auth::text::is_whitespace;
use otp_auth::text::same_text;
use otp_auth::text::slice_of;
use otp_auth::text::split_at_char;
use otp_auth::text::split_fields;
use otp_auth::text::string_of;
use otp_auth::text::to_upper;
use otp_auth::text::to_upper_char;
use otp_auth::text::trim;

fn strings(pieces: &Vec<Vec<char>>) -> Vec<String> {
    pieces.iter().map(string_of).collect()
}

#[test]
fn chars_and_string_round_trip() {
    let text = "Іваненко_І.І. Johnny\tAAAA 06.05.2007";
    let chars = chars_of(text);
    assert_eq!(chars.len(), text.chars().count());
    assert_eq!(chars[0], 'І');
    assert_eq!(string_of(&chars), text);
    assert_eq!(string_of(&chars_of("")), "");
}

#[test]
fn slice_and_concat_copy_the_characters() {
    let chars = chars_of("0123456789");
    assert_eq!(string_of(&slice_of(&chars, 2, 5)), "234");
    assert_eq!(string_of(&slice_of(&chars, 4, 4)), "");
    assert_eq!(string_of(&slice_of(&chars, 0, 10)), "0123456789");
    assert_eq!(string_of(&joined(&chars_of("AAAA"), &chars_of("E2D7"))), "AAAAE2D7");
    assert_eq!(string_of(&joined(&chars_of(""), &chars_of("x"))), "x");
    let mut text = chars_of("06.05.2007");
    append(&mut text, &chars_of(" 21:24:30"));
    append(&mut text, &chars_of(""));
    assert_eq!(string_of(&text), "06.05.2007 21:24:30");
}

#[test]
fn same_text_compares_every_character() {
    assert!(same_text(&chars_of("Johnny"), &chars_of("Johnny")));
    assert!(!same_text(&chars_of("Johnny"), &chars_of("johnny")));
    assert!(!same_text(&chars_of("Johnny"), &chars_of("Johnn")));
    assert!(same_text(&chars_of(""), &chars_of("")));
}

#[test]
fn whitespace_is_what_the_standard_library_takes_for_it() {
    let mut code: u32 = 0;
    while code <= 0x10FFFF {
        if let Some(c) = char::from_u32(code) {
            assert_eq!(is_whitespace(c), c.is_whitespace(), "U+{:04X}", code);
        }
        code += 1;
    }
}

#[test]
fn trim_drops_whitespace_at_both_ends_only() {
    for text in ["", " ", "abc", "  abc", "abc\t\n", " a b ", "\u{00A0}x\u{3000}", "\r\n", " я "] {
        assert_eq!(string_of(&trim(&chars_of(text))), text.trim(), "{:?}", text);
    }
}

#[test]
fn upper_case_changes_ascii_letters_only() {
    assert_eq!(to_upper_char('a'), 'A');
    assert_eq!(to_upper_char('z'), 'Z');
    assert_eq!(to_upper_char('F'), 'F');
    assert_eq!(to_upper_char('7'), '7');
    assert_eq!(to_upper_char('я'), 'я');
    assert_eq!(to_upper_char('ß'), 'ß');
    for text in ["", "ae23e2d76510bf24", "AbCdEf0123", "johnny_я", "{`}"] {
        assert_eq!(string_of(&to_upper(&chars_of(text))), text.to_ascii_uppercase());
    }
}

#[test]
fn fields_are_the_runs_between_whitespace() {
    for text in [
        "",
        "   ",
        "one",
        " one ",
        "a b  c\td\r\ne",
        "Лапин_Е.В. Johnny AE23e2d76510bf24 06.05.2007 21:24:30",
        "x\u{00A0}y\u{2003}z",
        "\n\nA\n",
    ] {
        let expected: Vec<String> = text.split_whitespace().map(String::from).collect();
        assert_eq!(strings(&split_fields(&chars_of(text))), expected, "{:?}", text);
    }
}

#[test]
fn splitting_at_a_character_keeps_empty_pieces() {
    for text in ["", ".", "06.05.2007", "6..2007", ".a.", "no dots", "a.b.c.d", "..."] {
        let expected: Vec<String> = text.split('.').map(String::from).collect();
        assert_eq!(strings(&split_at_char(&chars_of(text), '.')), expected, "{:?}", text);
    }
    assert_eq!(strings(&split_at_char(&chars_of("21:24:30"), ':')), vec!["21", "24", "30"]);
    assert_eq!(strings(&split_at_char(&chars_of("a\nb\n"), '\n')), vec!["a", "b", ""]);
}
