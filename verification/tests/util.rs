use tauri_bindgen::error::Error;
use tauri_bindgen::util::{
    check_codepoint, detect_invalid_input, find_similar, merge, print_list, select_within, Fault,
    IteratorExt,
};

fn strings(items: &[&str]) -> Vec<String> {
    items.iter().map(|s| s.to_string()).collect()
}

#[test]
fn plain_text_is_valid() {
    assert!(detect_invalid_input("interface chars {\n\tfunc take-char(x: char)\r\n}").is_ok());
    assert!(detect_invalid_input("").is_ok());
}

#[test]
fn bidirectional_override_at_byte_seven() {
    let input = "alias x\u{202e} = y";
    match detect_invalid_input(input) {
        Err(Error::BidirectionalOverrideCodepoint { position }) => assert_eq!(position, 7),
        _ => panic!("the override was not reported"),
    }
}

#[test]
fn position_counts_bytes_not_characters() {
    // Each of the three letters before the fault takes two bytes.
    let input = "\u{e4}\u{f6}\u{fc}\u{2066}";
    match detect_invalid_input(input) {
        Err(Error::BidirectionalOverrideCodepoint { position }) => assert_eq!(position, 6),
        _ => panic!("the override was not reported"),
    }
}

#[test]
fn deprecated_codepoint_is_reported() {
    match detect_invalid_input("ab\u{149}") {
        Err(Error::DeprecatedCodepoint { position }) => assert_eq!(position, 2),
        _ => panic!("the deprecated codepoint was not reported"),
    }
    for c in ['\u{673}', '\u{f77}', '\u{f79}', '\u{17a3}', '\u{17a4}', '\u{17b4}', '\u{17b5}'] {
        assert_eq!(check_codepoint(c), Some(Fault::Deprecated));
    }
}

#[test]
fn control_code_is_reported() {
    match detect_invalid_input("a\u{0}b") {
        Err(Error::ControlCode { position }) => assert_eq!(position, 1),
        _ => panic!("the control code was not reported"),
    }
    assert_eq!(check_codepoint('\u{7f}'), Some(Fault::ControlCode));
    assert_eq!(check_codepoint('\u{9f}'), Some(Fault::ControlCode));
    assert_eq!(check_codepoint('\u{1b}'), Some(Fault::ControlCode));
    assert_eq!(check_codepoint('\u{a0}'), None);
    assert_eq!(check_codepoint('\n'), None);
    assert_eq!(check_codepoint('\r'), None);
    assert_eq!(check_codepoint('\t'), None);
}

#[test]
fn every_override_is_a_fault() {
    for c in [
        '\u{202a}', '\u{202b}', '\u{202c}', '\u{202d}', '\u{202e}', '\u{2066}', '\u{2067}',
        '\u{2068}', '\u{2069}',
    ] {
        assert_eq!(check_codepoint(c), Some(Fault::BidirectionalOverride));
    }
    assert_eq!(check_codepoint('\u{2029}'), None);
    assert_eq!(check_codepoint('\u{206a}'), None);
}

#[test]
fn first_fault_wins() {
    match detect_invalid_input("ok\u{1}\u{202e}") {
        Err(Error::ControlCode { position }) => assert_eq!(position, 2),
        _ => panic!("the first fault was not reported"),
    }
}

#[test]
fn print_list_in_words() {
    assert_eq!(print_list(&strings(&[])), "");
    assert_eq!(print_list(&strings(&["a"])), "a");
    assert_eq!(print_list(&strings(&["a", "b"])), "a, or b");
    assert_eq!(print_list(&strings(&["a", "b", "c"])), "a, b, or c");
}

#[test]
fn find_similar_keeps_close_words_in_order() {
    let words = strings(&["record", "recrod", "variant", "recor", "x"]);
    assert_eq!(find_similar(&words, "record"), strings(&["record", "recrod", "recor"]));
    assert_eq!(find_similar(&words, "zzzzzzzzzz"), Vec::<String>::new());
    // A transposition counts once, so three edits away is still close.
    assert_eq!(find_similar(&strings(&["badcfe"]), "abcdef"), strings(&["badcfe"]));
    assert_eq!(find_similar(&strings(&["abcd"]), ""), Vec::<String>::new());
    assert_eq!(find_similar(&strings(&["abc"]), ""), strings(&["abc"]));
}

#[test]
fn select_within_goes_by_the_distances() {
    let words = strings(&["a", "b", "c", "d"]);
    assert_eq!(select_within(&words, &vec![0, 4, 3, 9], 3), strings(&["a", "c"]));
    assert_eq!(select_within(&words, &vec![4, 4, 4, 4], 3), Vec::<String>::new());
}

#[test]
fn transpose_all_ok() {
    let outcomes: Vec<Result<u32, Error>> = vec![Ok(1), Ok(2), Ok(3)];
    match outcomes.transponse_result() {
        Ok(values) => assert_eq!(values, vec![1, 2, 3]),
        Err(_) => panic!("no step failed"),
    }
    let none: Vec<Result<u32, Error>> = Vec::new();
    assert!(matches!(none.transponse_result(), Ok(values) if values.is_empty()));
}

#[test]
fn transpose_gathers_errors() {
    let outcomes: Vec<Result<u32, Error>> = vec![
        Ok(1),
        Err(Error::ControlCode { position: 4 }),
        Ok(2),
        Err(Error::TooManyFlags { count: 129 }),
    ];
    match outcomes.transponse_result() {
        Err(Error::Multi { errors }) => {
            assert_eq!(errors.len(), 2);
            assert!(matches!(errors[0], Error::ControlCode { position: 4 }));
            assert!(matches!(errors[1], Error::TooManyFlags { count: 129 }));
        },
        _ => panic!("the errors were not gathered"),
    }
}

#[test]
fn merge_follows_the_four_cases() {
    assert!(matches!(merge(Ok(vec![1u8]), Ok(2)), Ok(v) if v == vec![1, 2]));
    assert!(matches!(
        merge(Ok(vec![1u8]), Err(Error::ControlCode { position: 0 })),
        Err(Error::Multi { errors }) if errors.len() == 1
    ));
    let multi = Error::Multi { errors: vec![Error::ControlCode { position: 0 }] };
    assert!(matches!(
        merge::<u8>(Err(multi), Err(Error::DeprecatedCodepoint { position: 1 })),
        Err(Error::Multi { errors }) if errors.len() == 2
    ));
    assert!(matches!(
        merge::<u8>(Err(Error::ControlCode { position: 3 }), Ok(1)),
        Err(Error::ControlCode { position: 3 })
    ));
    assert!(matches!(
        merge::<u8>(
            Err(Error::ControlCode { position: 3 }),
            Err(Error::DeprecatedCodepoint { position: 1 })
        ),
        Err(Error::ControlCode { position: 3 })
    ));
}
