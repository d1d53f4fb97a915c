use restql_home::text::{join_strings, render_decimal, same_text, text_lt};

#[test]
fn decimal_numerals() {
    assert_eq!("0", render_decimal(0));
    assert_eq!("9", render_decimal(9));
    assert_eq!("10", render_decimal(10));
    assert_eq!("512", render_decimal(512));
    assert_eq!("1234567890", render_decimal(1234567890));
    assert_eq!(usize::MAX.to_string(), render_decimal(usize::MAX));
}

#[test]
fn joined_lists() {
    let none: Vec<String> = vec![];
    assert_eq!("", join_strings(&none, ", "));
    assert_eq!("a", join_strings(&vec!["a".to_string()], ", "));
    assert_eq!(
        "a, b, c",
        join_strings(
            &vec!["a".to_string(), "b".to_string(), "c".to_string()],
            ", "
        )
    );
    assert_eq!(
        "ab",
        join_strings(&vec!["a".to_string(), "b".to_string()], "")
    );
}

#[test]
fn lexicographic_order_is_that_of_str() {
    let samples = [
        "", "a", "A", "ab", "abc", "abd", "b", "created_on", "email", "password", "username",
        "z", "é", "日本", "a b", "_id", "Z",
    ];
    for a in samples {
        for b in samples {
            assert_eq!(a < b, text_lt(a, b), "{:?} < {:?}", a, b);
            assert_eq!(a == b, same_text(a, b), "{:?} == {:?}", a, b);
        }
    }
}
