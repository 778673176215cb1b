use savon::string::to_snake;

fn snake(s: &str) -> String {
    to_snake(&s.to_string())
}

#[test]
fn to_snake_splits_pascal_case() {
    assert_eq!(snake("GetWeather"), "get_weather");
}

#[test]
fn to_snake_keeps_an_acronym_together() {
    assert_eq!(snake("UserID"), "user_id");
}

#[test]
fn to_snake_splits_an_acronym_from_the_word_after_it() {
    assert_eq!(snake("HTTPServer"), "http_server");
}

#[test]
fn to_snake_handles_camel_case() {
    assert_eq!(snake("martinLutherStringJr"), "martin_luther_string_jr");
}

#[test]
fn to_snake_adds_no_second_underscore() {
    assert_eq!(snake("a_Bc"), "a_bc");
    assert_eq!(snake("A_B"), "a_b");
}

#[test]
fn to_snake_leaves_the_first_letter_alone() {
    assert_eq!(snake("X"), "x");
    assert_eq!(snake("Xy"), "xy");
}

#[test]
fn to_snake_of_empty_is_empty() {
    assert_eq!(snake(""), "");
}

#[test]
fn to_snake_keeps_other_characters() {
    assert_eq!(snake("tempÉté9"), "tempÉté9");
}

#[test]
fn to_snake_twice_is_to_snake_once() {
    for s in ["GetWeather", "UserID", "HTTPServer", "already_snake", "a_Bc", "", "ÉtéChaud"] {
        let once = snake(s);
        let twice = snake(&once);
        assert_eq!(once, twice);
    }
}
