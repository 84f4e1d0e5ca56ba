use grammar::position::translate_position;

fn at(input: &str, index: usize) -> (String, usize, usize) {
    assert!(input.len() < usize::MAX);
    translate_position(input, index)
}

fn place(line: &str, lineno: usize, col: usize) -> (String, usize, usize) {
    (line.to_string(), lineno, col)
}

#[test]
fn translate_tests() {
    assert_eq!(at("", 0), place("", 0, 0));
    assert_eq!(at("test", 0), place("test", 1, 1));
    assert_eq!(at("test", 3), place("test", 1, 4));
    assert_eq!(at("test", 4), place("test", 1, 5));
    assert_eq!(at("test\ntest2", 4), place("test", 1, 5));
    assert_eq!(at("test\ntest2", 5), place("test2", 2, 1));
    assert_eq!(at("test\ntest2\n", 11), place("", 3, 0));
}

#[test]
fn test_translate() {
    assert_eq!(translate_position("", 0), ("".to_string(), 0, 0));
    assert_eq!(translate_position("test", 0), ("test".to_string(), 1, 1));
    assert_eq!(translate_position("test", 3), ("test".to_string(), 1, 4));
    assert_eq!(translate_position("test", 4), ("test".to_string(), 1, 5));
    assert_eq!(translate_position("test\ntest2", 4), ("test".to_string(), 1, 5));
    assert_eq!(translate_position("test\ntest2", 5), ("test2".to_string(), 2, 1));
    assert_eq!(translate_position("test\ntest2\n", 11), ("".to_string(), 3, 0));
}

#[test]
fn index_past_the_end_counts_as_the_end() {
    assert_eq!(at("test", 400), place("test", 1, 5));
}

#[test]
fn columns_count_bytes() {
    // `é` takes two bytes, so the `x` after it stands at the fourth byte.
    assert_eq!(at("aé x", 4), place("aé x", 1, 5));
}

#[test]
fn carriage_return_is_no_part_of_the_line() {
    assert_eq!(at("ab\r\ncd", 1), place("ab", 1, 2));
    // The carriage return is not counted where the next line starts.
    assert_eq!(at("ab\r\ncd", 3), place("cd", 2, 1));
}

#[test]
fn empty_lines_are_lines() {
    assert_eq!(at("a\n\nb", 2), place("", 2, 1));
    assert_eq!(at("a\n\nb", 3), place("b", 3, 1));
}
