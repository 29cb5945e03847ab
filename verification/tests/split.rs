use workshop::split::{SplitItems, SplitSpaces};

fn split<'a>(input: &'a str, delimiter: char) -> impl Iterator<Item = &'a str> + 'a {
    let mut items = SplitItems::new(input, delimiter);
    std::iter::from_fn(move || items.next())
}


#[test]
fn split_empty() {
    let result = split("", ' ').collect::<Vec<_>>();
    assert!(result.is_empty());
}

#[test]
fn split_one_delimiter() {
    let result = split("c", 'c').collect::<Vec<_>>();
    assert!(result.is_empty());
}

#[test]
fn split_only_delimiters() {
    let result = split("ccc", 'c').collect::<Vec<_>>();
    assert!(result.is_empty());
}

#[test]
fn split_delimiter_at_beginning() {
    let result = split(" asd", ' ').collect::<Vec<_>>();
    assert_eq!(result, vec!["asd"]);
}

#[test]
fn split_delimiters_at_beginning() {
    let result = split("  asd", ' ').collect::<Vec<_>>();
    assert_eq!(result, vec!["asd"]);
}

#[test]
fn split_delimiter_at_end() {
    let result = split("asd ", ' ').collect::<Vec<_>>();
    assert_eq!(result, vec!["asd"]);
}

#[test]
fn split_delimiters_at_end() {
    let result = split("asd  ", ' ').collect::<Vec<_>>();
    assert_eq!(result, vec!["asd"]);
}

#[test]
fn split_single_chars() {
    let result = split("a b c d e", ' ').collect::<Vec<_>>();
    assert_eq!(result, vec!["a", "b", "c", "d", "e"]);
}

#[test]
fn split_complex() {
    let result = split("   abc   bde casdqw dee xe ", ' ').collect::<Vec<_>>();
    assert_eq!(result, vec!["abc", "bde", "casdqw", "dee", "xe"]);
}

#[test]
fn split_complex_custom_delimiter() {
    let result = split("pppabcpppbdepcasdqwpdeepxep", 'p').collect::<Vec<_>>();
    assert_eq!(result, vec!["abc", "bde", "casdqw", "dee", "xe"]);
}

#[test]
fn split_check_reference() {
    let data = String::from("foo bar");
    let result = split(&data, ' ').collect::<Vec<_>>();
    assert_eq!(result, vec!["foo", "bar"]);
}

#[test]
fn split_check_type() {
    let mut result: SplitItems<'_> = SplitItems::new("foo bar baz", ' ');
    assert_eq!(
        std::iter::from_fn(move || result.next()).collect::<Vec<_>>(),
        vec!["foo", "bar", "baz"]
    );
}

#[test]
fn split_spaces_is_the_same_walker() {
    let mut result: SplitSpaces<'_> = SplitSpaces::new("   abc   bde casdqw dee xe ", ' ');
    assert_eq!(result.next(), Some("abc"));
    assert_eq!(result.next(), Some("bde"));
    assert_eq!(result.next(), Some("casdqw"));
    assert_eq!(result.next(), Some("dee"));
    assert_eq!(result.next(), Some("xe"));
    assert_eq!(result.next(), None);
    assert_eq!(result.next(), None);
}
