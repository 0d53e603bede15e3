use http_tools::encoding::PercentEncodedStr;
use http_tools::interface::HttpToolsContainer;
use http_tools::text::split_bytes;

#[test]
fn test_vec_string_container() {
    let options = vec!["one".to_string(), "two".to_string()];
    assert!(options.http_tools_contains(&"two".to_string()));
    assert!(!options.http_tools_contains(&"three".to_string()));
}

#[test]
fn test_vec_u16_container() {
    let options: Vec<u16> = vec![80, 443];
    assert!(options.http_tools_contains(&443));
    assert!(!options.http_tools_contains(&8080));
}

#[test]
fn test_range_container() {
    let range = 1000u16..2000u16;
    assert!(range.http_tools_contains(&1000));
    assert!(range.http_tools_contains(&1500));
    assert!(!range.http_tools_contains(&2000));
    assert!(!range.http_tools_contains(&1));
}

#[test]
fn test_str_pattern_container() {
    assert!("{}".http_tools_contains(&"anything".to_string()));
    assert!("{a|b|c}".http_tools_contains(&"b".to_string()));
    assert!(!"{a|b|c}".http_tools_contains(&"d".to_string()));
    assert!("literal".http_tools_contains(&"literal".to_string()));
    assert!(!"literal".http_tools_contains(&"other".to_string()));
    // verbatim match of the pattern's own spelling
    assert!("{a|b}".http_tools_contains(&"{a|b}".to_string()));
}

#[test]
fn test_str_pattern_empty_alternative() {
    // an empty alternative makes the alternation malformed: it matches
    // only as a literal
    assert!(!"{a|}".http_tools_contains(&"a".to_string()));
    assert!(!"{a|}".http_tools_contains(&"".to_string()));
    assert!("{a|}".http_tools_contains(&"{a|}".to_string()));
}

#[test]
fn test_token_pattern_container() {
    assert!("{two|three}".http_tools_contains(&PercentEncodedStr::new("t%68ree")));
    assert!(!"{two|three}".http_tools_contains(&PercentEncodedStr::new("four")));
    assert!("{}".http_tools_contains(&PercentEncodedStr::new("whatever")));
    assert!("hello world".http_tools_contains(&PercentEncodedStr::new("hello+world")));
}

#[test]
fn test_split_bytes_pieces() {
    let pieces = split_bytes(b"a/b//c", b'/');
    assert_eq!(
        pieces,
        vec![b"a".to_vec(), b"b".to_vec(), b"".to_vec(), b"c".to_vec()]
    );
    let pieces = split_bytes(b"", b'/');
    assert_eq!(pieces, vec![b"".to_vec()]);
    let pieces = split_bytes(b"/", b'/');
    assert_eq!(pieces, vec![b"".to_vec(), b"".to_vec()]);
}
