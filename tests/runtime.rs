use oak::parse_error::ParseError;
use oak::parse_success::ParseSuccess;

#[test]
fn test_error_merge() {
    let s2: usize = 0;
    let s1: usize = s2 + 1;

    let err1 = ParseError::unique(s1, "err1");
    let err2 = ParseError::unique(s2, "err2");
    let err1_2_merge = err1.clone().merge(err2.clone());
    assert!(err1_2_merge.farthest_read == err1.farthest_read);
    assert!(err1_2_merge.expected == vec!["err1"]);

    let err2_merge = err2.clone().merge(err2.clone());
    assert!(err2_merge.farthest_read == err2.farthest_read);
    assert!(err2_merge.expected == vec!["err2", "err2"]);

    let err2_1_merge = err2.clone().merge(err1.clone());
    assert!(err2_1_merge.farthest_read == err1.farthest_read);
    assert!(err2_1_merge.expected == vec!["err1"]);
}

#[test]
fn merge_keeps_farther_failure() {
    let a = ParseError::unique(3, "digit");
    let b = ParseError::unique(5, "letter");
    let m = a.clone().merge(b.clone());
    assert_eq!(m.farthest_read, 5);
    assert_eq!(m.expected, vec!["letter"]);
    let m2 = b.merge(a);
    assert_eq!(m2.farthest_read, 5);
    assert_eq!(m2.expected, vec!["letter"]);
}

#[test]
fn merge_at_equal_positions_keeps_duplicates() {
    let a = ParseError::unique(4, "digit");
    let mut b = ParseError::unique(4, "digit");
    b.merge_in_place(ParseError::unique(4, "letter"));
    let m = a.merge(b);
    assert_eq!(m.farthest_read, 4);
    assert_eq!(m.expected, vec!["digit", "digit", "letter"]);
}

#[test]
fn merge_with_empty_error() {
    let m = ParseError::empty(2).merge(ParseError::unique(2, "x"));
    assert_eq!(m.farthest_read, 2);
    assert_eq!(m.expected, vec!["x"]);
    assert!(ParseError::empty(7).expected.is_empty());
}

#[test]
fn expected_items_lists_distinct_items() {
    let mut e = ParseError::unique(1, "a");
    e.merge_in_place(ParseError::unique(1, "b"));
    e.merge_in_place(ParseError::unique(1, "a"));
    assert_eq!(e.expected_items(), "`a` or `b`");
    assert_eq!(ParseError::unique(0, "digit").expected_items(), "`digit`");
    assert_eq!(ParseError::empty(0).expected_items(), "");
}

#[test]
fn success_map_keeps_position() {
    let s = ParseSuccess::new(4usize, 20u32);
    let m = s.map(|x: u32| x + 1);
    assert_eq!(m.stream, 4);
    assert_eq!(m.data, 21);
    let st = ParseSuccess::stateless(9usize);
    assert_eq!(st.stream, 9);
    assert_eq!(st.data, ());
}
