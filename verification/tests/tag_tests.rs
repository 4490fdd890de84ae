use imap_session::tag::Tag;

#[test]
fn next_tag_renders_zero_padded() {
    let mut t = Tag::with_prefix(String::from("abc"));
    assert_eq!(t.next_tag(), "abc00001");
    assert_eq!(t.next_tag(), "abc00002");
    assert_eq!(t.tag, 2);
}

#[test]
fn next_tag_counter_strictly_increases() {
    let mut t = Tag::with_prefix(String::from("xyz"));
    let mut previous = t.tag;
    for _ in 0..20 {
        t.next_tag();
        assert!(t.tag > previous);
        previous = t.tag;
    }
}

#[test]
fn tags_are_pairwise_distinct() {
    let mut t = Tag::with_prefix(String::from("abc"));
    let mut seen: Vec<String> = Vec::new();
    for _ in 0..50 {
        let tag = t.next_tag();
        assert!(!seen.contains(&tag));
        seen.push(tag);
    }
}

#[test]
fn padding_stops_at_five_digits() {
    let mut t = Tag::with_prefix(String::from("abc"));
    t.tag = 99998;
    assert_eq!(t.next_tag(), "abc99999");
    assert_eq!(t.next_tag(), "abc100000");
    assert_eq!(t.next_tag(), "abc100001");
}

#[test]
fn random_prefix_is_three_alphanumeric_characters() {
    let t = Tag::new();
    assert_eq!(t.tag, 0);
    assert_eq!(t.tag_prefix.len(), 3);
    assert!(t.tag_prefix.chars().all(|c| c.is_ascii_alphanumeric()));
    let mut t = t;
    let tag = t.next_tag();
    assert_eq!(tag.len(), 8);
    assert!(tag.ends_with("00001"));
}
