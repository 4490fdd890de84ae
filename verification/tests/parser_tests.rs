use imap_session::encode::encode;
use imap_session::error::IMAPError;
use imap_session::parser::{
    capture_first, classify_tagged, classify_untagged, extract_fetch_emails,
    extract_mailbox_status, CharClass, Status,
};

#[test]
fn untagged_ok_classifies_ok() {
    assert_eq!(classify_untagged("* OK server ready\r\n"), Status::Okay);
}

#[test]
fn untagged_no_and_bad_classify() {
    assert_eq!(classify_untagged("* NO try later\r\n"), Status::No);
    assert_eq!(classify_untagged("* BAD syntax\r\n"), Status::Bad);
}

#[test]
fn untagged_short_or_other_is_invalid() {
    assert_eq!(classify_untagged(""), Status::Invalid);
    assert_eq!(classify_untagged("* O"), Status::Invalid);
    assert_eq!(classify_untagged("*OK ready\r\n"), Status::Invalid);
    assert_eq!(classify_untagged("hello there\r\n"), Status::Invalid);
}

#[test]
fn tagged_classifications() {
    assert_eq!(classify_tagged("a1 OK done\r\n", "a1"), Status::Okay);
    assert_eq!(classify_tagged("a1 NO auth failed\r\n", "a1"), Status::No);
    assert_eq!(classify_tagged("a1 BAD syntax\r\n", "a1"), Status::Bad);
    assert_eq!(classify_tagged("a1+cont\r\n", "a1"), Status::Invalid);
}

#[test]
fn tagged_wrong_tag_is_invalid() {
    assert_eq!(classify_tagged("a2 OK done\r\n", "a1"), Status::Invalid);
    assert_eq!(classify_tagged("xa1 OK done\r\n", "a1"), Status::Invalid);
}

#[test]
fn tagged_two_character_text_is_invalid() {
    // Text of length two, shorter than the tag: classified, not crashed.
    assert_eq!(classify_tagged("ab", "abc00001"), Status::Invalid);
    // Equal to the tag but with nothing after it.
    assert_eq!(classify_tagged("ab", "ab"), Status::Invalid);
}

#[test]
fn encode_builds_the_wire_line() {
    assert_eq!(encode("a1", "LOGIN", "u p"), "a1 LOGIN u p\r\n");
    assert_eq!(encode("abc00007", "SELECT", "INBOX"), "abc00007 SELECT INBOX\r\n");
}

#[test]
fn encoded_logout_tag_round_trips_through_classification() {
    let tag = "abc00001";
    let command = encode(tag, "LOGOUT", "");
    assert!(command.starts_with(tag));
    let synthetic = format!("{} OK done\r\n", tag);
    assert_eq!(classify_tagged(&synthetic, tag), Status::Okay);
}

#[test]
fn capture_takes_the_leftmost_match() {
    let r = capture_first("12 EXISTS\r\n34 EXISTS\r\n", "", CharClass::Digit, " EXISTS\r\n");
    assert_eq!(r.as_deref(), Some("12"));
}

#[test]
fn capture_takes_the_whole_digit_run() {
    let r = capture_first("mid172 EXISTS\r\n", "", CharClass::Digit, " EXISTS\r\n");
    assert_eq!(r.as_deref(), Some("172"));
}

#[test]
fn capture_requires_a_nonempty_run() {
    assert_eq!(capture_first("FLAGS ()", "FLAGS (", CharClass::NotChar(')'), ")"), None);
    let r = capture_first("FLAGS () FLAGS (\\Seen)", "FLAGS (", CharClass::NotChar(')'), ")");
    assert_eq!(r.as_deref(), Some("\\Seen"));
}

#[test]
fn select_status_mandatory_and_optional_fields() {
    let response = "a1 OK [READ-WRITE] SELECT\r\n4 EXISTS\r\n1 RECENT\r\nFLAGS (\\Seen \\Deleted)\r\n";
    let m = extract_mailbox_status(response, "a1").expect("must parse");
    assert_eq!(m.exists, "4");
    assert_eq!(m.recent, "1");
    assert_eq!(m.flags, "\\Seen \\Deleted");
    assert_eq!(m.unseen, None);
    assert_eq!(m.permanentflags, None);
    assert_eq!(m.uidnext, None);
    assert_eq!(m.uidvalidity, None);
    // The permission is taken from the text after the tagged OK.
    assert_eq!(m.permission.as_deref(), Some("READ-WRITE"));
}

#[test]
fn select_status_all_fields_present() {
    let response = "* 23 EXISTS\r\n* 2 RECENT\r\n* OK [UNSEEN 12]\r\n* OK [UIDVALIDITY 3857529045]\r\n* OK [UIDNEXT 4392]\r\n* FLAGS (\\Answered \\Flagged)\r\n* OK [PERMANENTFLAGS (\\Deleted \\Seen)]\r\na142 OK [READ-WRITE] SELECT completed\r\n";
    let m = extract_mailbox_status(response, "a142").expect("must parse");
    assert_eq!(m.exists, "23");
    assert_eq!(m.recent, "2");
    assert_eq!(m.flags, "\\Answered \\Flagged");
    assert_eq!(m.unseen.as_deref(), Some("12"));
    assert_eq!(m.permanentflags.as_deref(), Some("\\Deleted \\Seen"));
    assert_eq!(m.uidnext.as_deref(), Some("4392"));
    assert_eq!(m.uidvalidity.as_deref(), Some("3857529045"));
    assert_eq!(m.permission.as_deref(), Some("READ-WRITE"));
}

#[test]
fn select_status_missing_mandatory_field_is_invalid() {
    let response = "a1 OK SELECT\r\n4 EXISTS\r\n1 RECENT\r\n";
    match extract_mailbox_status(response, "a1") {
        Err(IMAPError::Invalid(s)) => assert_eq!(s, response),
        other => panic!("expected Invalid, got {:?}", other),
    }
}

#[test]
fn select_permission_absent_without_tagged_ok() {
    // The permission pattern occurs, but not after a tagged OK line.
    let response = "* OK [READ-WRITE] SELECT\r\n4 EXISTS\r\n1 RECENT\r\nFLAGS (\\Seen)\r\n";
    let m = extract_mailbox_status(response, "a1").expect("must parse");
    assert_eq!(m.permission, None);
}

#[test]
fn fetch_two_lines_give_two_emails() {
    let response = "* 3 FETCH (FLAGS (\\Seen))\r\n* 4 FETCH (FLAGS ())\r\n";
    let emails = extract_fetch_emails(response).expect("must parse");
    assert_eq!(emails.len(), 2);
    assert_eq!(emails[0].raw, " (FLAGS (\\Seen))");
    assert_eq!(emails[1].raw, " (FLAGS ())");
}

#[test]
fn fetch_zero_matches_is_invalid() {
    let response = "a1 OK FETCH completed\r\n";
    match extract_fetch_emails(response) {
        Err(IMAPError::Invalid(s)) => assert_eq!(s, response),
        other => panic!("expected Invalid, got {:?}", other),
    }
}

#[test]
fn fetch_payload_runs_to_the_line_end() {
    let response = "* 12 FETCH a\rb\r\n";
    let emails = extract_fetch_emails(response).expect("must parse");
    assert_eq!(emails.len(), 1);
    assert_eq!(emails[0].raw, " a\rb");
}

#[test]
fn fetch_line_needs_digits_and_crlf() {
    assert!(extract_fetch_emails("* x FETCH (a)\r\n").is_err());
    assert!(extract_fetch_emails("* 3 FETCH (a)\n").is_err());
    assert!(extract_fetch_emails("* 3 FETCH (a)").is_err());
}
