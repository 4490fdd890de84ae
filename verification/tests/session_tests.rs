use imap_session::error::IMAPError;
use imap_session::parser::extract_fetch_emails;
use imap_session::session::{
    DataItem, IMAPClient, IMAPConnection, LoginStep, LogoutStep, MailServer, Mailbox, SelectStep,
};
use imap_session::tag::Tag;

fn fresh_server(prefix: &str) -> MailServer {
    MailServer { imap: IMAPConnection::Basic, tag: Tag::with_prefix(String::from(prefix)) }
}

fn fresh_mailbox(prefix: &str) -> Mailbox {
    Mailbox {
        imap: IMAPConnection::Basic,
        tag: Tag::with_prefix(String::from(prefix)),
        flags: String::from("\\Seen"),
        exists: String::from("4"),
        recent: String::from("1"),
        unseen: None,
        permanentflags: None,
        uidnext: None,
        uidvalidity: None,
        permission: None,
    }
}

#[test]
fn connect_with_ok_greeting_yields_unauthenticated() {
    let client = IMAPClient::connect(IMAPConnection::Basic, "* OK server ready\r\n")
        .expect("connect must succeed");
    match client {
        IMAPClient::UnAuthenticated(s) => assert_eq!(s.tag.tag, 0),
        other => panic!("expected UnAuthenticated, got {:?}", other),
    }
}

#[test]
fn connect_on_disconnected_transport_fails() {
    match IMAPClient::connect(IMAPConnection::new(), "* OK server ready\r\n") {
        Err(IMAPError::ConnectError(_)) => (),
        other => panic!("expected ConnectError, got {:?}", other),
    }
}

#[test]
fn connect_with_bad_greeting_fails() {
    match IMAPClient::connect(IMAPConnection::Basic, "* NO busy\r\n") {
        Err(IMAPError::No(s)) => assert_eq!(s, "* NO busy\r\n"),
        other => panic!("expected No, got {:?}", other),
    }
    match IMAPClient::connect(IMAPConnection::Ssl, "garbage") {
        Err(IMAPError::Invalid(_)) => (),
        other => panic!("expected Invalid, got {:?}", other),
    }
}

#[test]
fn login_sends_the_encoded_command() {
    let client = IMAPClient::UnAuthenticated(fresh_server("a"));
    match client.login("u", "p") {
        LoginStep::Exchange(ex) => {
            assert_eq!(ex.tag, "a00001");
            assert_eq!(ex.command, "a00001 LOGIN u p\r\n");
        },
        other => panic!("expected an exchange, got {:?}", other),
    }
}

#[test]
fn login_rejected_by_server_returns_unauthenticated_and_no() {
    let client = IMAPClient::UnAuthenticated(fresh_server("a"));
    let ex = match client.login("u", "p") {
        LoginStep::Exchange(ex) => ex,
        other => panic!("expected an exchange, got {:?}", other),
    };
    let response = format!("{} NO auth failed\r\n", ex.tag);
    match ex.complete(response.clone()) {
        Err((IMAPClient::UnAuthenticated(_), IMAPError::No(s))) => assert_eq!(s, response),
        other => panic!("expected (UnAuthenticated, No), got {:?}", other),
    }
}

#[test]
fn login_accepted_by_server_authenticates() {
    let client = IMAPClient::UnAuthenticated(fresh_server("a"));
    let ex = match client.login("u", "p") {
        LoginStep::Exchange(ex) => ex,
        other => panic!("expected an exchange, got {:?}", other),
    };
    let response = format!("{} OK done\r\n", ex.tag);
    match ex.complete(response) {
        Ok(IMAPClient::Authenticated(s)) => assert_eq!(s.tag.tag, 1),
        other => panic!("expected Authenticated, got {:?}", other),
    }
}

#[test]
fn login_is_idempotent_when_authenticated_or_selected() {
    let client = IMAPClient::Authenticated(fresh_server("a"));
    match client.login("u", "p") {
        LoginStep::Done(IMAPClient::Authenticated(s)) => {
            // No command was sent: the tag counter did not move.
            assert_eq!(s.tag.tag, 0);
        },
        other => panic!("expected Done(Authenticated), got {:?}", other),
    }
    let client = IMAPClient::Selected(fresh_mailbox("a"));
    match client.login("u", "p") {
        LoginStep::Done(IMAPClient::Selected(m)) => assert_eq!(m.tag.tag, 0),
        other => panic!("expected Done(Selected), got {:?}", other),
    }
}

#[test]
fn login_after_logout_is_always_rejected() {
    match IMAPClient::Logout.login("u", "p") {
        LoginStep::Refused(IMAPClient::Logout, IMAPError::LoginError(_)) => (),
        other => panic!("expected Refused(Logout, LoginError), got {:?}", other),
    }
}

#[test]
fn login_on_disconnected_connection_is_refused() {
    let server = MailServer {
        imap: IMAPConnection::Disconnected,
        tag: Tag::with_prefix(String::from("a")),
    };
    match IMAPClient::UnAuthenticated(server).login("u", "p") {
        LoginStep::Refused(IMAPClient::UnAuthenticated(_), IMAPError::ConnectError(_)) => (),
        other => panic!("expected Refused(UnAuthenticated, ConnectError), got {:?}", other),
    }
}

#[test]
fn select_before_authentication_is_rejected() {
    let client = IMAPClient::UnAuthenticated(fresh_server("a"));
    match client.select("INBOX") {
        SelectStep::Refused(IMAPClient::UnAuthenticated(_), IMAPError::SelectError(_)) => (),
        other => panic!("expected Refused(UnAuthenticated, SelectError), got {:?}", other),
    }
    match IMAPClient::Logout.select("INBOX") {
        SelectStep::Refused(IMAPClient::Logout, IMAPError::SelectError(_)) => (),
        other => panic!("expected Refused(Logout, SelectError), got {:?}", other),
    }
}

#[test]
fn select_inbox_parses_the_mailbox_status() {
    let client = IMAPClient::Authenticated(fresh_server("a"));
    let ex = match client.select("INBOX") {
        SelectStep::Exchange(ex) => ex,
        other => panic!("expected an exchange, got {:?}", other),
    };
    assert_eq!(ex.command, "a00001 SELECT INBOX\r\n");
    let response = format!(
        "{} OK [READ-WRITE] SELECT\r\n4 EXISTS\r\n1 RECENT\r\nFLAGS (\\Seen \\Deleted)\r\n",
        ex.tag
    );
    match ex.complete(response) {
        Ok(IMAPClient::Selected(m)) => {
            assert_eq!(m.exists, "4");
            assert_eq!(m.recent, "1");
            assert_eq!(m.flags, "\\Seen \\Deleted");
            assert_eq!(m.unseen, None);
            assert_eq!(m.permanentflags, None);
            assert_eq!(m.uidnext, None);
            assert_eq!(m.uidvalidity, None);
            assert_eq!(m.permission.as_deref(), Some("READ-WRITE"));
        },
        other => panic!("expected Selected, got {:?}", other),
    }
}

#[test]
fn failed_select_demotes_to_unauthenticated() {
    let client = IMAPClient::Authenticated(fresh_server("a"));
    let ex = match client.select("INBOX") {
        SelectStep::Exchange(ex) => ex,
        other => panic!("expected an exchange, got {:?}", other),
    };
    let response = format!("{} NO no such mailbox\r\n", ex.tag);
    match ex.complete(response) {
        Err((IMAPClient::UnAuthenticated(_), IMAPError::No(_))) => (),
        other => panic!("expected (UnAuthenticated, No), got {:?}", other),
    }
}

#[test]
fn select_with_missing_mandatory_fields_demotes() {
    let client = IMAPClient::Authenticated(fresh_server("a"));
    let ex = match client.select("INBOX") {
        SelectStep::Exchange(ex) => ex,
        other => panic!("expected an exchange, got {:?}", other),
    };
    let response = format!("{} OK SELECT\r\n", ex.tag);
    match ex.complete(response) {
        Err((IMAPClient::UnAuthenticated(_), IMAPError::Invalid(_))) => (),
        other => panic!("expected (UnAuthenticated, Invalid), got {:?}", other),
    }
}

#[test]
fn failed_reselect_stays_selected() {
    let client = IMAPClient::Selected(fresh_mailbox("a"));
    let ex = match client.select("Archive") {
        SelectStep::Exchange(ex) => ex,
        other => panic!("expected an exchange, got {:?}", other),
    };
    let response = format!("{} BAD syntax\r\n", ex.tag);
    match ex.complete(response) {
        Err((IMAPClient::Selected(m), IMAPError::Bad(_))) => {
            // The old mailbox status is kept.
            assert_eq!(m.exists, "4");
        },
        other => panic!("expected (Selected, Bad), got {:?}", other),
    }
}

#[test]
fn logout_from_every_live_state_yields_logout() {
    for client in [
        IMAPClient::UnAuthenticated(fresh_server("a")),
        IMAPClient::Authenticated(fresh_server("a")),
        IMAPClient::Selected(fresh_mailbox("a")),
    ] {
        let ex = match client.logout() {
            LogoutStep::Exchange(ex) => ex,
            other => panic!("expected an exchange, got {:?}", other),
        };
        assert_eq!(ex.command, format!("{} LOGOUT \r\n", ex.tag));
        // Whatever the server answers, the session is logged out.
        match ex.complete(String::from("anything at all")) {
            IMAPClient::Logout => (),
            other => panic!("expected Logout, got {:?}", other),
        }
    }
}

#[test]
fn logout_is_idempotent() {
    match IMAPClient::Logout.logout() {
        LogoutStep::Done(IMAPClient::Logout) => (),
        other => panic!("expected Done(Logout), got {:?}", other),
    }
}

#[test]
fn aborted_logout_returns_the_original_state() {
    let client = IMAPClient::Authenticated(fresh_server("a"));
    let ex = match client.logout() {
        LogoutStep::Exchange(ex) => ex,
        other => panic!("expected an exchange, got {:?}", other),
    };
    let (client, err) = ex.abort(IMAPError::IOError(String::from("read timed out")));
    match (client, err) {
        (IMAPClient::Authenticated(_), IMAPError::IOError(s)) => {
            assert_eq!(s, "read timed out");
        },
        other => panic!("expected (Authenticated, IOError), got {:?}", other),
    }
}

#[test]
fn fetch_builds_the_command_and_never_changes_state() {
    let mut mailbox = fresh_mailbox("a");
    let cmd = mailbox.fetch(DataItem::Atom(3)).expect("fetch must build a command");
    assert_eq!(cmd, "a00001 FETCH 3:3 ALL\r\n");
    // The mailbox status is untouched; only the tag counter advanced.
    assert_eq!(mailbox.exists, "4");
    assert_eq!(mailbox.recent, "1");
    assert_eq!(mailbox.flags, "\\Seen");
    assert_eq!(mailbox.tag.tag, 1);

    let response = "* 3 FETCH (FLAGS (\\Seen))\r\n* 4 FETCH (FLAGS ())\r\n";
    let emails = extract_fetch_emails(response).expect("two records must parse");
    assert_eq!(emails.len(), 2);

    // A failing fetch leaves the state alone as well.
    assert!(extract_fetch_emails("nothing here").is_err());
    assert_eq!(mailbox.exists, "4");
}

#[test]
fn fetch_of_a_range_uses_both_bounds() {
    let mut mailbox = fresh_mailbox("a");
    let cmd = mailbox.fetch(DataItem::from((2, 5))).expect("fetch must build a command");
    assert_eq!(cmd, "a00001 FETCH 2:5 ALL\r\n");
}

#[test]
fn fetch_on_disconnected_connection_fails() {
    let mut mailbox = fresh_mailbox("a");
    mailbox.imap = IMAPConnection::Disconnected;
    match mailbox.fetch(DataItem::Atom(1)) {
        Err(IMAPError::ConnectError(_)) => (),
        other => panic!("expected ConnectError, got {:?}", other),
    }
    assert_eq!(mailbox.tag.tag, 0);
}
