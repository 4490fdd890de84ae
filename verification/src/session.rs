//! The session state machine: typed states and the operations that
//! transition between them.
//!
//! A session is a linear resource.  Every operation consumes the session
//! value and yields exactly one new owner, so a stale state can never be
//! used again; failure paths hand the caller back a session in the state the
//! transition table dictates, never a dangling one.
//!
//! The library performs no I/O.  An operation that needs a server round trip
//! returns an *exchange*: a value holding the encoded command line and the
//! consumed session.  The caller writes the command, reads the full
//! response, and passes the text to the exchange's `complete`; if the
//! transport itself failed, `abort` returns the session unchanged together
//! with the caller's error.

use crate::digits::u32_to_decimal;
use crate::digits::dec_digits;
use crate::encode::{encode, spec_encode};
use crate::error::IMAPError;
use crate::parser::{
    classify_tagged, classify_untagged, extract_mailbox_status, spec_classify_tagged,
    spec_classify_untagged, spec_exists_field, spec_flags_field, spec_mailbox_response,
    spec_recent_field, MailboxResponse, Status,
};
use crate::tag::{spec_tag_string, Tag};
use vstd::prelude::*;
use vstd::string::StringExecFns;

verus! {

/// The transport a session owns: plain, encrypted, or never connected.
///
/// The library treats the transport as an abstract capability: the two live
/// kinds only record how the caller connected.  `Disconnected` is a valid
/// value, and every operation against it fails with a connection error
/// rather than blocking.
#[derive(Debug, PartialEq, Eq, Structural)]
pub enum IMAPConnection {
    /// A plaintext byte stream.
    Basic,
    /// A TLS-encrypted byte stream.
    Ssl,
    /// No connection was ever established.
    Disconnected,
}

impl IMAPConnection {
    /// A connection value that was never connected.
    pub fn new() -> (r: IMAPConnection)
        ensures
            r is Disconnected,
    {
        IMAPConnection::Disconnected
    }

    /// Whether this connection can carry no command.
    pub fn is_disconnected(&self) -> (r: bool)
        ensures
            r == (self is Disconnected),
    {
        match self {
            IMAPConnection::Disconnected => true,
            _ => false,
        }
    }
}

/// A FETCH macro selecting a standard set of data items.
#[derive(Debug, Clone, Copy, PartialEq, Eq, Structural)]
pub enum Macro {
    All,
    Fast,
    Full,
}

/// What a FETCH addresses: an inclusive range of message sequence numbers,
/// a single message, or a macro.
#[derive(Debug, Clone, Copy, PartialEq, Eq, Structural)]
pub enum DataItem {
    /// The inclusive range `lo:hi`.
    SequenceSet(u32, u32),
    /// A single message sequence number.
    Atom(u32),
    /// A macro; [`Mailbox::fetch`] does not accept it.
    Macro,
}

impl From<(u32, u32)> for DataItem {
    fn from(ss: (u32, u32)) -> (r: DataItem) {
        DataItem::SequenceSet(ss.0, ss.1)
    }
}

impl vstd::std_specs::convert::FromSpecImpl<(u32, u32)> for DataItem {
    open spec fn obeys_from_spec() -> bool {
        true
    }

    open spec fn from_spec(ss: (u32, u32)) -> DataItem {
        DataItem::SequenceSet(ss.0, ss.1)
    }
}

/// What an authenticated-but-unselected (or not yet authenticated) session
/// owns: the connection and the tag generator.
#[derive(Debug)]
pub struct MailServer {
    pub imap: IMAPConnection,
    pub tag: Tag,
}

/// What a session with a selected mailbox owns: the connection, the tag
/// generator, and the mailbox status the SELECT reported.
#[derive(Debug)]
pub struct Mailbox {
    pub imap: IMAPConnection,
    pub tag: Tag,
    /// The flag names the server reported in `FLAGS (...)`.
    pub flags: String,
    /// The count the server reported before `EXISTS`.
    pub exists: String,
    /// The count the server reported before `RECENT`.
    pub recent: String,
    pub unseen: Option<String>,
    pub permanentflags: Option<String>,
    pub uidnext: Option<String>,
    pub uidvalidity: Option<String>,
    pub permission: Option<String>,
}

/// The mailbox status fields a [`Mailbox`] carries, as the parser's record.
pub open spec fn spec_mailbox_fields(m: Mailbox) -> MailboxResponse {
    MailboxResponse {
        flags: m.flags,
        exists: m.exists,
        recent: m.recent,
        unseen: m.unseen,
        permanentflags: m.permanentflags,
        uidnext: m.uidnext,
        uidvalidity: m.uidvalidity,
        permission: m.permission,
    }
}

/// A session in exactly one state at a time.  Each live variant owns its
/// connection and tag generator; `Logout` is terminal and owns nothing.
#[derive(Debug)]
pub enum IMAPClient {
    /// Logged in, no mailbox selected.
    Authenticated(MailServer),
    /// Greeted but not yet logged in.
    UnAuthenticated(MailServer),
    /// A mailbox is selected.
    Selected(Mailbox),
    /// Logged out; terminal.
    Logout,
}

impl IMAPClient {
    /// The value of the session's tag counter (zero for `Logout`, which has
    /// none).
    pub open spec fn tag_counter(&self) -> nat {
        match self {
            IMAPClient::Authenticated(s) => s.tag.tag as nat,
            IMAPClient::UnAuthenticated(s) => s.tag.tag as nat,
            IMAPClient::Selected(m) => m.tag.tag as nat,
            IMAPClient::Logout => 0,
        }
    }

    /// The session's connection (`Disconnected` for `Logout`, which owns
    /// none).
    pub open spec fn connection(&self) -> IMAPConnection {
        match self {
            IMAPClient::Authenticated(s) => s.imap,
            IMAPClient::UnAuthenticated(s) => s.imap,
            IMAPClient::Selected(m) => m.imap,
            IMAPClient::Logout => IMAPConnection::Disconnected,
        }
    }

    /// The only entry point: takes a raw connection and the server greeting
    /// the caller read from it, and produces an unauthenticated session.
    ///
    /// Fails with a connection error when the connection is `Disconnected`
    /// (the greeting is then never inspected), and with the greeting's own
    /// classification when it is not an untagged `OK`.  On failure no
    /// session is created.
    pub fn connect(imap: IMAPConnection, greeting: &str) -> (r: Result<IMAPClient, IMAPError>)
        ensures
            ({
                match r {
                    Ok(c) => {
                        &&& !(imap is Disconnected)
                        &&& spec_classify_untagged(greeting@) == Status::Okay
                        &&& c matches IMAPClient::UnAuthenticated(s) && s.imap == imap
                            && s.tag.tag == 0 && s.tag.wf()
                    },
                    Err(e) => {
                        if imap is Disconnected {
                            e is ConnectError
                        } else {
                            match spec_classify_untagged(greeting@) {
                                Status::Okay => false,
                                Status::No => e matches IMAPError::No(s) && s@ == greeting@,
                                Status::Bad => e matches IMAPError::Bad(s) && s@ == greeting@,
                                Status::Invalid => e matches IMAPError::Invalid(s) && s@
                                    == greeting@,
                            }
                        }
                    },
                }
            }),
    {
        if imap.is_disconnected() {
            return Err(
                IMAPError::ConnectError(
                    String::from_str("can not connect: the connection is in the Disconnected state"),
                ),
            );
        }
        match classify_untagged(greeting) {
            Status::Okay => Ok(IMAPClient::UnAuthenticated(MailServer { imap, tag: Tag::new() })),
            Status::No => Err(IMAPError::No(String::from_str(greeting))),
            Status::Bad => Err(IMAPError::Bad(String::from_str(greeting))),
            Status::Invalid => Err(IMAPError::Invalid(String::from_str(greeting))),
        }
    }
}

/// The immediate outcome of starting a login.
#[derive(Debug)]
pub enum LoginStep {
    /// The operation completed without sending anything.
    Done(IMAPClient),
    /// The operation can never proceed from this state; the session is
    /// returned unchanged.
    Refused(IMAPClient, IMAPError),
    /// A command must be sent; complete the exchange with the response.
    Exchange(LoginExchange),
}

/// A LOGIN command in flight: the consumed session and the line to send.
#[derive(Debug)]
pub struct LoginExchange {
    pub server: MailServer,
    /// The tag the command was issued under.
    pub tag: String,
    /// The full command line to write to the transport.
    pub command: String,
}

impl IMAPClient {
    /// Starts a LOGIN.
    ///
    /// On an already-authenticated or already-selected session this is an
    /// idempotent no-op: the same state comes back unchanged and no command
    /// is sent.  After logout it is always rejected.  Otherwise the returned
    /// exchange carries `"{tag} LOGIN {username} {password}\r\n"` under a
    /// fresh tag.
    pub fn login(self, username: &str, password: &str) -> (r: LoginStep)
        requires
            self.tag_counter() < u32::MAX,
        ensures
            ({
                match self {
                    IMAPClient::Authenticated(_) => r == LoginStep::Done(self),
                    IMAPClient::Selected(_) => r == LoginStep::Done(self),
                    IMAPClient::Logout => r matches LoginStep::Refused(c, e) && c is Logout
                        && e is LoginError,
                    IMAPClient::UnAuthenticated(s) => {
                        if s.imap is Disconnected {
                            r matches LoginStep::Refused(c, e) && c == self && e is ConnectError
                        } else {
                            r matches LoginStep::Exchange(ex) && ex.server.imap == s.imap
                                && ex.server.tag.tag_prefix == s.tag.tag_prefix
                                && ex.server.tag.tag == s.tag.tag + 1 && ex.tag@ == spec_tag_string(
                                s.tag.tag_prefix@,
                                (s.tag.tag + 1) as nat,
                            ) && ex.command@ == spec_encode(
                                ex.tag@,
                                ("LOGIN")@,
                                username@ + seq![' '] + password@,
                            )
                        }
                    },
                }
            }),
    {
        match self {
            IMAPClient::Authenticated(server) => LoginStep::Done(IMAPClient::Authenticated(server)),
            IMAPClient::Selected(mailbox) => LoginStep::Done(IMAPClient::Selected(mailbox)),
            IMAPClient::Logout => LoginStep::Refused(
                IMAPClient::Logout,
                IMAPError::LoginError(String::from_str("not valid to try to log in after logout")),
            ),
            IMAPClient::UnAuthenticated(mut server) => {
                if server.imap.is_disconnected() {
                    LoginStep::Refused(
                        IMAPClient::UnAuthenticated(server),
                        IMAPError::ConnectError(String::from_str("not connected to a server")),
                    )
                } else {
                    let tag = server.tag.next_tag();
                    let mut args = String::from_str(username);
                    args.append(" ");
                    args.append(password);
                    proof {
                        reveal_strlit(" ");
                        assert(args@ =~= username@ + seq![' '] + password@);
                    }
                    let command = encode(tag.as_str(), "LOGIN", args.as_str());
                    LoginStep::Exchange(LoginExchange { server, tag, command })
                }
            },
        }
    }
}

impl LoginExchange {
    /// Consumes the server's full response: a tagged `OK` yields an
    /// authenticated session; `NO`, `BAD` or anything unrecognized returns
    /// the session to the unauthenticated state together with the matching
    /// error, which carries the response text.
    pub fn complete(self, response: String) -> (r: Result<IMAPClient, (IMAPClient, IMAPError)>)
        ensures
            ({
                match spec_classify_tagged(response@, self.tag@) {
                    Status::Okay => r == Ok::<IMAPClient, (IMAPClient, IMAPError)>(
                        IMAPClient::Authenticated(self.server),
                    ),
                    Status::No => r matches Err((c, e)) && c == IMAPClient::UnAuthenticated(
                        self.server,
                    ) && (e matches IMAPError::No(s) && s@ == response@),
                    Status::Bad => r matches Err((c, e)) && c == IMAPClient::UnAuthenticated(
                        self.server,
                    ) && (e matches IMAPError::Bad(s) && s@ == response@),
                    Status::Invalid => r matches Err((c, e)) && c == IMAPClient::UnAuthenticated(
                        self.server,
                    ) && (e matches IMAPError::Invalid(s) && s@ == response@),
                }
            }),
    {
        match classify_tagged(response.as_str(), self.tag.as_str()) {
            Status::Okay => Ok(IMAPClient::Authenticated(self.server)),
            Status::No => Err((IMAPClient::UnAuthenticated(self.server), IMAPError::No(response))),
            Status::Bad => Err(
                (IMAPClient::UnAuthenticated(self.server), IMAPError::Bad(response)),
            ),
            Status::Invalid => Err(
                (IMAPClient::UnAuthenticated(self.server), IMAPError::Invalid(response)),
            ),
        }
    }

    /// The transport failed before any response was read: the session comes
    /// back unauthenticated and unchanged, paired with the caller's error.
    pub fn abort(self, err: IMAPError) -> (r: (IMAPClient, IMAPError))
        ensures
            r.0 == IMAPClient::UnAuthenticated(self.server),
            r.1 == err,
    {
        (IMAPClient::UnAuthenticated(self.server), err)
    }
}

/// A SELECT response parses when the three mandatory fields (`EXISTS`,
/// `RECENT` and `FLAGS`) are all present.
pub open spec fn spec_select_parses(t: Seq<char>) -> bool {
    &&& spec_exists_field(t) is Some
    &&& spec_recent_field(t) is Some
    &&& spec_flags_field(t) is Some
}

/// `s` with its tag counter advanced by one, as [`crate::tag::Tag::next_tag`]
/// leaves it.
pub open spec fn spec_server_bumped(s: MailServer) -> MailServer {
    MailServer {
        imap: s.imap,
        tag: Tag { tag_prefix: s.tag.tag_prefix, tag: (s.tag.tag + 1) as u32 },
    }
}

/// `m` with its tag counter advanced by one and every other field unchanged.
pub open spec fn spec_mailbox_bumped(m: Mailbox) -> Mailbox {
    Mailbox {
        imap: m.imap,
        tag: Tag { tag_prefix: m.tag.tag_prefix, tag: (m.tag.tag + 1) as u32 },
        flags: m.flags,
        exists: m.exists,
        recent: m.recent,
        unseen: m.unseen,
        permanentflags: m.permanentflags,
        uidnext: m.uidnext,
        uidvalidity: m.uidvalidity,
        permission: m.permission,
    }
}

/// The immediate outcome of starting a SELECT.
#[derive(Debug)]
pub enum SelectStep {
    /// The operation can never proceed from this state; the session is
    /// returned unchanged.
    Refused(IMAPClient, IMAPError),
    /// A command must be sent; complete the exchange with the response.
    Exchange(SelectExchange),
}

/// Which state the SELECT was issued from; a failure returns to it (or, from
/// `Authenticated`, demotes — see [`SelectExchange::complete`]).
#[derive(Debug)]
pub enum SelectOrigin {
    FromAuthenticated(MailServer),
    FromSelected(Mailbox),
}

/// A SELECT command in flight: the consumed session and the line to send.
#[derive(Debug)]
pub struct SelectExchange {
    pub origin: SelectOrigin,
    /// The tag the command was issued under.
    pub tag: String,
    /// The full command line to write to the transport.
    pub command: String,
}

impl IMAPClient {
    /// Starts a SELECT for the named mailbox.
    ///
    /// Only an authenticated or selected session may select; before
    /// authentication and after logout the operation is rejected with a
    /// select error and the session comes back unchanged.  Otherwise the
    /// returned exchange carries `"{tag} SELECT {mailbox_name}\r\n"` under a
    /// fresh tag.
    pub fn select(self, mailbox_name: &str) -> (r: SelectStep)
        requires
            self.tag_counter() < u32::MAX,
        ensures
            ({
                match self {
                    IMAPClient::UnAuthenticated(_) => r matches SelectStep::Refused(c, e) && c
                        == self && e is SelectError,
                    IMAPClient::Logout => r matches SelectStep::Refused(c, e) && c is Logout
                        && e is SelectError,
                    IMAPClient::Authenticated(s) => {
                        if s.imap is Disconnected {
                            r matches SelectStep::Refused(c, e) && c == self && e is ConnectError
                        } else {
                            r matches SelectStep::Exchange(ex) && ex.origin
                                == SelectOrigin::FromAuthenticated(spec_server_bumped(s))
                                && ex.tag@ == spec_tag_string(
                                s.tag.tag_prefix@,
                                (s.tag.tag + 1) as nat,
                            ) && ex.command@ == spec_encode(ex.tag@, ("SELECT")@, mailbox_name@)
                        }
                    },
                    IMAPClient::Selected(m) => {
                        if m.imap is Disconnected {
                            r matches SelectStep::Refused(c, e) && c == self && e is ConnectError
                        } else {
                            r matches SelectStep::Exchange(ex) && ex.origin
                                == SelectOrigin::FromSelected(spec_mailbox_bumped(m)) && ex.tag@
                                == spec_tag_string(m.tag.tag_prefix@, (m.tag.tag + 1) as nat)
                                && ex.command@ == spec_encode(ex.tag@, ("SELECT")@, mailbox_name@)
                        }
                    },
                }
            }),
    {
        match self {
            IMAPClient::UnAuthenticated(server) => SelectStep::Refused(
                IMAPClient::UnAuthenticated(server),
                IMAPError::SelectError(String::from_str("must authenticate before SELECT")),
            ),
            IMAPClient::Logout => SelectStep::Refused(
                IMAPClient::Logout,
                IMAPError::SelectError(String::from_str("can not select in the Logout state")),
            ),
            IMAPClient::Authenticated(mut server) => {
                if server.imap.is_disconnected() {
                    SelectStep::Refused(
                        IMAPClient::Authenticated(server),
                        IMAPError::ConnectError(String::from_str("not connected to a server")),
                    )
                } else {
                    let tag = server.tag.next_tag();
                    let command = encode(tag.as_str(), "SELECT", mailbox_name);
                    SelectStep::Exchange(
                        SelectExchange {
                            origin: SelectOrigin::FromAuthenticated(server),
                            tag,
                            command,
                        },
                    )
                }
            },
            IMAPClient::Selected(mut mailbox) => {
                if mailbox.imap.is_disconnected() {
                    SelectStep::Refused(
                        IMAPClient::Selected(mailbox),
                        IMAPError::ConnectError(String::from_str("not connected to a server")),
                    )
                } else {
                    let tag = mailbox.tag.next_tag();
                    let command = encode(tag.as_str(), "SELECT", mailbox_name);
                    SelectStep::Exchange(
                        SelectExchange { origin: SelectOrigin::FromSelected(mailbox), tag, command },
                    )
                }
            },
        }
    }
}

impl SelectExchange {
    /// Consumes the server's full response.
    ///
    /// A tagged `OK` whose text carries the three mandatory fields yields a
    /// selected session with exactly the extracted status.  Any other
    /// outcome fails: issued from `Authenticated`, the session is demoted to
    /// `UnAuthenticated`; issued from `Selected` (a re-select), the session
    /// stays `Selected` with its old status.  The error carries the
    /// response text.
    pub fn complete(self, response: String) -> (r: Result<IMAPClient, (IMAPClient, IMAPError)>)
        ensures
            ({
                match self.origin {
                    SelectOrigin::FromAuthenticated(server) => {
                        match spec_classify_tagged(response@, self.tag@) {
                            Status::Okay => {
                                if spec_select_parses(response@) {
                                    r matches Ok(c) && (c matches IMAPClient::Selected(mb)
                                        && mb.imap == server.imap && mb.tag == server.tag
                                        && spec_mailbox_response(
                                        response@,
                                        self.tag@,
                                        spec_mailbox_fields(mb),
                                    ))
                                } else {
                                    r matches Err((c, e)) && c == IMAPClient::UnAuthenticated(
                                        server,
                                    ) && (e matches IMAPError::Invalid(s) && s@ == response@)
                                }
                            },
                            Status::No => r matches Err((c, e)) && c
                                == IMAPClient::UnAuthenticated(server) && (e
                                matches IMAPError::No(s) && s@ == response@),
                            Status::Bad => r matches Err((c, e)) && c
                                == IMAPClient::UnAuthenticated(server) && (e
                                matches IMAPError::Bad(s) && s@ == response@),
                            Status::Invalid => r matches Err((c, e)) && c
                                == IMAPClient::UnAuthenticated(server) && (e
                                matches IMAPError::Invalid(s) && s@ == response@),
                        }
                    },
                    SelectOrigin::FromSelected(old_mb) => {
                        match spec_classify_tagged(response@, self.tag@) {
                            Status::Okay => {
                                if spec_select_parses(response@) {
                                    r matches Ok(c) && (c matches IMAPClient::Selected(mb)
                                        && mb.imap == old_mb.imap && mb.tag == old_mb.tag
                                        && spec_mailbox_response(
                                        response@,
                                        self.tag@,
                                        spec_mailbox_fields(mb),
                                    ))
                                } else {
                                    r matches Err((c, e)) && c == IMAPClient::Selected(old_mb)
                                        && (e matches IMAPError::Invalid(s) && s@ == response@)
                                }
                            },
                            Status::No => r matches Err((c, e)) && c == IMAPClient::Selected(
                                old_mb,
                            ) && (e matches IMAPError::No(s) && s@ == response@),
                            Status::Bad => r matches Err((c, e)) && c == IMAPClient::Selected(
                                old_mb,
                            ) && (e matches IMAPError::Bad(s) && s@ == response@),
                            Status::Invalid => r matches Err((c, e)) && c == IMAPClient::Selected(
                                old_mb,
                            ) && (e matches IMAPError::Invalid(s) && s@ == response@),
                        }
                    },
                }
            }),
    {
        match self.origin {
            SelectOrigin::FromAuthenticated(server) => {
                match classify_tagged(response.as_str(), self.tag.as_str()) {
                    Status::Okay => {
                        match extract_mailbox_status(response.as_str(), self.tag.as_str()) {
                            Ok(m) => Ok(
                                IMAPClient::Selected(
                                    Mailbox {
                                        imap: server.imap,
                                        tag: server.tag,
                                        flags: m.flags,
                                        exists: m.exists,
                                        recent: m.recent,
                                        unseen: m.unseen,
                                        permanentflags: m.permanentflags,
                                        uidnext: m.uidnext,
                                        uidvalidity: m.uidvalidity,
                                        permission: m.permission,
                                    },
                                ),
                            ),
                            Err(e) => Err((IMAPClient::UnAuthenticated(server), e)),
                        }
                    },
                    Status::No => Err(
                        (IMAPClient::UnAuthenticated(server), IMAPError::No(response)),
                    ),
                    Status::Bad => Err(
                        (IMAPClient::UnAuthenticated(server), IMAPError::Bad(response)),
                    ),
                    Status::Invalid => Err(
                        (IMAPClient::UnAuthenticated(server), IMAPError::Invalid(response)),
                    ),
                }
            },
            SelectOrigin::FromSelected(old_mb) => {
                match classify_tagged(response.as_str(), self.tag.as_str()) {
                    Status::Okay => {
                        match extract_mailbox_status(response.as_str(), self.tag.as_str()) {
                            Ok(m) => Ok(
                                IMAPClient::Selected(
                                    Mailbox {
                                        imap: old_mb.imap,
                                        tag: old_mb.tag,
                                        flags: m.flags,
                                        exists: m.exists,
                                        recent: m.recent,
                                        unseen: m.unseen,
                                        permanentflags: m.permanentflags,
                                        uidnext: m.uidnext,
                                        uidvalidity: m.uidvalidity,
                                        permission: m.permission,
                                    },
                                ),
                            ),
                            Err(e) => Err((IMAPClient::Selected(old_mb), e)),
                        }
                    },
                    Status::No => Err((IMAPClient::Selected(old_mb), IMAPError::No(response))),
                    Status::Bad => Err((IMAPClient::Selected(old_mb), IMAPError::Bad(response))),
                    Status::Invalid => Err(
                        (IMAPClient::Selected(old_mb), IMAPError::Invalid(response)),
                    ),
                }
            },
        }
    }

    /// The transport failed before any response was read: the session comes
    /// back in the state it was issued from, paired with the caller's error.
    pub fn abort(self, err: IMAPError) -> (r: (IMAPClient, IMAPError))
        ensures
            ({
                match self.origin {
                    SelectOrigin::FromAuthenticated(s) => r.0 == IMAPClient::Authenticated(s),
                    SelectOrigin::FromSelected(m) => r.0 == IMAPClient::Selected(m),
                }
            }),
            r.1 == err,
    {
        match self.origin {
            SelectOrigin::FromAuthenticated(s) => (IMAPClient::Authenticated(s), err),
            SelectOrigin::FromSelected(m) => (IMAPClient::Selected(m), err),
        }
    }
}

/// The immediate outcome of starting a LOGOUT.
#[derive(Debug)]
pub enum LogoutStep {
    /// The operation completed without sending anything (logout is
    /// idempotent in the `Logout` state).
    Done(IMAPClient),
    /// The connection can carry no command; the session is returned
    /// unchanged.
    Refused(IMAPClient, IMAPError),
    /// A command must be sent; complete the exchange with the response.
    Exchange(LogoutExchange),
}

/// Which state the LOGOUT was issued from; a transport failure returns to
/// it.
#[derive(Debug)]
pub enum LogoutOrigin {
    FromUnAuthenticated(MailServer),
    FromAuthenticated(MailServer),
    FromSelected(Mailbox),
}

/// A LOGOUT command in flight: the consumed session and the line to send.
#[derive(Debug)]
pub struct LogoutExchange {
    pub origin: LogoutOrigin,
    /// The tag the command was issued under.
    pub tag: String,
    /// The full command line to write to the transport.
    pub command: String,
}

impl IMAPClient {
    /// Starts a LOGOUT.
    ///
    /// In the `Logout` state this is an idempotent no-op.  From any live
    /// state the returned exchange carries `"{tag} LOGOUT \r\n"` under a
    /// fresh tag; only a connection that can carry no command refuses, with
    /// the session unchanged.
    pub fn logout(self) -> (r: LogoutStep)
        requires
            self.tag_counter() < u32::MAX,
        ensures
            ({
                match self {
                    IMAPClient::Logout => r == LogoutStep::Done(IMAPClient::Logout),
                    IMAPClient::UnAuthenticated(s) => {
                        if s.imap is Disconnected {
                            r matches LogoutStep::Refused(c, e) && c == self && e is ConnectError
                        } else {
                            r matches LogoutStep::Exchange(ex) && ex.origin
                                == LogoutOrigin::FromUnAuthenticated(spec_server_bumped(s))
                                && ex.tag@ == spec_tag_string(
                                s.tag.tag_prefix@,
                                (s.tag.tag + 1) as nat,
                            ) && ex.command@ == spec_encode(ex.tag@, ("LOGOUT")@, ("")@)
                        }
                    },
                    IMAPClient::Authenticated(s) => {
                        if s.imap is Disconnected {
                            r matches LogoutStep::Refused(c, e) && c == self && e is ConnectError
                        } else {
                            r matches LogoutStep::Exchange(ex) && ex.origin
                                == LogoutOrigin::FromAuthenticated(spec_server_bumped(s))
                                && ex.tag@ == spec_tag_string(
                                s.tag.tag_prefix@,
                                (s.tag.tag + 1) as nat,
                            ) && ex.command@ == spec_encode(ex.tag@, ("LOGOUT")@, ("")@)
                        }
                    },
                    IMAPClient::Selected(m) => {
                        if m.imap is Disconnected {
                            r matches LogoutStep::Refused(c, e) && c == self && e is ConnectError
                        } else {
                            r matches LogoutStep::Exchange(ex) && ex.origin
                                == LogoutOrigin::FromSelected(spec_mailbox_bumped(m)) && ex.tag@
                                == spec_tag_string(m.tag.tag_prefix@, (m.tag.tag + 1) as nat)
                                && ex.command@ == spec_encode(ex.tag@, ("LOGOUT")@, ("")@)
                        }
                    },
                }
            }),
    {
        match self {
            IMAPClient::Logout => LogoutStep::Done(IMAPClient::Logout),
            IMAPClient::UnAuthenticated(mut server) => {
                if server.imap.is_disconnected() {
                    LogoutStep::Refused(
                        IMAPClient::UnAuthenticated(server),
                        IMAPError::ConnectError(String::from_str("not connected to a server")),
                    )
                } else {
                    let tag = server.tag.next_tag();
                    let command = encode(tag.as_str(), "LOGOUT", "");
                    LogoutStep::Exchange(
                        LogoutExchange {
                            origin: LogoutOrigin::FromUnAuthenticated(server),
                            tag,
                            command,
                        },
                    )
                }
            },
            IMAPClient::Authenticated(mut server) => {
                if server.imap.is_disconnected() {
                    LogoutStep::Refused(
                        IMAPClient::Authenticated(server),
                        IMAPError::ConnectError(String::from_str("not connected to a server")),
                    )
                } else {
                    let tag = server.tag.next_tag();
                    let command = encode(tag.as_str(), "LOGOUT", "");
                    LogoutStep::Exchange(
                        LogoutExchange {
                            origin: LogoutOrigin::FromAuthenticated(server),
                            tag,
                            command,
                        },
                    )
                }
            },
            IMAPClient::Selected(mut mailbox) => {
                if mailbox.imap.is_disconnected() {
                    LogoutStep::Refused(
                        IMAPClient::Selected(mailbox),
                        IMAPError::ConnectError(String::from_str("not connected to a server")),
                    )
                } else {
                    let tag = mailbox.tag.next_tag();
                    let command = encode(tag.as_str(), "LOGOUT", "");
                    LogoutStep::Exchange(
                        LogoutExchange { origin: LogoutOrigin::FromSelected(mailbox), tag, command },
                    )
                }
            },
        }
    }
}

impl LogoutExchange {
    /// Consumes the server's response.  Whatever the server answered — the
    /// response content is not inspected — the session is logged out: once
    /// the command was sent and a response read, there is no regression to
    /// a live state.
    pub fn complete(self, _response: String) -> (r: IMAPClient)
        ensures
            r == IMAPClient::Logout,
    {
        IMAPClient::Logout
    }

    /// The transport failed before any response was read: the session comes
    /// back in the state it was issued from, paired with the caller's error.
    pub fn abort(self, err: IMAPError) -> (r: (IMAPClient, IMAPError))
        ensures
            ({
                match self.origin {
                    LogoutOrigin::FromUnAuthenticated(s) => r.0 == IMAPClient::UnAuthenticated(s),
                    LogoutOrigin::FromAuthenticated(s) => r.0 == IMAPClient::Authenticated(s),
                    LogoutOrigin::FromSelected(m) => r.0 == IMAPClient::Selected(m),
                }
            }),
            r.1 == err,
    {
        match self.origin {
            LogoutOrigin::FromUnAuthenticated(s) => (IMAPClient::UnAuthenticated(s), err),
            LogoutOrigin::FromAuthenticated(s) => (IMAPClient::Authenticated(s), err),
            LogoutOrigin::FromSelected(m) => (IMAPClient::Selected(m), err),
        }
    }
}

/// The sequence-number range a FETCH addresses, in wire form: `lo:hi` for a
/// range, `n:n` for a single message.
pub open spec fn spec_fetch_range(d: DataItem) -> Seq<char>
    recommends
        !(d is Macro),
{
    match d {
        DataItem::SequenceSet(l, h) => dec_digits(l as nat) + seq![':'] + dec_digits(h as nat),
        DataItem::Atom(n) => dec_digits(n as nat) + seq![':'] + dec_digits(n as nat),
        DataItem::Macro => Seq::empty(),
    }
}

impl Mailbox {
    /// Builds the FETCH command line `"{tag} FETCH {lo}:{hi} ALL\r\n"` for a
    /// range or a single message, under a fresh tag.
    ///
    /// Fetch never changes the session state: the mailbox stays selected and
    /// every status field is left untouched; only the tag counter advances,
    /// and not even that when the connection refuses the command.  The
    /// response is consumed by [`crate::parser::extract_fetch_emails`].
    pub fn fetch(&mut self, data_item: DataItem) -> (r: Result<String, IMAPError>)
        requires
            old(self).tag.tag < u32::MAX,
            !(data_item is Macro),
        ensures
            final(self).imap == old(self).imap,
            final(self).tag.tag_prefix == old(self).tag.tag_prefix,
            final(self).flags == old(self).flags,
            final(self).exists == old(self).exists,
            final(self).recent == old(self).recent,
            final(self).unseen == old(self).unseen,
            final(self).permanentflags == old(self).permanentflags,
            final(self).uidnext == old(self).uidnext,
            final(self).uidvalidity == old(self).uidvalidity,
            final(self).permission == old(self).permission,
            ({
                match r {
                    Ok(cmd) => {
                        &&& !(old(self).imap is Disconnected)
                        &&& final(self).tag.tag == old(self).tag.tag + 1
                        &&& cmd@ == spec_encode(
                            spec_tag_string(old(self).tag.tag_prefix@, (old(self).tag.tag + 1) as nat),
                            ("FETCH")@,
                            spec_fetch_range(data_item) + (" ALL")@,
                        )
                    },
                    Err(e) => {
                        &&& old(self).imap is Disconnected
                        &&& e is ConnectError
                        &&& final(self).tag.tag == old(self).tag.tag
                    },
                }
            }),
    {
        if self.imap.is_disconnected() {
            return Err(IMAPError::ConnectError(String::from_str("not connected to a server")));
        }
        let (lo, hi) = match data_item {
            DataItem::SequenceSet(l, h) => (l, h),
            DataItem::Atom(n) => (n, n),
            DataItem::Macro => unreached(),
        };
        let mut range = u32_to_decimal(lo);
        range.append(":");
        let hi_digits = u32_to_decimal(hi);
        range.append(hi_digits.as_str());
        range.append(" ALL");
        proof {
            reveal_strlit(":");
            assert(range@ =~= spec_fetch_range(data_item) + (" ALL")@);
        }
        let tag = self.tag.next_tag();
        let command = encode(tag.as_str(), "FETCH", range.as_str());
        Ok(command)
    }
}

} // verus!
