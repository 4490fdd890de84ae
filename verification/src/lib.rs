//! A client-side IMAP4 session library.
//!
//! The library is organised around a typed session state machine
//! ([`session::IMAPClient`]): every operation consumes the session value and
//! returns a new one, so a stale state can never be used again.  Commands are
//! tagged by a monotonic [`tag::Tag`] generator, encoded by [`encode`], and
//! server responses are interpreted by the classifiers and field extractors in
//! [`parser`].  Transport I/O is left to the caller: an operation that needs a
//! round trip hands back the encoded command line and a continuation that
//! consumes the raw response text.

pub mod digits;
pub mod encode;
pub mod error;
pub mod parser;
pub mod session;
pub mod tag;
