//! The response parser: status classification and field extraction over the
//! decoded text of a server response.
//!
//! The extractors are deliberately independent single-purpose pattern
//! matches (first occurrence wins) rather than one grammar: IMAP untagged
//! data lines are order-independent and server-optional.

use crate::digits::is_digit_char;
use crate::error::IMAPError;
use vstd::prelude::*;
use vstd::string::StrSliceExecFns;
use vstd::string::StringExecFns;

verus! {

/// The classification of a status response line.
#[derive(Debug, Clone, Copy, PartialEq, Eq, Structural)]
pub enum Status {
    /// The server accepted (`OK`).
    Okay,
    /// The server rejected the command (`NO`).
    No,
    /// The server considered the command malformed (`BAD`).
    Bad,
    /// The text matched no recognized shape (including text that is too
    /// short to inspect).
    Invalid,
}

/// `pat` occurs in `t` starting at position `i`.
pub open spec fn spec_has_prefix_at(t: Seq<char>, pat: Seq<char>, i: int) -> bool {
    &&& 0 <= i
    &&& i + pat.len() <= t.len()
    &&& t.subrange(i, i + pat.len()) == pat
}

/// Whether `pat` occurs in `text` starting at character position `i`.
fn has_prefix_at(text: &str, pat: &str, i: usize) -> (r: bool)
    requires
        i <= text@.len(),
    ensures
        r == spec_has_prefix_at(text@, pat@, i as int),
{
    let n = text.unicode_len();
    let m = pat.unicode_len();
    if m > n - i {
        return false;
    }
    let mut k: usize = 0;
    while k < m
        invariant
            k <= m,
            i + m <= n,
            n == text@.len(),
            m == pat@.len(),
            forall|j: int| 0 <= j < k ==> text@[i + j] == pat@[j],
        decreases m - k,
    {
        if text.get_char(i + k) != pat.get_char(k) {
            assert(text@.subrange(i as int, i + m) != pat@) by {
                assert(text@.subrange(i as int, i + m)[k as int] == text@[i + k]);
            }
            return false;
        }
        k = k + 1;
    }
    proof {
        assert(text@.subrange(i as int, i + m) =~= pat@);
    }
    true
}

/// The untagged status classification: inspects the first four characters.
pub open spec fn spec_classify_untagged(t: Seq<char>) -> Status {
    if t.len() < 4 {
        Status::Invalid
    } else if spec_has_prefix_at(t, ("* OK")@, 0) {
        Status::Okay
    } else if spec_has_prefix_at(t, ("* NO")@, 0) {
        Status::No
    } else if spec_has_prefix_at(t, ("* BA")@, 0) {
        Status::Bad
    } else {
        Status::Invalid
    }
}

/// Classifies an untagged status response: `"* OK"`, `"* NO"` or `"* BA"`
/// as the first four characters; anything else, including text shorter than
/// four characters, is `Invalid`.
pub fn classify_untagged(text: &str) -> (r: Status)
    ensures
        r == spec_classify_untagged(text@),
{
    let n = text.unicode_len();
    if n < 4 {
        return Status::Invalid;
    }
    if has_prefix_at(text, "* OK", 0) {
        Status::Okay
    } else if has_prefix_at(text, "* NO", 0) {
        Status::No
    } else if has_prefix_at(text, "* BA", 0) {
        Status::Bad
    } else {
        Status::Invalid
    }
}

/// The tagged status classification: the text must begin with exactly `tag`,
/// and the three characters after it decide the status.
pub open spec fn spec_classify_tagged(t: Seq<char>, tag: Seq<char>) -> Status {
    if t.len() < tag.len() + 3 {
        Status::Invalid
    } else if !spec_has_prefix_at(t, tag, 0) {
        Status::Invalid
    } else if spec_has_prefix_at(t, (" OK")@, tag.len() as int) {
        Status::Okay
    } else if spec_has_prefix_at(t, (" NO")@, tag.len() as int) {
        Status::No
    } else if spec_has_prefix_at(t, (" BA")@, tag.len() as int) {
        Status::Bad
    } else {
        Status::Invalid
    }
}

/// Classifies a tagged status response: the text must begin with exactly
/// `tag`, followed by `" OK"`, `" NO"` or `" BA"`.  Text that does not start
/// with the tag, or is too short for the three characters after it, is
/// `Invalid` — never an out-of-bounds access.
pub fn classify_tagged(text: &str, tag: &str) -> (r: Status)
    ensures
        r == spec_classify_tagged(text@, tag@),
{
    let n = text.unicode_len();
    let m = tag.unicode_len();
    if n < 3 || n - 3 < m {
        return Status::Invalid;
    }
    if !has_prefix_at(text, tag, 0) {
        Status::Invalid
    } else if has_prefix_at(text, " OK", m) {
        Status::Okay
    } else if has_prefix_at(text, " NO", m) {
        Status::No
    } else if has_prefix_at(text, " BA", m) {
        Status::Bad
    } else {
        Status::Invalid
    }
}

/// Round trip between the encoder's tag and the classifier: a response that
/// consists of the issuing tag, `" OK"` and anything after it always
/// classifies as `Okay`.
pub proof fn lemma_classify_tagged_ok(tag: Seq<char>, rest: Seq<char>)
    ensures
        spec_classify_tagged(tag + (" OK")@ + rest, tag) == Status::Okay,
{
    reveal_strlit(" OK");
    let t = tag + (" OK")@ + rest;
    assert(t.subrange(0, tag.len() as int) =~= tag);
    assert(t.subrange(tag.len() as int, tag.len() + 3 as int) =~= (" OK")@);
}

/// The one-character class a field pattern repeats: a decimal digit, or any
/// character other than the pattern's closing delimiter.
#[derive(Debug, Clone, Copy, PartialEq, Eq, Structural)]
pub enum CharClass {
    /// A decimal digit `0`–`9`.
    Digit,
    /// Any character except the one given.
    NotChar(char),
}

/// Whether `c` belongs to the class.
pub open spec fn class_holds(cc: CharClass, c: char) -> bool {
    match cc {
        CharClass::Digit => is_digit_char(c),
        CharClass::NotChar(x) => c != x,
    }
}

fn class_holds_exec(cc: CharClass, c: char) -> (r: bool)
    ensures
        r == class_holds(cc, c),
{
    match cc {
        CharClass::Digit => '0' <= c && c <= '9',
        CharClass::NotChar(x) => c != x,
    }
}

/// The end of the maximal run of class characters starting at `i`: the first
/// position at or after `i` whose character is outside the class (or the end
/// of the text).
pub open spec fn spec_run_end(t: Seq<char>, cc: CharClass, i: int) -> int
    decreases t.len() - i,
{
    if i < 0 || i >= t.len() {
        i
    } else if class_holds(cc, t[i]) {
        spec_run_end(t, cc, i + 1)
    } else {
        i
    }
}

pub proof fn lemma_run_end_bounds(t: Seq<char>, cc: CharClass, i: int)
    requires
        0 <= i <= t.len(),
    ensures
        i <= spec_run_end(t, cc, i) <= t.len(),
    decreases t.len() - i,
{
    if i < t.len() && class_holds(cc, t[i]) {
        lemma_run_end_bounds(t, cc, i + 1);
    }
}

fn run_end(text: &str, cc: CharClass, i: usize) -> (r: usize)
    requires
        i <= text@.len(),
    ensures
        r == spec_run_end(text@, cc, i as int),
        i <= r <= text@.len(),
{
    let n = text.unicode_len();
    let mut j = i;
    while j < n
        invariant
            i <= j <= n,
            n == text@.len(),
            spec_run_end(text@, cc, i as int) == spec_run_end(text@, cc, j as int),
        decreases n - j,
    {
        if !class_holds_exec(cc, text.get_char(j)) {
            return j;
        }
        j = j + 1;
    }
    j
}

/// A field pattern `lit1` + one-or-more class characters + `lit2` matches at
/// position `i`; the class run is maximal, as a greedy matcher takes it.
pub open spec fn spec_match_at(
    t: Seq<char>,
    lit1: Seq<char>,
    cc: CharClass,
    lit2: Seq<char>,
    i: int,
) -> bool {
    let a = i + lit1.len();
    let j = spec_run_end(t, cc, a);
    &&& spec_has_prefix_at(t, lit1, i)
    &&& j > a
    &&& spec_has_prefix_at(t, lit2, j)
}

/// The text the pattern captures when it matches at `i`: the class run
/// between the two literals.
pub open spec fn spec_capture_at(
    t: Seq<char>,
    lit1: Seq<char>,
    cc: CharClass,
    lit2: Seq<char>,
    i: int,
) -> Seq<char> {
    t.subrange(i + lit1.len(), spec_run_end(t, cc, i + lit1.len()))
}

/// The first position at or after `i` where the pattern matches.
pub open spec fn spec_first_match_from(
    t: Seq<char>,
    lit1: Seq<char>,
    cc: CharClass,
    lit2: Seq<char>,
    i: int,
) -> Option<int>
    decreases t.len() - i,
{
    if i < 0 || i >= t.len() {
        None
    } else if spec_match_at(t, lit1, cc, lit2, i) {
        Some(i)
    } else {
        spec_first_match_from(t, lit1, cc, lit2, i + 1)
    }
}

/// What a first-match search for `lit1` + class-run + `lit2` captures over
/// the whole text, if anything.
pub open spec fn spec_capture(
    t: Seq<char>,
    lit1: Seq<char>,
    cc: CharClass,
    lit2: Seq<char>,
) -> Option<Seq<char>> {
    match spec_first_match_from(t, lit1, cc, lit2, 0) {
        Some(i) => Some(spec_capture_at(t, lit1, cc, lit2, i)),
        None => None,
    }
}

fn match_at(text: &str, lit1: &str, cc: CharClass, lit2: &str, i: usize) -> (r: bool)
    requires
        i <= text@.len(),
    ensures
        r == spec_match_at(text@, lit1@, cc, lit2@, i as int),
{
    let n = text.unicode_len();
    if !has_prefix_at(text, lit1, i) {
        return false;
    }
    let m = lit1.unicode_len();
    assert(i + m <= n);
    let a = i + m;
    let j = run_end(text, cc, a);
    if j == a {
        return false;
    }
    has_prefix_at(text, lit2, j)
}

/// Finds the first match of `lit1` + class-run + `lit2` in `text` and
/// returns the captured run, exactly as a leftmost-first greedy matcher
/// would.
pub fn capture_first(text: &str, lit1: &str, cc: CharClass, lit2: &str) -> (r: Option<String>)
    ensures
        match r {
            Some(s) => spec_capture(text@, lit1@, cc, lit2@) == Some(s@),
            None => spec_capture(text@, lit1@, cc, lit2@) is None,
        },
{
    let n = text.unicode_len();
    let mut i: usize = 0;
    while i < n
        invariant
            i <= n,
            n == text@.len(),
            spec_first_match_from(text@, lit1@, cc, lit2@, 0) == spec_first_match_from(
                text@,
                lit1@,
                cc,
                lit2@,
                i as int,
            ),
        decreases n - i,
    {
        if match_at(text, lit1, cc, lit2, i) {
            let a = i + lit1.unicode_len();
            let j = run_end(text, cc, a);
            let cap = text.substring_char(a, j);
            return Some(String::from_str(cap));
        }
        i = i + 1;
    }
    None
}

/// The first position at or after `i` where `pat` occurs in `t`.
pub open spec fn spec_find_from(t: Seq<char>, pat: Seq<char>, i: int) -> Option<int>
    decreases t.len() - i,
{
    if i < 0 || i >= t.len() {
        None
    } else if spec_has_prefix_at(t, pat, i) {
        Some(i)
    } else {
        spec_find_from(t, pat, i + 1)
    }
}

pub proof fn lemma_find_from_bounds(t: Seq<char>, pat: Seq<char>, i: int)
    requires
        0 <= i,
    ensures
        match spec_find_from(t, pat, i) {
            Some(p) => i <= p < t.len() && spec_has_prefix_at(t, pat, p),
            None => true,
        },
    decreases t.len() - i,
{
    if i < t.len() && !spec_has_prefix_at(t, pat, i) {
        lemma_find_from_bounds(t, pat, i + 1);
    }
}

/// Finds the first occurrence of `pat` in `text`.
fn find_first(text: &str, pat: &str) -> (r: Option<usize>)
    ensures
        match r {
            Some(p) => spec_find_from(text@, pat@, 0) == Some(p as int),
            None => spec_find_from(text@, pat@, 0) is None,
        },
{
    let n = text.unicode_len();
    let mut i: usize = 0;
    while i < n
        invariant
            i <= n,
            n == text@.len(),
            spec_find_from(text@, pat@, 0) == spec_find_from(text@, pat@, i as int),
        decreases n - i,
    {
        if has_prefix_at(text, pat, i) {
            return Some(i);
        }
        i = i + 1;
    }
    None
}

/// The structured fields a SELECT response reports.
///
/// `flags`, `exists` and `recent` are mandatory: a response without them
/// does not parse.  The rest are absent whenever the server omitted the
/// corresponding untagged line — that is normal, not an error.
#[derive(Debug, Clone)]
pub struct MailboxResponse {
    /// The flag names inside `FLAGS (...)`, verbatim.
    pub flags: String,
    /// The count before `EXISTS`.
    pub exists: String,
    /// The count before `RECENT`.
    pub recent: String,
    /// The count inside `* OK [UNSEEN n]`, when present.
    pub unseen: Option<String>,
    /// The flag names inside `PERMANENTFLAGS (...)`, when present.
    pub permanentflags: Option<String>,
    /// The count inside `* OK [UIDNEXT n]`, when present.
    pub uidnext: Option<String>,
    /// The count inside `* OK [UIDVALIDITY n]`, when present.
    pub uidvalidity: Option<String>,
    /// The permission inside `OK [<permission>] SELECT` after the tagged-OK
    /// completion line, when present.
    pub permission: Option<String>,
}

/// The `EXISTS` count of a SELECT response: the digit run before the first
/// `" EXISTS\r\n"`.
pub open spec fn spec_exists_field(t: Seq<char>) -> Option<Seq<char>> {
    spec_capture(t, ("")@, CharClass::Digit, (" EXISTS\r\n")@)
}

/// The `RECENT` count: the digit run before the first `" RECENT\r\n"`.
pub open spec fn spec_recent_field(t: Seq<char>) -> Option<Seq<char>> {
    spec_capture(t, ("")@, CharClass::Digit, (" RECENT\r\n")@)
}

/// The flag names inside the first `FLAGS (...)`.
pub open spec fn spec_flags_field(t: Seq<char>) -> Option<Seq<char>> {
    spec_capture(t, ("FLAGS (")@, CharClass::NotChar(')'), (")")@)
}

pub open spec fn spec_unseen_field(t: Seq<char>) -> Option<Seq<char>> {
    spec_capture(t, ("* OK [UNSEEN ")@, CharClass::Digit, ("]")@)
}

pub open spec fn spec_permanentflags_field(t: Seq<char>) -> Option<Seq<char>> {
    spec_capture(t, ("PERMANENTFLAGS (")@, CharClass::NotChar(')'), (")")@)
}

pub open spec fn spec_uidnext_field(t: Seq<char>) -> Option<Seq<char>> {
    spec_capture(t, ("* OK [UIDNEXT ")@, CharClass::Digit, ("]")@)
}

pub open spec fn spec_uidvalidity_field(t: Seq<char>) -> Option<Seq<char>> {
    spec_capture(t, ("* OK [UIDVALIDITY ")@, CharClass::Digit, ("]")@)
}

/// The permission granted by SELECT: looked for only in the substring that
/// follows the first occurrence of the tagged-OK completion (`tag + " OK"`),
/// as `" OK [<permission>] SELECT"`.
pub open spec fn spec_permission_field(t: Seq<char>, tag: Seq<char>) -> Option<Seq<char>> {
    match spec_find_from(t, tag + (" OK")@, 0) {
        Some(p) => spec_capture(
            t.skip(p + tag.len()),
            (" OK [")@,
            CharClass::NotChar(']'),
            ("] SELECT")@,
        ),
        None => None,
    }
}

/// A mailbox response parses to `m` exactly when the three mandatory fields
/// are present and every field of `m` is the corresponding first capture.
pub open spec fn spec_mailbox_response(t: Seq<char>, tag: Seq<char>, m: MailboxResponse) -> bool {
    &&& spec_exists_field(t) == Some(m.exists@)
    &&& spec_recent_field(t) == Some(m.recent@)
    &&& spec_flags_field(t) == Some(m.flags@)
    &&& match m.unseen {
        Some(s) => spec_unseen_field(t) == Some(s@),
        None => spec_unseen_field(t) is None,
    }
    &&& match m.permanentflags {
        Some(s) => spec_permanentflags_field(t) == Some(s@),
        None => spec_permanentflags_field(t) is None,
    }
    &&& match m.uidnext {
        Some(s) => spec_uidnext_field(t) == Some(s@),
        None => spec_uidnext_field(t) is None,
    }
    &&& match m.uidvalidity {
        Some(s) => spec_uidvalidity_field(t) == Some(s@),
        None => spec_uidvalidity_field(t) is None,
    }
    &&& match m.permission {
        Some(s) => spec_permission_field(t, tag) == Some(s@),
        None => spec_permission_field(t, tag) is None,
    }
}

/// Extracts the mailbox status a SELECT response reports.
///
/// `EXISTS`, `RECENT` and `FLAGS` are mandatory: if any is absent the whole
/// response is `Invalid` (carrying the text).  The optional fields are left
/// unset when their pattern is absent.
pub fn extract_mailbox_status(text: &str, tag: &str) -> (r: Result<MailboxResponse, IMAPError>)
    ensures
        match r {
            Ok(m) => spec_mailbox_response(text@, tag@, m),
            Err(e) => {
                &&& (spec_exists_field(text@) is None || spec_recent_field(text@) is None
                    || spec_flags_field(text@) is None)
                &&& e matches IMAPError::Invalid(s) && s@ == text@
            },
        },
{
    let exists = capture_first(text, "", CharClass::Digit, " EXISTS\r\n");
    let recent = capture_first(text, "", CharClass::Digit, " RECENT\r\n");
    let flags = capture_first(text, "FLAGS (", CharClass::NotChar(')'), ")");
    let (exists, recent, flags) = match (exists, recent, flags) {
        (Some(e), Some(rc), Some(f)) => (e, rc, f),
        _ => {
            return Err(IMAPError::Invalid(String::from_str(text)));
        },
    };
    let unseen = capture_first(text, "* OK [UNSEEN ", CharClass::Digit, "]");
    let permanentflags = capture_first(text, "PERMANENTFLAGS (", CharClass::NotChar(')'), ")");
    let uidnext = capture_first(text, "* OK [UIDNEXT ", CharClass::Digit, "]");
    let uidvalidity = capture_first(text, "* OK [UIDVALIDITY ", CharClass::Digit, "]");
    let mut tagged_ok = String::from_str(tag);
    tagged_ok.append(" OK");
    let permission: Option<String> = match find_first(text, tagged_ok.as_str()) {
        Some(p) => {
            proof {
                lemma_find_from_bounds(text@, tagged_ok@, 0);
            }
            let n = text.unicode_len();
            let m = tag.unicode_len();
            assert(p + m <= n);
            let view = text.substring_char(p + m, n);
            proof {
                assert(view@ =~= text@.skip(p + tag@.len()));
            }
            capture_first(view, " OK [", CharClass::NotChar(']'), "] SELECT")
        },
        None => None,
    };
    Ok(
        MailboxResponse {
            flags,
            exists,
            recent,
            unseen,
            permanentflags,
            uidnext,
            uidvalidity,
            permission,
        },
    )
}

/// One message record returned by FETCH: the raw field payload of a
/// `* <seq> FETCH <payload>` line, to be refined by a collaborator.
#[derive(Debug, Clone)]
pub struct Email {
    /// The text between `FETCH` and the terminating `\r\n`, verbatim.
    pub raw: String,
}

/// The first position at or after `i` holding the character `c`.
pub open spec fn spec_find_char(t: Seq<char>, c: char, i: int) -> Option<int>
    decreases t.len() - i,
{
    if i < 0 || i >= t.len() {
        None
    } else if t[i] == c {
        Some(i)
    } else {
        spec_find_char(t, c, i + 1)
    }
}

pub proof fn lemma_find_char_bounds(t: Seq<char>, c: char, i: int)
    requires
        0 <= i,
    ensures
        match spec_find_char(t, c, i) {
            Some(m) => i <= m < t.len() && t[m] == c,
            None => true,
        },
    decreases t.len() - i,
{
    if i < t.len() && t[i] != c {
        lemma_find_char_bounds(t, c, i + 1);
    }
}

/// Where the FETCH payload starts when a FETCH line matches at `i`: after
/// `"* "`, the sequence-number digits and `" FETCH"`.
pub open spec fn spec_fetch_c0(t: Seq<char>, i: int) -> int {
    spec_run_end(t, CharClass::Digit, i + 2) + 6
}

/// The first line feed at or after the payload start.
pub open spec fn spec_fetch_nl(t: Seq<char>, i: int) -> Option<int> {
    spec_find_char(t, '\n', spec_fetch_c0(t, i))
}

/// A FETCH data line `"* <seq> FETCH <payload>\r\n"` matches at `i`: the
/// literal `"* "`, at least one digit, the literal `" FETCH"`, then any text
/// up to the first line feed, which must close a `"\r\n"`.
pub open spec fn spec_fetch_match_at(t: Seq<char>, i: int) -> bool {
    let a = i + 2;
    let j = spec_run_end(t, CharClass::Digit, a);
    &&& spec_has_prefix_at(t, ("* ")@, i)
    &&& j > a
    &&& spec_has_prefix_at(t, (" FETCH")@, j)
    &&& match spec_fetch_nl(t, i) {
        Some(m) => m >= spec_fetch_c0(t, i) + 1 && t[m - 1] == '\r',
        None => false,
    }
}

/// The payload a FETCH line matching at `i` captures: everything between
/// `" FETCH"` and the closing `"\r\n"`.
pub open spec fn spec_fetch_capture_at(t: Seq<char>, i: int) -> Seq<char> {
    match spec_fetch_nl(t, i) {
        Some(m) => t.subrange(spec_fetch_c0(t, i), m - 1),
        None => Seq::empty(),
    }
}

/// The position just after the line feed that closes the match at `i`; the
/// next match is searched from here.
pub open spec fn spec_fetch_end(t: Seq<char>, i: int) -> int {
    match spec_fetch_nl(t, i) {
        Some(m) => m + 1,
        None => i + 1,
    }
}

/// The first position at or after `i` where a FETCH data line matches.
pub open spec fn spec_first_fetch_from(t: Seq<char>, i: int) -> Option<int>
    decreases t.len() - i,
{
    if i < 0 || i >= t.len() {
        None
    } else if spec_fetch_match_at(t, i) {
        Some(i)
    } else {
        spec_first_fetch_from(t, i + 1)
    }
}

pub proof fn lemma_first_fetch_bounds(t: Seq<char>, i: int)
    requires
        0 <= i,
    ensures
        match spec_first_fetch_from(t, i) {
            Some(k) => i <= k < t.len() && spec_fetch_match_at(t, k),
            None => true,
        },
    decreases t.len() - i,
{
    if i < t.len() && !spec_fetch_match_at(t, i) {
        lemma_first_fetch_bounds(t, i + 1);
    }
}

/// A match at `k` ends after `k` and within the text.
pub proof fn lemma_fetch_end_bounds(t: Seq<char>, k: int)
    requires
        0 <= k <= t.len(),
        spec_fetch_match_at(t, k),
    ensures
        k < spec_fetch_end(t, k) <= t.len(),
        k + 2 <= spec_fetch_c0(t, k) <= t.len(),
{
    reveal_strlit("* ");
    reveal_strlit(" FETCH");
    lemma_run_end_bounds(t, CharClass::Digit, k + 2);
    lemma_find_char_bounds(t, '\n', spec_fetch_c0(t, k));
}

/// The payloads of all FETCH data lines, in order of appearance, each match
/// searched from the end of the previous one.
pub open spec fn spec_fetch_captures_from(t: Seq<char>, i: int) -> Seq<Seq<char>>
    decreases t.len() - i,
    when 0 <= i <= t.len()
    via spec_fetch_captures_from_decreases
{
    match spec_first_fetch_from(t, i) {
        None => Seq::empty(),
        Some(k) => seq![spec_fetch_capture_at(t, k)] + spec_fetch_captures_from(
            t,
            spec_fetch_end(t, k),
        ),
    }
}

#[via_fn]
proof fn spec_fetch_captures_from_decreases(t: Seq<char>, i: int) {
    lemma_first_fetch_bounds(t, i);
    match spec_first_fetch_from(t, i) {
        Some(k) => lemma_fetch_end_bounds(t, k),
        None => (),
    }
}

/// The payloads of all FETCH data lines of the whole response, in order.
pub open spec fn spec_fetch_captures(t: Seq<char>) -> Seq<Seq<char>> {
    spec_fetch_captures_from(t, 0)
}

fn find_char(text: &str, c: char, i: usize) -> (r: Option<usize>)
    requires
        i <= text@.len(),
    ensures
        match r {
            Some(m) => spec_find_char(text@, c, i as int) == Some(m as int) && i <= m
                < text@.len(),
            None => spec_find_char(text@, c, i as int) is None,
        },
{
    let n = text.unicode_len();
    let mut j = i;
    while j < n
        invariant
            i <= j <= n,
            n == text@.len(),
            spec_find_char(text@, c, i as int) == spec_find_char(text@, c, j as int),
        decreases n - j,
    {
        if text.get_char(j) == c {
            return Some(j);
        }
        j = j + 1;
    }
    None
}

/// Tries the FETCH line pattern at position `i`; on a match, returns the
/// payload bounds and the position just after the closing line feed.
fn try_fetch_at(text: &str, i: usize) -> (r: Option<(usize, usize, usize)>)
    requires
        i <= text@.len(),
    ensures
        match r {
            Some(trip) => {
                &&& spec_fetch_match_at(text@, i as int)
                &&& trip.0 == spec_fetch_c0(text@, i as int)
                &&& text@.subrange(trip.0 as int, trip.1 as int) == spec_fetch_capture_at(
                    text@,
                    i as int,
                )
                &&& trip.2 == spec_fetch_end(text@, i as int)
                &&& trip.0 <= trip.1 <= text@.len()
                &&& i < trip.2 <= text@.len()
            },
            None => !spec_fetch_match_at(text@, i as int),
        },
{
    proof {
        reveal_strlit("* ");
        reveal_strlit(" FETCH");
    }
    let n = text.unicode_len();
    if !has_prefix_at(text, "* ", i) {
        return None;
    }
    let a = i + 2;
    let j = run_end(text, CharClass::Digit, a);
    if j == a {
        return None;
    }
    if !has_prefix_at(text, " FETCH", j) {
        return None;
    }
    let c0 = j + 6;
    match find_char(text, '\n', c0) {
        Some(m) => {
            if m >= c0 + 1 && text.get_char(m - 1) == '\r' {
                Some((c0, m - 1, m + 1))
            } else {
                None
            }
        },
        None => None,
    }
}

/// Finds the first FETCH data line at or after `pos`.
fn find_fetch_from(text: &str, pos: usize) -> (r: Option<(usize, usize, usize)>)
    requires
        pos <= text@.len(),
    ensures
        match r {
            Some(trip) => spec_first_fetch_from(text@, pos as int) matches Some(k)
                && text@.subrange(trip.0 as int, trip.1 as int) == spec_fetch_capture_at(text@, k)
                && trip.2 == spec_fetch_end(text@, k) && trip.0 <= trip.1 <= text@.len() && pos
                < trip.2 <= text@.len(),
            None => spec_first_fetch_from(text@, pos as int) is None,
        },
{
    let n = text.unicode_len();
    let mut i = pos;
    while i < n
        invariant
            pos <= i <= n,
            n == text@.len(),
            spec_first_fetch_from(text@, pos as int) == spec_first_fetch_from(text@, i as int),
        decreases n - i,
    {
        match try_fetch_at(text, i) {
            Some(trip) => {
                return Some(trip);
            },
            None => {
                i = i + 1;
            },
        }
    }
    None
}

/// Extracts one [`Email`] record per FETCH data line of the response, in
/// order.  Zero matches is a failure: an empty successful FETCH is not
/// representable, and surfaces as `Invalid` carrying the text.
pub fn extract_fetch_emails(text: &str) -> (r: Result<Vec<Email>, IMAPError>)
    ensures
        match r {
            Ok(v) => spec_fetch_captures(text@).len() > 0 && v@.map_values(|e: Email| e.raw@)
                == spec_fetch_captures(text@),
            Err(e) => {
                &&& spec_fetch_captures(text@).len() == 0
                &&& e matches IMAPError::Invalid(s) && s@ == text@
            },
        },
{
    let n = text.unicode_len();
    let mut emails: Vec<Email> = Vec::new();
    let mut pos: usize = 0;
    let mut stop = false;
    proof {
        assert(emails@.map_values(|e: Email| e.raw@) =~= Seq::<Seq<char>>::empty());
    }
    while !stop
        invariant
            pos <= text@.len(),
            n == text@.len(),
            spec_fetch_captures(text@) =~= emails@.map_values(|e: Email| e.raw@) + (if stop {
                Seq::<Seq<char>>::empty()
            } else {
                spec_fetch_captures_from(text@, pos as int)
            }),
        decreases n - pos + (if stop {
            0int
        } else {
            1int
        }),
    {
        match find_fetch_from(text, pos) {
            Some((c0, ce, end)) => {
                let cap = text.substring_char(c0, ce);
                let email = Email { raw: String::from_str(cap) };
                proof {
                    let f = |e: Email| e.raw@;
                    assert(emails@.push(email).map_values(f) =~= emails@.map_values(f).push(
                        email.raw@,
                    ));
                    assert(emails@.map_values(f).push(email.raw@) + spec_fetch_captures_from(
                        text@,
                        end as int,
                    ) =~= emails@.map_values(f) + (seq![email.raw@] + spec_fetch_captures_from(
                        text@,
                        end as int,
                    )));
                }
                emails.push(email);
                pos = end;
            },
            None => {
                stop = true;
            },
        }
    }
    if emails.len() == 0 {
        proof {
            assert(spec_fetch_captures(text@).len() == 0);
        }
        Err(IMAPError::Invalid(String::from_str(text)))
    } else {
        Ok(emails)
    }
}

} // verus!
