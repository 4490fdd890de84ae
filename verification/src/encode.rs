//! The command encoder: builds a tagged IMAP command line from a verb and
//! its arguments.

use vstd::prelude::*;
use vstd::string::StringExecFns;

verus! {

/// The wire form of a tagged command: `"{tag} {verb} {args}\r\n"`.
pub open spec fn spec_encode(tag: Seq<char>, verb: Seq<char>, args: Seq<char>) -> Seq<char> {
    tag + seq![' '] + verb + seq![' '] + args + seq!['\r', '\n']
}

/// Builds the command line `"{tag} {verb} {args}\r\n"`.
///
/// The argument text is preserved verbatim: callers are responsible for any
/// quoting the protocol requires (an argument containing a space is passed
/// through unquoted).
pub fn encode(tag: &str, verb: &str, args: &str) -> (r: String)
    ensures
        r@ == spec_encode(tag@, verb@, args@),
{
    let mut s = String::from_str(tag);
    s.append(" ");
    s.append(verb);
    s.append(" ");
    s.append(args);
    s.append("\r\n");
    proof {
        reveal_strlit(" ");
        reveal_strlit("\r\n");
        assert(s@ =~= spec_encode(tag@, verb@, args@));
    }
    s
}

} // verus!
