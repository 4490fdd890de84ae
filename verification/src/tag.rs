//! The tag generator: monotonically distinguishing command tags.
//!
//! A tag is a fixed three-character random prefix followed by a counter
//! rendered in decimal and zero-padded to width five.  The counter only ever
//! increases, so the tag strings drawn within one session are pairwise
//! distinct by construction.

use crate::digits::{is_digit_char, padded5, render_padded5};
use rand::distributions::DistString;
use vstd::prelude::*;
use vstd::string::StringExecFns;

verus! {

/// The characters a tag prefix is drawn from: ASCII letters and digits.
pub open spec fn is_tag_prefix_char(c: char) -> bool {
    ('a' <= c && c <= 'z') || ('A' <= c && c <= 'Z') || is_digit_char(c)
}

/// Relies on `rand::distributions::Alphanumeric` (through
/// `DistString::sample_string` on `rand::rngs::ThreadRng`): the sampled
/// string holds exactly `3` characters, each drawn from `[A-Za-z0-9]`.
#[verifier::external_body]
fn random_prefix() -> (r: String)
    ensures
        r@.len() == 3,
        forall|i: int| 0 <= i < r@.len() ==> is_tag_prefix_char(#[trigger] r@[i]),
{
    rand::distributions::Alphanumeric.sample_string(&mut rand::thread_rng(), 3)
}

/// The tag string for a prefix and a counter value.
pub open spec fn spec_tag_string(prefix: Seq<char>, counter: nat) -> Seq<char> {
    prefix + padded5(counter)
}

/// A generator of command tags: a fixed prefix and a counter that only
/// increases.
#[derive(Debug)]
pub struct Tag {
    /// The three-character prefix every tag of this generator starts with.
    pub tag_prefix: String,
    /// The number of tags handed out so far; the next tag embeds this plus one.
    pub tag: u32,
}

impl Tag {
    /// The prefix is three alphanumeric characters long.
    pub open spec fn wf(&self) -> bool {
        &&& self.tag_prefix@.len() == 3
        &&& forall|i: int|
            0 <= i < self.tag_prefix@.len() ==> is_tag_prefix_char(#[trigger] self.tag_prefix@[i])
    }

    /// A fresh generator with a random three-character prefix and counter zero.
    pub fn new() -> (r: Tag)
        ensures
            r.tag == 0,
            r.wf(),
    {
        Tag { tag_prefix: random_prefix(), tag: 0 }
    }

    /// A fresh generator with a caller-chosen prefix and counter zero, for
    /// callers that need deterministic tags.
    pub fn with_prefix(prefix: String) -> (r: Tag)
        ensures
            r.tag == 0,
            r.tag_prefix == prefix,
    {
        Tag { tag_prefix: prefix, tag: 0 }
    }

    /// Increments the counter and renders the tag for the new counter value:
    /// the prefix followed by the counter zero-padded to five digits.
    pub fn next_tag(&mut self) -> (r: String)
        requires
            old(self).tag < u32::MAX,
        ensures
            final(self).tag == old(self).tag + 1,
            final(self).tag_prefix == old(self).tag_prefix,
            r@ == spec_tag_string(old(self).tag_prefix@, (old(self).tag + 1) as nat),
    {
        self.tag = self.tag + 1;
        let mut s = self.tag_prefix.clone();
        let digits = render_padded5(self.tag);
        s.append(digits.as_str());
        s
    }
}

/// Tag uniqueness: two distinct counter values always render to distinct tag
/// strings under the same prefix.  Together with the strict increase of the
/// counter in [`Tag::next_tag`], the tags drawn from one generator are
/// pairwise distinct.
pub proof fn lemma_tag_strings_distinct(prefix: Seq<char>, n1: nat, n2: nat)
    requires
        n1 != n2,
    ensures
        spec_tag_string(prefix, n1) != spec_tag_string(prefix, n2),
{
    crate::digits::lemma_padded5_injective(n1, n2);
    if spec_tag_string(prefix, n1) == spec_tag_string(prefix, n2) {
        assert((prefix + padded5(n1)).skip(prefix.len() as int) =~= padded5(n1));
        assert((prefix + padded5(n2)).skip(prefix.len() as int) =~= padded5(n2));
    }
}

} // verus!
