//! Decimal rendering of counters, with the arithmetic facts that make the
//! rendered strings injective in the counter value.

use vstd::arithmetic::div_mod::lemma_fundamental_div_mod;
use vstd::prelude::*;
use vstd::string::StrSliceExecFns;
use vstd::string::StringExecFns;

verus! {

pub open spec fn is_digit_char(c: char) -> bool {
    '0' <= c && c <= '9'
}

/// The decimal digit character for a value below ten.
pub open spec fn digit_char(d: nat) -> char
    recommends
        d < 10,
{
    if d == 0 {
        '0'
    } else if d == 1 {
        '1'
    } else if d == 2 {
        '2'
    } else if d == 3 {
        '3'
    } else if d == 4 {
        '4'
    } else if d == 5 {
        '5'
    } else if d == 6 {
        '6'
    } else if d == 7 {
        '7'
    } else if d == 8 {
        '8'
    } else {
        '9'
    }
}

/// The value of a decimal digit character.
pub open spec fn digit_val(c: char) -> nat
    recommends
        is_digit_char(c),
{
    if c == '0' {
        0
    } else if c == '1' {
        1
    } else if c == '2' {
        2
    } else if c == '3' {
        3
    } else if c == '4' {
        4
    } else if c == '5' {
        5
    } else if c == '6' {
        6
    } else if c == '7' {
        7
    } else if c == '8' {
        8
    } else {
        9
    }
}

/// The decimal digits of `n`, most significant first, with no leading zero
/// (except for `n == 0`, which is the single digit `0`).
pub open spec fn dec_digits(n: nat) -> Seq<char>
    decreases n,
{
    if n < 10 {
        seq![digit_char(n)]
    } else {
        dec_digits(n / 10).push(digit_char(n % 10))
    }
}

/// The value that a sequence of digit characters denotes (most significant
/// first); leading zeros do not change it.
pub open spec fn seq_val(s: Seq<char>) -> nat
    decreases s.len(),
{
    if s.len() == 0 {
        0
    } else {
        seq_val(s.drop_last()) * 10 + digit_val(s.last())
    }
}

/// `k` zero characters.
pub open spec fn zeros(k: nat) -> Seq<char> {
    Seq::new(k, |i: int| '0')
}

/// The digits of `n`, zero-padded on the left to width five (wider values
/// keep all their digits).
pub open spec fn padded5(n: nat) -> Seq<char> {
    if dec_digits(n).len() >= 5 {
        dec_digits(n)
    } else {
        zeros((5 - dec_digits(n).len()) as nat) + dec_digits(n)
    }
}

/// Reading back the digits of `n` yields `n`: rendering loses nothing.
pub proof fn lemma_seq_val_dec_digits(n: nat)
    ensures
        seq_val(dec_digits(n)) == n,
    decreases n,
{
    assert(dec_digits(n).len() > 0);
    assert(seq_val(dec_digits(n)) == seq_val(dec_digits(n).drop_last()) * 10 + digit_val(
        dec_digits(n).last(),
    ));
    if n < 10 {
        assert(dec_digits(n).drop_last() =~= Seq::<char>::empty());
        assert(seq_val(Seq::<char>::empty()) == 0);
        assert(dec_digits(n).last() == digit_char(n));
        assert(digit_val(digit_char(n)) == n);
    } else {
        lemma_seq_val_dec_digits(n / 10);
        lemma_fundamental_div_mod(n as int, 10);
        assert(dec_digits(n).drop_last() =~= dec_digits(n / 10));
        assert(dec_digits(n).last() == digit_char(n % 10));
        assert(digit_val(digit_char(n % 10)) == n % 10);
    }
}

pub proof fn lemma_seq_val_zeros(k: nat)
    ensures
        seq_val(zeros(k)) == 0,
    decreases k,
{
    if k > 0 {
        assert(zeros(k).drop_last() =~= zeros((k - 1) as nat));
        lemma_seq_val_zeros((k - 1) as nat);
    }
}

/// Leading zeros do not change the value a digit string denotes.
pub proof fn lemma_seq_val_zeros_prepend(k: nat, s: Seq<char>)
    ensures
        seq_val(zeros(k) + s) == seq_val(s),
    decreases s.len(),
{
    if s.len() == 0 {
        assert(zeros(k) + s =~= zeros(k));
        lemma_seq_val_zeros(k);
    } else {
        assert((zeros(k) + s).drop_last() =~= zeros(k) + s.drop_last());
        assert((zeros(k) + s).last() == s.last());
        lemma_seq_val_zeros_prepend(k, s.drop_last());
    }
}

/// Reading back the padded digits of `n` yields `n`.
pub proof fn lemma_seq_val_padded5(n: nat)
    ensures
        seq_val(padded5(n)) == n,
{
    lemma_seq_val_dec_digits(n);
    if dec_digits(n).len() < 5 {
        lemma_seq_val_zeros_prepend((5 - dec_digits(n).len()) as nat, dec_digits(n));
    }
}

/// Distinct counters render to distinct padded digit strings.
pub proof fn lemma_padded5_injective(n1: nat, n2: nat)
    requires
        n1 != n2,
    ensures
        padded5(n1) != padded5(n2),
{
    lemma_seq_val_padded5(n1);
    lemma_seq_val_padded5(n2);
}

/// The digit character for `d`, as executable text.
fn digit_str(d: u32) -> (r: &'static str)
    requires
        d < 10,
    ensures
        r@ =~= seq![digit_char(d as nat)],
{
    proof {
        reveal_strlit("0");
        reveal_strlit("1");
        reveal_strlit("2");
        reveal_strlit("3");
        reveal_strlit("4");
        reveal_strlit("5");
        reveal_strlit("6");
        reveal_strlit("7");
        reveal_strlit("8");
        reveal_strlit("9");
    }
    if d == 0 {
        "0"
    } else if d == 1 {
        "1"
    } else if d == 2 {
        "2"
    } else if d == 3 {
        "3"
    } else if d == 4 {
        "4"
    } else if d == 5 {
        "5"
    } else if d == 6 {
        "6"
    } else if d == 7 {
        "7"
    } else if d == 8 {
        "8"
    } else {
        "9"
    }
}

/// Renders `n` in decimal, most significant digit first.
pub fn u32_to_decimal(n: u32) -> (r: String)
    ensures
        r@ == dec_digits(n as nat),
    decreases n,
{
    let d: u32 = n % 10;
    let ds = digit_str(d);
    if n < 10 {
        String::from_str(ds)
    } else {
        let mut s = u32_to_decimal(n / 10);
        s.append(ds);
        proof {
            assert(s@ =~= dec_digits((n / 10) as nat).push(digit_char((n % 10) as nat)));
        }
        s
    }
}

/// Renders `n` in decimal, zero-padded on the left to width five.
pub fn render_padded5(n: u32) -> (r: String)
    ensures
        r@ == padded5(n as nat),
{
    let digits = u32_to_decimal(n);
    let len = digits.as_str().unicode_len();
    let mut s = String::new();
    let mut k: usize = len;
    proof {
        reveal_strlit("0");
        assert(s@ =~= zeros(0));
    }
    while k < 5
        invariant
            len <= k <= 5 || (k == len && k >= 5),
            len == dec_digits(n as nat).len(),
            s@ == zeros((k - len) as nat),
        decreases 5 - k,
    {
        s.append("0");
        proof {
            reveal_strlit("0");
            assert(s@ =~= zeros((k + 1 - len) as nat));
        }
        k = k + 1;
    }
    s.append(digits.as_str());
    proof {
        if dec_digits(n as nat).len() >= 5 {
            assert(s@ =~= padded5(n as nat));
        }
    }
    s
}

} // verus!
