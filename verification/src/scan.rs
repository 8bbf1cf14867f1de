use vstd::prelude::*;

verus! {

/// A decimal digit byte, `'0'` through `'9'`.
pub open spec fn is_digit(b: u8) -> bool {
    48 <= b && b <= 57
}

/// Numeric value of a digit byte.
pub open spec fn digit_val(b: u8) -> nat {
    (b - 48) as nat
}

/// Length of the maximal run of digit bytes at the front of the input.
pub open spec fn run_len(s: Seq<u8>) -> nat
    decreases s.len(),
{
    if s.len() == 0 || !is_digit(s[0]) {
        0
    } else {
        (1 + run_len(s.skip(1))) as nat
    }
}

/// Value of the first `k` bytes of `s` read as a decimal numeral.
pub open spec fn dec_value(s: Seq<u8>, k: int) -> nat
    decreases k,
{
    if k <= 0 {
        0
    } else {
        dec_value(s, k - 1) * 10 + digit_val(s[k - 1])
    }
}

/// `run_len` names the position of the first non-digit byte: everything
/// before it is a digit, and the byte at it (if any) is not.
pub proof fn lemma_run_len(s: Seq<u8>)
    ensures
        run_len(s) <= s.len(),
        forall|j: int| 0 <= j < run_len(s) ==> is_digit(#[trigger] s[j]),
        run_len(s) < s.len() ==> !is_digit(s[run_len(s) as int]),
    decreases s.len(),
{
    if s.len() == 0 || !is_digit(s[0]) {
    } else {
        lemma_run_len(s.skip(1));
        assert forall|j: int| 0 <= j < run_len(s) implies is_digit(#[trigger] s[j]) by {
            if j > 0 {
                assert(s.skip(1)[j - 1] == s[j]);
            }
        }
        if run_len(s) < s.len() {
            assert(s.skip(1)[run_len(s) - 1] == s[run_len(s) as int]);
        }
    }
}

/// A decimal numeral's value never shrinks as more of its digits are read.
pub proof fn lemma_dec_value_mono(s: Seq<u8>, k1: int, k2: int)
    requires
        0 <= k1 <= k2,
    ensures
        dec_value(s, k1) <= dec_value(s, k2),
    decreases k2,
{
    if k1 < k2 {
        lemma_dec_value_mono(s, k1, k2 - 1);
        assert(dec_value(s, k2 - 1) * 10 >= dec_value(s, k2 - 1) * 1);
    }
}

/// The first `k` digits of two inputs that agree on them have the same value.
pub proof fn lemma_dec_value_agree(s1: Seq<u8>, s2: Seq<u8>, k: int)
    requires
        forall|j: int| 0 <= j < k ==> s1[j] == s2[j],
    ensures
        dec_value(s1, k) == dec_value(s2, k),
    decreases k,
{
    if k > 0 {
        lemma_dec_value_agree(s1, s2, k - 1);
    }
}

/// Skipping in two steps is skipping the sum.
pub proof fn lemma_skip_skip(s: Seq<u8>, a: int, b: int)
    requires
        0 <= a,
        0 <= b,
        a + b <= s.len(),
    ensures
        s.skip(a).skip(b) == s.skip(a + b),
{
    assert(s.skip(a).skip(b) =~= s.skip(a + b));
}

/// Scans the digit run that starts at `pos`, returning its end position.
pub fn digit_run_end(s: &[u8], pos: usize) -> (end: usize)
    requires
        pos <= s@.len(),
    ensures
        pos <= end <= s@.len(),
        end - pos == run_len(s@.skip(pos as int)),
{
    let ghost rem = s@.skip(pos as int);
    let mut i: usize = pos;
    while i < s.len() && s[i] >= 48 && s[i] <= 57
        invariant
            pos <= i <= s@.len(),
            rem == s@.skip(pos as int),
            i - pos <= run_len(rem),
        decreases s@.len() - i,
    {
        proof {
            lemma_run_len(rem);
            assert(rem[(i - pos) as int] == s@[i as int]);
        }
        i = i + 1;
    }
    proof {
        lemma_run_len(rem);
        if i < s@.len() {
            assert(rem[(i - pos) as int] == s@[i as int]);
        }
    }
    i
}

} // verus!

