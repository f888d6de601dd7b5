//! Small verified helpers for strings and character buffers.

use vstd::prelude::*;

verus! {

/// Whether two string slices hold the same characters.
pub fn str_eq(a: &str, b: &str) -> (r: bool)
    ensures
        r == (a@ == b@),
{
    let na = a.unicode_len();
    let nb = b.unicode_len();
    if na != nb {
        proof {
            assert(a@ != b@) by {
                if a@ == b@ {
                    assert(a@.len() == b@.len());
                }
            }
        }
        return false;
    }
    let mut i: usize = 0;
    while i < na
        invariant
            na == a@.len(),
            na == b@.len(),
            0 <= i <= na,
            forall|j: int| 0 <= j < i ==> a@[j] == b@[j],
        decreases na - i,
    {
        if a.get_char(i) != b.get_char(i) {
            proof {
                assert(a@ != b@) by {
                    if a@ == b@ {
                        assert(a@[i as int] == b@[i as int]);
                    }
                }
            }
            return false;
        }
        i = i + 1;
    }
    proof {
        assert(a@ =~= b@);
    }
    true
}

/// The characters of a string slice, as a vector.
pub fn chars_of(s: &str) -> (r: Vec<char>)
    ensures
        r@ == s@,
{
    let n = s.unicode_len();
    let mut r: Vec<char> = Vec::new();
    let mut i: usize = 0;
    while i < n
        invariant
            n == s@.len(),
            0 <= i <= n,
            r@ == s@.subrange(0, i as int),
        decreases n - i,
    {
        let c = s.get_char(i);
        r.push(c);
        proof {
            assert(r@ =~= s@.subrange(0, i + 1));
        }
        i = i + 1;
    }
    proof {
        assert(r@ =~= s@);
    }
    r
}

/// Relies on String::push: appends one character to the string.
#[verifier::external_body]
pub(crate) fn push_char(s: &mut String, c: char)
    ensures
        final (s)@ == old(s)@.push(c),
{
    s.push(c);
}

/// A string holding the given range of a character buffer.
pub fn string_range(cs: &Vec<char>, from: usize, to: usize) -> (r: String)
    requires
        from <= to <= cs@.len(),
    ensures
        r@ == cs@.subrange(from as int, to as int),
{
    let mut r = String::new();
    let mut i: usize = from;
    while i < to
        invariant
            from <= i <= to <= cs@.len(),
            r@ == cs@.subrange(from as int, i as int),
        decreases to - i,
    {
        push_char(&mut r, cs[i]);
        proof {
            assert(r@ =~= cs@.subrange(from as int, i + 1));
        }
        i = i + 1;
    }
    r
}

/// The literal `lit` stands in `s` at position `i`.
pub open spec fn starts_with_at(s: Seq<char>, i: int, lit: Seq<char>) -> bool {
    &&& 0 <= i
    &&& i + lit.len() <= s.len()
    &&& s.subrange(i, i + lit.len()) == lit
}

/// Whether the characters of the literal stand in `cs` at position `i`.
pub fn str_at(cs: &Vec<char>, i: usize, lit: &str) -> (r: bool)
    ensures
        r == starts_with_at(cs@, i as int, lit@),
{
    let m = lit.unicode_len();
    let n = cs.len();
    if i > n || n - i < m {
        proof {
            assert(!starts_with_at(cs@, i as int, lit@));
        }
        return false;
    }
    let mut j: usize = 0;
    while j < m
        invariant
            m == lit@.len(),
            n == cs@.len(),
            i + m <= n,
            0 <= j <= m,
            forall|t: int| 0 <= t < j ==> cs@[i + t] == lit@[t],
        decreases m - j,
    {
        if cs[i + j] != lit.get_char(j) {
            proof {
                assert(!starts_with_at(cs@, i as int, lit@)) by {
                    if starts_with_at(cs@, i as int, lit@) {
                        assert(cs@.subrange(i as int, i + lit@.len())[j as int] == lit@[j as int]);
                    }
                }
            }
            return false;
        }
        j = j + 1;
    }
    proof {
        assert(cs@.subrange(i as int, i + lit@.len()) =~= lit@);
    }
    true
}

/// A decimal digit.
pub open spec fn is_digit(c: char) -> bool {
    48 <= c as int && c as int <= 57
}

/// The numeric value of a digit character.
pub open spec fn digit_val(c: char) -> int {
    c as int - 48
}

/// The number the digit string denotes, most significant digit first.
pub open spec fn digits_val(s: Seq<char>) -> int
    decreases s.len(),
{
    if s.len() == 0 {
        0
    } else {
        digits_val(s.drop_last()) * 10 + digit_val(s.last())
    }
}

/// Every character is a decimal digit.
pub open spec fn all_digits(s: Seq<char>) -> bool {
    forall|i: int| 0 <= i < s.len() ==> is_digit(s[i])
}

/// What coercing a text to an unsigned number yields: the denoted value
/// for a nonempty all-digit text that fits, nothing otherwise.
pub open spec fn u64_of_text(s: Seq<char>) -> Option<u64> {
    if s.len() > 0 && all_digits(s) && digits_val(s) <= u64::MAX {
        Some(digits_val(s) as u64)
    } else {
        None
    }
}

/// A digit string denotes a nonnegative number.
proof fn lemma_digits_val_nonneg(s: Seq<char>)
    requires
        all_digits(s),
    ensures
        digits_val(s) >= 0,
    decreases s.len(),
{
    if s.len() > 0 {
        assert(is_digit(s.last()));
        assert(all_digits(s.drop_last()));
        lemma_digits_val_nonneg(s.drop_last());
    }
}

/// Extending an all-digit prefix never shrinks the denoted value.
proof fn lemma_digits_val_prefix_mono(s: Seq<char>, k1: int, k2: int)
    requires
        0 <= k1 <= k2 <= s.len(),
        all_digits(s),
    ensures
        digits_val(s.take(k1)) <= digits_val(s.take(k2)),
    decreases k2 - k1,
{
    assert(all_digits(s.take(k1)));
    lemma_digits_val_nonneg(s.take(k1));
    if k1 < k2 {
        lemma_digits_val_prefix_mono(s, k1, k2 - 1);
        let p = s.take(k2);
        assert(p.drop_last() =~= s.take(k2 - 1));
        assert(is_digit(p.last()));
        assert(all_digits(s.take(k2 - 1)));
        lemma_digits_val_nonneg(s.take(k2 - 1));
    }
}

/// Coerces a text to an unsigned number: the denoted value of a nonempty
/// all-digit text, and nothing for any other text or on overflow.
pub fn parse_u64(s: &str) -> (r: Option<u64>)
    ensures
        r == u64_of_text(s@),
{
    let n = s.unicode_len();
    if n == 0 {
        return None;
    }
    let mut acc: u64 = 0;
    let mut i: usize = 0;
    while i < n
        invariant
            n == s@.len(),
            0 <= i <= n,
            forall|j: int| 0 <= j < i ==> is_digit(s@[j]),
            acc == digits_val(s@.take(i as int)),
        decreases n - i,
    {
        let c = s.get_char(i);
        let cu = c as u32;
        if cu < 48 || cu > 57 {
            proof {
                assert(!is_digit(s@[i as int]));
            }
            return None;
        }
        let d: u64 = (cu - 48) as u64;
        proof {
            let p = s@.take(i + 1);
            assert(p.drop_last() =~= s@.take(i as int));
            assert(p.last() == s@[i as int]);
            assert(digits_val(s@.take(i + 1)) == acc * 10 + d);
        }
        if acc > (u64::MAX - d) / 10 {
            proof {
                assert(acc * 10 + d > u64::MAX) by (nonlinear_arith)
                    requires
                        acc > (u64::MAX - d) / 10,
                        d <= 9,
                ;
                if all_digits(s@) {
                    lemma_digits_val_prefix_mono(s@, i + 1, n as int);
                    assert(s@.take(n as int) =~= s@);
                }
            }
            return None;
        }
        proof {
            assert(acc * 10 + d <= u64::MAX) by (nonlinear_arith)
                requires
                    acc <= (u64::MAX - d) / 10,
                    d <= 9,
            ;
        }
        acc = acc * 10 + d;
        i = i + 1;
    }
    proof {
        assert(s@.take(n as int) =~= s@);
    }
    Some(acc)
}

} // verus!
