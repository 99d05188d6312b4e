//! Decimal numbers in text (`str::parse` for unsigned integers).
use vstd::prelude::*;

verus! {

/// The character is an ASCII digit (`char::is_ascii_digit`).
pub open spec fn is_digit(c: char) -> bool {
    '0' <= c && c <= '9'
}

/// Value of a sequence of ASCII digits.
pub open spec fn digits_value(d: Seq<char>) -> int
    decreases d.len(),
{
    if d.len() == 0 {
        0
    } else {
        digits_value(d.drop_last()) * 10 + ((d.last() as u32) - ('0' as u32))
    }
}

/// All characters are ASCII digits.
pub open spec fn all_digits(d: Seq<char>) -> bool {
    forall|i: int| 0 <= i < d.len() ==> is_digit(#[trigger] d[i])
}

/// The text after an optional leading `+`.
pub open spec fn unsigned_digits(s: Seq<char>) -> Seq<char> {
    if s.len() > 0 && s[0] == '+' {
        s.drop_first()
    } else {
        s
    }
}

/// What `str::parse` yields for an unsigned integer type whose largest
/// value is `max`: an optional `+`, then at least one digit, and a value of
/// at most `max`.
pub open spec fn parse_uint(s: Seq<char>, max: int) -> Option<int> {
    let d = unsigned_digits(s);
    if d.len() > 0 && all_digits(d) && digits_value(d) <= max {
        Some(digits_value(d))
    } else {
        None
    }
}

proof fn lemma_digits_value_mono(d: Seq<char>, k: int)
    requires
        all_digits(d),
        0 <= k <= d.len(),
    ensures
        0 <= digits_value(d.take(k)) <= digits_value(d),
    decreases d.len() - k,
{
    if k == d.len() {
        assert(d.take(k) =~= d);
        lemma_digits_value_nonneg(d);
    } else {
        lemma_digits_value_mono(d, k + 1);
        let t = d.take(k + 1);
        assert(t.drop_last() =~= d.take(k));
        assert(t.last() == d[k]);
        assert(is_digit(d[k]));
        assert(all_digits(d.take(k)));
        lemma_digits_value_nonneg(d.take(k));
        assert((d[k] as u32) >= ('0' as u32));
        assert(digits_value(t) == digits_value(d.take(k)) * 10 + ((d[k] as u32) - ('0' as u32)));
    }
}

proof fn lemma_digits_value_nonneg(d: Seq<char>)
    requires
        all_digits(d),
    ensures
        digits_value(d) >= 0,
    decreases d.len(),
{
    if d.len() > 0 {
        assert(all_digits(d.drop_last()));
        lemma_digits_value_nonneg(d.drop_last());
    }
}

/// Parses an unsigned decimal number of at most `max`.
pub fn parse_uint_exec(s: &[char], max: u64) -> (r: Option<u64>)
    ensures
        match r {
            Some(v) => parse_uint(s@, max as int) == Some(v as int),
            None => parse_uint(s@, max as int) is None,
        },
{
    let start: usize = if s.len() > 0 && s[0] == '+' {
        1
    } else {
        0
    };
    let ghost d = unsigned_digits(s@);
    assert(d =~= s@.skip(start as int));
    if start >= s.len() {
        return None;
    }
    let mut acc: u64 = 0;
    let mut i: usize = start;
    while i < s.len()
        invariant
            start <= i <= s@.len(),
            d == s@.skip(start as int),
            d == unsigned_digits(s@),
            d.len() > 0,
            all_digits(d.take(i - start)),
            acc as int == digits_value(d.take(i - start)),
            acc <= max,
        decreases s.len() - i,
    {
        let c = s[i];
        if !('0' <= c && c <= '9') {
            assert(d[i - start] == c);
            assert(!is_digit(d[i - start]));
            assert(!all_digits(d));
            return None;
        }
        let dg: u64 = ((c as u32) - ('0' as u32)) as u64;
        let ghost t = d.take(i - start + 1);
        assert(t.drop_last() =~= d.take(i - start));
        assert(t.last() == c);
        assert(all_digits(t)) by {
            assert forall|j: int| 0 <= j < t.len() implies is_digit(#[trigger] t[j]) by {
                if j < t.len() - 1 {
                    assert(t[j] == d.take(i - start)[j]);
                }
            }
        }
        if dg > max || acc > (max - dg) / 10 {
            proof {
                if dg > max {
                    assert(acc * 10 + dg > max) by (nonlinear_arith)
                        requires
                            dg > max,
                    ;
                } else {
                    assert(acc * 10 + dg > max) by (nonlinear_arith)
                        requires
                            acc > (max - dg) / 10,
                            dg <= max,
                    ;
                }
                if all_digits(d) {
                    lemma_digits_value_mono(d, i - start + 1);
                }
            }
            return None;
        }
        assert(acc * 10 + dg <= max) by (nonlinear_arith)
            requires
                acc <= (max - dg) / 10,
                dg <= max,
        ;
        acc = acc * 10 + dg;
        i = i + 1;
    }
    assert(d.take(i - start) =~= d);
    Some(acc)
}

} // verus!
