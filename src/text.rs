//! Fixed-width decimal fields inside a text.
use vstd::prelude::*;
use vstd::string::{StrSliceExecFns, StringExecFns};

verus! {

pub open spec fn is_digit(c: char) -> bool {
    '0' <= c && c <= '9'
}

pub open spec fn all_digits(s: Seq<char>) -> bool {
    forall|i: int| 0 <= i < s.len() ==> is_digit(#[trigger] s[i])
}

/// The value of a run of decimal digits, most significant first.
pub open spec fn decimal(s: Seq<char>) -> int
    decreases s.len(),
{
    if s.len() == 0 {
        0
    } else {
        decimal(s.drop_last()) * 10 + (s.last() as int - '0' as int)
    }
}

pub open spec fn digit_char(d: int) -> char {
    (d + '0' as int) as char
}

pub open spec fn pow10(w: nat) -> int
    decreases w,
{
    if w == 0 {
        1
    } else {
        10 * pow10((w - 1) as nat)
    }
}

/// `n` written with exactly `w` decimal digits, padded with zeros on the left.
pub open spec fn padded(n: int, w: nat) -> Seq<char>
    decreases w,
{
    if w == 0 {
        Seq::empty()
    } else {
        padded(n / 10, (w - 1) as nat).push(digit_char(n % 10))
    }
}

pub proof fn lemma_pow10_positive(w: nat)
    ensures
        pow10(w) >= 1,
    decreases w,
{
    if w > 0 {
        lemma_pow10_positive((w - 1) as nat);
    }
}

/// Writing a number in `w` digits and reading them back gives the number.
pub proof fn lemma_decimal_padded(n: int, w: nat)
    requires
        0 <= n < pow10(w),
    ensures
        padded(n, w).len() == w,
        all_digits(padded(n, w)),
        decimal(padded(n, w)) == n,
    decreases w,
{
    if w == 0 {
    } else {
        let w1 = (w - 1) as nat;
        assert(n / 10 < pow10(w1)) by {
            lemma_pow10_positive(w1);
        }
        lemma_decimal_padded(n / 10, w1);
        let p = padded(n, w);
        assert(p.drop_last() =~= padded(n / 10, w1));
        assert(all_digits(p)) by {
            assert forall|i: int| 0 <= i < p.len() implies is_digit(#[trigger] p[i]) by {
                if i < w1 {
                    assert(p[i] == padded(n / 10, w1)[i]);
                }
            }
        }
    }
}

/// Reading a run of digits and writing the value back in as many digits gives the run.
pub proof fn lemma_padded_decimal(s: Seq<char>)
    requires
        all_digits(s),
    ensures
        0 <= decimal(s) < pow10(s.len()),
        padded(decimal(s), s.len()) == s,
    decreases s.len(),
{
    if s.len() > 0 {
        let t = s.drop_last();
        assert(all_digits(t)) by {
            assert forall|i: int| 0 <= i < t.len() implies is_digit(#[trigger] t[i]) by {
                assert(t[i] == s[i]);
            }
        }
        lemma_padded_decimal(t);
        assert(is_digit(s[s.len() - 1]));
        let d = s.last() as int - '0' as int;
        let n = decimal(s);
        assert(n / 10 == decimal(t) && n % 10 == d);
        assert(digit_char(d) == s.last());
        assert(padded(n, s.len()) =~= t.push(s.last()));
        assert(t.push(s.last()) =~= s);
    }
}

/// The value of the `width` characters of `s` from `start`, if all are digits.
pub fn read_decimal(s: &str, start: usize, width: usize) -> (r: Option<u32>)
    requires
        start + width <= s@.len(),
        start + width <= usize::MAX,
        width <= 4,
    ensures
        r is Some <==> all_digits(s@.subrange(start as int, start + width)),
        r matches Some(v) ==> v as int == decimal(s@.subrange(start as int, start + width)),
{
    let mut value: u32 = 0;
    let mut k: usize = 0;
    while k < width
        invariant
            start + width <= s@.len(),
            start + width <= usize::MAX,
            width <= 4,
            k <= width,
            all_digits(s@.subrange(start as int, start + k)),
            value as int == decimal(s@.subrange(start as int, start + k)),
            value < pow10(k as nat),
        decreases width - k,
    {
        let c = s.get_char(start + k);
        let ghost prev = s@.subrange(start as int, start + k);
        let ghost next = s@.subrange(start as int, start + k + 1);
        if c < '0' || c > '9' {
            assert(next[k as int] == c);
            return None;
        }
        assert(next.drop_last() =~= prev);
        assert(next.last() == c);
        assert(all_digits(next)) by {
            assert forall|i: int| 0 <= i < next.len() implies is_digit(#[trigger] next[i]) by {
                if i < k {
                    assert(next[i] == prev[i]);
                }
            }
        }
        assert(pow10((k + 1) as nat) == 10 * pow10(k as nat));
        assert(pow10(k as nat) <= 1000) by {
            assert(pow10(0) == 1);
            assert(pow10(1) == 10);
            assert(pow10(2) == 100);
            assert(pow10(3) == 1000);
        }
        value = value * 10 + (c as u32 - '0' as u32);
        k = k + 1;
    }
    Some(value)
}

/// The characters of one decimal digit.
fn digit_str(d: u32) -> (r: &'static str)
    requires
        d < 10,
    ensures
        r@ == seq![digit_char(d as int)],
{
    proof {
        reveal_strlit("0");
        reveal_strlit("1");
        reveal_strlit("2");
        reveal_strlit("3");
        reveal_strlit("4");
        reveal_strlit("5");
        reveal_strlit("6");
        reveal_strlit("7");
        reveal_strlit("8");
        reveal_strlit("9");
    }
    let r = match d {
        0 => "0",
        1 => "1",
        2 => "2",
        3 => "3",
        4 => "4",
        5 => "5",
        6 => "6",
        7 => "7",
        8 => "8",
        _ => "9",
    };
    assert(r@ =~= seq![digit_char(d as int)]);
    r
}

/// Appends `n` in exactly `width` digits, padded with zeros on the left.
pub fn push_padded(out: &mut String, n: u32, width: usize)
    requires
        1 <= width <= 4,
        (n as int) < pow10(width as nat),
    ensures
        final(out)@ == old(out)@ + padded(n as int, width as nat),
    decreases width,
{
    if width > 1 {
        push_padded(out, n / 10, width - 1);
    } else {
        assert(padded((n / 10) as int, 0) =~= Seq::<char>::empty());
    }
    out.append(digit_str(n % 10));
    assert(padded(n as int, width as nat) =~= padded((n / 10) as int, (width - 1) as nat).push(digit_char((n % 10) as int)));
    assert(final(out)@ =~= old(out)@ + padded(n as int, width as nat));
}

} // verus!
