//! Decimal text: what a run of ASCII digits denotes, the canonical text of a
//! number, and reading a signed 32-bit integer the way `i32::from_str` does.
use vstd::prelude::*;
use vstd::string::StringSliceAdditionalSpecFns;

verus! {

/// An ASCII decimal digit, `'0'..='9'`.
pub open spec fn is_digit(b: u8) -> bool {
    48 <= b <= 57
}

/// Every byte of `d` is an ASCII decimal digit.
pub open spec fn all_digits(d: Seq<u8>) -> bool {
    forall|i: int| 0 <= i < d.len() ==> is_digit(#[trigger] d[i])
}

/// The number that a run of decimal digits denotes (most significant first).
pub open spec fn digits_value(d: Seq<u8>) -> nat
    decreases d.len(),
{
    if d.len() == 0 {
        0
    } else {
        digits_value(d.drop_last()) * 10 + (d.last() - 48) as nat
    }
}

/// The canonical decimal text of `n`: its digits without leading zeros
/// (`"0"` for zero).
pub open spec fn decimal_text(n: nat) -> Seq<u8>
    decreases n,
{
    if n < 10 {
        seq![(48 + n) as u8]
    } else {
        decimal_text(n / 10).push((48 + n % 10) as u8)
    }
}

/// The text that `i32`'s `Display` writes: a `'-'` before the digits of a
/// negative number.
pub open spec fn signed_decimal_text(x: i32) -> Seq<u8> {
    if x < 0 {
        seq![45u8] + decimal_text((-x) as nat)
    } else {
        decimal_text(x as nat)
    }
}

/// What `i32::from_str` gives for the bytes `s`: an optional `'+'` or `'-'`,
/// then at least one ASCII digit and nothing else, with a value that fits
/// in an `i32`.
pub open spec fn decimal_i32(s: Seq<u8>) -> Option<i32> {
    let signed = s.len() > 0 && (s[0] == 45u8 || s[0] == 43u8);
    let d = if signed { s.drop_first() } else { s };
    let v: int = if s.len() > 0 && s[0] == 45u8 {
        -(digits_value(d) as int)
    } else {
        digits_value(d) as int
    };
    if d.len() > 0 && all_digits(d) && i32::MIN <= v <= i32::MAX {
        Some(v as i32)
    } else {
        None
    }
}

proof fn lemma_div_mod_10(n: nat)
    ensures
        n == (n / 10) * 10 + n % 10,
        n % 10 < 10,
{
    vstd::arithmetic::div_mod::lemma_fundamental_div_mod(n as int, 10);
}

proof fn lemma_div_mod_10_converse(x: nat, q: nat, r: nat)
    requires
        r < 10,
        x == q * 10 + r,
    ensures
        x / 10 == q,
        x % 10 == r,
{
    vstd::arithmetic::div_mod::lemma_fundamental_div_mod_converse(x as int, 10, q as int, r as int);
}

/// The canonical text of `n` is a non-empty run of digits denoting `n`, and
/// it starts with `'0'` only when it is `"0"`.
pub proof fn lemma_decimal_text(n: nat)
    ensures
        decimal_text(n).len() >= 1,
        all_digits(decimal_text(n)),
        digits_value(decimal_text(n)) == n,
        decimal_text(n)[0] == 48u8 ==> n == 0 && decimal_text(n).len() == 1,
        n < 10 ==> decimal_text(n).len() == 1,
        n < 100 ==> decimal_text(n).len() <= 2,
        n < 1000 ==> decimal_text(n).len() <= 3,
    decreases n,
{
    let t = decimal_text(n);
    if n < 10 {
        assert(t.drop_last() =~= Seq::<u8>::empty());
        assert(digits_value(Seq::<u8>::empty()) == 0);
        assert(t.last() == (48 + n) as u8);
        assert(digits_value(t) == digits_value(t.drop_last()) * 10 + (t.last() - 48) as nat);
    } else {
        lemma_div_mod_10(n);
        let q = n / 10;
        let r = n % 10;
        lemma_decimal_text(q);
        let p = decimal_text(q);
        assert(t == p.push((48 + r) as u8));
        assert(t.drop_last() =~= p);
        assert(t.last() == (48 + r) as u8);
        assert(digits_value(t) == digits_value(p) * 10 + r);
        assert forall|i: int| 0 <= i < t.len() implies is_digit(#[trigger] t[i]) by {
            if i < p.len() {
                assert(t[i] == p[i]);
            }
        }
        assert(t[0] == p[0]);
        if n < 100 {
            assert(q < 10);
        }
        if n < 1000 {
            assert(q < 100);
        }
    }
}

/// A non-empty run of digits with no leading zero (other than `"0"` itself)
/// is the canonical text of the number it denotes.
pub proof fn lemma_canonical_digits(d: Seq<u8>)
    requires
        d.len() >= 1,
        all_digits(d),
        d[0] == 48u8 ==> d.len() == 1,
    ensures
        d == decimal_text(digits_value(d)),
    decreases d.len(),
{
    if d.len() == 1 {
        assert(d.drop_last() =~= Seq::<u8>::empty());
        assert(d =~= decimal_text(digits_value(d)));
    } else {
        let p = d.drop_last();
        assert(p[0] == d[0]);
        assert(all_digits(p)) by {
            assert forall|i: int| 0 <= i < p.len() implies is_digit(#[trigger] p[i]) by {
                assert(p[i] == d[i]);
            }
        }
        lemma_canonical_digits(p);
        let vp = digits_value(p);
        if vp == 0 {
            assert(p[0] == 48u8);
        }
        let r = (d.last() - 48) as nat;
        assert(is_digit(d[d.len() - 1]));
        let v = digits_value(d);
        assert(v == vp * 10 + r);
        lemma_div_mod_10_converse(v, vp, r);
        assert(v >= 10);
        assert(decimal_text(v) == decimal_text(vp).push((48 + r) as u8));
        assert(d =~= p.push(d.last()));
    }
}

/// Equal canonical texts denote equal numbers.
pub proof fn lemma_decimal_text_injective(v: nat, w: nat)
    requires
        decimal_text(v) == decimal_text(w),
    ensures
        v == w,
{
    lemma_decimal_text(v);
    lemma_decimal_text(w);
}

/// A prefix of a run of digits denotes no more than the whole run.
pub proof fn lemma_prefix_value_le(d: Seq<u8>, k: int)
    requires
        all_digits(d),
        0 <= k <= d.len(),
    ensures
        digits_value(d.subrange(0, k)) <= digits_value(d),
    decreases d.len(),
{
    if k == d.len() {
        assert(d.subrange(0, k) =~= d);
    } else {
        let p = d.drop_last();
        assert(all_digits(p)) by {
            assert forall|i: int| 0 <= i < p.len() implies is_digit(#[trigger] p[i]) by {
                assert(p[i] == d[i]);
            }
        }
        lemma_prefix_value_le(p, k);
        assert(p.subrange(0, k) =~= d.subrange(0, k));
        assert(is_digit(d[d.len() - 1]));
    }
}

/// Extending a run of digits by one more digit.
pub proof fn lemma_digit_step(b: Seq<u8>, start: int, i: int)
    requires
        0 <= start <= i < b.len(),
        all_digits(b.subrange(start, i)),
        is_digit(b[i]),
    ensures
        all_digits(b.subrange(start, i + 1)),
        digits_value(b.subrange(start, i + 1)) == digits_value(b.subrange(start, i)) * 10 + (b[i]
            - 48) as nat,
{
    let before = b.subrange(start, i);
    let after = b.subrange(start, i + 1);
    assert(after.drop_last() =~= before);
    assert(after.last() == b[i]);
    assert forall|j: int| 0 <= j < after.len() implies is_digit(#[trigger] after[j]) by {
        if j < before.len() {
            assert(after[j] == before[j]);
        }
    }
}

/// Reads `s` as `i32::from_str` does: an optional sign, then decimal digits.
pub fn parse_i32(s: &str) -> (r: Option<i32>)
    ensures
        r == decimal_i32(s.spec_bytes()),
{
    let b = s.as_bytes();
    let n = b.len();
    if n == 0 {
        return None;
    }
    let neg = b[0] == 45u8;
    let start: usize = if b[0] == 45u8 || b[0] == 43u8 {
        1
    } else {
        0
    };
    let ghost d = b@.subrange(start as int, n as int);
    proof {
        if start == 1 {
            assert(d =~= b@.drop_first());
        } else {
            assert(d =~= b@);
        }
    }
    if start == n {
        return None;
    }
    let mut acc: u64 = 0;
    let mut i: usize = start;
    while i < n
        invariant
            start <= i <= n,
            start < n,
            n == b@.len(),
            d == b@.subrange(start as int, n as int),
            b@ == s.spec_bytes(),
            start <= 1,
            start == 1 <==> (b@[0] == 45u8 || b@[0] == 43u8),
            start == 1 ==> d == b@.drop_first(),
            start == 0 ==> d == b@,
            all_digits(b@.subrange(start as int, i as int)),
            acc == digits_value(b@.subrange(start as int, i as int)),
            acc <= 2147483648u64,
        decreases n - i,
    {
        let c = b[i];
        if c < 48u8 || c > 57u8 {
            proof {
                assert(d[i - start] == c);
            }
            return None;
        }
        proof {
            lemma_digit_step(b@, start as int, i as int);
        }
        acc = acc * 10 + (c - 48u8) as u64;
        assert(acc == digits_value(b@.subrange(start as int, i + 1)));
        if acc > 2147483648u64 {
            proof {
                if all_digits(d) {
                    assert(d.subrange(0, i + 1 - start) =~= b@.subrange(start as int, i + 1));
                    lemma_prefix_value_le(d, i + 1 - start);
                    assert(digits_value(d) > 2147483648);
                }

            }
            return None;
        }
        i = i + 1;
    }
    proof {
        assert(b@.subrange(start as int, i as int) =~= d);
    }
    if neg {
        Some((0i64 - acc as i64) as i32)
    } else if acc <= 2147483647u64 {
        Some(acc as i32)
    } else {
        None
    }
}

/// `i32`'s `Display` text reads back as the same integer.
pub proof fn lemma_signed_text_reads_back(x: i32)
    ensures
        decimal_i32(signed_decimal_text(x)) == Some(x),
{
    if x < 0 {
        let m = (-x) as nat;
        lemma_decimal_text(m);
        let s = signed_decimal_text(x);
        assert(s.drop_first() =~= decimal_text(m));
    } else {
        lemma_decimal_text(x as nat);
    }
}

} // verus!
