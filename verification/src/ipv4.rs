//! IPv4 addresses in dotted-quad text, read the way `Ipv4Addr::from_str`
//! reads them: exactly four dot-separated decimal octets, each in
//! canonical form (no sign, no leading zero, at most 255).
use vstd::prelude::*;
use vstd::string::StringSliceAdditionalSpecFns;
use crate::decimal::{
    all_digits, decimal_text, digits_value, is_digit, lemma_canonical_digits, lemma_decimal_text,
    lemma_decimal_text_injective, lemma_digit_step, lemma_prefix_value_le,
};

verus! {

/// The four octets of an IPv4 address, most significant first.
#[derive(Clone, Copy, Debug, PartialEq, Eq, Structural)]
pub struct Ipv4Address(pub u8, pub u8, pub u8, pub u8);

impl Ipv4Address {
    /// The canonical dotted-quad text of the address, e.g. `10.200.0.1`.
    pub open spec fn text(self) -> Seq<u8> {
        decimal_text(self.0 as nat) + seq![46u8] + decimal_text(self.1 as nat) + seq![46u8]
            + decimal_text(self.2 as nat) + seq![46u8] + decimal_text(self.3 as nat)
    }

    /// The octets as an array, most significant first.
    pub fn octets(&self) -> (r: [u8; 4])
        ensures
            r@ == seq![self.0, self.1, self.2, self.3],
    {
        let r = [self.0, self.1, self.2, self.3];
        assert(r@ =~= seq![self.0, self.1, self.2, self.3]);
        r
    }
}

/// The address whose canonical text is `t`, if there is one.
pub open spec fn ipv4_from_text(t: Seq<u8>) -> Option<Ipv4Address> {
    if exists|q: Ipv4Address| #[trigger] q.text() == t {
        Some(choose|q: Ipv4Address| #[trigger] q.text() == t)
    } else {
        None
    }
}

/// From `start` on, `b` holds the canonical text of `v`, followed by a `'.'`
/// (when `last` is false) or by the end of `b` (when `last` is true).
pub open spec fn field_fits(b: Seq<u8>, start: int, v: u8, last: bool) -> bool {
    let t = decimal_text(v as nat);
    let e = start + t.len();
    &&& 0 <= start
    &&& e <= b.len()
    &&& b.subrange(start, e) == t
    &&& if last {
        e == b.len()
    } else {
        e < b.len() && b[e] == 46u8
    }
}

/// What a fitting field says of the bytes: a run of digits denoting `v`,
/// ended by a byte that is no digit, or by the end.
proof fn lemma_field_run(b: Seq<u8>, start: int, v: u8, last: bool)
    requires
        field_fits(b, start, v, last),
    ensures
        ({
            let e = start + decimal_text(v as nat).len();
            &&& start < e
            &&& all_digits(b.subrange(start, e))
            &&& forall|j: int| start <= j < e ==> #[trigger] is_digit(b[j])
            &&& (e == b.len() || !is_digit(b[e]))
            &&& digits_value(b.subrange(start, e)) == v
            &&& (b[start] == 48u8 ==> e == start + 1)
        }),
{
    let t = decimal_text(v as nat);
    let e = start + t.len();
    lemma_decimal_text(v as nat);
    assert forall|j: int| start <= j < e implies #[trigger] is_digit(b[j]) by {
        assert(b[j] == t[j - start]);
    }
    assert(b[start] == t[0]);
}

/// Two values cannot both fit at the same position.
proof fn lemma_field_unique(b: Seq<u8>, start: int, v: u8, l1: bool, w: u8, l2: bool)
    requires
        field_fits(b, start, v, l1),
        field_fits(b, start, w, l2),
    ensures
        v == w,
{
    lemma_field_run(b, start, v, l1);
    lemma_field_run(b, start, w, l2);
    let ev = start + decimal_text(v as nat).len();
    let ew = start + decimal_text(w as nat).len();
    if ev < ew {
        assert(is_digit(b[ev]));
    }
    if ew < ev {
        assert(is_digit(b[ew]));
    }
    assert(ev == ew);
    lemma_decimal_text_injective(v as nat, w as nat);
}

/// The four fields of an address's text, and where each starts.
proof fn lemma_text_fields(q: Ipv4Address)
    ensures
        ({
            let t = q.text();
            let p1: int = decimal_text(q.0 as nat).len() + 1int;
            let p2: int = p1 + decimal_text(q.1 as nat).len() + 1;
            let p3: int = p2 + decimal_text(q.2 as nat).len() + 1;
            &&& field_fits(t, 0, q.0, false)
            &&& field_fits(t, p1, q.1, false)
            &&& field_fits(t, p2, q.2, false)
            &&& field_fits(t, p3, q.3, true)
        }),
{
    let t = q.text();
    let d0 = decimal_text(q.0 as nat);
    let d1 = decimal_text(q.1 as nat);
    let d2 = decimal_text(q.2 as nat);
    let d3 = decimal_text(q.3 as nat);
    let p1: int = d0.len() + 1int;
    let p2: int = p1 + d1.len() + 1;
    let p3: int = p2 + d2.len() + 1;
    assert(t.len() == p3 + d3.len());
    assert(t.subrange(0, d0.len() as int) =~= d0);
    assert(t[d0.len() as int] == 46u8);
    assert(t.subrange(p1, p1 + d1.len()) =~= d1);
    assert(t[p1 + d1.len()] == 46u8);
    assert(t.subrange(p2, p2 + d2.len()) =~= d2);
    assert(t[p2 + d2.len()] == 46u8);
    assert(t.subrange(p3, p3 + d3.len()) =~= d3);
}

/// Four fields that fit one after another, the last ending the bytes, make
/// up the address's text.
proof fn lemma_fields_text(b: Seq<u8>, q: Ipv4Address)
    requires
        ({
            let p1: int = decimal_text(q.0 as nat).len() + 1int;
            let p2: int = p1 + decimal_text(q.1 as nat).len() + 1;
            let p3: int = p2 + decimal_text(q.2 as nat).len() + 1;
            &&& field_fits(b, 0, q.0, false)
            &&& field_fits(b, p1, q.1, false)
            &&& field_fits(b, p2, q.2, false)
            &&& field_fits(b, p3, q.3, true)
        }),
    ensures
        b == q.text(),
{
    let d0 = decimal_text(q.0 as nat);
    let d1 = decimal_text(q.1 as nat);
    let d2 = decimal_text(q.2 as nat);
    let d3 = decimal_text(q.3 as nat);
    let p1: int = d0.len() + 1int;
    let p2: int = p1 + d1.len() + 1;
    let p3: int = p2 + d2.len() + 1;
    let t = q.text();
    assert(b.len() == t.len());
    assert forall|j: int| 0 <= j < b.len() implies b[j] == t[j] by {
        if j < d0.len() {
            assert(b[j] == b.subrange(0, d0.len() as int)[j]);
        } else if j == d0.len() {
        } else if j < p1 + d1.len() {
            assert(b[j] == b.subrange(p1, p1 + d1.len())[j - p1]);
        } else if j == p1 + d1.len() {
        } else if j < p2 + d2.len() {
            assert(b[j] == b.subrange(p2, p2 + d2.len())[j - p2]);
        } else if j == p2 + d2.len() {
        } else {
            assert(b[j] == b.subrange(p3, p3 + d3.len())[j - p3]);
        }
    }
    assert(b =~= t);
}

/// Distinct addresses have distinct texts.
pub proof fn lemma_text_injective(q: Ipv4Address, r: Ipv4Address)
    requires
        q.text() == r.text(),
    ensures
        q == r,
{
    let t = q.text();
    lemma_text_fields(q);
    lemma_text_fields(r);
    lemma_field_unique(t, 0, q.0, false, r.0, false);
    let p1: int = decimal_text(q.0 as nat).len() + 1int;
    lemma_field_unique(t, p1, q.1, false, r.1, false);
    let p2: int = p1 + decimal_text(q.1 as nat).len() + 1;
    lemma_field_unique(t, p2, q.2, false, r.2, false);
    let p3: int = p2 + decimal_text(q.2 as nat).len() + 1;
    lemma_field_unique(t, p3, q.3, true, r.3, true);
}

/// Reading text gives back exactly the address whose canonical text it is:
/// `ipv4_from_text(t)` is `Some(q)` if and only if `t` is `q`'s text.
pub proof fn lemma_text_reads_back(t: Seq<u8>, q: Ipv4Address)
    ensures
        ipv4_from_text(t) == Some(q) <==> q.text() == t,
{
    if q.text() == t {
        let c = choose|c: Ipv4Address| #[trigger] c.text() == t;
        lemma_text_injective(c, q);
    }
}

/// Reads one octet at `start`, and the `'.'` after it unless it is the last.
fn read_field(b: &[u8], start: usize, last: bool) -> (r: Option<(u8, usize)>)
    requires
        start <= b@.len(),
    ensures
        r matches Some((v, next)) ==> field_fits(b@, start as int, v, last) && next == start
            + decimal_text(v as nat).len() + (if last {
            0int
        } else {
            1int
        }),
        r is None ==> forall|v: u8| !#[trigger] field_fits(b@, start as int, v, last),
{
    let n = b.len();
    let mut i = start;
    let mut acc: u32 = 0;
    while i < n && 48u8 <= b[i] && b[i] <= 57u8
        invariant
            start <= i <= n,
            n == b@.len(),
            all_digits(b@.subrange(start as int, i as int)),
            acc == digits_value(b@.subrange(start as int, i as int)),
            acc <= 255,
            i > start + 1 ==> b@[start as int] != 48u8,
        decreases n - i,
    {
        if i == start + 1 && b[start] == 48u8 {
            proof {
                assert forall|v: u8| !#[trigger] field_fits(b@, start as int, v, last) by {
                    if field_fits(b@, start as int, v, last) {
                        lemma_field_run(b@, start as int, v, last);
                    }
                }
            }
            return None;
        }
        proof {
            lemma_digit_step(b@, start as int, i as int);
        }
        acc = acc * 10 + (b[i] - 48u8) as u32;
        if acc > 255 {
            proof {
                assert forall|v: u8| !#[trigger] field_fits(b@, start as int, v, last) by {
                    if field_fits(b@, start as int, v, last) {
                        lemma_field_run(b@, start as int, v, last);
                        let e = start + decimal_text(v as nat).len();
                        if e <= i {
                            assert(is_digit(b@.subrange(start as int, i + 1)[e - start]));
                            assert(is_digit(b@[e]));
                        }
                        let d = b@.subrange(start as int, e);
                        assert(d.subrange(0, i + 1 - start) =~= b@.subrange(start as int, i + 1));
                        lemma_prefix_value_le(d, i + 1 - start);
                    }
                }
            }
            return None;
        }
        i = i + 1;
    }
    let ended = i == n || !(48u8 <= b[i] && b[i] <= 57u8);
    assert(ended);
    let delimited = if last {
        i == n
    } else {
        i < n && b[i] == 46u8
    };
    if i == start || !delimited {
        proof {
            assert forall|v: u8| !#[trigger] field_fits(b@, start as int, v, last) by {
                if field_fits(b@, start as int, v, last) {
                    lemma_field_run(b@, start as int, v, last);
                    let e = start + decimal_text(v as nat).len();
                    if e < i {
                        assert(is_digit(b@.subrange(start as int, i as int)[e - start]));
                    }
                    if i < e {
                        assert(is_digit(b@[i as int]));
                    }
                }
            }
        }
        return None;
    }
    let ghost d = b@.subrange(start as int, i as int);
    proof {
        lemma_canonical_digits(d);
        assert(d == decimal_text(acc as nat));
    }
    let next = if last {
        i
    } else {
        i + 1
    };
    Some((acc as u8, next))
}

/// Reads dotted-quad text as `Ipv4Addr::from_str` does: the result is the
/// address whose canonical text `s` is, and `None` when `s` is no address's
/// canonical text.
pub fn parse_ipv4(s: &str) -> (r: Option<Ipv4Address>)
    ensures
        r == ipv4_from_text(s.spec_bytes()),
        r matches Some(q) ==> q.text() == s.spec_bytes(),
        r is None ==> forall|q: Ipv4Address| #[trigger] q.text() != s.spec_bytes(),
{
    let b = s.as_bytes();
    let ghost t = b@;
    let f0 = read_field(b, 0, false);
    let (o0, p1) = match f0 {
        Some(f) => f,
        None => {
            proof {
                assert forall|q: Ipv4Address| #[trigger] q.text() != t by {
                    if q.text() == t {
                        lemma_text_fields(q);
                    }
                }
            }
            return None;
        },
    };
    let f1 = read_field(b, p1, false);
    let (o1, p2) = match f1 {
        Some(f) => f,
        None => {
            proof {
                assert forall|q: Ipv4Address| #[trigger] q.text() != t by {
                    if q.text() == t {
                        lemma_text_fields(q);
                        lemma_field_unique(t, 0, q.0, false, o0, false);
                    }
                }
            }
            return None;
        },
    };
    let f2 = read_field(b, p2, false);
    let (o2, p3) = match f2 {
        Some(f) => f,
        None => {
            proof {
                assert forall|q: Ipv4Address| #[trigger] q.text() != t by {
                    if q.text() == t {
                        lemma_text_fields(q);
                        lemma_field_unique(t, 0, q.0, false, o0, false);
                        lemma_field_unique(t, p1 as int, q.1, false, o1, false);
                    }
                }
            }
            return None;
        },
    };
    let f3 = read_field(b, p3, true);
    let (o3, _end) = match f3 {
        Some(f) => f,
        None => {
            proof {
                assert forall|q: Ipv4Address| #[trigger] q.text() != t by {
                    if q.text() == t {
                        lemma_text_fields(q);
                        lemma_field_unique(t, 0, q.0, false, o0, false);
                        lemma_field_unique(t, p1 as int, q.1, false, o1, false);
                        lemma_field_unique(t, p2 as int, q.2, false, o2, false);
                    }
                }
            }
            return None;
        },
    };
    let q = Ipv4Address(o0, o1, o2, o3);
    proof {
        lemma_fields_text(t, q);
        lemma_text_reads_back(t, q);
    }
    Some(q)
}

} // verus!
