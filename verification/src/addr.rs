use vstd::prelude::*;

verus! {

/// The byte `'.'`, separating the octets of a textual endpoint.
pub const DOT: u8 = 0x2e;

/// The byte `':'`, separating address from port in a textual endpoint.
pub const COLON: u8 = 0x3a;

/// The byte `'0'`.
pub const ZERO: u8 = 0x30;

/// An Internet address, held as plain values.
#[derive(Clone, Copy, PartialEq, Eq, Structural, Debug)]
pub enum Ip {
    /// The four octets of a version-4 address, most significant first.
    V4(u8, u8, u8, u8),
    /// The eight 16-bit segments of a version-6 address, most significant
    /// first.
    V6(u16, u16, u16, u16, u16, u16, u16, u16),
}

/// A network endpoint: one address and one port.
///
/// Every bound listener and every established stream reports such a value
/// for its local end, and a stream for its peer as well; the value is
/// immutable once obtained.
#[derive(Clone, Copy, PartialEq, Eq, Structural, Debug)]
pub struct Address {
    pub ip: Ip,
    pub port: u16,
}

impl Address {
    /// The endpoint with the given version-4 octets and port.
    pub fn v4(o1: u8, o2: u8, o3: u8, o4: u8, port: u16) -> (r: Self)
        ensures
            r.ip == Ip::V4(o1, o2, o3, o4),
            r.port == port,
    {
        Address { ip: Ip::V4(o1, o2, o3, o4), port }
    }

    /// The endpoint with the given version-6 segments and port.
    pub fn v6(
        s1: u16,
        s2: u16,
        s3: u16,
        s4: u16,
        s5: u16,
        s6: u16,
        s7: u16,
        s8: u16,
        port: u16,
    ) -> (r: Self)
        ensures
            r.ip == Ip::V6(s1, s2, s3, s4, s5, s6, s7, s8),
            r.port == port,
    {
        Address { ip: Ip::V6(s1, s2, s3, s4, s5, s6, s7, s8), port }
    }

    /// The port of this endpoint.
    pub fn port(&self) -> (r: u16)
        ensures
            r == self.port,
    {
        self.port
    }
}

/// Whether `b` is an ASCII decimal digit.
pub open spec fn is_digit(b: u8) -> bool {
    ZERO <= b <= 0x39
}

/// The numeric value of a digit byte.
pub open spec fn digit_val(b: u8) -> nat {
    (b - ZERO) as nat
}

/// The decimal spelling of `n`, most significant digit first, without
/// leading zeroes.
pub open spec fn dec_rep(n: nat) -> Seq<u8>
    decreases n,
{
    if n < 10 {
        seq![(ZERO + n) as u8]
    } else {
        dec_rep(n / 10).push((ZERO + n % 10) as u8)
    }
}

/// The number a sequence of digit bytes spells.
pub open spec fn dec_val(s: Seq<u8>) -> nat
    decreases s.len(),
{
    if s.len() == 0 {
        0
    } else {
        dec_val(s.drop_last()) * 10 + digit_val(s.last())
    }
}

/// Whether every byte of `s` is a decimal digit.
pub open spec fn all_digits(s: Seq<u8>) -> bool {
    forall|i: int| 0 <= i < s.len() ==> is_digit(s[i])
}

/// Whether `s` is the canonical decimal spelling of some number: nonempty,
/// digits only, and no leading zero except in "0" itself.
pub open spec fn is_canonical_dec(s: Seq<u8>) -> bool {
    &&& s.len() > 0
    &&& all_digits(s)
    &&& s.len() > 1 ==> s[0] != ZERO
}

/// The canonical spelling of `n` is canonical and spells `n`.
pub proof fn lemma_dec_rep_props(n: nat)
    ensures
        dec_rep(n).len() >= 1,
        all_digits(dec_rep(n)),
        n >= 1 ==> dec_rep(n)[0] != ZERO,
        n < 10 ==> dec_rep(n).len() == 1,
        is_canonical_dec(dec_rep(n)),
        dec_val(dec_rep(n)) == n,
    decreases n,
{
    if n < 10 {
        let s = dec_rep(n);
        assert(s == seq![(ZERO + n) as u8]);
        assert(s.drop_last() =~= Seq::<u8>::empty());
        assert(dec_val(Seq::<u8>::empty()) == 0);
        assert(dec_val(s) == dec_val(s.drop_last()) * 10 + digit_val(s.last()));
    } else {
        lemma_dec_rep_props(n / 10);
        let pre = dec_rep(n / 10);
        let s = dec_rep(n);
        assert(s == pre.push((ZERO + n % 10) as u8));
        assert(s.drop_last() =~= pre);
        assert(dec_val(s) == dec_val(pre) * 10 + digit_val(s.last()));
        assert(dec_val(s) == (n / 10) * 10 + n % 10);
        assert((n / 10) * 10 + n % 10 == n) by (nonlinear_arith);
        assert(s[0] == pre[0]);
        assert forall|i: int| 0 <= i < s.len() implies is_digit(s[i]) by {
            if i < pre.len() {
                assert(s[i] == pre[i]);
            }
        }
    }
}

/// A nonempty digit string with a nonzero leading digit spells a positive
/// number.
pub proof fn lemma_leading_nonzero_positive(s: Seq<u8>)
    requires
        s.len() >= 1,
        all_digits(s),
        s[0] != ZERO,
    ensures
        dec_val(s) >= 1,
    decreases s.len(),
{
    if s.len() == 1 {
        assert(s.drop_last() =~= Seq::<u8>::empty());
        assert(dec_val(Seq::<u8>::empty()) == 0);
        assert(dec_val(s) == dec_val(s.drop_last()) * 10 + digit_val(s.last()));
        assert(dec_val(s) == digit_val(s[0]));
    } else {
        let t = s.drop_last();
        assert forall|i: int| 0 <= i < t.len() implies is_digit(t[i]) by {
            assert(t[i] == s[i]);
        }
        assert(t[0] == s[0]);
        lemma_leading_nonzero_positive(t);
    }
}

/// A canonical digit string is the canonical spelling of the number it
/// spells: spelling and reading back are inverse.
pub proof fn lemma_canonical_inverse(s: Seq<u8>)
    requires
        is_canonical_dec(s),
    ensures
        dec_rep(dec_val(s)) == s,
    decreases s.len(),
{
    if s.len() == 1 {
        assert(s.drop_last() =~= Seq::<u8>::empty());
        assert(dec_val(Seq::<u8>::empty()) == 0);
        assert(dec_val(s) == dec_val(s.drop_last()) * 10 + digit_val(s.last()));
        assert(dec_val(s) == digit_val(s[0]));
        assert(dec_val(s) < 10);
        assert(dec_rep(dec_val(s)) =~= s);
    } else {
        let t = s.drop_last();
        assert forall|i: int| 0 <= i < t.len() implies is_digit(t[i]) by {
            assert(t[i] == s[i]);
        }
        assert(t[0] == s[0]);
        assert(is_canonical_dec(t));
        lemma_leading_nonzero_positive(t);
        let v = dec_val(s);
        assert(v == dec_val(t) * 10 + digit_val(s.last()));
        assert(v >= 10) by (nonlinear_arith)
            requires
                v == dec_val(t) * 10 + digit_val(s.last()),
                dec_val(t) >= 1,
        ;
        assert(v / 10 == dec_val(t) && v % 10 == digit_val(s.last())) by (nonlinear_arith)
            requires
                v == dec_val(t) * 10 + digit_val(s.last()),
                digit_val(s.last()) < 10,
        ;
        lemma_canonical_inverse(t);
        assert(dec_rep(v) == dec_rep(v / 10).push((ZERO + v % 10) as u8));
        assert((ZERO + v % 10) as u8 == s.last());
        assert(dec_rep(v) =~= s);
    }
}

/// The canonical text of a version-4 endpoint: four decimal octets joined
/// by `'.'`, then `':'` and the decimal port.
pub open spec fn v4_text_of(o1: u8, o2: u8, o3: u8, o4: u8, port: u16) -> Seq<u8> {
    dec_rep(o1 as nat) + seq![DOT] + dec_rep(o2 as nat) + seq![DOT] + dec_rep(o3 as nat)
        + seq![DOT] + dec_rep(o4 as nat) + seq![COLON] + dec_rep(port as nat)
}

/// The canonical text of an endpoint, when it has one: only version-4
/// endpoints have a textual form here.
pub open spec fn v4_text(a: Address) -> Seq<u8> {
    match a.ip {
        Ip::V4(o1, o2, o3, o4) => v4_text_of(o1, o2, o3, o4, a.port),
        Ip::V6(..) => Seq::<u8>::empty(),
    }
}

/// Appends the decimal spelling of `n` to `out`.
fn push_dec(out: &mut Vec<u8>, n: u16)
    ensures
        final(out)@ == old(out)@ + dec_rep(n as nat),
    decreases n,
{
    if n < 10 {
        out.push(ZERO + (n as u8));
        proof {
            assert(out@ =~= old(out)@ + dec_rep(n as nat));
        }
    } else {
        push_dec(out, n / 10);
        out.push(ZERO + ((n % 10) as u8));
        proof {
            assert(out@ =~= old(out)@ + dec_rep(n as nat));
        }
    }
}

/// One past the maximal run of digit bytes starting at `i`.
pub open spec fn digit_run_end(s: Seq<u8>, i: int) -> int
    decreases s.len() - i,
{
    if 0 <= i < s.len() && is_digit(s[i]) {
        digit_run_end(s, i + 1)
    } else {
        i
    }
}

/// If the bytes from `i` are a digit string `d` followed by the text's end
/// or a non-digit, then the digit run starting at `i` is exactly `d`.
pub proof fn lemma_run_is_segment(s: Seq<u8>, i: int, d: Seq<u8>)
    requires
        0 <= i,
        i + d.len() <= s.len(),
        forall|k: int| 0 <= k < d.len() ==> s[i + k] == d[k],
        all_digits(d),
        i + d.len() == s.len() || !is_digit(s[i + d.len()]),
    ensures
        digit_run_end(s, i) == i + d.len(),
        s.subrange(i, i + d.len()) == d,
    decreases d.len(),
{
    assert(s.subrange(i, i + d.len()) =~= d);
    if d.len() == 0 {
        assert(i == s.len() || !is_digit(s[i]));
    } else {
        assert(s[i] == d[0]);
        assert(is_digit(s[i]));
        let d2 = d.subrange(1, d.len() as int);
        assert forall|k: int| 0 <= k < d2.len() implies s[i + 1 + k] == d2[k] by {
            assert(d2[k] == d[k + 1]);
            assert(s[i + 1 + k] == d[k + 1]);
        }
        assert forall|k: int| 0 <= k < d2.len() implies is_digit(d2[k]) by {
            assert(d2[k] == d[k + 1]);
        }
        lemma_run_is_segment(s, i + 1, d2);
    }
}

/// Whether the byte at `j` is a decimal digit.
fn digit_at(s: &[u8], j: usize) -> (r: bool)
    requires
        j < s@.len(),
    ensures
        r == is_digit(s@[j as int]),
{
    let c: u8 = s[j];
    ZERO <= c && c <= 0x39
}

/// Scans the maximal digit run starting at `from`. Returns the run's value
/// when the run is a canonical spelling of a number no larger than `max`,
/// and in either case the position one past the run.
fn scan_dec(s: &[u8], from: usize, max: u32) -> (r: (Option<u32>, usize))
    requires
        from <= s@.len(),
        max <= 0xffff,
    ensures
        from <= r.1 <= s@.len(),
        r.1 == digit_run_end(s@, from as int),
        match r.0 {
            Some(v) => {
                &&& is_canonical_dec(s@.subrange(from as int, r.1 as int))
                &&& dec_val(s@.subrange(from as int, r.1 as int)) == v
                &&& v <= max
            },
            None => !(is_canonical_dec(s@.subrange(from as int, r.1 as int)) && dec_val(
                s@.subrange(from as int, r.1 as int),
            ) <= max),
        },
{
    let mut j: usize = from;
    let mut val: u32 = 0;
    let mut ok: bool = true;
    while j < s.len() && digit_at(s, j)
        invariant
            from <= j <= s@.len(),
            max <= 0xffff,
            forall|k: int| from <= k < j ==> is_digit(s@[k]),
            digit_run_end(s@, from as int) == digit_run_end(s@, j as int),
            ok ==> val == dec_val(s@.subrange(from as int, j as int)) && val <= max,
            !ok ==> dec_val(s@.subrange(from as int, j as int)) > max,
        decreases s@.len() - j,
    {
        let d: u8 = s[j] - ZERO;
        proof {
            let pre = s@.subrange(from as int, j as int);
            let post = s@.subrange(from as int, j as int + 1);
            assert(post.drop_last() =~= pre);
            assert(post.last() == s@[j as int]);
            assert(dec_val(post) == dec_val(pre) * 10 + digit_val(s@[j as int]));
            if !ok {
                assert(dec_val(post) > max) by (nonlinear_arith)
                    requires
                        dec_val(post) == dec_val(pre) * 10 + digit_val(s@[j as int]),
                        dec_val(pre) > max,
                ;
            }
        }
        if ok {
            let cand: u32 = val * 10 + (d as u32);
            if cand <= max {
                val = cand;
            } else {
                ok = false;
            }
        }
        j = j + 1;
    }
    proof {
        assert(digit_run_end(s@, j as int) == j as int);
    }
    if j == from {
        return (None, j);
    }
    let first: u8 = s[from];
    if first == ZERO && j - from > 1 {
        proof {
            let seg = s@.subrange(from as int, j as int);
            assert(seg[0] == s@[from as int]);
        }
        return (None, j);
    }
    if ok {
        (Some(val), j)
    } else {
        (None, j)
    }
}

/// The canonical text of a version-4 endpoint splits back into its five
/// decimal segments: each digit run ends exactly where the next separator
/// stands, and spells the corresponding octet or the port.
pub proof fn lemma_v4_text_decomposition(o1: u8, o2: u8, o3: u8, o4: u8, port: u16, s: Seq<u8>)
    requires
        s == v4_text_of(o1, o2, o3, o4, port),
    ensures
        ({
            let b1 = dec_rep(o1 as nat);
            let b2 = dec_rep(o2 as nat);
            let b3 = dec_rep(o3 as nat);
            let b4 = dec_rep(o4 as nat);
            let bp = dec_rep(port as nat);
            let p1 = b1.len() as int;
            let q2 = p1 + 1;
            let p2 = q2 + b2.len();
            let q3 = p2 + 1;
            let p3 = q3 + b3.len();
            let q4 = p3 + 1;
            let p4 = q4 + b4.len();
            let q5 = p4 + 1;
            &&& s.len() == q5 + bp.len()
            &&& digit_run_end(s, 0) == p1
            &&& s.subrange(0, p1) == b1
            &&& s[p1] == DOT
            &&& digit_run_end(s, q2) == p2
            &&& s.subrange(q2, p2) == b2
            &&& s[p2] == DOT
            &&& digit_run_end(s, q3) == p3
            &&& s.subrange(q3, p3) == b3
            &&& s[p3] == DOT
            &&& digit_run_end(s, q4) == p4
            &&& s.subrange(q4, p4) == b4
            &&& s[p4] == COLON
            &&& digit_run_end(s, q5) == s.len()
            &&& s.subrange(q5, s.len() as int) == bp
        }),
{
    let b1 = dec_rep(o1 as nat);
    let b2 = dec_rep(o2 as nat);
    let b3 = dec_rep(o3 as nat);
    let b4 = dec_rep(o4 as nat);
    let bp = dec_rep(port as nat);
    lemma_dec_rep_props(o1 as nat);
    lemma_dec_rep_props(o2 as nat);
    lemma_dec_rep_props(o3 as nat);
    lemma_dec_rep_props(o4 as nat);
    lemma_dec_rep_props(port as nat);
    let t1 = b1 + seq![DOT];
    let t2 = t1 + b2;
    let t3 = t2 + seq![DOT];
    let t4 = t3 + b3;
    let t5 = t4 + seq![DOT];
    let t6 = t5 + b4;
    let t7 = t6 + seq![COLON];
    assert(s == t7 + bp);
    let p1 = b1.len() as int;
    let q2 = p1 + 1;
    let p2 = q2 + b2.len();
    let q3 = p2 + 1;
    let p3 = q3 + b3.len();
    let q4 = p3 + 1;
    let p4 = q4 + b4.len();
    let q5 = p4 + 1;
    assert(s.len() == q5 + bp.len());
    assert forall|k: int| 0 <= k < b1.len() implies s[k] == b1[k] by {
        assert(t1[k] == b1[k]);
        assert(t2[k] == t1[k]);
        assert(t3[k] == t2[k]);
        assert(t4[k] == t3[k]);
        assert(t5[k] == t4[k]);
        assert(t6[k] == t5[k]);
        assert(t7[k] == t6[k]);
        assert(s[k] == t7[k]);
    }
    assert(t1[p1] == DOT);
    assert(s[p1] == t7[p1]);
    assert(t7[p1] == t6[p1]);
    assert(t6[p1] == t5[p1]);
    assert(t5[p1] == t4[p1]);
    assert(t4[p1] == t3[p1]);
    assert(t3[p1] == t2[p1]);
    assert(t2[p1] == t1[p1]);
    assert(!is_digit(DOT));
    lemma_run_is_segment(s, 0, b1);
    assert forall|k: int| 0 <= k < b2.len() implies s[q2 + k] == b2[k] by {
        assert(t2[q2 + k] == b2[k]);
        assert(t3[q2 + k] == t2[q2 + k]);
        assert(t4[q2 + k] == t3[q2 + k]);
        assert(t5[q2 + k] == t4[q2 + k]);
        assert(t6[q2 + k] == t5[q2 + k]);
        assert(t7[q2 + k] == t6[q2 + k]);
        assert(s[q2 + k] == t7[q2 + k]);
    }
    assert(t3[p2] == DOT);
    assert(s[p2] == t7[p2]);
    assert(t7[p2] == t6[p2]);
    assert(t6[p2] == t5[p2]);
    assert(t5[p2] == t4[p2]);
    assert(t4[p2] == t3[p2]);
    lemma_run_is_segment(s, q2, b2);
    assert forall|k: int| 0 <= k < b3.len() implies s[q3 + k] == b3[k] by {
        assert(t4[q3 + k] == b3[k]);
        assert(t5[q3 + k] == t4[q3 + k]);
        assert(t6[q3 + k] == t5[q3 + k]);
        assert(t7[q3 + k] == t6[q3 + k]);
        assert(s[q3 + k] == t7[q3 + k]);
    }
    assert(t5[p3] == DOT);
    assert(s[p3] == t7[p3]);
    assert(t7[p3] == t6[p3]);
    assert(t6[p3] == t5[p3]);
    lemma_run_is_segment(s, q3, b3);
    assert forall|k: int| 0 <= k < b4.len() implies s[q4 + k] == b4[k] by {
        assert(t6[q4 + k] == b4[k]);
        assert(t7[q4 + k] == t6[q4 + k]);
        assert(s[q4 + k] == t7[q4 + k]);
    }
    assert(t7[p4] == COLON);
    assert(s[p4] == t7[p4]);
    assert(!is_digit(COLON));
    lemma_run_is_segment(s, q4, b4);
    assert forall|k: int| 0 <= k < bp.len() implies s[q5 + k] == bp[k] by {
        assert(s[q5 + k] == bp[k]);
    }
    lemma_run_is_segment(s, q5, bp);
}

/// Two version-4 endpoints with the same canonical text are the same
/// endpoint: the textual form identifies an endpoint uniquely.
pub proof fn lemma_v4_text_injective(a: Address, b: Address)
    requires
        a.ip is V4,
        b.ip is V4,
        v4_text(a) == v4_text(b),
    ensures
        a == b,
{
    let s = v4_text(a);
    match a.ip {
        Ip::V4(x1, x2, x3, x4) => {
            match b.ip {
                Ip::V4(y1, y2, y3, y4) => {
                    lemma_v4_text_decomposition(x1, x2, x3, x4, a.port, s);
                    lemma_v4_text_decomposition(y1, y2, y3, y4, b.port, s);
                    lemma_dec_rep_props(x1 as nat);
                    lemma_dec_rep_props(x2 as nat);
                    lemma_dec_rep_props(x3 as nat);
                    lemma_dec_rep_props(x4 as nat);
                    lemma_dec_rep_props(a.port as nat);
                    lemma_dec_rep_props(y1 as nat);
                    lemma_dec_rep_props(y2 as nat);
                    lemma_dec_rep_props(y3 as nat);
                    lemma_dec_rep_props(y4 as nat);
                    lemma_dec_rep_props(b.port as nat);
                    assert(dec_rep(x1 as nat) == dec_rep(y1 as nat));
                    assert(dec_rep(x2 as nat) == dec_rep(y2 as nat));
                    assert(dec_rep(x3 as nat) == dec_rep(y3 as nat));
                    assert(dec_rep(x4 as nat) == dec_rep(y4 as nat));
                    assert(dec_rep(a.port as nat) == dec_rep(b.port as nat));
                },
                Ip::V6(..) => {},
            }
        },
        Ip::V6(..) => {},
    }
}

/// Parses the canonical text of a version-4 endpoint, such as
/// `127.0.0.1:8080`. Returns the endpoint exactly when the text is the
/// canonical form of one — four decimal octets joined by `'.'`, a `':'`,
/// and a decimal port, each number without leading zeroes and in range —
/// and `None` for every other text.
#[verifier::rlimit(100)]
pub fn parse_v4(s: &[u8]) -> (r: Option<Address>)
    ensures
        match r {
            Some(a) => a.ip is V4 && s@ == v4_text(a),
            None => forall|a: Address| a.ip is V4 ==> s@ != v4_text(a),
        },
{
    let (v1, e1) = scan_dec(s, 0, 255);
    let o1: u32 = match v1 {
        Some(v) => v,
        None => {
            proof {
                assert forall|a: Address| a.ip is V4 implies s@ != v4_text(a) by {
                    if s@ == v4_text(a) {
                        match a.ip {
                            Ip::V4(x1, x2, x3, x4) => {
                                lemma_v4_text_decomposition(x1, x2, x3, x4, a.port, s@);
                                lemma_dec_rep_props(x1 as nat);
                            },
                            Ip::V6(..) => {},
                        }
                    }
                }
            }
            return None;
        },
    };
    if e1 >= s.len() || s[e1] != DOT {
        proof {
            assert forall|a: Address| a.ip is V4 implies s@ != v4_text(a) by {
                if s@ == v4_text(a) {
                    match a.ip {
                        Ip::V4(x1, x2, x3, x4) => {
                            lemma_v4_text_decomposition(x1, x2, x3, x4, a.port, s@);
                        },
                        Ip::V6(..) => {},
                    }
                }
            }
        }
        return None;
    }
    let (v2, e2) = scan_dec(s, e1 + 1, 255);
    let o2: u32 = match v2 {
        Some(v) => v,
        None => {
            proof {
                assert forall|a: Address| a.ip is V4 implies s@ != v4_text(a) by {
                    if s@ == v4_text(a) {
                        match a.ip {
                            Ip::V4(x1, x2, x3, x4) => {
                                lemma_v4_text_decomposition(x1, x2, x3, x4, a.port, s@);
                                lemma_dec_rep_props(x2 as nat);
                            },
                            Ip::V6(..) => {},
                        }
                    }
                }
            }
            return None;
        },
    };
    if e2 >= s.len() || s[e2] != DOT {
        proof {
            assert forall|a: Address| a.ip is V4 implies s@ != v4_text(a) by {
                if s@ == v4_text(a) {
                    match a.ip {
                        Ip::V4(x1, x2, x3, x4) => {
                            lemma_v4_text_decomposition(x1, x2, x3, x4, a.port, s@);
                        },
                        Ip::V6(..) => {},
                    }
                }
            }
        }
        return None;
    }
    let (v3, e3) = scan_dec(s, e2 + 1, 255);
    let o3: u32 = match v3 {
        Some(v) => v,
        None => {
            proof {
                assert forall|a: Address| a.ip is V4 implies s@ != v4_text(a) by {
                    if s@ == v4_text(a) {
                        match a.ip {
                            Ip::V4(x1, x2, x3, x4) => {
                                lemma_v4_text_decomposition(x1, x2, x3, x4, a.port, s@);
                                lemma_dec_rep_props(x3 as nat);
                            },
                            Ip::V6(..) => {},
                        }
                    }
                }
            }
            return None;
        },
    };
    if e3 >= s.len() || s[e3] != DOT {
        proof {
            assert forall|a: Address| a.ip is V4 implies s@ != v4_text(a) by {
                if s@ == v4_text(a) {
                    match a.ip {
                        Ip::V4(x1, x2, x3, x4) => {
                            lemma_v4_text_decomposition(x1, x2, x3, x4, a.port, s@);
                        },
                        Ip::V6(..) => {},
                    }
                }
            }
        }
        return None;
    }
    let (v4, e4) = scan_dec(s, e3 + 1, 255);
    let o4: u32 = match v4 {
        Some(v) => v,
        None => {
            proof {
                assert forall|a: Address| a.ip is V4 implies s@ != v4_text(a) by {
                    if s@ == v4_text(a) {
                        match a.ip {
                            Ip::V4(x1, x2, x3, x4) => {
                                lemma_v4_text_decomposition(x1, x2, x3, x4, a.port, s@);
                                lemma_dec_rep_props(x4 as nat);
                            },
                            Ip::V6(..) => {},
                        }
                    }
                }
            }
            return None;
        },
    };
    if e4 >= s.len() || s[e4] != COLON {
        proof {
            assert forall|a: Address| a.ip is V4 implies s@ != v4_text(a) by {
                if s@ == v4_text(a) {
                    match a.ip {
                        Ip::V4(x1, x2, x3, x4) => {
                            lemma_v4_text_decomposition(x1, x2, x3, x4, a.port, s@);
                        },
                        Ip::V6(..) => {},
                    }
                }
            }
        }
        return None;
    }
    let (vp, e5) = scan_dec(s, e4 + 1, 0xffff);
    let p: u32 = match vp {
        Some(v) => v,
        None => {
            proof {
                assert forall|a: Address| a.ip is V4 implies s@ != v4_text(a) by {
                    if s@ == v4_text(a) {
                        match a.ip {
                            Ip::V4(x1, x2, x3, x4) => {
                                lemma_v4_text_decomposition(x1, x2, x3, x4, a.port, s@);
                                lemma_dec_rep_props(a.port as nat);
                            },
                            Ip::V6(..) => {},
                        }
                    }
                }
            }
            return None;
        },
    };
    if e5 != s.len() {
        proof {
            assert forall|a: Address| a.ip is V4 implies s@ != v4_text(a) by {
                if s@ == v4_text(a) {
                    match a.ip {
                        Ip::V4(x1, x2, x3, x4) => {
                            lemma_v4_text_decomposition(x1, x2, x3, x4, a.port, s@);
                        },
                        Ip::V6(..) => {},
                    }
                }
            }
        }
        return None;
    }
    let addr = Address::v4(o1 as u8, o2 as u8, o3 as u8, o4 as u8, p as u16);
    proof {
        let b1 = s@.subrange(0, e1 as int);
        let b2 = s@.subrange(e1 as int + 1, e2 as int);
        let b3 = s@.subrange(e2 as int + 1, e3 as int);
        let b4 = s@.subrange(e3 as int + 1, e4 as int);
        let bp = s@.subrange(e4 as int + 1, e5 as int);
        lemma_canonical_inverse(b1);
        lemma_canonical_inverse(b2);
        lemma_canonical_inverse(b3);
        lemma_canonical_inverse(b4);
        lemma_canonical_inverse(bp);
        assert((o1 as u8) as nat == dec_val(b1));
        assert((o2 as u8) as nat == dec_val(b2));
        assert((o3 as u8) as nat == dec_val(b3));
        assert((o4 as u8) as nat == dec_val(b4));
        assert((p as u16) as nat == dec_val(bp));
        assert(v4_text(addr) == b1 + seq![DOT] + b2 + seq![DOT] + b3 + seq![DOT] + b4
            + seq![COLON] + bp);
        assert(s@ =~= b1 + seq![DOT] + b2 + seq![DOT] + b3 + seq![DOT] + b4 + seq![COLON] + bp);
    }
    Some(addr)
}

impl Address {
    /// The canonical text of this endpoint, such as `127.0.0.1:8080`, for a
    /// version-4 endpoint; version-6 endpoints have no textual form here.
    pub fn render_v4(&self) -> (r: Option<Vec<u8>>)
        ensures
            match r {
                Some(t) => self.ip is V4 && t@ == v4_text(*self),
                None => !(self.ip is V4),
            },
    {
        match self.ip {
            Ip::V4(o1, o2, o3, o4) => {
                let mut out: Vec<u8> = Vec::new();
                push_dec(&mut out, o1 as u16);
                out.push(DOT);
                push_dec(&mut out, o2 as u16);
                out.push(DOT);
                push_dec(&mut out, o3 as u16);
                out.push(DOT);
                push_dec(&mut out, o4 as u16);
                out.push(COLON);
                push_dec(&mut out, self.port);
                proof {
                    assert(out@ =~= v4_text(*self));
                }
                Some(out)
            },
            Ip::V6(..) => None,
        }
    }
}

} // verus!
