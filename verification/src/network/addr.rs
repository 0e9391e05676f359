//! IPv4 addresses as dotted-decimal text and as 32-bit integers.

use vstd::prelude::*;

verus! {

/// The character that writes the decimal digit `d` (`0 <= d < 10`).
pub open spec fn digit_char(d: int) -> char {
    if d == 0 {
        '0'
    } else if d == 1 {
        '1'
    } else if d == 2 {
        '2'
    } else if d == 3 {
        '3'
    } else if d == 4 {
        '4'
    } else if d == 5 {
        '5'
    } else if d == 6 {
        '6'
    } else if d == 7 {
        '7'
    } else if d == 8 {
        '8'
    } else {
        '9'
    }
}

/// The shortest decimal text of one octet: no sign, no leading zero.
pub open spec fn octet_text(n: u8) -> Seq<char> {
    if n < 10 {
        seq![digit_char(n as int)]
    } else if n < 100 {
        seq![digit_char(n as int / 10), digit_char(n as int % 10)]
    } else {
        seq![digit_char(n as int / 100), digit_char((n as int / 10) % 10), digit_char(n as int % 10)]
    }
}

/// The octets `os` written in decimal and joined by dots.
pub open spec fn dotted(os: Seq<u8>) -> Seq<char>
    decreases os.len(),
{
    if os.len() == 0 {
        Seq::empty()
    } else if os.len() == 1 {
        octet_text(os[0])
    } else {
        octet_text(os[0]) + seq!['.'] + dotted(os.drop_first())
    }
}

/// The four octets of `x`, most significant first.
pub open spec fn be_octets(x: u32) -> Seq<u8> {
    seq![
        (x as int / 0x100_0000) as u8,
        ((x as int / 0x1_0000) % 256) as u8,
        ((x as int / 256) % 256) as u8,
        (x as int % 256) as u8,
    ]
}

/// The four octets of `x`, least significant first.
pub open spec fn le_octets(x: u32) -> Seq<u8> {
    seq![
        (x as int % 256) as u8,
        ((x as int / 256) % 256) as u8,
        ((x as int / 0x1_0000) % 256) as u8,
        (x as int / 0x100_0000) as u8,
    ]
}

/// The number whose octets, most significant first, are `os`.
pub open spec fn octets_value(os: Seq<u8>) -> int {
    os[0] * 0x100_0000 + os[1] * 0x1_0000 + os[2] * 256 + os[3]
}

/// What an IPv4 text denotes: `Some` of the address exactly when `s` is four
/// octets written in shortest decimal and separated by dots.
pub open spec fn spec_parse_ipv4(s: Seq<char>) -> Option<u32> {
    if exists|os: Seq<u8>| os.len() == 4 && s == dotted(os) {
        let os = choose|os: Seq<u8>| os.len() == 4 && s == dotted(os);
        Some(octets_value(os) as u32)
    } else {
        None
    }
}

fn digit_str(d: u8) -> (s: &'static str)
    requires
        d < 10,
    ensures
        s@ == seq![digit_char(d as int)],
{
    if d == 0 {
        proof { reveal_strlit("0"); }
        "0"
    } else if d == 1 {
        proof { reveal_strlit("1"); }
        "1"
    } else if d == 2 {
        proof { reveal_strlit("2"); }
        "2"
    } else if d == 3 {
        proof { reveal_strlit("3"); }
        "3"
    } else if d == 4 {
        proof { reveal_strlit("4"); }
        "4"
    } else if d == 5 {
        proof { reveal_strlit("5"); }
        "5"
    } else if d == 6 {
        proof { reveal_strlit("6"); }
        "6"
    } else if d == 7 {
        proof { reveal_strlit("7"); }
        "7"
    } else if d == 8 {
        proof { reveal_strlit("8"); }
        "8"
    } else {
        proof { reveal_strlit("9"); }
        "9"
    }
}

fn push_octet(s: &mut String, n: u8)
    ensures
        final(s)@ == old(s)@ + octet_text(n),
{
    if n >= 100 {
        s.append(digit_str(n / 100));
    }
    if n >= 10 {
        s.append(digit_str((n / 10) % 10));
    }
    s.append(digit_str(n % 10));
}

fn dotted_string(a: u8, b: u8, c: u8, d: u8) -> (s: String)
    ensures
        s@ == dotted(seq![a, b, c, d]),
{
    let mut s = String::new();
    proof { reveal_strlit("."); }
    push_octet(&mut s, a);
    s.append(".");
    push_octet(&mut s, b);
    s.append(".");
    push_octet(&mut s, c);
    s.append(".");
    push_octet(&mut s, d);
    proof {
        let os = seq![a, b, c, d];
        assert(os.drop_first() =~= seq![b, c, d]);
        assert(seq![b, c, d].drop_first() =~= seq![c, d]);
        assert(seq![c, d].drop_first() =~= seq![d]);
        assert(dotted(seq![d]) == octet_text(d));
        assert(dotted(seq![c, d]) == octet_text(c) + seq!['.'] + octet_text(d));
        assert(dotted(seq![b, c, d]) == octet_text(b) + seq!['.'] + dotted(seq![c, d]));
        assert(dotted(os) == octet_text(a) + seq!['.'] + dotted(seq![b, c, d]));
        assert(s@ =~= dotted(os));
    }
    s
}

/// Writes `ip` as dotted-decimal text, most significant octet first.
pub fn u32_to_ipv4(ip: u32) -> (s: String)
    ensures
        s@ == dotted(be_octets(ip)),
{
    let s = dotted_string(
        (ip / 0x100_0000) as u8,
        ((ip / 0x1_0000) % 256) as u8,
        ((ip / 256) % 256) as u8,
        (ip % 256) as u8,
    );
    assert(be_octets(ip) =~= seq![
        (ip / 0x100_0000) as u8,
        ((ip / 0x1_0000) % 256) as u8,
        ((ip / 256) % 256) as u8,
        (ip % 256) as u8,
    ]);
    s
}

/// Writes `ip` as dotted-decimal text, least significant octet first.
pub fn u32_to_ipv4_le(ip: u32) -> (s: String)
    ensures
        s@ == dotted(le_octets(ip)),
{
    let s = dotted_string(
        (ip % 256) as u8,
        ((ip / 256) % 256) as u8,
        ((ip / 0x1_0000) % 256) as u8,
        (ip / 0x100_0000) as u8,
    );
    assert(le_octets(ip) =~= seq![
        (ip % 256) as u8,
        ((ip / 256) % 256) as u8,
        ((ip / 0x1_0000) % 256) as u8,
        (ip / 0x100_0000) as u8,
    ]);
    s
}

/// The number whose octets, most significant first, are `os`, read from the
/// left one octet at a time.
pub open spec fn octets_prefix_value(os: Seq<u8>) -> int
    decreases os.len(),
{
    if os.len() == 0 {
        0
    } else {
        octets_prefix_value(os.drop_last()) * 256 + os.last()
    }
}

/// Upper bound of `octets_prefix_value` for `k` octets (`256` to the `k`).
pub open spec fn octets_bound(k: int) -> int {
    if k <= 0 {
        1
    } else if k == 1 {
        0x100
    } else if k == 2 {
        0x1_0000
    } else if k == 3 {
        0x100_0000
    } else {
        0x1_0000_0000
    }
}

proof fn lemma_digit_char_injective(x: int, y: int)
    requires
        0 <= x < 10,
        0 <= y < 10,
        digit_char(x) == digit_char(y),
    ensures
        x == y,
{
}

proof fn lemma_octet_text_shape(n: u8)
    ensures
        1 <= octet_text(n).len() <= 3,
        forall|i: int| 0 <= i < octet_text(n).len() ==> #[trigger] octet_text(n)[i] != '.',
{
}

proof fn lemma_octet_text_injective(a: u8, b: u8)
    requires
        octet_text(a) == octet_text(b),
    ensures
        a == b,
{
    let ta = octet_text(a);
    let tb = octet_text(b);
    assert(ta.len() == tb.len());
    if a < 10 {
        assert(ta[0] == tb[0]);
        lemma_digit_char_injective(a as int, b as int);
    } else if a < 100 {
        assert(ta[0] == tb[0] && ta[1] == tb[1]);
        lemma_digit_char_injective(a as int / 10, b as int / 10);
        lemma_digit_char_injective(a as int % 10, b as int % 10);
    } else {
        assert(ta[0] == tb[0] && ta[1] == tb[1] && ta[2] == tb[2]);
        lemma_digit_char_injective(a as int / 100, b as int / 100);
        lemma_digit_char_injective((a as int / 10) % 10, (b as int / 10) % 10);
        lemma_digit_char_injective(a as int % 10, b as int % 10);
    }
}

proof fn lemma_dotted_push(os: Seq<u8>, n: u8)
    requires
        os.len() >= 1,
    ensures
        dotted(os.push(n)) == dotted(os) + seq!['.'] + octet_text(n),
    decreases os.len(),
{
    if os.len() == 1 {
        assert(os.push(n).drop_first() =~= seq![n]);
        assert(dotted(seq![n]) == octet_text(n));
    } else {
        assert(os.push(n).drop_first() =~= os.drop_first().push(n));
        lemma_dotted_push(os.drop_first(), n);
        assert(dotted(os.push(n)) =~= dotted(os) + seq!['.'] + octet_text(n));
    }
}

proof fn lemma_dotted_len(os: Seq<u8>)
    requires
        os.len() >= 1,
    ensures
        dotted(os).len() <= 4 * os.len() - 1,
    decreases os.len(),
{
    lemma_octet_text_shape(os[0]);
    if os.len() > 1 {
        lemma_dotted_len(os.drop_first());
    }
}

/// Dotted text names its octets: two sequences of octets with the same text
/// are equal.
proof fn lemma_dotted_injective(a: Seq<u8>, b: Seq<u8>)
    requires
        a.len() >= 1,
        b.len() >= 1,
        dotted(a) == dotted(b),
    ensures
        a == b,
    decreases a.len() + b.len(),
{
    let ta = octet_text(a[0]);
    let tb = octet_text(b[0]);
    lemma_octet_text_shape(a[0]);
    lemma_octet_text_shape(b[0]);
    if a.len() == 1 && b.len() == 1 {
        lemma_octet_text_injective(a[0], b[0]);
        assert(a =~= b);
    } else if a.len() == 1 {
        assert(dotted(b)[tb.len() as int] == '.');
        if tb.len() < ta.len() {
            assert(ta[tb.len() as int] != '.');
        }
        assert(false);
    } else if b.len() == 1 {
        assert(dotted(a)[ta.len() as int] == '.');
        if ta.len() < tb.len() {
            assert(tb[ta.len() as int] != '.');
        }
        assert(false);
    } else {
        let s = dotted(a);
        assert(s[ta.len() as int] == '.');
        assert(s[tb.len() as int] == '.');
        if ta.len() < tb.len() {
            assert(tb[ta.len() as int] != '.');
            assert(false);
        }
        if tb.len() < ta.len() {
            assert(ta[tb.len() as int] != '.');
            assert(false);
        }
        assert(ta =~= s.subrange(0, ta.len() as int));
        assert(tb =~= s.subrange(0, tb.len() as int));
        lemma_octet_text_injective(a[0], b[0]);
        assert(dotted(a.drop_first()) =~= s.subrange(ta.len() as int + 1, s.len() as int));
        assert(dotted(b.drop_first()) =~= s.subrange(tb.len() as int + 1, s.len() as int));
        lemma_dotted_injective(a.drop_first(), b.drop_first());
        assert(a =~= seq![a[0]] + a.drop_first());
        assert(b =~= seq![b[0]] + b.drop_first());
    }
}

proof fn lemma_prefix_value_of_four(os: Seq<u8>)
    requires
        os.len() == 4,
    ensures
        octets_prefix_value(os) == octets_value(os),
{
    let d1 = os.drop_last();
    let d2 = d1.drop_last();
    let d3 = d2.drop_last();
    assert(d3.drop_last().len() == 0);
    assert(octets_prefix_value(d3.drop_last()) == 0);
    assert(octets_prefix_value(d3) == octets_prefix_value(d3.drop_last()) * 256 + d3.last());
    assert(octets_prefix_value(d2) == octets_prefix_value(d3) * 256 + d2.last());
    assert(octets_prefix_value(d1) == octets_prefix_value(d2) * 256 + d1.last());
    assert(octets_prefix_value(os) == octets_prefix_value(d1) * 256 + os.last());
    assert(d3.last() == os[0] && d2.last() == os[1] && d1.last() == os[2] && os.last() == os[3]);
}

fn digit_of(c: char) -> (r: Option<u8>)
    ensures
        match r {
            Some(d) => d < 10 && c == digit_char(d as int),
            None => forall|d: int| 0 <= d < 10 ==> c != #[trigger] digit_char(d),
        },
{
    match c {
        '0' => Some(0),
        '1' => Some(1),
        '2' => Some(2),
        '3' => Some(3),
        '4' => Some(4),
        '5' => Some(5),
        '6' => Some(6),
        '7' => Some(7),
        '8' => Some(8),
        '9' => Some(9),
        _ => None,
    }
}

/// Reads the octet written at `s[start..end]`, if that text is the shortest
/// decimal text of an octet.
fn octet_at(s: &str, start: usize, end: usize) -> (r: Option<u8>)
    requires
        start <= end <= s@.len(),
    ensures
        match r {
            Some(n) => s@.subrange(start as int, end as int) == octet_text(n),
            None => forall|n: u8| s@.subrange(start as int, end as int) != #[trigger] octet_text(n),
        },
{
    let ghost t = s@.subrange(start as int, end as int);
    proof {
        assert forall|n: u8| #[trigger] octet_text(n) == t implies t.len() == octet_text(n).len() by {}
    }
    if end - start == 0 || end - start > 3 {
        proof {
            assert forall|n: u8| t != #[trigger] octet_text(n) by {
                lemma_octet_text_shape(n);
            }
        }
        return None;
    }
    let c0 = s.get_char(start);
    assert(c0 == t[0]);
    let d0 = match digit_of(c0) {
        Some(d) => d,
        None => {
            proof {
                assert forall|n: u8| t != #[trigger] octet_text(n) by {
                    if t == octet_text(n) {
                        if n < 10 {
                            assert(c0 == digit_char(n as int));
                        } else if n < 100 {
                            assert(c0 == digit_char(n as int / 10));
                        } else {
                            assert(c0 == digit_char(n as int / 100));
                        }
                    }
                }
            }
            return None;
        },
    };
    if end - start == 1 {
        assert(t =~= octet_text(d0));
        return Some(d0);
    }
    let c1 = s.get_char(start + 1);
    assert(c1 == t[1]);
    let d1 = match digit_of(c1) {
        Some(d) => d,
        None => {
            proof {
                assert forall|n: u8| t != #[trigger] octet_text(n) by {
                    if t == octet_text(n) {
                        if n < 100 {
                            assert(c1 == digit_char(n as int % 10));
                        } else {
                            assert(c1 == digit_char((n as int / 10) % 10));
                        }
                    }
                }
            }
            return None;
        },
    };
    if d0 == 0 {
        proof {
            assert forall|n: u8| t != #[trigger] octet_text(n) by {
                if t == octet_text(n) {
                    if n < 100 {
                        lemma_digit_char_injective(n as int / 10, 0);
                    } else {
                        lemma_digit_char_injective(n as int / 100, 0);
                    }
                }
            }
        }
        return None;
    }
    if end - start == 2 {
        let n = 10 * d0 + d1;
        assert(t =~= octet_text(n));
        return Some(n);
    }
    let c2 = s.get_char(start + 2);
    assert(c2 == t[2]);
    let d2 = match digit_of(c2) {
        Some(d) => d,
        None => {
            proof {
                assert forall|n: u8| t != #[trigger] octet_text(n) by {
                    if t == octet_text(n) {
                        assert(c2 == digit_char(n as int % 10));
                    }
                }
            }
            return None;
        },
    };
    let v: u32 = 100 * d0 as u32 + 10 * d1 as u32 + d2 as u32;
    if v > 255 {
        proof {
            assert forall|n: u8| t != #[trigger] octet_text(n) by {
                if t == octet_text(n) {
                    lemma_digit_char_injective(n as int / 100, d0 as int);
                    lemma_digit_char_injective((n as int / 10) % 10, d1 as int);
                    lemma_digit_char_injective(n as int % 10, d2 as int);
                }
            }
        }
        return None;
    }
    let n = v as u8;
    assert(t =~= octet_text(n));
    Some(n)
}

/// What is left of the text of the octets `t` once `k` of them are read.
pub open spec fn rest_text(t: Seq<u8>, k: int) -> Seq<char> {
    if k == 0 {
        dotted(t)
    } else if k < 4 {
        seq!['.'] + dotted(t.skip(k))
    } else {
        Seq::empty()
    }
}

/// One octet of a dotted text: a run of non-dot characters that starts at
/// `start`, and that stops at `end` before a dot, at the end, or after four
/// characters, is the text of the next octet, and what follows it is the rest.
proof fn lemma_octet_run(s: Seq<char>, t: Seq<u8>, k: int, start: int, end: int)
    requires
        t.len() == 4,
        s == dotted(t),
        0 <= k < 4,
        0 <= start <= end <= s.len(),
        end - start <= 4,
        s.subrange(start, s.len() as int) == dotted(t.skip(k)),
        forall|i: int| start <= i < end ==> s[i] != '.',
        end == s.len() || s[end] == '.' || end - start == 4,
    ensures
        end == start + octet_text(t[k]).len(),
        s.subrange(start, end) == octet_text(t[k]),
        s.subrange(end, s.len() as int) == rest_text(t, k + 1),
{
    let u = t.skip(k);
    let o = octet_text(u[0]);
    let len = o.len() as int;
    lemma_octet_text_shape(u[0]);
    let r = s.subrange(start, s.len() as int);
    if u.len() == 1 {
        assert(dotted(u) == o);
    } else {
        assert(dotted(u) == o + seq!['.'] + dotted(u.drop_first()));
        assert(r[len] == '.');
    }
    assert forall|i: int| 0 <= i < len implies r[i] == o[i] && o[i] != '.' by {
        assert(dotted(u)[i] == o[i]);
    }
    if end < start + len {
        assert(s[end] == r[end - start]);
        assert(false);
    }
    if end > start + len {
        assert(s[start + len] == r[len]);
        assert(false);
    }
    assert(s.subrange(start, end) =~= o);
    assert(u[0] == t[k]);
    if k + 1 < 4 {
        assert(u.drop_first() =~= t.skip(k + 1));
        assert(s.subrange(end, s.len() as int) =~= r.subrange(len, r.len() as int));
        assert(r.subrange(len, r.len() as int) =~= seq!['.'] + dotted(u.drop_first()));
    } else {
        assert(s.subrange(end, s.len() as int) =~= Seq::<char>::empty());
    }
}

/// Reading the next octet `n` at `s[start..end]` keeps what the reader knows
/// of the text read so far.
proof fn lemma_parse_step(s: Seq<char>, os: Seq<u8>, n: u8, k: int, start: int, end: int)
    requires
        0 <= k < 4,
        os.len() == k,
        0 <= start <= end <= s.len(),
        k == 0 ==> start == 0,
        k > 0 ==> start >= 1 && s[start - 1] == '.' && s.subrange(0, start - 1) == dotted(os),
        s.subrange(start, end) == octet_text(n),
        forall|t: Seq<u8>|
            t.len() == 4 && s == #[trigger] dotted(t) ==> os == t.take(k)
                && s.subrange(start, end) == octet_text(t[k]),
    ensures
        s.subrange(0, end) == dotted(os.push(n)),
        octets_prefix_value(os.push(n)) == octets_prefix_value(os) * 256 + n,
        forall|t: Seq<u8>|
            t.len() == 4 && s == #[trigger] dotted(t) ==> os.push(n) == t.take(k + 1),
{
    let next = os.push(n);
    assert(next.drop_last() =~= os);
    if k == 0 {
        assert(next =~= seq![n]);
        assert(s.subrange(0, end) =~= s.subrange(start, end));
    } else {
        lemma_dotted_push(os, n);
        assert(s.subrange(0, end) =~= s.subrange(0, start - 1) + seq!['.'] + s.subrange(start, end));
    }
    assert forall|t: Seq<u8>| t.len() == 4 && s == #[trigger] dotted(t) implies next == t.take(
        k + 1,
    ) by {
        lemma_octet_text_injective(n, t[k]);
        assert(next =~= t.take(k + 1));
    }
}

/// Reads dotted-decimal IPv4 text; `None` where `ip` is not four octets in
/// shortest decimal separated by dots.
pub fn parse_ipv4(ip: &str) -> (r: Option<u32>)
    ensures
        r == spec_parse_ipv4(ip@),
{
    let len = ip.unicode_len();
    if len > 15 {
        proof {
            assert forall|t: Seq<u8>| t.len() == 4 implies ip@ != #[trigger] dotted(t) by {
                lemma_dotted_len(t);
            }
        }
        return None;
    }
    let mut p: usize = 0;
    let mut k: usize = 0;
    let mut value: u32 = 0;
    let ghost mut os: Seq<u8> = Seq::empty();
    while k < 4
        invariant
            len == ip@.len(),
            len <= 15,
            k <= 4,
            p <= len,
            k == 0 ==> p == 0,
            os.len() == k,
            value == octets_prefix_value(os),
            octets_prefix_value(os) < octets_bound(k as int),
            k > 0 ==> ip@.subrange(0, p as int) == dotted(os),
            forall|t: Seq<u8>|
                t.len() == 4 && ip@ == #[trigger] dotted(t) ==> os == t.take(k as int)
                    && ip@.subrange(p as int, len as int) == rest_text(t, k as int),
        decreases 4 - k,
    {
        if k > 0 {
            if p >= len || ip.get_char(p) != '.' {
                proof {
                    assert forall|t: Seq<u8>| t.len() == 4 implies ip@ != #[trigger] dotted(t) by {
                        if ip@ == dotted(t) {
                            assert(ip@.subrange(p as int, len as int)[0] == '.');
                        }
                    }
                }
                return None;
            }
            p = p + 1;
        }
        proof {
            assert forall|t: Seq<u8>| t.len() == 4 && ip@ == #[trigger] dotted(t) implies ip@.subrange(
                p as int,
                len as int,
            ) == dotted(t.skip(k as int)) by {
                if k == 0 {
                    assert(t.skip(0) =~= t);
                } else {
                    assert(ip@.subrange(p as int, len as int) =~= ip@.subrange(
                        p - 1,
                        len as int,
                    ).drop_first());
                }
            }
        }
        let start = p;
        while p < len && ip.get_char(p) != '.' && p - start < 4
            invariant
                start <= p <= len,
                len == ip@.len(),
                p - start <= 4,
                forall|i: int| start <= i < p ==> ip@[i] != '.',
            decreases len - p,
        {
            p = p + 1;
        }
        proof {
            assert forall|t: Seq<u8>| t.len() == 4 && ip@ == #[trigger] dotted(t) implies {
                &&& ip@.subrange(start as int, p as int) == octet_text(t[k as int])
                &&& ip@.subrange(p as int, len as int) == rest_text(t, k + 1)
            } by {
                lemma_octet_run(ip@, t, k as int, start as int, p as int);
            }
        }
        match octet_at(ip, start, p) {
            None => {
                proof {
                    assert forall|t: Seq<u8>| t.len() == 4 implies ip@ != #[trigger] dotted(t) by {
                        if ip@ == dotted(t) {
                            assert(ip@.subrange(start as int, p as int) == octet_text(t[k as int]));
                        }
                    }
                }
                return None;
            },
            Some(n) => {
                proof {
                    lemma_parse_step(ip@, os, n, k as int, start as int, p as int);
                }
                value = value * 256 + n as u32;
                proof {
                    os = os.push(n);
                }
            },
        }
        k = k + 1;
    }
    if p != len {
        proof {
            assert forall|t: Seq<u8>| t.len() == 4 implies ip@ != #[trigger] dotted(t) by {
                if ip@ == dotted(t) {
                    assert(ip@.subrange(p as int, len as int).len() == 0);
                }
            }
        }
        return None;
    }
    proof {
        assert(ip@ =~= ip@.subrange(0, len as int));
        assert(ip@ == dotted(os));
        let c = choose|c: Seq<u8>| c.len() == 4 && ip@ == dotted(c);
        lemma_dotted_injective(c, os);
        lemma_prefix_value_of_four(os);
    }
    Some(value)
}

/// Converts dotted-decimal IPv4 text to the address as a number, most
/// significant octet first.
pub fn ipv4_to_u32(ip: &str) -> (r: u32)
    requires
        spec_parse_ipv4(ip@) is Some,
    ensures
        spec_parse_ipv4(ip@) == Some(r),
{
    match parse_ipv4(ip) {
        Some(v) => v,
        None => {
            proof {
                assert(false);
            }
            0
        },
    }
}

proof fn lemma_value_of_be_octets(x: u32)
    ensures
        be_octets(x).len() == 4,
        octets_value(be_octets(x)) == x,
{
    let os = be_octets(x);
    let v = x as int;
    assert(os[0] == v / 0x100_0000);
    assert(os[1] == (v / 0x1_0000) % 256);
    assert(os[2] == (v / 256) % 256);
    assert(os[3] == v % 256);
    assert(v == (v / 0x100_0000) * 0x100_0000 + ((v / 0x1_0000) % 256) * 0x1_0000 + ((v / 256)
        % 256) * 256 + v % 256) by (nonlinear_arith)
        requires
            0 <= v < 0x1_0000_0000,
    ;
}

proof fn lemma_be_octets_of_value(os: Seq<u8>)
    requires
        os.len() == 4,
    ensures
        0 <= octets_value(os) < 0x1_0000_0000,
        be_octets(octets_value(os) as u32) =~= os,
{
    let (a, b, c, d) = (os[0] as int, os[1] as int, os[2] as int, os[3] as int);
    let v = octets_value(os);
    assert(v == a * 0x100_0000 + b * 0x1_0000 + c * 256 + d);
    assert(0 <= v < 0x1_0000_0000 && v / 0x100_0000 == a && (v / 0x1_0000) % 256 == b && (v / 256)
        % 256 == c && v % 256 == d) by (nonlinear_arith)
        requires
            0 <= a < 256,
            0 <= b < 256,
            0 <= c < 256,
            0 <= d < 256,
            v == a * 0x100_0000 + b * 0x1_0000 + c * 256 + d,
    ;
}

/// Writing an address as text and reading that text gives the address back.
pub proof fn lemma_ipv4_text_round_trip(x: u32)
    ensures
        spec_parse_ipv4(dotted(be_octets(x))) == Some(x),
{
    let s = dotted(be_octets(x));
    lemma_value_of_be_octets(x);
    assert(exists|os: Seq<u8>| os.len() == 4 && s == dotted(os));
    let c = choose|os: Seq<u8>| os.len() == 4 && s == dotted(os);
    lemma_dotted_injective(c, be_octets(x));
}

/// Text that reads as an address is the very text that the address is
/// written as: each address has one text.
pub proof fn lemma_ipv4_text_unique(s: Seq<char>)
    requires
        spec_parse_ipv4(s) is Some,
    ensures
        s == dotted(be_octets(spec_parse_ipv4(s)->0)),
{
    let c = choose|os: Seq<u8>| os.len() == 4 && s == dotted(os);
    lemma_be_octets_of_value(c);
}

/// A socket address: an IP address and a port.
#[derive(Clone, Copy, Debug, PartialEq, Eq)]
pub enum NetAddr {
    V4 { octets: [u8; 4], port: u16 },
    V6 { segments: [u16; 8], port: u16 },
}

/// The IPv4 address of `addr` as a number, most significant octet first, and
/// its port; `addr` must be an IPv4 one.
pub fn addr_v4(addr: &NetAddr) -> (r: (u32, u16))
    requires
        addr is V4,
    ensures
        r.0 == octets_value(addr->octets@),
        r.1 == addr->V4_port,
{
    match addr {
        NetAddr::V4 { octets, port } => {
            let v = octets[0] as u32 * 0x100_0000 + octets[1] as u32 * 0x1_0000 + octets[2] as u32
                * 256 + octets[3] as u32;
            (v, *port)
        },
        NetAddr::V6 { .. } => {
            proof {
                assert(false);
            }
            (0, 0)
        },
    }
}

/// The IPv4 address of `addr` as a number, most significant octet first; `0`
/// for an IPv6 one.
pub fn ipv4_or_zero(addr: &NetAddr) -> (r: u32)
    ensures
        addr is V4 ==> r == octets_value(addr->octets@),
        addr is V6 ==> r == 0,
{
    match addr {
        NetAddr::V4 { .. } => addr_v4(addr).0,
        NetAddr::V6 { .. } => 0,
    }
}

} // verus!
