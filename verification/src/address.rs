//! IP addresses and the grammar of their textual form.
//!
//! An address is a number: 32 bits for IPv4, 128 bits for IPv6. Its text is a
//! sequence of bytes. The grammar is stated here as specification functions
//! from a text to the address that it spells, if it spells one.

use vstd::prelude::*;

verus! {

/// The byte `.`, which separates the octets of a dotted quad.
pub const DOT: u8 = 0x2e;

/// The byte `:`, which separates the segments of an IPv6 address.
pub const COLON: u8 = 0x3a;

/// An IP address, as the number that its bytes form in network order.
#[derive(Clone, Copy, Debug, PartialEq, Eq, Structural)]
pub enum IpAddress {
    V4(u32),
    V6(u128),
}

/// Whether `b` is one of `0` to `9`.
pub open spec fn is_digit(b: u8) -> bool {
    0x30 <= b <= 0x39
}

/// The value of the hexadecimal digit `b`, in either case, if it is one.
pub open spec fn hex_digit_value(b: u8) -> Option<int> {
    if 0x30 <= b <= 0x39 {
        Some(b - 0x30)
    } else if 0x61 <= b <= 0x66 {
        Some(b - 0x61 + 10)
    } else if 0x41 <= b <= 0x46 {
        Some(b - 0x41 + 10)
    } else {
        None
    }
}

/// Whether `s` holds decimal digits only.
pub open spec fn all_digits(s: Seq<u8>) -> bool {
    forall|i: int| 0 <= i < s.len() ==> is_digit(#[trigger] s[i])
}

/// Whether `s` holds hexadecimal digits only.
pub open spec fn all_hex_digits(s: Seq<u8>) -> bool {
    forall|i: int| 0 <= i < s.len() ==> hex_digit_value(#[trigger] s[i]) is Some
}

/// The number that the decimal digits `s` spell.
pub open spec fn decimal_value(s: Seq<u8>) -> int
    decreases s.len(),
{
    if s.len() == 0 {
        0
    } else {
        10 * decimal_value(s.drop_last()) + (s.last() - 0x30)
    }
}

/// The number that the hexadecimal digits `s` spell.
pub open spec fn hex_value(s: Seq<u8>) -> int
    decreases s.len(),
{
    if s.len() == 0 {
        0
    } else {
        16 * hex_value(s.drop_last()) + hex_digit_value(s.last()).unwrap()
    }
}

/// An octet in text: one to three decimal digits, no leading zero before
/// another digit, at most 255.
pub open spec fn decimal_octet(s: Seq<u8>) -> Option<u8> {
    if 1 <= s.len() <= 3 && all_digits(s) && (s.len() > 1 ==> s[0] != 0x30) && decimal_value(s)
        <= 255 {
        Some(decimal_value(s) as u8)
    } else {
        None
    }
}

/// A segment in text: one to four hexadecimal digits.
pub open spec fn hex_segment(s: Seq<u8>) -> Option<u16> {
    if 1 <= s.len() <= 4 && all_hex_digits(s) {
        Some(hex_value(s) as u16)
    } else {
        None
    }
}

/// The index of the first `b` in `s`, or the length of `s` where it holds none.
pub open spec fn first_index_of(s: Seq<u8>, b: u8) -> nat
    decreases s.len(),
{
    if s.len() == 0 || s[0] == b {
        0
    } else {
        1 + first_index_of(s.drop_first(), b)
    }
}

/// The octets of a list of `n` decimal octets with a dot between neighbours.
pub open spec fn octet_list(s: Seq<u8>, n: nat) -> Option<Seq<u8>>
    decreases n,
{
    let k = first_index_of(s, DOT) as int;
    if n == 0 {
        None
    } else if n == 1 {
        match decimal_octet(s) {
            Some(octet) => Some(seq![octet]),
            None => None,
        }
    } else if k >= s.len() {
        None
    } else {
        match (
            decimal_octet(s.subrange(0, k)),
            octet_list(s.subrange(k + 1, s.len() as int), (n - 1) as nat),
        ) {
            (Some(octet), Some(rest)) => Some(seq![octet] + rest),
            _ => None,
        }
    }
}

/// The number that four octets form, the first octet being the most significant.
pub open spec fn quad_value(octets: Seq<u8>) -> u32 {
    (((octets[0] * 256 + octets[1]) * 256 + octets[2]) * 256 + octets[3]) as u32
}

/// The IPv4 address that `s` spells: four decimal octets in a dotted quad.
pub open spec fn ipv4_of(s: Seq<u8>) -> Option<u32> {
    match octet_list(s, 4) {
        Some(octets) => Some(quad_value(octets)),
        None => None,
    }
}

/// The segment that two octets form.
pub open spec fn octet_pair(high: u8, low: u8) -> u16 {
    (high * 256 + low) as u16
}

/// The segments of a non-empty list of hexadecimal segments with a colon between
/// neighbours. Where `dotted` holds, a dotted quad may stand in the last place;
/// it spells two segments.
pub open spec fn segment_list(s: Seq<u8>, dotted: bool) -> Option<Seq<u16>>
    decreases s.len(),
{
    let k = first_index_of(s, COLON) as int;
    if k >= s.len() {
        match hex_segment(s) {
            Some(segment) => Some(seq![segment]),
            None => if dotted {
                match octet_list(s, 4) {
                    Some(o) => Some(seq![octet_pair(o[0], o[1]), octet_pair(o[2], o[3])]),
                    None => None,
                }
            } else {
                None
            },
        }
    } else {
        match (
            hex_segment(s.subrange(0, k)),
            segment_list(s.subrange(k + 1, s.len() as int), dotted),
        ) {
            (Some(segment), Some(rest)) => Some(seq![segment] + rest),
            _ => None,
        }
    }
}

/// The segments on one side of `::`: none for an empty side, else a list.
pub open spec fn segments_of(s: Seq<u8>, dotted: bool) -> Option<Seq<u16>> {
    if s.len() == 0 {
        Some(Seq::empty())
    } else {
        segment_list(s, dotted)
    }
}

/// The index of the first `::` in `s`.
pub open spec fn first_double_colon(s: Seq<u8>) -> Option<nat>
    decreases s.len(),
{
    if s.len() < 2 {
        None
    } else if s[0] == COLON && s[1] == COLON {
        Some(0)
    } else {
        match first_double_colon(s.drop_first()) {
            Some(k) => Some(k + 1),
            None => None,
        }
    }
}

/// `count` segments of zero.
pub open spec fn zero_segments(count: nat) -> Seq<u16> {
    Seq::new(count, |i: int| 0u16)
}

/// The eight segments that `s` spells. Without `::` the text lists all eight.
/// With `::` the segments before it stand first, those after it stand last, and
/// at least one segment of zero fills the gap. A dotted quad may end the text
/// but not the part before `::`.
pub open spec fn ipv6_segments(s: Seq<u8>) -> Option<Seq<u16>> {
    match first_double_colon(s) {
        None => match segments_of(s, true) {
            Some(all) => if all.len() == 8 {
                Some(all)
            } else {
                None
            },
            None => None,
        },
        Some(k) => match (
            segments_of(s.subrange(0, k as int), false),
            segments_of(s.subrange(k as int + 2, s.len() as int), true),
        ) {
            (Some(head), Some(tail)) => if head.len() + tail.len() <= 7 {
                Some(head + zero_segments((8 - head.len() - tail.len()) as nat) + tail)
            } else {
                None
            },
            _ => None,
        },
    }
}

/// The number that eight segments form, the first segment being the most significant.
pub open spec fn segments_value(g: Seq<u16>) -> u128 {
    (g[0] * 0x1_0000_0000_0000_0000_0000_0000_0000 + g[1] * 0x1_0000_0000_0000_0000_0000_0000
        + g[2] * 0x1_0000_0000_0000_0000_0000 + g[3] * 0x1_0000_0000_0000_0000 + g[4]
        * 0x1_0000_0000_0000 + g[5] * 0x1_0000_0000 + g[6] * 0x1_0000 + g[7]) as u128
}

/// The IPv6 address that `s` spells.
pub open spec fn ipv6_of(s: Seq<u8>) -> Option<u128> {
    match ipv6_segments(s) {
        Some(segments) => Some(segments_value(segments)),
        None => None,
    }
}

/// The address that the text `s` spells, if `s` is the text of an address.
pub open spec fn address_of(s: Seq<u8>) -> Option<IpAddress> {
    match ipv4_of(s) {
        Some(v4) => Some(IpAddress::V4(v4)),
        None => match ipv6_of(s) {
            Some(v6) => Some(IpAddress::V6(v6)),
            None => None,
        },
    }
}

/// `first_index_of` is the one index before which `b` does not occur and at
/// which it does, or the text ends.
pub proof fn lemma_first_index_of(s: Seq<u8>, b: u8, k: int)
    requires
        0 <= k <= s.len(),
        forall|j: int| 0 <= j < k ==> s[j] != b,
        k < s.len() ==> s[k] == b,
    ensures
        first_index_of(s, b) == k,
    decreases s.len(),
{
    if k > 0 {
        let rest = s.drop_first();
        assert forall|j: int| 0 <= j < k - 1 implies rest[j] != b by {
            assert(rest[j] == s[j + 1]);
        }
        lemma_first_index_of(rest, b, k - 1);
    }
}

/// Whether `::` stands at index `j` of `s`.
pub open spec fn double_colon_at(s: Seq<u8>, j: int) -> bool {
    0 <= j && j + 1 < s.len() && s[j] == COLON && s[j + 1] == COLON
}

/// A text in which no colon follows a colon holds no `::`.
pub proof fn lemma_no_double_colon(s: Seq<u8>)
    requires
        forall|j: int| !double_colon_at(s, j),
    ensures
        first_double_colon(s) is None,
    decreases s.len(),
{
    if s.len() >= 2 {
        let rest = s.drop_first();
        assert(!double_colon_at(s, 0));
        assert forall|j: int| !double_colon_at(rest, j) by {
            assert(!double_colon_at(s, j + 1));
        }
        lemma_no_double_colon(rest);
    }
}

/// `first_double_colon` is the first index at which a colon follows a colon.
pub proof fn lemma_first_double_colon(s: Seq<u8>, k: int)
    requires
        double_colon_at(s, k),
        forall|j: int| 0 <= j < k ==> !double_colon_at(s, j),
    ensures
        first_double_colon(s) == Some(k as nat),
    decreases s.len(),
{
    if k > 0 {
        let rest = s.drop_first();
        assert(!double_colon_at(s, 0));
        assert(double_colon_at(rest, k - 1));
        assert forall|j: int| 0 <= j < k - 1 implies !double_colon_at(rest, j) by {
            assert(!double_colon_at(s, j + 1));
        }
        lemma_first_double_colon(rest, k - 1);
    }
}

/// A list of `n` octets has `n` octets.
pub proof fn lemma_octet_list_len(s: Seq<u8>, n: nat)
    ensures
        octet_list(s, n) matches Some(octets) ==> octets.len() == n,
    decreases n,
{
    if n >= 2 {
        let k = first_index_of(s, DOT) as int;
        if k < s.len() {
            lemma_octet_list_len(s.subrange(k + 1, s.len() as int), (n - 1) as nat);
        }
    }
}

/// A list of segments has at least one segment.
pub proof fn lemma_segment_list_len(s: Seq<u8>, dotted: bool)
    ensures
        segment_list(s, dotted) matches Some(segments) ==> segments.len() >= 1,
{
}

/// The decimal digits of `n`, without leading zeros.
pub open spec fn decimal_text(n: u8) -> Seq<u8> {
    if n < 10 {
        seq![(0x30 + n) as u8]
    } else if n < 100 {
        seq![(0x30 + n / 10) as u8, (0x30 + n % 10) as u8]
    } else {
        seq![(0x30 + n / 100) as u8, (0x30 + (n / 10) % 10) as u8, (0x30 + n % 10) as u8]
    }
}

/// The dotted quad of four octets.
pub open spec fn dotted_quad(a: u8, b: u8, c: u8, d: u8) -> Seq<u8> {
    decimal_text(a) + seq![DOT] + decimal_text(b) + seq![DOT] + decimal_text(c) + seq![DOT]
        + decimal_text(d)
}

/// The decimal digits of an octet are read back as that octet.
pub proof fn lemma_decimal_text_is_read(n: u8)
    ensures
        decimal_octet(decimal_text(n)) == Some(n),
        all_digits(decimal_text(n)),
{
    let t = decimal_text(n);
    reveal_with_fuel(decimal_value, 4);
    if n < 10 {
        assert(t.drop_last() =~= Seq::<u8>::empty());
    } else if n < 100 {
        assert(t.drop_last() =~= seq![(0x30 + n / 10) as u8]);
        assert(t.drop_last().drop_last() =~= Seq::<u8>::empty());
    } else {
        let two = seq![(0x30 + n / 100) as u8, (0x30 + (n / 10) % 10) as u8];
        assert(t.drop_last() =~= two);
        assert(two.drop_last() =~= seq![(0x30 + n / 100) as u8]);
        assert(two.drop_last().drop_last() =~= Seq::<u8>::empty());
    }
}

/// In a text that begins with `x` and a separator, where `x` holds no
/// separator, the first separator stands right behind `x`.
pub proof fn lemma_first_index_behind(x: Seq<u8>, b: u8, y: Seq<u8>)
    requires
        forall|i: int| 0 <= i < x.len() ==> x[i] != b,
    ensures
        first_index_of(x + seq![b] + y, b) == x.len(),
        (x + seq![b] + y).subrange(0, x.len() as int) == x,
        (x + seq![b] + y).subrange(x.len() as int + 1, (x + seq![b] + y).len() as int) == y,
{
    let t = x + seq![b] + y;
    assert forall|j: int| 0 <= j < x.len() implies t[j] != b by {
        assert(t[j] == x[j]);
    }
    lemma_first_index_of(t, b, x.len() as int);
    assert(t.subrange(0, x.len() as int) =~= x);
    assert(t.subrange(x.len() as int + 1, t.len() as int) =~= y);
}

/// Every IPv4 address has a text: the dotted quad of its four octets spells it.
pub proof fn lemma_dotted_quad_is_read(a: u8, b: u8, c: u8, d: u8)
    ensures
        address_of(dotted_quad(a, b, c, d)) == Some(
            IpAddress::V4(quad_value(seq![a, b, c, d])),
        ),
{
    let ta = decimal_text(a);
    let tb = decimal_text(b);
    let tc = decimal_text(c);
    let td = decimal_text(d);
    lemma_decimal_text_is_read(a);
    lemma_decimal_text_is_read(b);
    lemma_decimal_text_is_read(c);
    lemma_decimal_text_is_read(d);
    let rest_c = tc + seq![DOT] + td;
    let rest_b = tb + seq![DOT] + rest_c;
    let all = ta + seq![DOT] + rest_b;
    assert(dotted_quad(a, b, c, d) =~= all);
    assert(rest_b =~= tb + seq![DOT] + tc + seq![DOT] + td);
    lemma_first_index_behind(tc, DOT, td);
    lemma_first_index_behind(tb, DOT, rest_c);
    lemma_first_index_behind(ta, DOT, rest_b);
    assert(octet_list(td, 1) == Some(seq![d]));
    assert(octet_list(rest_c, 2) == Some(seq![c] + seq![d]));
    assert(octet_list(rest_b, 3) == Some(seq![b] + (seq![c] + seq![d])));
    let octets = seq![a] + (seq![b] + (seq![c] + seq![d]));
    assert(octet_list(all, 4) == Some(octets));
    assert(octets =~= seq![a, b, c, d]);
}

/// The lower-case hexadecimal digit of the value `v`.
pub open spec fn hex_digit(v: u16) -> u8 {
    if v < 10 {
        (0x30 + v) as u8
    } else {
        (0x61 + v - 10) as u8
    }
}

/// The four hexadecimal digits of a segment.
pub open spec fn hex_text(g: u16) -> Seq<u8> {
    seq![hex_digit(g / 4096), hex_digit(g / 256 % 16), hex_digit(g / 16 % 16), hex_digit(g % 16)]
}

/// The text of a list of segments: four digits each, a colon between neighbours.
pub open spec fn segments_text(segments: Seq<u16>) -> Seq<u8>
    decreases segments.len(),
{
    if segments.len() == 0 {
        Seq::empty()
    } else if segments.len() == 1 {
        hex_text(segments[0])
    } else {
        hex_text(segments[0]) + seq![COLON] + segments_text(segments.drop_first())
    }
}

/// Whether `s` holds no dot and no `::` and neither begins nor ends with a colon.
pub open spec fn plain_list(s: Seq<u8>) -> bool {
    &&& s.len() >= 1
    &&& s[0] != COLON
    &&& s[s.len() - 1] != COLON
    &&& forall|i: int| 0 <= i < s.len() ==> #[trigger] s[i] != DOT
    &&& forall|j: int| !double_colon_at(s, j)
}

/// The four digits of a segment are read back as that segment.
pub proof fn lemma_hex_text_is_read(g: u16)
    ensures
        hex_segment(hex_text(g)) == Some(g),
        forall|i: int| 0 <= i < 4 ==> #[trigger] hex_text(g)[i] != COLON && hex_text(g)[i] != DOT,
{
    let t = hex_text(g);
    let three = seq![hex_digit(g / 4096), hex_digit(g / 256 % 16), hex_digit(g / 16 % 16)];
    let two = seq![hex_digit(g / 4096), hex_digit(g / 256 % 16)];
    let one = seq![hex_digit(g / 4096)];
    reveal_with_fuel(hex_value, 5);
    assert(t.drop_last() =~= three);
    assert(three.drop_last() =~= two);
    assert(two.drop_last() =~= one);
    assert(one.drop_last() =~= Seq::<u8>::empty());
    assert(hex_value(one) == g / 4096);
    assert(hex_value(two) == 16 * (g / 4096) + g / 256 % 16);
    assert(hex_value(three) == 16 * hex_value(two) + g / 16 % 16);
    assert(hex_value(t) == 16 * hex_value(three) + g % 16);
    assert(hex_value(t) == g);
}

/// The text of a list of segments is read back as that list, and is plain.
pub proof fn lemma_segments_text_is_read(segments: Seq<u16>, dotted: bool)
    requires
        segments.len() >= 1,
    ensures
        segment_list(segments_text(segments), dotted) == Some(segments),
        plain_list(segments_text(segments)),
    decreases segments.len(),
{
    let head = hex_text(segments[0]);
    let text = segments_text(segments);
    lemma_hex_text_is_read(segments[0]);
    if segments.len() == 1 {
        lemma_first_index_of(text, COLON, 4);
        assert(seq![segments[0]] =~= segments);
        assert forall|j: int| !double_colon_at(text, j) by {
            if 0 <= j < 4 {
                assert(head[j] != COLON);
            }
        }
    } else {
        let rest = segments.drop_first();
        let rest_text = segments_text(rest);
        lemma_segments_text_is_read(rest, dotted);
        lemma_first_index_behind(head, COLON, rest_text);
        assert(seq![segments[0]] + rest =~= segments);
        assert forall|i: int| 0 <= i < text.len() implies #[trigger] text[i] != DOT by {
            if i < 4 {
                assert(text[i] == head[i]);
            } else if i > 4 {
                assert(text[i] == rest_text[i - 5]);
            }
        }
        assert forall|j: int| !double_colon_at(text, j) by {
            if 0 <= j < 4 {
                assert(text[j] == head[j]);
            } else if j == 4 {
                assert(text[5] == rest_text[0]);
            } else if j > 4 && j + 1 < text.len() {
                assert(text[j] == rest_text[j - 5]);
                assert(text[j + 1] == rest_text[j - 5 + 1]);
                assert(!double_colon_at(rest_text, j - 5));
            }
        }
        assert(text[0] == head[0]);
        assert(text[text.len() - 1] == rest_text[rest_text.len() - 1]);
    }
}

/// Every IPv6 address has a text: its eight segments in full spell it.
pub proof fn lemma_full_text_is_read(segments: Seq<u16>)
    requires
        segments.len() == 8,
    ensures
        address_of(segments_text(segments)) == Some(IpAddress::V6(segments_value(segments))),
{
    let text = segments_text(segments);
    lemma_segments_text_is_read(segments, true);
    lemma_first_index_of(text, DOT, text.len() as int);
    lemma_no_double_colon(text);
}

/// The text with `::` between the segments `head` and the segments `tail`.
pub open spec fn compressed_text(head: Seq<u16>, tail: Seq<u16>) -> Seq<u8> {
    segments_text(head) + seq![COLON, COLON] + segments_text(tail)
}

/// A text with `::` spells the segments before it, then zeros, then the segments
/// after it, eight in all. Either side may be empty.
pub proof fn lemma_compressed_text_is_read(head: Seq<u16>, tail: Seq<u16>)
    requires
        head.len() + tail.len() <= 7,
    ensures
        address_of(compressed_text(head, tail)) == Some(
            IpAddress::V6(
                segments_value(
                    head + zero_segments((8 - head.len() - tail.len()) as nat) + tail,
                ),
            ),
        ),
{
    let before = segments_text(head);
    let behind = segments_text(tail);
    let text = compressed_text(head, tail);
    let k = before.len() as int;
    if head.len() >= 1 {
        lemma_segments_text_is_read(head, false);
    } else {
        assert(head =~= Seq::<u16>::empty());
    }
    if tail.len() >= 1 {
        lemma_segments_text_is_read(tail, true);
    } else {
        assert(tail =~= Seq::<u16>::empty());
    }
    assert forall|i: int| 0 <= i < text.len() implies text[i] != DOT by {
        if i < k {
            assert(text[i] == before[i]);
        } else if i >= k + 2 {
            assert(text[i] == behind[i - k - 2]);
        }
    }
    lemma_first_index_of(text, DOT, text.len() as int);
    assert(double_colon_at(text, k));
    assert forall|j: int| 0 <= j < k implies !double_colon_at(text, j) by {
        assert(text[j] == before[j]);
        if j + 1 < k {
            assert(text[j + 1] == before[j + 1]);
            assert(!double_colon_at(before, j));
        }
    }
    lemma_first_double_colon(text, k);
    assert(text.subrange(0, k) =~= before);
    assert(text.subrange(k + 2, text.len() as int) =~= behind);
}

} // verus!
