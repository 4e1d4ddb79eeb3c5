//! The parser of address texts, proved against the grammar in `address`.

use crate::address::address_of;
use crate::address::all_digits;
use crate::address::all_hex_digits;
use crate::address::decimal_octet;
use crate::address::decimal_value;
use crate::address::double_colon_at;
use crate::address::first_double_colon;
use crate::address::first_index_of;
use crate::address::hex_digit_value;
use crate::address::hex_segment;
use crate::address::hex_value;
use crate::address::ipv4_of;
use crate::address::ipv6_of;
use crate::address::ipv6_segments;
use crate::address::is_digit;
use crate::address::lemma_first_double_colon;
use crate::address::lemma_first_index_of;
use crate::address::lemma_no_double_colon;
use crate::address::lemma_octet_list_len;
use crate::address::lemma_segment_list_len;
use crate::address::octet_list;
use crate::address::octet_pair;
use crate::address::quad_value;
use crate::address::segment_list;
use crate::address::segments_of;
use crate::address::segments_value;
use crate::address::zero_segments;
use crate::address::IpAddress;
use crate::address::COLON;
use crate::address::DOT;
use vstd::prelude::*;
use vstd::slice::slice_subrange;
use vstd::string::*;

verus! {

/// The list `model`, where it has at most `limit` items.
pub open spec fn at_most<T>(model: Option<Seq<T>>, limit: int) -> Option<Seq<T>> {
    match model {
        Some(items) => if items.len() <= limit {
            Some(items)
        } else {
            None
        },
        None => None,
    }
}

/// Whether `r` holds the items of `model`, or both hold nothing.
pub open spec fn holds<T>(r: Option<Vec<T>>, model: Option<Seq<T>>) -> bool {
    match r {
        Some(items) => model == Some(items@),
        None => model is None,
    }
}

/// The index of the first `b` in `s`, or the length of `s`.
pub fn find_byte(s: &[u8], b: u8) -> (k: usize)
    ensures
        k == first_index_of(s@, b),
        k <= s@.len(),
{
    let mut i: usize = 0;
    while i < s.len() && s[i] != b
        invariant
            i <= s@.len(),
            forall|j: int| 0 <= j < i ==> s@[j] != b,
        decreases s@.len() - i,
    {
        i += 1;
    }
    proof {
        lemma_first_index_of(s@, b, i as int);
    }
    i
}

/// The index of the first `::` in `s`.
pub fn find_double_colon(s: &[u8]) -> (r: Option<usize>)
    ensures
        match r {
            Some(k) => first_double_colon(s@) == Some(k as nat) && k + 2 <= s@.len(),
            None => first_double_colon(s@) is None,
        },
{
    let n = s.len();
    let mut i: usize = 0;
    while i < n && n - i >= 2
        invariant
            n == s@.len(),
            i <= n,
            forall|j: int| 0 <= j < i ==> !double_colon_at(s@, j),
        decreases n - i,
    {
        if s[i] == COLON && s[i + 1] == COLON {
            proof {
                lemma_first_double_colon(s@, i as int);
            }
            return Some(i);
        }
        i += 1;
    }
    proof {
        assert forall|j: int| !double_colon_at(s@, j) by {
            if 0 <= j < i {
                assert(!double_colon_at(s@, j));
            }
        }
        lemma_no_double_colon(s@);
    }
    None
}

/// Reads `s` as one decimal octet.
pub fn read_octet(s: &[u8]) -> (r: Option<u8>)
    ensures
        r == decimal_octet(s@),
{
    let n = s.len();
    if n == 0 || n > 3 {
        return None;
    }
    if n > 1 && s[0] == 0x30 {
        return None;
    }
    let mut value: u16 = 0;
    let mut i: usize = 0;
    while i < n
        invariant
            n == s@.len(),
            1 <= n <= 3,
            i <= n,
            all_digits(s@.subrange(0, i as int)),
            value == decimal_value(s@.subrange(0, i as int)),
            i == 0 ==> value == 0,
            i == 1 ==> value <= 9,
            i == 2 ==> value <= 99,
            i == 3 ==> value <= 999,
        decreases n - i,
    {
        let b = s[i];
        if b < 0x30 || b > 0x39 {
            assert(!is_digit(s@[i as int]));
            return None;
        }
        proof {
            let before = s@.subrange(0, i as int);
            let next = s@.subrange(0, i + 1);
            assert(next.drop_last() =~= before);
            assert(next.last() == b);
            assert forall|j: int| 0 <= j < next.len() implies is_digit(#[trigger] next[j]) by {
                if j < i {
                    assert(before[j] == next[j]);
                }
            }
        }
        value = value * 10 + (b - 0x30) as u16;
        i += 1;
    }
    proof {
        assert(s@.subrange(0, n as int) =~= s@);
    }
    if value > 255 {
        None
    } else {
        Some(value as u8)
    }
}

/// The value of the hexadecimal digit `b`.
pub fn read_hex_digit(b: u8) -> (r: Option<u8>)
    ensures
        match r {
            Some(v) => hex_digit_value(b) == Some(v as int),
            None => hex_digit_value(b) is None,
        },
{
    if 0x30 <= b && b <= 0x39 {
        Some(b - 0x30)
    } else if 0x61 <= b && b <= 0x66 {
        Some(b - 0x61 + 10)
    } else if 0x41 <= b && b <= 0x46 {
        Some(b - 0x41 + 10)
    } else {
        None
    }
}

/// Reads `s` as one hexadecimal segment.
pub fn read_segment(s: &[u8]) -> (r: Option<u16>)
    ensures
        r == hex_segment(s@),
{
    let n = s.len();
    if n == 0 || n > 4 {
        return None;
    }
    let mut value: u32 = 0;
    let mut i: usize = 0;
    while i < n
        invariant
            n == s@.len(),
            1 <= n <= 4,
            i <= n,
            all_hex_digits(s@.subrange(0, i as int)),
            value == hex_value(s@.subrange(0, i as int)),
            i == 0 ==> value == 0,
            i == 1 ==> value < 0x10,
            i == 2 ==> value < 0x100,
            i == 3 ==> value < 0x1000,
            i == 4 ==> value < 0x1_0000,
        decreases n - i,
    {
        let digit = match read_hex_digit(s[i]) {
            Some(d) => d,
            None => {
                assert(hex_digit_value(s@[i as int]) is None);
                return None;
            },
        };
        proof {
            let before = s@.subrange(0, i as int);
            let next = s@.subrange(0, i + 1);
            assert(next.drop_last() =~= before);
            assert(next.last() == s@[i as int]);
            assert forall|j: int| 0 <= j < next.len() implies hex_digit_value(
                #[trigger] next[j],
            ) is Some by {
                if j < i {
                    assert(before[j] == next[j]);
                }
            }
        }
        value = value * 16 + digit as u32;
        i += 1;
    }
    proof {
        assert(s@.subrange(0, n as int) =~= s@);
    }
    Some(value as u16)
}

/// Reads `s` as a list of `n` decimal octets with a dot between neighbours.
pub fn read_octets(s: &[u8], n: usize) -> (r: Option<Vec<u8>>)
    ensures
        holds(r, octet_list(s@, n as nat)),
    decreases n,
{
    if n == 0 {
        return None;
    }
    if n == 1 {
        return match read_octet(s) {
            Some(octet) => {
                let octets = vec![octet];
                assert(octets@ =~= seq![octet]);
                Some(octets)
            },
            None => None,
        };
    }
    let k = find_byte(s, DOT);
    if k >= s.len() {
        return None;
    }
    let octet = match read_octet(slice_subrange(s, 0, k)) {
        Some(octet) => octet,
        None => {
            return None;
        },
    };
    match read_octets(slice_subrange(s, k + 1, s.len()), n - 1) {
        Some(rest) => {
            let ghost rest_octets = rest@;
            let mut octets = rest;
            octets.insert(0, octet);
            assert(octets@ =~= seq![octet] + rest_octets);
            Some(octets)
        },
        None => None,
    }
}

/// Reads `s` as a dotted quad.
pub fn parse_ipv4(s: &[u8]) -> (r: Option<u32>)
    ensures
        r == ipv4_of(s@),
{
    match read_octets(s, 4) {
        Some(octets) => {
            proof {
                lemma_octet_list_len(s@, 4);
            }
            let high: u32 = octets[0] as u32 * 256 + octets[1] as u32;
            let low: u32 = octets[2] as u32 * 256 + octets[3] as u32;
            let value: u32 = high * 65536 + low;
            assert(value == quad_value(octets@));
            Some(value)
        },
        None => None,
    }
}

/// Reads `s` as a non-empty list of segments with a colon between neighbours,
/// and gives the segments where there are at most `limit` of them.
pub fn read_segments(s: &[u8], dotted: bool, limit: usize) -> (r: Option<Vec<u16>>)
    ensures
        holds(r, at_most(segment_list(s@, dotted), limit as int)),
    decreases s@.len(),
{
    let k = find_byte(s, COLON);
    if k >= s.len() {
        match read_segment(s) {
            Some(segment) => if limit >= 1 {
                let segments = vec![segment];
                assert(segments@ =~= seq![segment]);
                Some(segments)
            } else {
                None
            },
            None => if dotted {
                match read_octets(s, 4) {
                    Some(o) => {
                        proof {
                            lemma_octet_list_len(s@, 4);
                        }
                        if limit >= 2 {
                            let high: u16 = o[0] as u16 * 256 + o[1] as u16;
                            let low: u16 = o[2] as u16 * 256 + o[3] as u16;
                            assert(high == octet_pair(o@[0], o@[1]));
                            assert(low == octet_pair(o@[2], o@[3]));
                            let segments = vec![high, low];
                            assert(segments@ =~= seq![high, low]);
                            Some(segments)
                        } else {
                            None
                        }
                    },
                    None => None,
                }
            } else {
                None
            },
        }
    } else {
        proof {
            lemma_segment_list_len(s@, dotted);
        }
        if limit == 0 {
            return None;
        }
        let segment = match read_segment(slice_subrange(s, 0, k)) {
            Some(segment) => segment,
            None => {
                return None;
            },
        };
        match read_segments(slice_subrange(s, k + 1, s.len()), dotted, limit - 1) {
            Some(rest) => {
                let ghost rest_segments = rest@;
                let mut segments = rest;
                segments.insert(0, segment);
                assert(segments@ =~= seq![segment] + rest_segments);
                Some(segments)
            },
            None => None,
        }
    }
}

/// The number that eight segments form.
fn join_segments(g: &Vec<u16>) -> (r: u128)
    requires
        g@.len() == 8,
    ensures
        r == segments_value(g@),
{
    let a: u128 = g[0] as u128 * 0x1_0000_0000_0000_0000_0000_0000_0000;
    let b: u128 = g[1] as u128 * 0x1_0000_0000_0000_0000_0000_0000;
    let c: u128 = g[2] as u128 * 0x1_0000_0000_0000_0000_0000;
    let d: u128 = g[3] as u128 * 0x1_0000_0000_0000_0000;
    let e: u128 = g[4] as u128 * 0x1_0000_0000_0000;
    let f: u128 = g[5] as u128 * 0x1_0000_0000;
    let h: u128 = g[6] as u128 * 0x1_0000;
    a + b + c + d + e + f + h + g[7] as u128
}

/// Reads `s` as an IPv6 address.
pub fn parse_ipv6(s: &[u8]) -> (r: Option<u128>)
    ensures
        r == ipv6_of(s@),
{
    let n = s.len();
    match find_double_colon(s) {
        None => {
            if n == 0 {
                return None;
            }
            match read_segments(s, true, 8) {
                Some(all) => if all.len() == 8 {
                    Some(join_segments(&all))
                } else {
                    None
                },
                None => None,
            }
        },
        Some(k) => {
            let head: Vec<u16> = if k == 0 {
                Vec::new()
            } else {
                match read_segments(slice_subrange(s, 0, k), false, 7) {
                    Some(head) => head,
                    None => {
                        return None;
                    },
                }
            };
            assert(segments_of(s@.subrange(0, k as int), false) == Some(head@));
            let room: usize = 7 - head.len();
            let tail: Vec<u16> = if k + 2 == n {
                Vec::new()
            } else {
                match read_segments(slice_subrange(s, k + 2, n), true, room) {
                    Some(tail) => tail,
                    None => {
                        return None;
                    },
                }
            };
            assert(segments_of(s@.subrange(k + 2, n as int), true) == Some(tail@));
            let ghost head_segments = head@;
            let ghost tail_segments = tail@;
            let gap: usize = 8 - head.len() - tail.len();
            let mut all: Vec<u16> = head;
            let mut i: usize = 0;
            while i < gap
                invariant
                    i <= gap,
                    all@ == head_segments + zero_segments(i as nat),
                decreases gap - i,
            {
                all.push(0);
                i += 1;
                assert(all@ =~= head_segments + zero_segments(i as nat));
            }
            let mut j: usize = 0;
            while j < tail.len()
                invariant
                    j <= tail@.len(),
                    tail@ == tail_segments,
                    all@ == head_segments + zero_segments(gap as nat) + tail_segments.subrange(
                        0,
                        j as int,
                    ),
                decreases tail@.len() - j,
            {
                all.push(tail[j]);
                j += 1;
                assert(all@ =~= head_segments + zero_segments(gap as nat)
                    + tail_segments.subrange(0, j as int));
            }
            assert(tail_segments.subrange(0, tail_segments.len() as int) =~= tail_segments);
            assert(ipv6_segments(s@) == Some(all@));
            Some(join_segments(&all))
        },
    }
}

/// Reads the bytes `s` as an address: a dotted quad, or else an IPv6 address.
pub fn parse_ip_bytes(s: &[u8]) -> (r: Option<IpAddress>)
    ensures
        r == address_of(s@),
{
    match parse_ipv4(s) {
        Some(v4) => Some(IpAddress::V4(v4)),
        None => match parse_ipv6(s) {
            Some(v6) => Some(IpAddress::V6(v6)),
            None => None,
        },
    }
}

/// Reads `text` as an address. The grammar is over the bytes of the text.
pub fn parse_ip(text: &str) -> (r: Option<IpAddress>)
    ensures
        r == address_of(text.spec_bytes()),
{
    parse_ip_bytes(text.as_bytes())
}

} // verus!
