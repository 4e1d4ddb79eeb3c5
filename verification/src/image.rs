//! The layout of a database image, and the check that an image keeps to it.
//!
//! An image holds a search tree, sixteen bytes of padding, a data section, and
//! behind the last marker its metadata. The reader of the `maxminddb` crate
//! follows record values and pointers through the image without testing them
//! against its length. `sound_image` says of an image that every such step
//! stays inside it: the metadata and every record that the tree points to are
//! values that end inside the image, nested no deeper than `MAX_DEPTH` and made
//! of no more than `MAX_VALUES` values, and the tree is as long as the metadata
//! says. `check_image` tests it.
//!
//! The walk of a value visits what a reader of that value can visit, whatever
//! the reader takes the value for: the same heads at the same places, the same
//! payloads, the same targets of pointers. A reader that stops inside a value
//! or skips the rest of a list goes on at the head of a value that the walk has
//! visited, and never beyond the end of the one it began with.

use vstd::prelude::*;
use vstd::slice::slice_subrange;

verus! {

/// The deepest nesting of values that is accepted.
pub const MAX_DEPTH: usize = 32;

/// The most values that one record, or the metadata, may be made of.
pub const MAX_VALUES: usize = 0x1_0000;

/// The number of records that the check of a tree remembers as walked.
pub const REMEMBERED: usize = 0x1_0000;

/// The head of a value: its kind, its size field, and where its payload begins.
pub struct Header {
    pub kind: int,
    pub size: int,
    pub next: int,
}

/// A span of values: where it ends, and how many more values may be visited.
pub struct Span {
    pub end: int,
    pub left: nat,
}

/// The size field `low` of a head whose size bytes begin at `at`.
pub open spec fn sized(data: Seq<u8>, kind: int, low: int, at: int) -> Option<Header> {
    if low < 29 {
        Some(Header { kind, size: low, next: at })
    } else if low == 29 {
        if at + 1 <= data.len() {
            Some(Header { kind, size: 29 + data[at], next: at + 1 })
        } else {
            None
        }
    } else if low == 30 {
        if at + 2 <= data.len() {
            Some(Header { kind, size: 285 + data[at] * 256 + data[at + 1], next: at + 2 })
        } else {
            None
        }
    } else {
        if at + 3 <= data.len() {
            Some(
                Header {
                    kind,
                    size: 65821 + data[at] * 65536 + data[at + 1] * 256 + data[at + 2],
                    next: at + 3,
                },
            )
        } else {
            None
        }
    }
}

/// Whether `kind` is a kind of value that is written with a second byte.
pub open spec fn extended_kind(kind: int) -> bool {
    kind == 8 || kind == 9 || kind == 10 || kind == 11 || kind == 14 || kind == 15
}

/// The head of the value at `pos`, where `pos` holds the head of a value of a
/// known kind that ends inside `data`.
pub open spec fn header_at(data: Seq<u8>, pos: int) -> Option<Header> {
    if !(0 <= pos < data.len()) {
        None
    } else if data[pos] / 32 == 0 {
        if pos + 1 < data.len() && extended_kind(data[pos + 1] + 7) {
            sized(data, data[pos + 1] + 7, (data[pos] % 32) as int, pos + 2)
        } else {
            None
        }
    } else if data[pos] / 32 == 1 {
        if data[pos] % 32 < 29 {
            Some(Header { kind: 1, size: (data[pos] % 32) as int, next: pos + 1 })
        } else {
            None
        }
    } else {
        sized(data, (data[pos] / 32) as int, (data[pos] % 32) as int, pos + 1)
    }
}

/// The length of the payload of a value that holds no other value, where its
/// size fits its kind.
pub open spec fn scalar_len(kind: int, size: int) -> Option<int> {
    if kind == 2 || kind == 4 {
        Some(size)
    } else if kind == 3 {
        if size == 8 {
            Some(size)
        } else {
            None
        }
    } else if kind == 5 {
        if size <= 2 {
            Some(size)
        } else {
            None
        }
    } else if kind == 6 || kind == 8 {
        if size <= 4 {
            Some(size)
        } else {
            None
        }
    } else if kind == 9 {
        if size <= 8 {
            Some(size)
        } else {
            None
        }
    } else if kind == 10 {
        if size <= 16 {
            Some(size)
        } else {
            None
        }
    } else if kind == 14 {
        if size <= 1 {
            Some(0)
        } else {
            None
        }
    } else if kind == 15 {
        if size == 4 {
            Some(size)
        } else {
            None
        }
    } else {
        None
    }
}

/// The number of bytes of a pointer with the size field `size`.
pub open spec fn pointer_width(size: int) -> int {
    size / 8 + 1
}

/// Where the pointer with the size field `size` and the bytes at `at` points.
pub open spec fn pointer_target(data: Seq<u8>, size: int, at: int) -> int {
    if size / 8 == 0 {
        (size % 8) * 256 + data[at]
    } else if size / 8 == 1 {
        2048 + (size % 8) * 65536 + data[at] * 256 + data[at + 1]
    } else if size / 8 == 2 {
        526336 + (size % 8) * 16777216 + data[at] * 65536 + data[at + 1] * 256 + data[at + 2]
    } else {
        data[at] * 16777216 + data[at + 1] * 65536 + data[at + 2] * 256 + data[at + 3]
    }
}

/// The span of the value at `pos`: where it ends, and what is left of `fuel`
/// once every value in it, and behind every pointer in it, has been visited.
/// There is no span where a step leaves `data`, where a size does not fit its
/// kind, where values nest deeper than `depth`, or where `fuel` runs out.
pub open spec fn value_span(data: Seq<u8>, pos: int, depth: nat, fuel: nat) -> Option<Span>
    decreases fuel, 0nat,
{
    if fuel == 0 || depth == 0 {
        None
    } else {
        match header_at(data, pos) {
            None => None,
            Some(h) => if h.kind == 1 {
                if h.next + pointer_width(h.size) <= data.len() {
                    match value_span(
                        data,
                        pointer_target(data, h.size, h.next),
                        (depth - 1) as nat,
                        (fuel - 1) as nat,
                    ) {
                        Some(behind) => Some(
                            Span { end: h.next + pointer_width(h.size), left: behind.left },
                        ),
                        None => None,
                    }
                } else {
                    None
                }
            } else if h.kind == 7 {
                items_span(data, h.next, (2 * h.size) as nat, (depth - 1) as nat, (fuel - 1) as nat)
            } else if h.kind == 11 {
                items_span(data, h.next, h.size as nat, (depth - 1) as nat, (fuel - 1) as nat)
            } else {
                match scalar_len(h.kind, h.size) {
                    Some(len) => if h.next + len <= data.len() {
                        Some(Span { end: h.next + len, left: (fuel - 1) as nat })
                    } else {
                        None
                    },
                    None => None,
                }
            },
        }
    }
}

/// The span of `count` values that follow one another from `pos`.
pub open spec fn items_span(data: Seq<u8>, pos: int, count: nat, depth: nat, fuel: nat) -> Option<
    Span,
>
    decreases fuel, count + 1,
{
    if count == 0 {
        Some(Span { end: pos, left: fuel })
    } else {
        match value_span(data, pos, depth, fuel) {
            Some(first) => if first.left < fuel {
                items_span(data, first.end, (count - 1) as nat, depth, first.left)
            } else {
                None
            },
            None => None,
        }
    }
}

/// Whether the marker that stands before the metadata begins at `i`.
pub open spec fn marker_at(image: Seq<u8>, i: int) -> bool {
    &&& 0 <= i && i + 14 <= image.len()
    &&& image[i] == 0xab && image[i + 1] == 0xcd && image[i + 2] == 0xef
    &&& image[i + 3] == 0x4d && image[i + 4] == 0x61 && image[i + 5] == 0x78
    &&& image[i + 6] == 0x4d && image[i + 7] == 0x69 && image[i + 8] == 0x6e
    &&& image[i + 9] == 0x64 && image[i + 10] == 0x2e && image[i + 11] == 0x63
    &&& image[i + 12] == 0x6f && image[i + 13] == 0x6d
}

/// Whether the last marker of the image begins at `i`.
pub open spec fn last_marker(image: Seq<u8>, i: int) -> bool {
    marker_at(image, i) && forall|j: int| j > i ==> !marker_at(image, j)
}

/// The number that the bytes `s` form, the first byte being the most significant.
pub open spec fn big_endian(s: Seq<u8>) -> int
    decreases s.len(),
{
    if s.len() == 0 {
        0
    } else {
        256 * big_endian(s.drop_last()) + s.last()
    }
}

/// Whether the value at `pos` is the string `name`, written in place.
pub open spec fn text_at(data: Seq<u8>, pos: int, name: Seq<u8>) -> bool {
    match header_at(data, pos) {
        Some(h) => h.kind == 2 && h.size == name.len() && h.next + h.size <= data.len()
            && data.subrange(h.next, h.next + h.size) == name,
        None => false,
    }
}

/// The number at `pos`, where the value there is an unsigned number of at most
/// four bytes, written in place.
pub open spec fn number_at(data: Seq<u8>, pos: int) -> Option<int> {
    match header_at(data, pos) {
        Some(h) => if (h.kind == 5 && h.size <= 2 || (h.kind == 6 || h.kind == 9) && h.size <= 4)
            && h.next + h.size <= data.len() {
            Some(big_endian(data.subrange(h.next, h.next + h.size)))
        } else {
            None
        },
        None => None,
    }
}

/// The number under the first key `name` among `count` entries of a map that
/// begin at `pos`.
pub open spec fn field_in(data: Seq<u8>, pos: int, count: nat, fuel: nat, name: Seq<u8>) -> Option<
    int,
>
    decreases count,
{
    if count == 0 {
        None
    } else {
        match value_span(data, pos, (MAX_DEPTH - 1) as nat, fuel) {
            Some(key) => match value_span(data, key.end, (MAX_DEPTH - 1) as nat, key.left) {
                Some(value) => if text_at(data, pos, name) {
                    number_at(data, key.end)
                } else {
                    field_in(data, value.end, (count - 1) as nat, value.left, name)
                },
                None => None,
            },
            None => None,
        }
    }
}

/// The number under the key `name` of the metadata `meta`, which is a map
/// written in place.
pub open spec fn metadata_field(meta: Seq<u8>, name: Seq<u8>) -> Option<int> {
    match header_at(meta, 0) {
        Some(h) => if h.kind == 7 {
            field_in(meta, h.next, h.size as nat, (MAX_VALUES - 1) as nat, name)
        } else {
            None
        },
        None => None,
    }
}

/// The key `node_count`.
pub open spec fn node_count_key() -> Seq<u8> {
    seq![0x6e, 0x6f, 0x64, 0x65, 0x5f, 0x63, 0x6f, 0x75, 0x6e, 0x74]
}

/// The key `record_size`.
pub open spec fn record_size_key() -> Seq<u8> {
    seq![0x72, 0x65, 0x63, 0x6f, 0x72, 0x64, 0x5f, 0x73, 0x69, 0x7a, 0x65]
}

/// The bytes that `nodes` nodes of two records of `record_size` bits take.
pub open spec fn tree_bytes(nodes: int, record_size: int) -> int {
    if record_size == 24 {
        nodes * 6
    } else if record_size == 28 {
        nodes * 7
    } else {
        nodes * 8
    }
}

/// The value of the record on the side `side` of the node `node`.
pub open spec fn record_value(image: Seq<u8>, record_size: int, node: int, side: int) -> int {
    if record_size == 24 {
        let at = node * 6 + side * 3;
        image[at] * 65536 + image[at + 1] * 256 + image[at + 2]
    } else if record_size == 28 {
        let at = node * 7 + side * 4;
        let middle = if side == 0 {
            image[node * 7 + 3] / 16
        } else {
            image[node * 7 + 3] % 16
        };
        middle * 16777216 + image[at] * 65536 + image[at + 1] * 256 + image[at + 2]
    } else {
        let at = node * 8 + side * 4;
        image[at] * 16777216 + image[at + 1] * 65536 + image[at + 2] * 256 + image[at + 3]
    }
}

/// Whether a record of the value `value` leads to a node, to nothing, or to a
/// value of the data section `data` that ends inside it.
pub open spec fn record_ok(data: Seq<u8>, node_count: int, value: int) -> bool {
    value <= node_count || (value >= node_count + 16 && value_span(
        data,
        value - node_count - 16,
        MAX_DEPTH as nat,
        MAX_VALUES as nat,
    ) is Some)
}

/// Whether both records of the node `node` are in order.
pub open spec fn node_ok(
    image: Seq<u8>,
    data: Seq<u8>,
    node_count: int,
    record_size: int,
    node: int,
) -> bool {
    record_ok(data, node_count, record_value(image, record_size, node, 0)) && record_ok(
        data,
        node_count,
        record_value(image, record_size, node, 1),
    )
}

/// Whether the image holds a tree of `node_count` nodes and the padding behind
/// it, and every record of the tree is in order.
pub open spec fn tree_ok(image: Seq<u8>, node_count: int, record_size: int) -> bool {
    let size = tree_bytes(node_count, record_size);
    &&& 4 * size <= usize::MAX
    &&& size + 16 <= image.len()
    &&& forall|node: int|
        0 <= node < node_count ==> #[trigger] node_ok(
            image,
            image.subrange(size + 16, image.len() as int),
            node_count,
            record_size,
            node,
        )
}

/// Whether the image is in order, given that its metadata begins at `start`.
pub open spec fn sound_behind(image: Seq<u8>, start: int) -> bool {
    let meta = image.subrange(start, image.len() as int);
    &&& value_span(meta, 0, MAX_DEPTH as nat, MAX_VALUES as nat) is Some
    &&& metadata_field(meta, node_count_key()) is Some
    &&& metadata_field(meta, record_size_key()) is Some
    &&& {
        let record_size = metadata_field(meta, record_size_key()).unwrap();
        record_size == 24 || record_size == 28 || record_size == 32
    }
    &&& tree_ok(
        image,
        metadata_field(meta, node_count_key()).unwrap(),
        metadata_field(meta, record_size_key()).unwrap(),
    )
}

/// Whether no step of a reader leaves the image: it has a marker, and behind
/// the last one metadata that is in order and that tells of a tree that is in
/// order.
pub open spec fn sound_image(image: Seq<u8>) -> bool {
    exists|at: int| last_marker(image, at) && sound_behind(image, at + 14)
}

/// Whether `r` is the span `model`.
pub open spec fn is_span(r: Option<(usize, usize)>, model: Option<Span>) -> bool {
    match r {
        Some(span) => model == Some(Span { end: span.0 as int, left: span.1 as nat }),
        None => model is None,
    }
}

/// Whether `r` is the head `model`.
pub open spec fn is_header(r: Option<(u8, usize, usize)>, model: Option<Header>) -> bool {
    match r {
        Some(h) => model == Some(Header { kind: h.0 as int, size: h.1 as int, next: h.2 as int }),
        None => model is None,
    }
}

fn read_size(data: &[u8], kind: u8, low: u8, at: usize) -> (r: Option<(u8, usize, usize)>)
    requires
        at <= data@.len(),
        low < 32,
    ensures
        is_header(r, sized(data@, kind as int, low as int, at as int)),
        r matches Some(h) ==> h.2 <= data@.len() && h.1 < 0x200_0000 && h.0 == kind,
{
    let room = data.len() - at;
    if low < 29 {
        Some((kind, low as usize, at))
    } else if low == 29 {
        if room >= 1 {
            Some((kind, 29 + data[at] as usize, at + 1))
        } else {
            None
        }
    } else if low == 30 {
        if room >= 2 {
            Some((kind, 285 + data[at] as usize * 256 + data[at + 1] as usize, at + 2))
        } else {
            None
        }
    } else {
        if room >= 3 {
            Some(
                (
                    kind,
                    65821 + data[at] as usize * 65536 + data[at + 1] as usize * 256 + data[at
                        + 2] as usize,
                    at + 3,
                ),
            )
        } else {
            None
        }
    }
}

/// Reads the head of the value at `pos`.
pub fn read_header(data: &[u8], pos: usize) -> (r: Option<(u8, usize, usize)>)
    ensures
        is_header(r, header_at(data@, pos as int)),
        r matches Some(h) ==> pos < h.2 <= data@.len() && h.1 < 0x200_0000 && (h.0 == 1 ==> h.1
            < 29),
{
    let n = data.len();
    if pos >= n {
        return None;
    }
    let top = data[pos] / 32;
    let low = data[pos] % 32;
    if top == 0 {
        if n - pos < 2 {
            return None;
        }
        let second = data[pos + 1];
        if second == 1 || second == 2 || second == 3 || second == 4 || second == 7 || second == 8 {
            read_size(data, second + 7, low, pos + 2)
        } else {
            None
        }
    } else if top == 1 {
        if low < 29 {
            Some((1, low as usize, pos + 1))
        } else {
            None
        }
    } else {
        read_size(data, top, low, pos + 1)
    }
}

fn scalar_length(kind: u8, size: usize) -> (r: Option<usize>)
    ensures
        match r {
            Some(len) => scalar_len(kind as int, size as int) == Some(len as int) && len <= size,
            None => scalar_len(kind as int, size as int) is None,
        },
{
    if kind == 2 || kind == 4 {
        Some(size)
    } else if kind == 3 {
        if size == 8 {
            Some(size)
        } else {
            None
        }
    } else if kind == 5 {
        if size <= 2 {
            Some(size)
        } else {
            None
        }
    } else if kind == 6 || kind == 8 {
        if size <= 4 {
            Some(size)
        } else {
            None
        }
    } else if kind == 9 {
        if size <= 8 {
            Some(size)
        } else {
            None
        }
    } else if kind == 10 {
        if size <= 16 {
            Some(size)
        } else {
            None
        }
    } else if kind == 14 {
        if size <= 1 {
            Some(0)
        } else {
            None
        }
    } else if kind == 15 {
        if size == 4 {
            Some(size)
        } else {
            None
        }
    } else {
        None
    }
}

fn read_pointer(data: &[u8], size: usize, at: usize) -> (target: usize)
    requires
        size < 29,
        at + pointer_width(size as int) <= data@.len(),
    ensures
        target == pointer_target(data@, size as int, at as int),
{
    let base = size % 8;
    if size / 8 == 0 {
        base * 256 + data[at] as usize
    } else if size / 8 == 1 {
        2048 + base * 65536 + data[at] as usize * 256 + data[at + 1] as usize
    } else if size / 8 == 2 {
        526336 + base * 16777216 + data[at] as usize * 65536 + data[at + 1] as usize * 256
            + data[at + 2] as usize
    } else {
        data[at] as usize * 16777216 + data[at + 1] as usize * 65536 + data[at + 2] as usize
            * 256 + data[at + 3] as usize
    }
}

/// Walks the value at `pos` and gives its span.
pub fn check_value(data: &[u8], pos: usize, depth: usize, fuel: usize) -> (r: Option<
    (usize, usize),
>)
    ensures
        is_span(r, value_span(data@, pos as int, depth as nat, fuel as nat)),
        r matches Some(span) ==> span.0 <= data@.len() && span.1 < fuel,
    decreases fuel, 0nat,
{
    if fuel == 0 || depth == 0 {
        return None;
    }
    let (kind, size, next) = match read_header(data, pos) {
        Some(h) => h,
        None => {
            return None;
        },
    };
    if kind == 1 {
        let width = size / 8 + 1;
        if width > data.len() - next {
            return None;
        }
        let target = read_pointer(data, size, next);
        match check_value(data, target, depth - 1, fuel - 1) {
            Some(behind) => Some((next + width, behind.1)),
            None => None,
        }
    } else if kind == 7 {
        check_items(data, next, 2 * size, depth - 1, fuel - 1)
    } else if kind == 11 {
        check_items(data, next, size, depth - 1, fuel - 1)
    } else {
        match scalar_length(kind, size) {
            Some(len) => if len <= data.len() - next {
                Some((next + len, fuel - 1))
            } else {
                None
            },
            None => None,
        }
    }
}

/// Walks `count` values that follow one another from `pos` and gives their span.
fn check_items(data: &[u8], pos: usize, count: usize, depth: usize, fuel: usize) -> (r:
    Option<(usize, usize)>)
    requires
        pos <= data@.len(),
    ensures
        is_span(r, items_span(data@, pos as int, count as nat, depth as nat, fuel as nat)),
        r matches Some(span) ==> span.0 <= data@.len() && span.1 <= fuel,
    decreases fuel, 1nat,
{
    let mut at = pos;
    let mut left = fuel;
    let mut i: usize = 0;
    while i < count
        invariant
            i <= count,
            at <= data@.len(),
            left <= fuel,
            items_span(data@, pos as int, count as nat, depth as nat, fuel as nat) == items_span(
                data@,
                at as int,
                (count - i) as nat,
                depth as nat,
                left as nat,
            ),
        decreases count - i,
    {
        match check_value(data, at, depth, left) {
            Some(first) => {
                at = first.0;
                left = first.1;
                i += 1;
            },
            None => {
                return None;
            },
        }
    }
    Some((at, left))
}

fn is_marker(image: &[u8], i: usize) -> (r: bool)
    requires
        i + 14 <= image@.len(),
    ensures
        r == marker_at(image@, i as int),
{
    image[i] == 0xab && image[i + 1] == 0xcd && image[i + 2] == 0xef && image[i + 3] == 0x4d
        && image[i + 4] == 0x61 && image[i + 5] == 0x78 && image[i + 6] == 0x4d && image[i + 7]
        == 0x69 && image[i + 8] == 0x6e && image[i + 9] == 0x64 && image[i + 10] == 0x2e
        && image[i + 11] == 0x63 && image[i + 12] == 0x6f && image[i + 13] == 0x6d
}

/// Finds where the last marker of the image begins.
pub fn find_last_marker(image: &[u8]) -> (r: Option<usize>)
    ensures
        match r {
            Some(at) => last_marker(image@, at as int),
            None => forall|j: int| !marker_at(image@, j),
        },
{
    let n = image.len();
    if n < 14 {
        return None;
    }
    let mut k: usize = n - 13;
    while k > 0
        invariant
            n == image@.len(),
            k <= n - 13,
            forall|j: int| j >= k ==> !marker_at(image@, j),
        decreases k,
    {
        k -= 1;
        if is_marker(image, k) {
            return Some(k);
        }
    }
    None
}

fn text_is(data: &[u8], pos: usize, name: &[u8]) -> (r: bool)
    ensures
        r == text_at(data@, pos as int, name@),
{
    let (kind, size, next) = match read_header(data, pos) {
        Some(h) => h,
        None => {
            return false;
        },
    };
    let n = data.len();
    if kind != 2 || size != name.len() || size > n - next {
        return false;
    }
    let mut i: usize = 0;
    while i < size
        invariant
            i <= size,
            size == name@.len(),
            n == data@.len(),
            next + size <= n,
            header_at(data@, pos as int) == Some(
                Header { kind: 2, size: size as int, next: next as int },
            ),
            forall|j: int| 0 <= j < i ==> data@[next + j] == name@[j],
        decreases size - i,
    {
        if data[next + i] != name[i] {
            let ghost written = data@.subrange(next as int, next + size);
            assert(written[i as int] == data@[next + i]);
            assert(written != name@);
            return false;
        }
        i += 1;
    }
    assert(data@.subrange(next as int, next + size) =~= name@);
    true
}

fn read_number(data: &[u8], pos: usize) -> (r: Option<u32>)
    ensures
        match r {
            Some(v) => number_at(data@, pos as int) == Some(v as int),
            None => number_at(data@, pos as int) is None,
        },
{
    let (kind, size, next) = match read_header(data, pos) {
        Some(h) => h,
        None => {
            return None;
        },
    };
    if !(kind == 5 && size <= 2 || (kind == 6 || kind == 9) && size <= 4) {
        return None;
    }
    let n = data.len();
    if size > n - next {
        return None;
    }
    let mut value: u64 = 0;
    let mut i: usize = 0;
    while i < size
        invariant
            i <= size <= 4,
            n == data@.len(),
            next + size <= n,
            value == big_endian(data@.subrange(next as int, next + i)),
            i == 0 ==> value == 0,
            i == 1 ==> value < 0x100,
            i == 2 ==> value < 0x1_0000,
            i == 3 ==> value < 0x100_0000,
            i == 4 ==> value < 0x1_0000_0000,
        decreases size - i,
    {
        proof {
            let longer = data@.subrange(next as int, next + i + 1);
            assert(longer.drop_last() =~= data@.subrange(next as int, next + i));
            assert(longer.last() == data@[next + i]);
        }
        value = value * 256 + data[next + i] as u64;
        i += 1;
    }
    Some(value as u32)
}

fn find_field(data: &[u8], pos: usize, count: usize, fuel: usize, name: &[u8]) -> (r: Option<u32>)
    ensures
        match r {
            Some(v) => field_in(data@, pos as int, count as nat, fuel as nat, name@) == Some(
                v as int,
            ),
            None => field_in(data@, pos as int, count as nat, fuel as nat, name@) is None,
        },
{
    let mut at = pos;
    let mut left = fuel;
    let mut i: usize = 0;
    while i < count
        invariant
            i <= count,
            field_in(data@, pos as int, count as nat, fuel as nat, name@) == field_in(
                data@,
                at as int,
                (count - i) as nat,
                left as nat,
                name@,
            ),
        decreases count - i,
    {
        let key = match check_value(data, at, MAX_DEPTH - 1, left) {
            Some(key) => key,
            None => {
                return None;
            },
        };
        let value = match check_value(data, key.0, MAX_DEPTH - 1, key.1) {
            Some(value) => value,
            None => {
                return None;
            },
        };
        if text_is(data, at, name) {
            return read_number(data, key.0);
        }
        at = value.0;
        left = value.1;
        i += 1;
    }
    None
}

fn read_field(meta: &[u8], name: &[u8]) -> (r: Option<u32>)
    ensures
        match r {
            Some(v) => metadata_field(meta@, name@) == Some(v as int),
            None => metadata_field(meta@, name@) is None,
        },
{
    match read_header(meta, 0) {
        Some(h) => if h.0 == 7 {
            find_field(meta, h.2, h.1, MAX_VALUES - 1, name)
        } else {
            None
        },
        None => None,
    }
}

fn read_record(image: &[u8], record_size: u32, node: usize, side: usize) -> (v: usize)
    requires
        record_size == 24 || record_size == 28 || record_size == 32,
        side < 2,
        tree_bytes(node + 1, record_size as int) <= image@.len(),
    ensures
        v == record_value(image@, record_size as int, node as int, side as int),
{
    let n = image.len();
    assert(tree_bytes(node + 1, record_size as int) <= n);
    if record_size == 24 {
        let at = node * 6 + side * 3;
        image[at] as usize * 65536 + image[at + 1] as usize * 256 + image[at + 2] as usize
    } else if record_size == 28 {
        let at = node * 7 + side * 4;
        let shared = image[node * 7 + 3];
        let middle = if side == 0 {
            shared / 16
        } else {
            shared % 16
        };
        middle as usize * 16777216 + image[at] as usize * 65536 + image[at + 1] as usize * 256
            + image[at + 2] as usize
    } else {
        let at = node * 8 + side * 4;
        image[at] as usize * 16777216 + image[at + 1] as usize * 65536 + image[at + 2] as usize
            * 256 + image[at + 3] as usize
    }
}

/// Whether every entry of `walked` that is not zero is one more than the
/// offset of a value of `data` that ends inside it.
pub open spec fn walked_ok(data: Seq<u8>, walked: Seq<usize>) -> bool {
    forall|i: int|
        0 <= i < walked.len() && #[trigger] walked[i] != 0 ==> value_span(
            data,
            walked[i] - 1,
            MAX_DEPTH as nat,
            MAX_VALUES as nat,
        ) is Some
}

fn check_record(data: &[u8], node_count: usize, value: usize, walked: &mut Vec<usize>) -> (r: bool)
    requires
        old(walked)@.len() == REMEMBERED,
        walked_ok(data@, old(walked)@),
    ensures
        r == record_ok(data@, node_count as int, value as int),
        final(walked)@.len() == REMEMBERED,
        walked_ok(data@, final(walked)@),
{
    if value <= node_count {
        return true;
    }
    if value - node_count < 16 {
        return false;
    }
    let offset = value - node_count - 16;
    let slot = offset % REMEMBERED;
    if walked[slot] == offset + 1 {
        return true;
    }
    let ok = check_value(data, offset, MAX_DEPTH, MAX_VALUES).is_some();
    if ok {
        walked.set(slot, offset + 1);
    }
    ok
}

fn check_tree(image: &[u8], node_count: u32, record_size: u32) -> (r: bool)
    requires
        record_size == 24 || record_size == 28 || record_size == 32,
    ensures
        r == tree_ok(image@, node_count as int, record_size as int),
{
    let wide: u64 = if record_size == 24 {
        node_count as u64 * 6
    } else if record_size == 28 {
        node_count as u64 * 7
    } else {
        node_count as u64 * 8
    };
    let n = image.len();
    if wide > usize::MAX as u64 / 4 || wide + 16 > n as u64 {
        return false;
    }
    let size = wide as usize;
    let count = node_count as usize;
    let data = slice_subrange(image, size + 16, n);
    let mut walked: Vec<usize> = vec![0usize; REMEMBERED];
    let mut node: usize = 0;
    while node < count
        invariant
            node <= count,
            count == node_count,
            record_size == 24 || record_size == 28 || record_size == 32,
            size == tree_bytes(count as int, record_size as int),
            size + 16 <= n,
            n == image@.len(),
            data@ == image@.subrange(size + 16, n as int),
            walked@.len() == REMEMBERED,
            walked_ok(data@, walked@),
            forall|k: int|
                0 <= k < node ==> #[trigger] node_ok(
                    image@,
                    data@,
                    count as int,
                    record_size as int,
                    k,
                ),
        decreases count - node,
    {
        let left = read_record(image, record_size, node, 0);
        let right = read_record(image, record_size, node, 1);
        if !check_record(data, count, left, &mut walked) || !check_record(
            data,
            count,
            right,
            &mut walked,
        ) {
            assert(!node_ok(image@, data@, count as int, record_size as int, node as int));
            return false;
        }
        node += 1;
    }
    true
}

fn check_behind(image: &[u8], start: usize) -> (r: bool)
    requires
        start <= image@.len(),
    ensures
        r == sound_behind(image@, start as int),
{
    let meta = slice_subrange(image, start, image.len());
    if check_value(meta, 0, MAX_DEPTH, MAX_VALUES).is_none() {
        return false;
    }
    let nodes_key: [u8; 10] = [0x6e, 0x6f, 0x64, 0x65, 0x5f, 0x63, 0x6f, 0x75, 0x6e, 0x74];
    let size_key: [u8; 11] = [0x72, 0x65, 0x63, 0x6f, 0x72, 0x64, 0x5f, 0x73, 0x69, 0x7a, 0x65];
    assert(nodes_key@ =~= node_count_key());
    assert(size_key@ =~= record_size_key());
    let node_count = match read_field(meta, nodes_key.as_slice()) {
        Some(node_count) => node_count,
        None => {
            return false;
        },
    };
    let record_size = match read_field(meta, size_key.as_slice()) {
        Some(record_size) => record_size,
        None => {
            return false;
        },
    };
    if !(record_size == 24 || record_size == 28 || record_size == 32) {
        return false;
    }
    check_tree(image, node_count, record_size)
}

/// Tests whether the image is in order.
pub fn check_image(image: &[u8]) -> (ok: bool)
    ensures
        ok == sound_image(image@),
{
    match find_last_marker(image) {
        None => false,
        Some(at) => {
            let n = image.len();
            assert(at + 14 <= n);
            let ok = check_behind(image, at + 14);
            proof {
                if !ok {
                    assert forall|other: int|
                        !(last_marker(image@, other) && sound_behind(image@, other + 14)) by {
                        if last_marker(image@, other) {
                            if other < at {
                                assert(!marker_at(image@, at as int));
                            } else if other > at {
                                assert(!marker_at(image@, other));
                            }
                        }
                    }
                }
            }
            ok
        },
    }
}

} // verus!
