use ip_to_country::address::IpAddress;
use ip_to_country::database::OpenFault;
use ip_to_country::database::Snapshot;
use ip_to_country::image::check_image;
use ip_to_country::image::check_value;
use ip_to_country::image::find_last_marker;
use ip_to_country::image::read_header;
use ip_to_country::image::MAX_DEPTH;
use ip_to_country::image::MAX_VALUES;
use ip_to_country::image::REMEMBERED;
use ip_to_country::resolver::get_country_from_ip;

fn text(s: &str) -> Vec<u8> {
    assert!(s.len() < 29);
    let mut out = vec![0x40 | s.len() as u8];
    out.extend_from_slice(s.as_bytes());
    out
}

fn country(code: &str) -> Vec<u8> {
    let mut data = vec![0xe1];
    data.extend(text("country"));
    data.push(0xe1);
    data.extend(text("iso_code"));
    data.extend(text(code));
    data
}

fn metadata(node_count: u8, record_size: u8, ip_version: u8) -> Vec<u8> {
    let mut out = b"\xab\xcd\xefMaxMind.com".to_vec();
    out.push(0xe9);
    out.extend(text("binary_format_major_version"));
    out.extend([0xa1, 0x02]);
    out.extend(text("binary_format_minor_version"));
    out.extend([0xa1, 0x00]);
    out.extend(text("build_epoch"));
    out.extend([0x01, 0x02, 0x01]);
    out.extend(text("database_type"));
    out.extend(text("Test"));
    out.extend(text("description"));
    out.push(0xe0);
    out.extend(text("ip_version"));
    out.extend([0xa1, ip_version]);
    out.extend(text("languages"));
    out.extend([0x00, 0x04]);
    out.extend(text("node_count"));
    out.extend([0xc1, node_count]);
    out.extend(text("record_size"));
    out.extend([0xa1, record_size]);
    out
}

/// An image with records of 24 bits: the nodes, the padding, the data, the metadata.
fn build(nodes: &[(usize, usize)], data: &[u8], node_count: u8, ip_version: u8) -> Vec<u8> {
    let mut out: Vec<u8> = Vec::new();
    for (left, right) in nodes {
        for value in [*left, *right] {
            out.extend([(value >> 16) as u8, (value >> 8) as u8, value as u8]);
        }
    }
    out.extend([0u8; 16]);
    out.extend(data);
    out.extend(metadata(node_count, 24, ip_version));
    out
}

/// One node: addresses that begin with the bit 0 lead to the data at offset 0,
/// the others to nothing.
fn one_node(data: &[u8]) -> Vec<u8> {
    build(&[(17, 1)], data, 1, 4)
}

fn probe(image: Vec<u8>) -> bool {
    match Snapshot::open(image) {
        Ok(db) => {
            for address in [
                IpAddress::V4(0),
                IpAddress::V4(0x0101_0101),
                IpAddress::V4(0x4000_0000),
                IpAddress::V4(0x8000_0000),
                IpAddress::V4(0xc000_0000),
                IpAddress::V4(0xffff_ffff),
                IpAddress::V6(0),
                IpAddress::V6(1 << 126),
                IpAddress::V6(1 << 127),
                IpAddress::V6(u128::MAX),
            ] {
                db.lookup(address);
            }
            true
        }
        Err(_) => false,
    }
}

#[test]
fn image_in_order_passes() {
    let image = one_node(&country("US"));
    assert!(check_image(&image));
    let db = Snapshot::open(image).unwrap();
    assert_eq!(get_country_from_ip("1.1.1.1", &db).unwrap(), "US");
}

#[test]
fn records_of_every_size_pass() {
    let data = country("SE");
    let mut narrow = vec![0, 0, 17, 0, 0, 1];
    let mut middle = vec![0, 0, 17, 0x00, 0, 0, 1];
    let mut wide = vec![0, 0, 0, 17, 0, 0, 0, 1];
    for (tree, size) in [(&mut narrow, 24), (&mut middle, 28), (&mut wide, 32)] {
        tree.extend([0u8; 16]);
        tree.extend(&data);
        tree.extend(metadata(1, size, 4));
        assert!(check_image(tree), "size {}", size);
        let db = Snapshot::open(tree.clone()).unwrap();
        assert_eq!(get_country_from_ip("1.1.1.1", &db).unwrap(), "SE");
        assert!(get_country_from_ip("200.1.1.1", &db).is_err());
    }
    let mut high = vec![0, 0, 1, 0x10, 0, 0, 1];
    high.extend([0u8; 16]);
    high.extend(&data);
    high.extend(metadata(1, 28, 4));
    assert!(!check_image(&high));
}

#[test]
fn marker_alone_is_refused() {
    let image = b"\xab\xcd\xefMaxMind.com".to_vec();
    assert_eq!(find_last_marker(&image), Some(0));
    assert!(!check_image(&image));
    assert!(matches!(Snapshot::open(image), Err(OpenFault::Malformed)));
}

#[test]
fn last_marker_counts() {
    let mut image = one_node(&country("US"));
    let first = find_last_marker(&image).unwrap();
    assert_eq!(&image[first..first + 3], &[0xab, 0xcd, 0xef]);
    image.extend(b"\xab\xcd\xefMaxMind.com");
    assert_eq!(find_last_marker(&image), Some(image.len() - 14));
    assert!(!check_image(&image));
    assert_eq!(find_last_marker(b"no marker in here at all"), None);
    assert_eq!(find_last_marker(b""), None);
}

#[test]
fn tree_shorter_than_stated_is_refused() {
    let data = country("US");
    assert!(!check_image(&build(&[(17, 1)], &data, 200, 4)));
    assert!(!check_image(&build(&[(17, 1)], &data, 200, 6)));
    probe(build(&[], &[], 1, 6));
    probe(build(&[], &[], 1, 4));
    assert!(!probe(build(&[(17, 1)], &data, 200, 6)));
}

#[test]
fn record_between_nodes_and_data_is_refused() {
    let data = country("US");
    for value in 2..17 {
        assert!(!check_image(&build(&[(value, 1)], &data, 1, 4)), "value {}", value);
    }
    assert!(check_image(&build(&[(17, 1)], &data, 1, 4)));
    assert!(check_image(&build(&[(0, 1)], &data, 1, 4)));
}

#[test]
fn record_outside_the_image_is_refused() {
    let data = country("US");
    assert!(!check_image(&build(&[(0xff_ffff, 1)], &data, 1, 4)));
    assert!(!check_image(&build(&[(17, 0x01_0000)], &data, 1, 4)));
}

#[test]
fn pointer_in_a_circle_is_refused() {
    assert!(!check_image(&one_node(&[0x20, 0x00])));
    assert!(!check_image(&one_node(&[0x20, 0x02, 0x20, 0x00])));
    assert!(!probe(one_node(&[0x20, 0x00])));
}

#[test]
fn pointer_outside_the_image_is_refused() {
    assert!(!check_image(&one_node(&[0x27, 0xff])));
    assert!(!check_image(&one_node(&[0x38, 0xff, 0xff, 0xff, 0xff])));
    assert!(!check_image(&one_node(&[0x20])));
}

#[test]
fn pointer_to_a_value_passes() {
    let mut data = vec![0x20, 0x02];
    data.extend(country("NO"));
    let image = one_node(&data);
    assert!(check_image(&image));
    let db = Snapshot::open(image).unwrap();
    assert_eq!(get_country_from_ip("1.1.1.1", &db).unwrap(), "NO");
}

#[test]
fn value_that_runs_out_is_refused() {
    assert!(!check_image(&one_node(&[0x5d, 0xff])));
    assert!(!check_image(&one_node(&[0xff, 0xff, 0xff, 0xff])));
    assert!(!check_image(&one_node(&[0x0c, 0xf9])));
    assert!(!check_image(&one_node(&[0x00, 0x05])));
    assert!(!check_image(&one_node(&[0xa3, 0, 0, 0])));
    assert!(!check_image(&one_node(&[0x67, 0, 0, 0, 0, 0, 0, 0])));
    assert!(!check_image(&one_node(&[0x02, 0x07])));
    assert!(!check_image(&one_node(&[0x03, 0x08, 0, 0, 0])));
}

#[test]
fn nesting_too_deep_is_refused() {
    let mut shallow = vec![0x01, 0x04].repeat(MAX_DEPTH - 1);
    shallow.extend([0x41, 0x61]);
    assert!(check_image(&one_node(&shallow)));
    let mut deep = vec![0x01, 0x04].repeat(MAX_DEPTH);
    deep.extend([0x41, 0x61]);
    assert!(!check_image(&one_node(&deep)));
}

#[test]
fn heads_are_read() {
    assert_eq!(read_header(&[0x42, 0x55, 0x53], 0), Some((2, 2, 1)));
    assert_eq!(read_header(&[0xe1], 0), Some((7, 1, 1)));
    assert_eq!(read_header(&[0x5d, 0x03], 0), Some((2, 32, 2)));
    assert_eq!(read_header(&[0x5e, 0x01, 0x02], 0), Some((2, 285 + 258, 3)));
    assert_eq!(read_header(&[0x5f, 0x01, 0x02, 0x03], 0), Some((2, 65821 + 66051, 4)));
    assert_eq!(read_header(&[0x5f, 0x01, 0x02], 0), None);
    assert_eq!(read_header(&[0x04, 0x02], 0), Some((9, 4, 2)));
    assert_eq!(read_header(&[0x00, 0x04], 0), Some((11, 0, 2)));
    assert_eq!(read_header(&[0x01, 0x07], 0), Some((14, 1, 2)));
    assert_eq!(read_header(&[0x00, 0x05], 0), None);
    assert_eq!(read_header(&[0x00, 0x00], 0), None);
    assert_eq!(read_header(&[0x00, 0xf9], 0), None);
    assert_eq!(read_header(&[0x00], 0), None);
    assert_eq!(read_header(&[0x38, 1, 2, 3, 4], 0), Some((1, 24, 1)));
    assert_eq!(read_header(&[0x3d, 1, 2, 3, 4], 0), None);
    assert_eq!(read_header(&[0x42], 1), None);
    assert_eq!(read_header(&[0x00, 0x42], 1), Some((2, 2, 2)));
}

#[test]
fn values_are_walked() {
    let record = country("US");
    assert_eq!(
        check_value(&record, 0, MAX_DEPTH, MAX_VALUES),
        Some((record.len(), MAX_VALUES - 5))
    );
    assert_eq!(check_value(&record, 0, MAX_DEPTH, 5), Some((record.len(), 0)));
    assert_eq!(check_value(&record, 0, MAX_DEPTH, 4), None);
    assert_eq!(check_value(&record, 0, 3, MAX_VALUES), Some((record.len(), MAX_VALUES - 5)));
    assert_eq!(check_value(&record, 0, 2, MAX_VALUES), None);
    assert_eq!(check_value(&record, 0, 0, MAX_VALUES), None);
    assert_eq!(check_value(&record[..record.len() - 1], 0, MAX_DEPTH, MAX_VALUES), None);
    assert_eq!(check_value(&[0x20, 0x02, 0x41, 0x61], 0, MAX_DEPTH, 9), Some((2, 7)));
    assert_eq!(check_value(&[0x28, 0x00, 0x41], 0, MAX_DEPTH, 9), None);
    assert_eq!(check_value(&[0x01, 0x07], 0, MAX_DEPTH, 9), Some((2, 8)));
    assert_eq!(check_value(&[0x02, 0x04, 0x41, 0x61, 0xa1, 0x07], 0, MAX_DEPTH, 9), Some((6, 6)));
}

#[test]
fn no_prefix_of_an_image_breaks_the_reader() {
    let whole = build(&[(1, 2), (19, 3), (19, 19)], &country("US"), 3, 6);
    assert!(probe(whole.clone()));
    for length in 0..whole.len() {
        assert!(!probe(whole[..length].to_vec()), "length {}", length);
    }
}

#[test]
fn no_changed_byte_breaks_the_reader() {
    let mut data = vec![0x20, 0x04, 0xe0, 0xe0];
    data.extend(country("US"));
    data.extend([0xe1]);
    data.extend(text("traits"));
    data.extend([0x02, 0x04, 0xa1, 0x07, 0x01, 0x07]);
    for version in [4, 6] {
        let whole = build(&[(1, 2), (19, 3), (21, 23 + country("US").len())], &data, 3, version);
        assert!(probe(whole.clone()));
        let mut passed = 0;
        for at in 0..whole.len() {
            for value in 0..=255u8 {
                let mut changed = whole.clone();
                changed[at] = value;
                if probe(changed) {
                    passed += 1;
                }
            }
        }
        assert!(passed >= whole.len());
    }
}

#[test]
fn remembered_records_do_not_hide_a_bad_one() {
    let mut data = country("US");
    data.resize(REMEMBERED, 0xff);
    data.extend(country("PT"));
    data.resize(2 * REMEMBERED, 0xff);
    data.extend([0x5d, 0xff]);
    let at = |offset: usize| 3 + 16 + offset;
    let good = build(
        &[(at(0), 1), (at(REMEMBERED), 2), (at(0), at(REMEMBERED))],
        &data,
        3,
        4,
    );
    assert!(check_image(&good));
    let db = Snapshot::open(good).unwrap();
    assert_eq!(get_country_from_ip("1.1.1.1", &db).unwrap(), "US");
    assert_eq!(get_country_from_ip("128.0.0.1", &db).unwrap(), "PT");
    assert_eq!(get_country_from_ip("192.0.0.1", &db).unwrap(), "US");
    assert_eq!(get_country_from_ip("224.0.0.1", &db).unwrap(), "PT");
    let bad = build(
        &[(at(0), 1), (at(REMEMBERED), 2), (at(0), at(2 * REMEMBERED))],
        &data,
        3,
        4,
    );
    assert!(!check_image(&bad));
    let worse = build(
        &[(at(0), 1), (at(REMEMBERED), 2), (at(2 * REMEMBERED), at(0))],
        &data,
        3,
        4,
    );
    assert!(!check_image(&worse));
}

/// A data section with nested maps, a pointer, a list, numbers of several
/// kinds, a record whose country is a list with more items than a country has
/// fields, and a record that is a list. Gives the data and the three offsets.
fn rich() -> (Vec<u8>, usize, usize, usize) {
    let mut d: Vec<u8> = Vec::new();
    d.push(0xe1);
    d.extend(text("en"));
    d.extend(text("Europe"));
    let first = d.len();
    d.push(0xe5);
    d.extend(text("continent"));
    d.push(0xe2);
    d.extend(text("code"));
    d.extend(text("EU"));
    d.extend(text("names"));
    d.extend([0x20, 0x00]);
    d.extend(text("country"));
    d.push(0xe3);
    d.extend(text("geoname_id"));
    d.extend([0xc2, 0x12, 0x34]);
    d.extend(text("iso_code"));
    d.extend(text("SE"));
    d.extend(text("is_in_european_union"));
    d.extend([0x01, 0x07]);
    d.extend(text("location"));
    d.push(0xe1);
    d.extend(text("latitude"));
    d.extend([0x68, 0x40, 0x4d, 0, 0, 0, 0, 0, 0]);
    d.extend(text("subdivisions"));
    d.extend([0x01, 0x04, 0xe1]);
    d.extend(text("iso_code"));
    d.extend(text("AB"));
    d.extend(text("traits"));
    d.push(0xe1);
    d.extend(text("is_anonymous_proxy"));
    d.extend([0x01, 0x07]);
    let second = d.len();
    d.push(0xe2);
    d.extend(text("country"));
    d.extend([0x06, 0x04, 0xc1, 0x05, 0x01, 0x07]);
    d.extend(text("NO"));
    d.push(0xe0);
    d.extend(text("x"));
    d.extend(text("y"));
    d.extend(text("traits"));
    d.push(0xe0);
    let third = d.len();
    d.extend([0x07, 0x04, 0xe0, 0xe1]);
    d.extend(text("iso_code"));
    d.extend(text("FI"));
    d.extend([0xe0, 0xe0, 0xe0]);
    d.extend(text("k"));
    d.extend([0xa1, 0x01]);
    (d, first, second, third)
}

fn rich_image(version: u8) -> Vec<u8> {
    let (data, first, second, third) = rich();
    let at = |offset: usize| 3 + 16 + offset;
    build(&[(1, 2), (at(first), at(second)), (at(third), 3)], &data, 3, version)
}

#[test]
fn list_in_place_of_a_record_is_read() {
    let image = rich_image(4);
    assert!(check_image(&image));
    let db = Snapshot::open(image).unwrap();
    assert_eq!(get_country_from_ip("1.1.1.1", &db).unwrap(), "SE");
    assert_eq!(get_country_from_ip("64.1.1.1", &db).unwrap(), "NO");
    assert_eq!(get_country_from_ip("128.1.1.1", &db).unwrap(), "FI");
    assert!(get_country_from_ip("192.1.1.1", &db).is_err());
}

#[test]
fn no_changed_byte_of_a_rich_image_breaks_the_reader() {
    for version in [4, 6] {
        let whole = rich_image(version);
        assert!(probe(whole.clone()));
        let mut passed = 0;
        for at in 0..whole.len() {
            for value in 0..=255u8 {
                let mut changed = whole.clone();
                changed[at] = value;
                if probe(changed) {
                    passed += 1;
                }
            }
        }
        assert!(passed >= whole.len());
    }
}

#[test]
fn no_random_change_breaks_the_reader() {
    let whole = rich_image(6);
    let mut state: u64 = 0x9e37_79b9_7f4a_7c15;
    let mut next = move || {
        state ^= state << 13;
        state ^= state >> 7;
        state ^= state << 17;
        state
    };
    let mut passed = 0;
    for _ in 0..150_000 {
        let mut changed = whole.clone();
        let count = 2 + next() % 3;
        for _ in 0..count {
            let at = (next() % changed.len() as u64) as usize;
            changed[at] = next() as u8;
        }
        if next() % 8 == 0 {
            let length = (next() % changed.len() as u64) as usize;
            changed.truncate(length);
        }
        if probe(changed) {
            passed += 1;
        }
    }
    assert!(passed > 0);
}
