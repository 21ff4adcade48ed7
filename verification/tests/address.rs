use balance_watcher::address::Address;
use balance_watcher::address_set::AddressSet;

fn addr(n: u8) -> Address {
    let mut bytes = [0u8; 20];
    bytes[19] = n;
    Address { bytes }
}

#[test]
fn address_equality_is_bytewise() {
    assert_eq!(addr(1), addr(1));
    assert_ne!(addr(1), addr(2));
    let mut high = [0u8; 20];
    high[0] = 1;
    assert_ne!(Address { bytes: high }, addr(1));
}

#[test]
fn address_order_is_lexicographic() {
    assert!(addr(1).precedes(&addr(2)));
    assert!(!addr(2).precedes(&addr(1)));
    assert!(!addr(2).precedes(&addr(2)));
    let mut high = [0u8; 20];
    high[0] = 1;
    let high = Address { bytes: high };
    assert!(addr(255).precedes(&high));
    assert!(!high.precedes(&addr(255)));
}

#[test]
fn address_order_agrees_with_alloy() {
    let samples = [
        [0u8; 20],
        [0xff; 20],
        [0xee; 20],
        addr(1).bytes,
        addr(200).bytes,
        {
            let mut b = [0u8; 20];
            b[7] = 9;
            b[19] = 3;
            b
        },
    ];
    for a in samples {
        for b in samples {
            let ours = Address { bytes: a }.precedes(&Address { bytes: b });
            let theirs = alloy::primitives::Address::from(a) < alloy::primitives::Address::from(b);
            assert_eq!(ours, theirs);
        }
    }
}

#[test]
fn address_wire_form_is_lowercase_hex() {
    let bytes = [
        0xC0, 0x2a, 0xaA, 0x39, 0xb2, 0x23, 0xFE, 0x8D, 0x0A, 0x0e, 0x5C, 0x4F, 0x27, 0xeA, 0xD9,
        0x08, 0x3C, 0x75, 0x6C, 0xc2,
    ];
    assert_eq!(
        Address { bytes }.to_hex_string(),
        "0xc02aaa39b223fe8d0a0e5c4f27ead9083c756cc2"
    );
    assert_eq!(addr(10).to_hex_string(), "0x000000000000000000000000000000000000000a");
}

#[test]
fn address_parse_ignores_case() {
    let lower = Address::parse("0xc02aaa39b223fe8d0a0e5c4f27ead9083c756cc2").unwrap();
    let mixed = Address::parse("0xC02aaA39b223FE8D0A0e5C4F27eAD9083C756Cc2").unwrap();
    assert_eq!(lower, mixed);
    assert_eq!(lower.bytes[0], 0xc0);
    assert_eq!(lower.bytes[19], 0xc2);
    assert_eq!(lower.to_hex_string(), "0xc02aaa39b223fe8d0a0e5c4f27ead9083c756cc2");
}

#[test]
fn address_parse_refuses_what_is_no_address() {
    assert_eq!(Address::parse(""), None);
    assert_eq!(Address::parse("0x1234"), None);
    assert_eq!(Address::parse("0xzz2aaa39b223fe8d0a0e5c4f27ead9083c756cc2"), None);
    assert_eq!(Address::parse("not an address"), None);
}

#[test]
fn zero_address() {
    assert_eq!(Address::zero().bytes, [0u8; 20]);
}

#[test]
fn address_set_has_each_address_once() {
    let mut set = AddressSet::new();
    assert!(set.is_empty());
    assert_eq!(set.len(), 0);
    assert!(set.insert(addr(1)));
    assert!(set.insert(addr(2)));
    assert!(!set.insert(addr(1)));
    assert_eq!(set.len(), 2);
    assert!(set.contains(&addr(1)));
    assert!(set.contains(&addr(2)));
    assert!(!set.contains(&addr(3)));
    assert!(!set.is_empty());
}

#[test]
fn address_set_extend_is_union() {
    let mut a = AddressSet::from_vec(&vec![addr(1), addr(2)]);
    let b = AddressSet::from_vec(&vec![addr(2), addr(3), addr(3)]);
    assert_eq!(b.len(), 2);
    a.extend(&b);
    assert_eq!(a.len(), 3);
    for n in 1..=3 {
        assert!(a.contains(&addr(n)));
    }
    let mut listed = a.to_vec();
    listed.sort_by_key(|x| x.bytes);
    assert_eq!(listed, vec![addr(1), addr(2), addr(3)]);
}

#[test]
fn address_set_clone_is_the_same_set() {
    let a = AddressSet::from_vec(&vec![addr(5), addr(6)]);
    let b = a.clone();
    assert_eq!(b.len(), 2);
    assert!(b.contains(&addr(5)));
    assert!(b.contains(&addr(6)));
}

#[test]
fn address_parse_takes_hex_without_prefix() {
    let bare = Address::parse("c02aaa39b223fe8d0a0e5c4f27ead9083c756cc2").unwrap();
    let prefixed = Address::parse("0xc02aaa39b223fe8d0a0e5c4f27ead9083c756cc2").unwrap();
    assert_eq!(bare, prefixed);
}

#[test]
fn address_parse_agrees_with_alloy() {
    for text in [
        "0xC02aaA39b223FE8D0A0e5C4F27eAD9083C756Cc2",
        "0xeeeeeeeeeeeeeeeeeeeeeeeeeeeeeeeeeeeeeeee",
        "0x0000000000000000000000000000000000000001",
        "0x00",
        "xyz",
    ] {
        let ours = Address::parse(text).map(|a| a.bytes);
        let theirs = text.parse::<alloy::primitives::Address>().ok().map(|a| a.into_array());
        assert_eq!(ours, theirs);
    }
}

#[test]
fn address_parse_takes_either_prefix() {
    let lower = Address::parse("0xc02aaa39b223fe8d0a0e5c4f27ead9083c756cc2").unwrap();
    let upper = Address::parse("0XC02AAA39B223FE8D0A0E5C4F27EAD9083C756CC2").unwrap();
    assert_eq!(lower, upper);
}

#[test]
fn address_parse_wants_forty_digits() {
    let digits = "c02aaa39b223fe8d0a0e5c4f27ead9083c756cc2";
    assert!(Address::parse(digits).is_some());
    assert_eq!(Address::parse(&digits[..39]), None);
    assert_eq!(Address::parse(&digits[..38]), None);
    assert_eq!(Address::parse(&format!("{}0", digits)), None);
    assert_eq!(Address::parse(&format!("{}00", digits)), None);
    assert_eq!(Address::parse(&format!("0x{}", &digits[..38])), None);
    assert_eq!(Address::parse(&format!("0x{}", &digits[..39])), None);
    assert_eq!(Address::parse(&format!("0x{}0", digits)), None);
    assert_eq!(Address::parse(&format!("0x0x{}", &digits[..38])), None);
    assert_eq!(Address::parse(&format!(" {}", &digits[..39])), None);
    assert_eq!(Address::parse(&format!("{}g", &digits[..39])), None);
    assert_eq!(Address::parse(&format!("{}\u{e9}", &digits[..38])), None);
    assert_eq!(Address::parse(&format!("{}\u{e9}", &digits[..39])), None);
}

#[test]
fn address_parse_reads_two_digits_to_the_byte() {
    let a = Address::parse("0x0102030405060708090a0b0c0d0e0f10A1B2C3D4").unwrap();
    assert_eq!(
        a.bytes,
        [1, 2, 3, 4, 5, 6, 7, 8, 9, 10, 11, 12, 13, 14, 15, 16, 0xa1, 0xb2, 0xc3, 0xd4]
    );
}

#[test]
fn address_in_wire_form_is_read_back() {
    for bytes in [[0u8; 20], [0xff; 20], [0xee; 20], addr(7).bytes, [0x9a; 20]] {
        let a = Address { bytes };
        assert_eq!(Address::parse(&a.to_hex_string()), Some(a));
    }
}
