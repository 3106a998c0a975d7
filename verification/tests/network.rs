use utmvm::error::Error;
use utmvm::network::MacAddress;

#[test]
fn mac_text_is_lowercase_hex() {
    let m = MacAddress::from_octets([0x52, 0x54, 0x00, 0xab, 0xcd, 0x0f]);
    assert_eq!(m.as_str(), "52:54:00:ab:cd:0f");
}

#[test]
fn mac_text_reads_back() {
    for octets in [[0u8; 6], [255u8; 6], [1, 2, 3, 4, 5, 6], [0x52, 0x54, 0, 0x9a, 0xbc, 0xde]] {
        let m = MacAddress::from_octets(octets);
        assert_eq!(MacAddress::parse(&m.as_str()).unwrap(), m);
        assert_eq!(m.as_str().parse::<MacAddress>().unwrap(), m);
    }
}

#[test]
fn mac_parse_accepts_what_from_str_radix_accepts() {
    let m = MacAddress::parse("AB:+c:0:00ff:1:f").unwrap();
    assert_eq!(m, MacAddress::from_octets([0xab, 0x0c, 0, 0xff, 1, 0x0f]));
}

#[test]
fn mac_parse_wrong_number_of_parts() {
    match MacAddress::parse("52:54:00") {
        Err(Error::Other(m)) => assert_eq!(m, "invalid MAC address: 52:54:00"),
        other => panic!("unexpected {other:?}"),
    }
}

#[test]
fn mac_parse_reports_first_bad_octet() {
    for (text, part) in [
        ("52:54:zz:100:00:00", "zz"),
        ("52:54:00:100:00:00", "100"),
        ("52::00:00:00:00", ""),
        ("52:+:00:00:00:00", "+"),
        ("52:-1:00:00:00:00", "-1"),
    ] {
        match MacAddress::parse(text) {
            Err(Error::Other(m)) => {
                assert_eq!(m, format!("invalid MAC octet '{part}' in '{text}'"))
            }
            other => panic!("unexpected {other:?}"),
        }
    }
}

#[test]
fn octet_parsing_agrees_with_std() {
    for text in ["0", "ff", "FF", "+f", "+", "", "-1", "100", "0100", "g", "1g", "00000a", " 1"] {
        let v: Vec<char> = text.chars().collect();
        assert_eq!(
            utmvm::network::octet_value(&v),
            u8::from_str_radix(text, 16).ok(),
            "{text}"
        );
    }
}

#[test]
fn qemu_mac_from_places_bytes() {
    let m = MacAddress::qemu_mac_from([0xab, 0x01, 0xff]);
    assert_eq!(m, MacAddress::from_octets([0x52, 0x54, 0x00, 0xab, 0x01, 0xff]));
    assert_eq!(m.as_str(), "52:54:00:ab:01:ff");
}

#[test]
fn random_qemu_has_qemu_prefix() {
    let m = MacAddress::random_qemu().expect("the operating system's random source");
    let text = m.as_str();
    assert!(text.starts_with("52:54:00:"));
    assert_eq!(text.len(), 17);
}
