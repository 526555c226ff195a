use taep_controller::ip::convert_prefix_to_mask;
use taep_controller::ip::format_ipv4;
use taep_controller::ip::parse_ipv4;
use taep_controller::ip::push_dec_u32;
use taep_controller::ip::u32_to_dec_string;
use taep_controller::l2::convert_ip_address_to_int;

#[test]
fn mask_full_prefix() {
    assert_eq!(convert_prefix_to_mask(32), 0xffff_ffff);
}

#[test]
fn mask_single_bit() {
    assert_eq!(convert_prefix_to_mask(1), 0x8000_0000);
}

#[test]
fn mask_class_prefixes() {
    assert_eq!(convert_prefix_to_mask(8), 0xff00_0000);
    assert_eq!(convert_prefix_to_mask(16), 0xffff_0000);
    assert_eq!(convert_prefix_to_mask(24), 0xffff_ff00);
}

#[test]
fn mask_popcounts() {
    for p in 1..=32u32 {
        let mask = convert_prefix_to_mask(p);
        assert_eq!(mask.count_ones(), p);
        // the set bits are the p most significant ones
        for bit in 0..32u32 {
            let set = mask & (1u32 << bit) != 0;
            assert_eq!(set, bit >= 32 - p);
        }
    }
}

#[test]
fn parse_simple_address() {
    assert_eq!(parse_ipv4("10.0.0.1"), Some(0x0a00_0001));
}

#[test]
fn parse_octet_shifts() {
    // a.b.c.d == (a<<24)|(b<<16)|(c<<8)|d
    assert_eq!(parse_ipv4("1.2.3.4"), Some((1 << 24) | (2 << 16) | (3 << 8) | 4));
    assert_eq!(parse_ipv4("192.168.1.77"), Some((192 << 24) | (168 << 16) | (1 << 8) | 77));
}

#[test]
fn parse_extremes() {
    assert_eq!(parse_ipv4("0.0.0.0"), Some(0));
    assert_eq!(parse_ipv4("255.255.255.255"), Some(0xffff_ffff));
}

#[test]
fn parse_rejects_malformed() {
    assert_eq!(parse_ipv4(""), None);
    assert_eq!(parse_ipv4("1.2.3"), None);
    assert_eq!(parse_ipv4("1.2.3.4.5"), None);
    assert_eq!(parse_ipv4("1..2.3"), None);
    assert_eq!(parse_ipv4("1.2.3.4."), None);
    assert_eq!(parse_ipv4(".1.2.3.4"), None);
    assert_eq!(parse_ipv4("a.b.c.d"), None);
    assert_eq!(parse_ipv4("1. 2.3.4"), None);
}

#[test]
fn parse_rejects_out_of_range_octets() {
    assert_eq!(parse_ipv4("256.0.0.1"), None);
    assert_eq!(parse_ipv4("1.2.3.999"), None);
    assert_eq!(parse_ipv4("1000.2.3.4"), None);
}

#[test]
fn parse_rejects_signs_and_whitespace() {
    assert_eq!(parse_ipv4("+1.2.3.4"), None);
    assert_eq!(parse_ipv4("-1.2.3.4"), None);
    assert_eq!(parse_ipv4("1.2.3.4\n"), None);
    assert_eq!(parse_ipv4(" 1.2.3.4"), None);
}

#[test]
fn parse_rejects_leading_zeros() {
    assert_eq!(parse_ipv4("01.2.3.4"), None);
    assert_eq!(parse_ipv4("1.02.3.4"), None);
    assert_eq!(parse_ipv4("1.2.3.00"), None);
}

#[test]
fn format_renders_dotted_decimal() {
    assert_eq!(format_ipv4(0x0a00_0001), "10.0.0.1");
    assert_eq!(format_ipv4(0), "0.0.0.0");
    assert_eq!(format_ipv4(0xffff_ffff), "255.255.255.255");
    assert_eq!(format_ipv4((192 << 24) | (168 << 16) | (1 << 8) | 77), "192.168.1.77");
}

#[test]
fn round_trip_from_string() {
    for s in ["0.0.0.0", "10.0.0.1", "255.255.255.255", "192.168.1.77", "1.22.3.255"] {
        let v = parse_ipv4(s).unwrap();
        assert_eq!(format_ipv4(v), s);
    }
}

#[test]
fn round_trip_from_value() {
    for v in [0u32, 1, 0x0a00_0001, 0xffff_ffff, 0x7f00_0001, 0xc0a8_014d] {
        assert_eq!(parse_ipv4(&format_ipv4(v)), Some(v));
    }
}

#[test]
fn decimal_rendering() {
    assert_eq!(u32_to_dec_string(0), "0");
    assert_eq!(u32_to_dec_string(7), "7");
    assert_eq!(u32_to_dec_string(42), "42");
    assert_eq!(u32_to_dec_string(4_294_967_295), "4294967295");
}

#[test]
fn decimal_appends() {
    let mut s = String::from("port=");
    push_dec_u32(&mut s, 8100);
    assert_eq!(s, "port=8100");
}

#[test]
fn convert_ip_address_matches_parser() {
    assert_eq!(convert_ip_address_to_int(&"10.0.0.1".to_string()), Some(0x0a00_0001));
    assert_eq!(convert_ip_address_to_int(&"not-an-address".to_string()), None);
}
