use traffic_report::networking::types::data_representation::DataRepr;
use traffic_report::networking::types::ip_address::IpAddress;
use traffic_report::networking::types::protocol::Protocol;
use traffic_report::text::{
    append_chars, append_decimal, append_hexadecimal, capitalize, chars_of, contains_chars,
    decimal_text, filter_matches, fold_ascii, folded_chars, in_brackets,
    replace_initial, text_of,
};

fn v6(groups: [u16; 8]) -> IpAddress {
    let mut bits: u128 = 0;
    for group in groups {
        bits = (bits << 16) | group as u128;
    }
    IpAddress::V6(bits)
}

#[test]
fn decimal_of_zero_is_one_digit() {
    assert_eq!(decimal_text(0), "0");
}

#[test]
fn decimal_of_numbers() {
    assert_eq!(decimal_text(7), "7");
    assert_eq!(decimal_text(10), "10");
    assert_eq!(decimal_text(65535), "65535");
    assert_eq!(decimal_text(u128::MAX), "340282366920938463463374607431768211455");
}

#[test]
fn decimal_is_appended_after_what_stands_there() {
    let mut text = String::from("n=");
    append_decimal(&mut text, 1203);
    assert_eq!(text, "n=1203");
}

#[test]
fn hexadecimal_is_lower_case_without_leading_zeros() {
    let mut text = String::new();
    append_hexadecimal(&mut text, 0);
    text.push(' ');
    append_hexadecimal(&mut text, 0x00ab);
    text.push(' ');
    append_hexadecimal(&mut text, 0xffff);
    text.push(' ');
    append_hexadecimal(&mut text, 0x1000);
    assert_eq!(text, "0 ab ffff 1000");
}

#[test]
fn chars_and_text_convert_both_ways() {
    let chars = chars_of("añb");
    assert_eq!(chars, vec!['a', 'ñ', 'b']);
    assert_eq!(text_of(&chars), "añb");
    assert_eq!(text_of(&Vec::new()), "");
}

#[test]
fn chars_are_appended_in_order() {
    let mut text = String::from("ab");
    append_chars(&mut text, &vec!['c', 'd']);
    assert_eq!(text, "abcd");
}

#[test]
fn folding_lowers_ascii_letters_only() {
    assert_eq!(fold_ascii('A'), 'a');
    assert_eq!(fold_ascii('Z'), 'z');
    assert_eq!(fold_ascii('a'), 'a');
    assert_eq!(fold_ascii('@'), '@');
    assert_eq!(fold_ascii('['), '[');
    assert_eq!(fold_ascii('É'), 'É');
    assert_eq!(text_of(&folded_chars("TcP-Éx9")), "tcp-Éx9");
}

#[test]
fn search_finds_a_text_anywhere() {
    let haystack = chars_of("51000");
    assert!(contains_chars(&haystack, &chars_of("51000")));
    assert!(contains_chars(&haystack, &chars_of("100")));
    assert!(contains_chars(&haystack, &chars_of("000")));
    assert!(contains_chars(&haystack, &chars_of("5")));
    assert!(contains_chars(&haystack, &chars_of("")));
    assert!(!contains_chars(&haystack, &chars_of("510000")));
    assert!(!contains_chars(&haystack, &chars_of("01")));
    assert!(contains_chars(&chars_of(""), &chars_of("")));
    assert!(!contains_chars(&chars_of(""), &chars_of("a")));
}

#[test]
fn empty_filter_accepts_everything() {
    assert!(filter_matches("", "anything"));
    assert!(filter_matches("", ""));
}

#[test]
fn filter_ignores_the_case_of_ascii_letters() {
    assert!(filter_matches("udp", "UDP"));
    assert!(filter_matches("UdP", "udp"));
    assert!(filter_matches("tt", "HTTPS"));
    assert!(!filter_matches("UDP", "TCP"));
    assert!(!filter_matches("https", "http"));
}

#[test]
fn initial_is_replaced() {
    assert_eq!(replace_initial("bytes", "B"), "Bytes");
    assert_eq!(replace_initial("ßa", "SS"), "SSa");
    assert_eq!(replace_initial("x", ""), "");
    assert_eq!(replace_initial("", "B"), "");
}

#[test]
fn capitalize_raises_the_first_character() {
    assert_eq!(capitalize("bytes"), "Bytes");
    assert_eq!(capitalize("packets"), "Packets");
    assert_eq!(capitalize("Bytes"), "Bytes");
    assert_eq!(capitalize("élan"), "Élan");
    assert_eq!(capitalize("ßa"), "SSa");
    assert_eq!(capitalize("9x"), "9x");
    assert_eq!(capitalize(""), "");
}

#[test]
fn brackets_follow_a_space() {
    assert_eq!(in_brackets("source"), " (source)");
    assert_eq!(in_brackets(""), " ()");
}

#[test]
fn ipv4_is_dotted_decimal() {
    assert_eq!(IpAddress::V4(0).to_text(), "0.0.0.0");
    assert_eq!(IpAddress::V4(0x0a00_0001).to_text(), "10.0.0.1");
    assert_eq!(IpAddress::V4(0xc0a8_0164).to_text(), "192.168.1.100");
    assert_eq!(IpAddress::V4(u32::MAX).to_text(), "255.255.255.255");
    assert_eq!(IpAddress::from_octets(10, 0, 0, 2).to_text(), "10.0.0.2");
    assert_eq!(IpAddress::from_octets(1, 2, 3, 4), IpAddress::V4(0x0102_0304));
}

#[test]
fn ipv6_shortens_the_longest_run_of_zeros() {
    assert_eq!(v6([0x2001, 0xdb8, 0, 0, 0, 0, 0, 1]).to_text(), "2001:db8::1");
    assert_eq!(v6([0, 0, 0, 0, 0, 0, 0, 0]).to_text(), "::");
    assert_eq!(v6([0, 0, 0, 0, 0, 0, 0, 1]).to_text(), "::1");
    assert_eq!(v6([1, 0, 0, 0, 0, 0, 0, 0]).to_text(), "1::");
    assert_eq!(v6([0xfe80, 0, 0, 0, 0x1, 0x2, 0x3, 0x4]).to_text(), "fe80::1:2:3:4");
}

#[test]
fn ipv6_shortens_the_first_of_two_longest_runs() {
    assert_eq!(v6([1, 0, 0, 2, 0, 0, 3, 4]).to_text(), "1::2:0:0:3:4");
    assert_eq!(v6([1, 0, 0, 2, 0, 0, 0, 4]).to_text(), "1:0:0:2::4");
    assert_eq!(v6([0, 0, 1, 0, 0, 0, 0, 0]).to_text(), "0:0:1::");
}

#[test]
fn ipv6_keeps_a_single_zero_group() {
    assert_eq!(v6([1, 0, 2, 3, 4, 5, 6, 7]).to_text(), "1:0:2:3:4:5:6:7");
    assert_eq!(
        v6([0x1234, 0x5678, 0x9abc, 0xdef0, 0x0fed, 0xcba9, 0x8765, 0x4321]).to_text(),
        "1234:5678:9abc:def0:fed:cba9:8765:4321"
    );
}

#[test]
fn ipv6_that_maps_ipv4_shows_it_dotted() {
    assert_eq!(v6([0, 0, 0, 0, 0, 0xffff, 0xc0a8, 0x0101]).to_text(), "::ffff:192.168.1.1");
    assert_eq!(v6([0, 0, 0, 0, 0, 0xffff, 0, 0]).to_text(), "::ffff:0.0.0.0");
    assert_eq!(v6([0, 0, 0, 0, 0, 0, 0xc0a8, 0x0101]).to_text(), "::c0a8:101");
    assert_eq!(v6([0, 0, 0, 0, 1, 0xffff, 0xc0a8, 0x0101]).to_text(), "::1:ffff:c0a8:101");
}

#[test]
fn protocols_have_their_names() {
    assert_eq!(Protocol::TCP.to_text(), "TCP");
    assert_eq!(Protocol::UDP.to_text(), "UDP");
    assert_eq!(Protocol::ICMP.to_text(), "ICMP");
    assert!(Protocol::TCP.uses_ports());
    assert!(Protocol::UDP.uses_ports());
    assert!(!Protocol::ICMP.uses_ports());
}

#[test]
fn packets_are_shown_as_a_plain_number() {
    assert_eq!(DataRepr::Packets.formatted_string(0), "0");
    assert_eq!(DataRepr::Packets.formatted_string(1234567), "1234567");
}

#[test]
fn bytes_below_a_thousand_are_shown_whole() {
    assert_eq!(DataRepr::Bytes.formatted_string(0), "0 B");
    assert_eq!(DataRepr::Bytes.formatted_string(400), "400 B");
    assert_eq!(DataRepr::Bytes.formatted_string(999), "999 B");
}

#[test]
fn bytes_from_a_thousand_on_are_shown_in_their_multiple() {
    assert_eq!(DataRepr::Bytes.formatted_string(1_000), "1.0 KB");
    assert_eq!(DataRepr::Bytes.formatted_string(1_500), "1.5 KB");
    assert_eq!(DataRepr::Bytes.formatted_string(1_999), "1.9 KB");
    assert_eq!(DataRepr::Bytes.formatted_string(999_999), "999.9 KB");
    assert_eq!(DataRepr::Bytes.formatted_string(1_000_000), "1.0 MB");
    assert_eq!(DataRepr::Bytes.formatted_string(2_340_000_000), "2.3 GB");
    assert_eq!(DataRepr::Bytes.formatted_string(7_050_000_000_000), "7.0 TB");
    assert_eq!(DataRepr::Bytes.formatted_string(1_000_000_000_000_000), "1.0 PB");
    assert_eq!(DataRepr::Bytes.formatted_string(12_345_600_000_000_000_000), "12345.6 PB");
}
