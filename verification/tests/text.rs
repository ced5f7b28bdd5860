use dedup_numbers::server::{Forwarded, Server};
use std::sync::mpsc::sync_channel;
use dedup_numbers::text::{
    decimal_len, next_line_end, parse_value, push_decimal, push_padded, read_values,
};

const BOUND: u32 = 1_000_000_000;

#[test]
fn parses_a_plain_line() {
    assert_eq!(Some(42), parse_value(b"42\n", BOUND));
    assert_eq!(Some(0), parse_value(b"0\n", BOUND));
    assert_eq!(Some(999999999), parse_value(b"999999999\n", BOUND));
}

#[test]
fn parses_leading_zeros() {
    assert_eq!(Some(7), parse_value(b"007\n", BOUND));
    assert_eq!(Some(5), parse_value(b"0000000000000000000000000000005\n", BOUND));
    assert_eq!(Some(0), parse_value(b"000000000000000000000000\n", BOUND));
}

#[test]
fn trims_whitespace_at_both_ends() {
    assert_eq!(Some(12), parse_value(b" 12 \r\n", BOUND));
    assert_eq!(Some(12), parse_value(b"\t12", BOUND));
    assert_eq!(Some(12), parse_value(b"\x0b\x0c12\x0c\x0b", BOUND));
}

#[test]
fn rejects_what_is_no_number() {
    assert_eq!(None, parse_value(b"", BOUND));
    assert_eq!(None, parse_value(b"\n", BOUND));
    assert_eq!(None, parse_value(b"   \n", BOUND));
    assert_eq!(None, parse_value(b"12a\n", BOUND));
    assert_eq!(None, parse_value(b"a12\n", BOUND));
    assert_eq!(None, parse_value(b"1 2\n", BOUND));
    assert_eq!(None, parse_value(b"Expected Text\n", BOUND));
    assert_eq!(None, parse_value(b"1.5\n", BOUND));
}

#[test]
fn rejects_a_sign() {
    assert_eq!(None, parse_value(b"+5\n", BOUND));
    assert_eq!(None, parse_value(b"-5\n", BOUND));
    assert_eq!(None, parse_value(b"-0\n", BOUND));
}

#[test]
fn rejects_values_outside_the_domain() {
    assert_eq!(None, parse_value(b"1000000000\n", BOUND));
    assert_eq!(None, parse_value(b"4294967295\n", BOUND));
    assert_eq!(None, parse_value(b"4294967296\n", BOUND));
    assert_eq!(None, parse_value(b"18446744073709551616\n", BOUND));
    assert_eq!(None, parse_value(b"99999999999999999999999999999999999999\n", BOUND));
    assert_eq!(None, parse_value(b"5\n", 5));
    assert_eq!(Some(4), parse_value(b"4\n", 5));
    assert_eq!(None, parse_value(b"0\n", 0));
    assert_eq!(Some(4294967294), parse_value(b"4294967294\n", u32::MAX));
}

#[test]
fn finds_the_end_of_each_line() {
    let input = b"12\n345\n\n6";
    assert_eq!(3, next_line_end(input, 0));
    assert_eq!(3, next_line_end(input, 1));
    assert_eq!(3, next_line_end(input, 2));
    assert_eq!(7, next_line_end(input, 3));
    assert_eq!(8, next_line_end(input, 7));
    assert_eq!(9, next_line_end(input, 8));
}

#[test]
fn reads_a_stream_up_to_its_end() {
    assert_eq!(vec![1, 2, 3], read_values(b"1\n2\n3\n", BOUND));
    assert_eq!(vec![5, 6], read_values(b"5\n6", BOUND));
    assert_eq!(Vec::<u32>::new(), read_values(b"", BOUND));
    assert_eq!(vec![999999999, 999999999], read_values(b"999999999\n999999999\n", BOUND));
}

#[test]
fn reading_stops_for_good_at_the_first_bad_line() {
    assert_eq!(vec![1, 2], read_values(b"1\n2\nx\n3\n", BOUND));
    assert_eq!(vec![1], read_values(b"1\n\n2\n", BOUND));
    assert_eq!(vec![1], read_values(b"1\n1000000000\n2\n", BOUND));
    assert_eq!(Vec::<u32>::new(), read_values(b"+1\n2\n", BOUND));
}

#[test]
fn renders_decimal_without_padding() {
    let mut out = String::from("n=");
    push_decimal(&mut out, 0);
    out.push(',');
    push_decimal(&mut out, 10);
    out.push(',');
    push_decimal(&mut out, 907);
    out.push(',');
    push_decimal(&mut out, u64::MAX);
    assert_eq!("n=0,10,907,18446744073709551615", out);
}

#[test]
fn renders_decimal_with_padding() {
    let mut out = String::new();
    push_padded(&mut out, 5, 3);
    out.push(' ');
    push_padded(&mut out, 1234, 3);
    out.push(' ');
    push_padded(&mut out, 0, 0);
    out.push(' ');
    push_padded(&mut out, 0, 4);
    out.push(' ');
    push_padded(&mut out, 120, 5);
    assert_eq!("005 1234 0 0000 00120", out);
}

#[test]
fn rendering_and_parsing_round_trip() {
    for value in [0u32, 1, 9, 10, 99, 100, 123456789, 999999999] {
        let mut out = String::new();
        push_padded(&mut out, u64::from(value), 9);
        assert_eq!(format!("{:09}", value), out);
        assert_eq!(Some(value), parse_value(out.as_bytes(), BOUND));
    }
}

#[test]
fn server_address_joins_host_and_port() {
    let s = Server::new(String::from("0.0.0.0"), 4000);
    assert_eq!("0.0.0.0:4000", s.address());
    let t = Server::new(String::from("localhost"), 0);
    assert_eq!("localhost:0", t.address());
    let u = Server::new(String::from("h"), 65535);
    assert_eq!("h:65535", u.address());
}

#[test]
fn server_forwards_values_and_stops_on_anything_else() {
    let s = Server::new(String::from("0.0.0.0"), 4000);
    assert_eq!(Some(314), s.accept_line(b"314\n"));
    assert_eq!(None, s.accept_line(b""));
    assert_eq!(None, s.accept_line(b"Expected Text\n"));
    assert_eq!(None, s.accept_line(b"1000000000\n"));
    assert_eq!(vec![9, 9, 42, 9], s.accept_stream(b"9\n9\n42\n9\n"));
    assert_eq!(vec![9], s.accept_stream(b"9\nnine\n42\n"));
}

#[test]
fn server_puts_values_on_the_queue_until_a_bad_line() {
    let s = Server::new(String::from("0.0.0.0"), 4000);
    let (tx, rx) = sync_channel::<u32>(8);
    assert_eq!(Forwarded::Queued(9), s.forward_line(b"9\n", &tx));
    assert_eq!(Forwarded::Queued(42), s.forward_line(b"0042\n", &tx));
    assert_eq!(Forwarded::Stopped, s.forward_line(b"", &tx));
    assert_eq!(Forwarded::Stopped, s.forward_line(b"x\n", &tx));
    assert_eq!(Forwarded::Stopped, s.forward_line(b"1000000000\n", &tx));
    assert_eq!(Forwarded::Queued(999999999), s.forward_line(b"999999999\n", &tx));
    drop(tx);
    let queued: Vec<u32> = rx.iter().collect();
    assert_eq!(vec![9, 42, 999999999], queued);
}

#[test]
fn server_stops_reading_when_the_queue_is_gone() {
    let s = Server::new(String::from("0.0.0.0"), 4000);
    let (tx, rx) = sync_channel::<u32>(1);
    drop(rx);
    assert_eq!(Forwarded::Undelivered(9), s.forward_line(b"9\n", &tx));
    assert_eq!(Forwarded::Stopped, s.forward_line(b"nine\n", &tx));
}

#[test]
fn counts_decimal_digits() {
    assert_eq!(1, decimal_len(0));
    assert_eq!(1, decimal_len(9));
    assert_eq!(2, decimal_len(10));
    assert_eq!(9, decimal_len(999999999));
    assert_eq!(10, decimal_len(1000000000));
    assert_eq!(20, decimal_len(u64::MAX));
}

#[test]
fn pads_to_a_great_width_without_trouble() {
    let mut out = String::new();
    push_padded(&mut out, 7, 200000);
    assert_eq!(200000, out.len());
    assert!(out.ends_with("07"));
    assert!(out.starts_with("000"));
}
