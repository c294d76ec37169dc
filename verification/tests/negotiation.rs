use proxy_forward::address::SocketAddress;
use proxy_forward::error::Error;
use proxy_forward::negotiator::{
    negotiate, read_failure, sniff, Negotiated, Step, MAX_LINE_SCAN,
};

fn v4(a: u8, b: u8, c: u8, d: u8, port: u16) -> SocketAddress {
    SocketAddress::v4([a, b, c, d], port)
}

fn v6(groups: [u16; 8], port: u16) -> SocketAddress {
    SocketAddress::v6(groups, port, 0, 0)
}

fn failed(cause: &str) -> Error {
    Error::ProxyHeaderFailed { cause: cause.to_string() }
}

/// What the target receives in all: what it is sent first, then the rest of
/// the stream.
fn received_by_target(stream: &[u8], local: &SocketAddress, target: &SocketAddress) -> Vec<u8> {
    let made = negotiate(stream, local, target).unwrap();
    let mut all = made.to_target;
    all.extend_from_slice(&stream[made.consumed..]);
    all
}

#[test]
fn client_without_header_is_given_one() {
    let local = v4(127, 0, 0, 1, 9000);
    let target = v4(127, 0, 0, 1, 9001);
    assert_eq!(
        negotiate(b"hello", &local, &target),
        Ok(Negotiated {
            to_target: b"PROXY TCP4 127.0.0.1 127.0.0.1 9000 9001\r\nhello".to_vec(),
            consumed: 5,
        })
    );
    assert_eq!(
        received_by_target(b"hello", &local, &target),
        b"PROXY TCP4 127.0.0.1 127.0.0.1 9000 9001\r\nhello".to_vec()
    );
}

#[test]
fn client_without_header_keeps_all_of_its_payload() {
    let local = v4(10, 1, 2, 3, 80);
    let target = v4(10, 9, 9, 9, 8080);
    assert_eq!(
        received_by_target(b"GET / HTTP/1.1\r\nHost: x\r\n\r\n", &local, &target),
        b"PROXY TCP4 10.1.2.3 10.9.9.9 80 8080\r\nGET / HTTP/1.1\r\nHost: x\r\n\r\n".to_vec()
    );
    assert_eq!(
        received_by_target(b"PROXy TCP4 1.2.3.4 5.6.7.8 1 2\r\n", &local, &target),
        b"PROXY TCP4 10.1.2.3 10.9.9.9 80 8080\r\nPROXy TCP4 1.2.3.4 5.6.7.8 1 2\r\n".to_vec()
    );
}

#[test]
fn header_of_a_client_is_rewritten() {
    let local = v4(192, 0, 2, 1, 80);
    let target = v4(198, 51, 100, 9, 443);
    let stream = b"PROXY TCP4 203.0.113.5 10.0.0.1 51234 80\r\nGET /\r\n";
    assert_eq!(
        negotiate(stream, &local, &target),
        Ok(Negotiated {
            to_target: b"PROXY TCP4 203.0.113.5 198.51.100.9 51234 443\r\n".to_vec(),
            consumed: 42,
        })
    );
    assert_eq!(
        received_by_target(stream, &local, &target),
        b"PROXY TCP4 203.0.113.5 198.51.100.9 51234 443\r\nGET /\r\n".to_vec()
    );
}

#[test]
fn header_of_the_other_family_is_refused() {
    let local = v4(192, 0, 2, 1, 80);
    let target = v4(198, 51, 100, 9, 443);
    assert_eq!(
        negotiate(b"PROXY TCP6 2001:db8::5 2001:db8::1 51234 80\r\nGET /\r\n", &local, &target),
        Err(Error::FamilyMix)
    );
    let target = v6([0x2001, 0xdb8, 0, 0, 0, 0, 0, 9], 443);
    assert_eq!(
        negotiate(b"PROXY TCP4 203.0.113.5 10.0.0.1 51234 80\r\n", &local, &target),
        Err(Error::FamilyMix)
    );
}

#[test]
fn header_of_the_second_family_is_rewritten_for_a_target_of_it() {
    let local = v6([0, 0, 0, 0, 0, 0, 0, 1], 80);
    let target = v6([0x2001, 0xdb8, 0, 0, 0, 0, 0, 9], 443);
    assert_eq!(
        received_by_target(b"PROXY TCP6 2001:db8::5 2001:db8::1 51234 80\r\nping", &local, &target),
        b"PROXY TCP4 2001:db8::5 2001:db8::9 51234 443\r\nping".to_vec()
    );
}

#[test]
fn local_address_of_another_family_than_the_target_is_refused() {
    let local = v6([0, 0, 0, 0, 0, 0, 0, 1], 80);
    let target = v4(198, 51, 100, 9, 443);
    assert_eq!(negotiate(b"hello", &local, &target), Err(Error::FamilyMix));
    assert_eq!(negotiate(b"hello", &target, &local), Err(Error::FamilyMix));
}

#[test]
fn stream_that_ends_early_is_refused() {
    let local = v4(127, 0, 0, 1, 9000);
    let target = v4(127, 0, 0, 1, 9001);
    let truncated = failed("the stream ended before the header was complete");
    assert_eq!(negotiate(b"", &local, &target), Err(truncated.clone()));
    assert_eq!(negotiate(b"hell", &local, &target), Err(truncated.clone()));
    assert_eq!(negotiate(b"PROX", &local, &target), Err(truncated.clone()));
    assert_eq!(negotiate(b"PROXY", &local, &target), Err(truncated.clone()));
    assert_eq!(negotiate(b"PROXY TCP4 1.2.3.4 5.6.7.8 1 2\r", &local, &target), Err(truncated));
}

#[test]
fn line_feed_has_to_come_within_the_limit() {
    let local = v4(127, 0, 0, 1, 9000);
    let target = v4(127, 0, 0, 1, 9001);
    assert_eq!(MAX_LINE_SCAN, 103);

    // The longest line that is taken: the line feed is byte 103 after the signature.
    let mut longest = b"PROXY TCP4 1.2.3.4 5.6.7.8 1 ".to_vec();
    while longest.len() < 5 + 101 {
        longest.push(b'7');
    }
    longest.extend_from_slice(b"\r\n");
    assert_eq!(longest.len(), 5 + 103);
    let made = negotiate(&longest, &local, &target).unwrap();
    assert_eq!(made.consumed, 108);
    assert_eq!(made.to_target, b"PROXY TCP4 1.2.3.4 127.0.0.1 1 9001\r\n".to_vec());

    // One byte more, and the line is too long.
    let mut longer = b"PROXY TCP4 1.2.3.4 5.6.7.8 1 ".to_vec();
    while longer.len() < 5 + 102 {
        longer.push(b'7');
    }
    longer.extend_from_slice(b"\r\n");
    assert_eq!(negotiate(&longer, &local, &target), Err(failed("the header line is too long")));

    // So is a line without any line feed.
    let mut endless = b"PROXY ".to_vec();
    while endless.len() < 400 {
        endless.push(b'x');
    }
    assert_eq!(negotiate(&endless, &local, &target), Err(failed("the header line is too long")));

    // A stream that ends one byte before the limit is cut short, not too long.
    assert_eq!(
        negotiate(&endless[..5 + 102], &local, &target),
        Err(failed("the stream ended before the header was complete"))
    );
    assert_eq!(
        negotiate(&endless[..5 + 103], &local, &target),
        Err(failed("the header line is too long"))
    );
}

#[test]
fn header_line_has_to_be_well_formed() {
    let local = v4(127, 0, 0, 1, 9000);
    let target = v4(127, 0, 0, 1, 9001);
    assert_eq!(
        negotiate(b"PROXY TCP4 1.2.3.4 5.6.7.8 1\r\n", &local, &target),
        Err(failed("the header line does not have five fields"))
    );
    assert_eq!(
        negotiate(b"PROXY UNKNOWN\r\n", &local, &target),
        Err(failed("the header line does not have five fields"))
    );
    assert_eq!(
        negotiate(b"PROXY\n", &local, &target),
        Err(failed("the header line does not have five fields"))
    );
    assert_eq!(
        negotiate(b"PROXY TCP4 1.2.3.4 5.6.7.8 \xe2\x82\xac 2\r\n", &local, &target),
        Err(failed("the header line is not ASCII text"))
    );
}

#[test]
fn header_line_may_end_in_a_bare_line_feed() {
    let local = v4(127, 0, 0, 1, 9000);
    let target = v4(127, 0, 0, 1, 9001);
    assert_eq!(
        negotiate(b"PROXY TCP4 1.2.3.4 5.6.7.8 1 2\nrest", &local, &target),
        Ok(Negotiated { to_target: b"PROXY TCP4 1.2.3.4 127.0.0.1 1 9001\r\n".to_vec(), consumed: 31 })
    );
}

#[test]
fn sniffing_and_scanning_byte_by_byte_agree_with_the_whole() {
    let local = v4(192, 0, 2, 1, 80);
    let target = v4(198, 51, 100, 9, 443);
    let stream = b"PROXY TCP4 203.0.113.5 10.0.0.1 51234 80\r\nGET /\r\n";
    let prefix: [u8; 5] = [stream[0], stream[1], stream[2], stream[3], stream[4]];
    let mut step = sniff(&prefix, &local, &target);
    let mut at = 5;
    loop {
        match step {
            Step::Continue(scanner) => {
                step = scanner.push(stream[at]);
                at += 1;
            }
            Step::Ready(bytes) => {
                assert_eq!(bytes, b"PROXY TCP4 203.0.113.5 198.51.100.9 51234 443\r\n".to_vec());
                break;
            }
            Step::Rejected(error) => panic!("rejected: {}", error.message()),
        }
    }
    assert_eq!(at, 42);
}

#[test]
fn sniffing_settles_a_client_without_header_at_once() {
    let local = v4(127, 0, 0, 1, 9000);
    let target = v4(127, 0, 0, 1, 9001);
    match sniff(b"hello", &local, &target) {
        Step::Ready(bytes) => {
            assert_eq!(bytes, b"PROXY TCP4 127.0.0.1 127.0.0.1 9000 9001\r\nhello".to_vec())
        }
        _ => panic!("the client sent no header"),
    }
    let other = v6([0, 0, 0, 0, 0, 0, 0, 1], 9001);
    match sniff(b"hello", &local, &other) {
        Step::Rejected(error) => assert_eq!(error, Error::FamilyMix),
        _ => panic!("the families differ"),
    }
    assert!(matches!(sniff(b"PROXY", &local, &target), Step::Continue(_)));
}

#[test]
fn scanning_gives_up_at_the_limit() {
    let local = v4(127, 0, 0, 1, 9000);
    let target = v4(127, 0, 0, 1, 9001);
    let mut step = sniff(b"PROXY", &local, &target);
    let mut pushed = 0;
    loop {
        match step {
            Step::Continue(scanner) => {
                step = scanner.push(b'x');
                pushed += 1;
            }
            Step::Rejected(error) => {
                assert_eq!(error, failed("the header line is too long"));
                break;
            }
            Step::Ready(_) => panic!("no line feed was sent"),
        }
    }
    assert_eq!(pushed, 103);
}

#[test]
fn failure_to_read_is_reported_with_its_cause() {
    assert_eq!(
        read_failure("connection reset".to_string()),
        Error::ProxyHeaderFailed { cause: "connection reset".to_string() }
    );
    assert_eq!(
        read_failure("connection reset".to_string()).message(),
        "Could not read PROXY header: connection reset"
    );
}

#[test]
fn fields_without_spaces_are_kept_byte_for_byte() {
    let local = v4(192, 0, 2, 1, 80);
    let target = v4(198, 51, 100, 9, 443);
    // Blanks other than the space part no fields, and stay where they are.
    assert_eq!(
        received_by_target(b"PROXY TCP4 203.0\t113.5 10.0.0.1 51\r234 80\r\nGET /\r\n", &local, &target),
        b"PROXY TCP4 203.0\t113.5 198.51.100.9 51\r234 443\r\nGET /\r\n".to_vec()
    );
    // Blanks at the end of the last field go with the end of the line.
    assert_eq!(
        received_by_target(b"PROXY TCP4 a b c 80\t\x0b\r\nrest", &local, &target),
        b"PROXY TCP4 a 198.51.100.9 c 443\r\nrest".to_vec()
    );
    assert_eq!(
        received_by_target(b"PROXY TCP4 a b c \t8\r\nrest", &local, &target),
        b"PROXY TCP4 a 198.51.100.9 c 443\r\nrest".to_vec()
    );
}

#[test]
fn last_field_of_blanks_leaves_four_fields() {
    let local = v4(192, 0, 2, 1, 80);
    let target = v4(198, 51, 100, 9, 443);
    let malformed = failed("the header line does not have five fields");
    assert_eq!(negotiate(b"PROXY TCP4 a b c \r\nrest", &local, &target), Err(malformed.clone()));
    assert_eq!(negotiate(b"PROXY TCP4 a b c \t\r\nrest", &local, &target), Err(malformed));
}

#[test]
fn line_feed_in_a_field_ends_the_line_there() {
    let local = v4(192, 0, 2, 1, 80);
    let target = v4(198, 51, 100, 9, 443);
    assert_eq!(
        received_by_target(b"PROXY TCP4 a b c 8\n0\r\nrest", &local, &target),
        b"PROXY TCP4 a 198.51.100.9 c 443\r\n0\r\nrest".to_vec()
    );
    assert_eq!(
        negotiate(b"PROXY TCP4 a\nb c d 80\r\nrest", &local, &target),
        Err(failed("the header line does not have five fields"))
    );
}
