use pios::channel::{Channel, Cursor, Duplex};
use pios::io::ErrorKind;
use pios::xmodem::{checksum_of, Xmodem, ACK, CAN, EOT, NAK, SOH};

fn sum(bytes: &[u8]) -> u8 {
    bytes.iter().fold(0, |a: u8, b| a.wrapping_add(*b))
}

#[test]
fn read_byte() {
    let byte = Xmodem::new(Cursor::new(vec![CAN])).read_byte(false).expect("read a byte");
    assert_eq!(byte, CAN);

    let e = Xmodem::new(Cursor::new(vec![CAN])).read_byte(true).expect_err("abort on CAN");
    assert_eq!(e, ErrorKind::ConnectionAborted);
}

#[test]
fn tests_test_expect_byte() {
    let mut xmodem = Xmodem::new(Cursor::new(vec![1, 1]));
    assert_eq!(xmodem.expect_byte(1).expect("expected"), 1);
    let e = xmodem.expect_byte(2).expect_err("expect the unexpected");
    assert_eq!(e, ErrorKind::InvalidData);
}

#[test]
fn tests_test_expect_byte_or_cancel() {
    let buffer = vec![2, 0];
    let mut xmodem = Xmodem::new(Cursor::new(buffer));
    let b = xmodem.expect_byte_or_cancel(2).expect("got a 2");
    assert_eq!(b, 2);
    let buffer = xmodem.into_inner().into_inner();

    let mut xmodem = Xmodem::new(Cursor::new(buffer));
    let e = xmodem.expect_byte_or_cancel(0xFF).expect_err("unexpected");
    assert_eq!(e, ErrorKind::InvalidData);
    let buffer = xmodem.into_inner().into_inner();
    assert_eq!(buffer[1], CAN);
}

#[test]
fn test_expect_can() {
    let mut xmodem = Xmodem::new(Cursor::new(vec![CAN]));
    assert_eq!(xmodem.expect_byte(CAN).expect("CAN"), CAN);
}

#[test]
fn test_unexpected_can() {
    let e = Xmodem::new(Cursor::new(vec![CAN])).expect_byte(SOH).expect_err("have CAN");
    assert_eq!(e, ErrorKind::ConnectionAborted);
}

#[test]
fn test_cancel_on_unexpected() {
    let mut xmodem = Xmodem::new(Cursor::new(vec![CAN, 0]));
    let e = xmodem.expect_byte_or_cancel(SOH).expect_err("have CAN");
    assert_eq!(e, ErrorKind::ConnectionAborted);
    assert_eq!(xmodem.into_inner().into_inner()[1], CAN);

    let mut xmodem = Xmodem::new(Cursor::new(vec![0, 0]));
    let e = xmodem.expect_byte_or_cancel(SOH).expect_err("have 0");
    assert_eq!(e, ErrorKind::InvalidData);
    assert_eq!(xmodem.into_inner().into_inner()[1], CAN);
}

#[test]
fn tests_test_small_packet_eof_error() {
    for input in [vec![NAK, NAK, NAK], vec![]] {
        let mut xmodem = Xmodem::new(Cursor::new(input));
        let mut buffer = vec![1, 2, 3];
        let e = xmodem.read_packet(&mut buffer).expect_err("read EOF");
        assert_eq!(e, ErrorKind::UnexpectedEof);

        let e = xmodem.write_packet(&buffer).expect_err("write EOF");
        assert_eq!(e, ErrorKind::UnexpectedEof);
    }
}

#[test]
fn test_bad_control() {
    let mut packet = vec![0; 128];
    let e = Xmodem::new(Cursor::new(vec![0, CAN])).read_packet(&mut packet).expect_err("CAN");
    assert_eq!(e, ErrorKind::ConnectionAborted);

    let e = Xmodem::new(Cursor::new(vec![0, 0xFF])).read_packet(&mut packet).expect_err("bad control");
    assert_eq!(e, ErrorKind::InvalidData);
}

#[test]
fn tests_test_eot() {
    let mut xmodem = Xmodem::new(Cursor::new(vec![NAK, 0, NAK, 0, ACK]));
    xmodem.write_packet(&vec![]).expect("write empty buf for EOT");
    assert_eq!(xmodem.into_inner().into_inner(), vec![NAK, EOT, NAK, EOT, ACK]);
}

fn framed(number: u8, payload: &[u8], check: u8) -> Vec<u8> {
    let mut v = vec![SOH, number, 255 - number];
    v.extend_from_slice(payload);
    v.push(check);
    v
}

#[test]
fn test_read_packet() {
    let source_packet = [0u8; 128];
    let mut wire = framed(1, &source_packet, 0);
    wire.extend_from_slice(&[EOT, EOT]);
    let mut xmodem = Xmodem::new(Duplex::new(wire));

    let mut dest_packet = vec![0u8; 128];
    assert_eq!(xmodem.read_packet(&mut dest_packet).expect("read packet"), 128);
    assert_eq!(&dest_packet[..], &source_packet[..]);
    assert_eq!(xmodem.read_packet(&mut dest_packet).ok(), Some(0));

    assert_eq!(xmodem.inner().output(), &vec![NAK, ACK, NAK, ACK]);
}

#[test]
fn test_read_packet_control_characters() {
    let mut source_packet = [0u8; 128];
    source_packet[0..5].copy_from_slice(&[SOH, EOT, ACK, NAK, CAN]);
    let wire = framed(1, &source_packet, sum(&source_packet));
    let mut xmodem = Xmodem::new(Duplex::new(wire));

    let mut dest_packet = vec![0u8; 128];
    xmodem.read_packet(&mut dest_packet).expect("read packet");
    assert_eq!(&dest_packet[..], &source_packet[..]);
    assert_eq!(xmodem.inner().output(), &vec![NAK, ACK]);
}

#[test]
fn test_read_packet_checksum_can() {
    let mut source_packet = [0u8; 128];
    source_packet[0] = CAN;
    let wire = framed(1, &source_packet, CAN);
    let mut xmodem = Xmodem::new(Duplex::new(wire));

    let mut dest_packet = vec![0u8; 128];
    xmodem.read_packet(&mut dest_packet).expect("read packet");
    assert_eq!(&dest_packet[..], &source_packet[..]);
    assert_eq!(xmodem.inner().output(), &vec![NAK, ACK]);
}

#[test]
fn test_read_packet_numbers() {
    let source_packet = [0u8; 128];
    let mut wire = Vec::new();
    for x in 1..512 {
        wire.extend(framed(x as u8, &source_packet, 0));
    }
    let mut xmodem = Xmodem::new(Duplex::new(wire));
    for _ in 1..512 {
        let mut dest_packet = vec![0u8; 128];
        xmodem.read_packet(&mut dest_packet).expect("read packet");
        assert_eq!(&dest_packet[..], &source_packet[..]);
    }
    let out = xmodem.inner().output();
    assert_eq!(out[0], NAK);
    assert!(out[1..].iter().all(|b| *b == ACK));
    assert_eq!(out.len(), 512);
}

#[test]
fn test_write_packet() {
    let mut xmodem = Xmodem::new(Duplex::new(vec![NAK, ACK, NAK, ACK]));
    let source_packet = vec![0u8; 128];
    assert_eq!(xmodem.write_packet(&source_packet).expect("write packet"), 128);
    assert_eq!(xmodem.write_packet(&vec![]).expect("transmission end"), 0);

    let out = xmodem.inner().output();
    assert_eq!(&out[0..3], &[SOH, 1, 254]);
    assert_eq!(&out[3..131], &source_packet[..]);
    assert_eq!(out[131], 0);
    assert_eq!(&out[132..], &[EOT, EOT]);
}

#[test]
fn test_write_packet_control_characters() {
    let mut xmodem = Xmodem::new(Duplex::new(vec![NAK, ACK, NAK, ACK]));
    let mut source_packet = vec![0u8; 128];
    source_packet[0..5].copy_from_slice(&[SOH, EOT, ACK, NAK, CAN]);
    xmodem.write_packet(&source_packet).expect("write packet");
    xmodem.write_packet(&vec![]).expect("transmission end");

    let out = xmodem.inner().output();
    assert_eq!(&out[0..3], &[SOH, 1, 254]);
    assert_eq!(&out[3..131], &source_packet[..]);
}

#[test]
fn test_write_packet_numbers() {
    let mut replies = vec![NAK];
    replies.extend(std::iter::repeat(ACK).take(511));
    let mut xmodem = Xmodem::new(Duplex::new(replies));
    let source_packet = vec![0u8; 128];
    for _ in 1..512 {
        xmodem.write_packet(&source_packet).expect("write packet");
    }
    let out = xmodem.inner().output();
    for x in 1..512usize {
        let at = (x - 1) * 132;
        let packet_number = x as u8;
        assert_eq!(&out[at..at + 3], &[SOH, packet_number, 255 - packet_number]);
        assert_eq!(&out[at + 3..at + 131], &source_packet[..]);
    }
}

#[test]
fn xmodem_wrong_checksum_is_asked_again() {
    let payload = [7u8; 128];
    let mut wire = framed(1, &payload, sum(&payload).wrapping_add(1));
    wire.extend(framed(1, &payload, sum(&payload)));
    let mut xmodem = Xmodem::new(Duplex::new(wire));
    let mut buf = vec![0u8; 128];
    assert_eq!(xmodem.read_packet(&mut buf), Err(ErrorKind::Interrupted));
    assert_eq!(xmodem.read_packet(&mut buf), Ok(128));
    assert_eq!(&buf[..], &payload[..]);
    assert_eq!(xmodem.inner().output(), &vec![NAK, NAK, ACK]);
}

#[test]
fn xmodem_wrong_packet_number_cancels() {
    let payload = [0u8; 128];
    let wire = framed(2, &payload, 0);
    let mut xmodem = Xmodem::new(Duplex::new(wire));
    let mut buf = vec![0u8; 128];
    assert_eq!(xmodem.read_packet(&mut buf), Err(ErrorKind::InvalidData));
    assert_eq!(xmodem.inner().output(), &vec![NAK, CAN]);
}

#[test]
fn xmodem_nak_reply_is_interrupted_and_other_reply_invalid() {
    let mut xmodem = Xmodem::new(Duplex::new(vec![NAK, NAK, 0x42]));
    let packet = vec![3u8; 128];
    assert_eq!(xmodem.write_packet(&packet), Err(ErrorKind::Interrupted));
    assert_eq!(xmodem.write_packet(&packet), Err(ErrorKind::InvalidData));
}

#[test]
fn xmodem_checksum_wraps() {
    assert_eq!(checksum_of(&vec![0u8; 128]), 0);
    assert_eq!(checksum_of(&vec![255u8, 1]), 0);
    assert_eq!(checksum_of(&vec![200u8, 100]), 44);
    let all: Vec<u8> = (0..128u32).map(|b| b as u8).collect();
    assert_eq!(checksum_of(&all), sum(&all));
}

/// Runs a sender against the replies of a receiver that accepts every
/// packet, then a receiver against the sender's wire.
fn round_trip(input: &[u8]) -> (usize, usize, Vec<u8>, Vec<u8>, Vec<u8>) {
    let packets = (input.len() + 127) / 128;
    let mut replies = vec![NAK];
    replies.extend(std::iter::repeat(ACK).take(packets));
    replies.extend_from_slice(&[NAK, ACK]);
    let (sent, tx) = Xmodem::transmit(&input.to_vec(), Duplex::new(replies));
    let sent = sent.expect("tx okay");
    let wire = tx.output().clone();

    let mut output = Vec::new();
    let (received, rx) = Xmodem::receive(Duplex::new(wire.clone()), &mut output);
    let received = received.expect("rx okay");
    (sent, received, output, wire, rx.output().clone())
}

#[test]
fn tests_test_loop() {
    let mut input = [0u8; 384];
    for (i, chunk) in input.chunks_mut(128).enumerate() {
        chunk.iter_mut().for_each(|b| *b = i as u8);
    }
    let (sent, received, output, _, _) = round_trip(&input);
    assert_eq!(sent, 384);
    assert_eq!(received, 384);
    assert_eq!(&input[..], &output[..]);
}

#[test]
fn test_can_in_packet_and_checksum() {
    let mut input = [0u8; 256];
    input[0] = CAN;
    let (sent, _, output, _, _) = round_trip(&input);
    assert_eq!(sent, 256);
    assert_eq!(&input[..], &output[..]);
}

#[test]
fn test_transmit_reported_bytes() {
    let input = [0u8; 50];
    let (sent, received, output, _, _) = round_trip(&input);
    assert_eq!(sent, 50);
    assert_eq!(received, 128);
    assert_eq!(&output[..50], &input[..]);
    assert!(output[50..].iter().all(|b| *b == 0));
}

#[test]
fn tests_test_raw_transmission() {
    let mut input = [0u8; 256];
    (0..256usize).for_each(|i| input[i] = i as u8);
    let (_, _, output, rx_buf, tx_buf) = round_trip(&input);

    assert_eq!(&rx_buf[0..3], &[SOH, 1, 255 - 1]);
    assert_eq!(&rx_buf[3..(3 + 128)], &input[..128]);
    assert_eq!(rx_buf[131], sum(&input[..128]));

    assert_eq!(&rx_buf[132..135], &[SOH, 2, 255 - 2]);
    assert_eq!(&rx_buf[135..(135 + 128)], &input[128..]);
    assert_eq!(rx_buf[263], sum(&input[128..]));

    assert_eq!(&rx_buf[264..], &[EOT, EOT]);
    assert_eq!(&tx_buf, &[NAK, ACK, ACK, NAK, ACK]);
    assert_eq!(&output[..], &input[..]);

    let mut input = [0u8; 128];
    (0..128).for_each(|i| input[i] = i as u8);
    let (_, _, _, rx_buf, tx_buf) = round_trip(&input);
    assert_eq!(rx_buf.len(), 134);
    assert_eq!(&rx_buf[0..3], &[SOH, 1, 255 - 1]);
    assert_eq!(&rx_buf[3..(128 + 3)], &input[..]);
    assert_eq!(rx_buf[131], sum(&input));
    assert_eq!(&rx_buf[132..134], &[EOT, EOT]);
    assert_eq!(&tx_buf, &[NAK, ACK, NAK, ACK]);
}

#[test]
fn xmodem_empty_transfer() {
    let (sent, received, output, wire, replies) = round_trip(&[]);
    assert_eq!(sent, 0);
    assert_eq!(received, 0);
    assert!(output.is_empty());
    assert_eq!(wire, vec![EOT, EOT]);
    assert_eq!(replies, vec![NAK, NAK, ACK]);
}

#[test]
fn xmodem_transmit_resends_after_nak() {
    let input = vec![9u8; 128];
    let (r, tx) = Xmodem::transmit(&input, Duplex::new(vec![NAK, NAK, ACK, NAK, ACK]));
    assert_eq!(r, Ok(128));
    assert_eq!(tx.output().len(), 132 * 2 + 2);
}

#[test]
fn xmodem_gives_up_after_ten_tries() {
    let input = vec![9u8; 128];
    let mut replies = vec![NAK];
    replies.extend(std::iter::repeat(NAK).take(10));
    let (r, _) = Xmodem::transmit(&input, Duplex::new(replies));
    assert_eq!(r, Err(ErrorKind::BrokenPipe));

    let payload = [1u8; 128];
    let mut wire = Vec::new();
    for _ in 0..10 {
        wire.extend(framed(1, &payload, 0));
    }
    let mut out = Vec::new();
    let (r, _) = Xmodem::receive(Duplex::new(wire), &mut out);
    assert_eq!(r, Err(ErrorKind::BrokenPipe));
}

#[test]
fn xmodem_cursor_logs_traffic() {
    let mut c = Cursor::new(vec![1, 2]);
    assert_eq!(c.read_byte(), Ok(1));
    assert_eq!(c.write_byte(9), Ok(()));
    assert_eq!(c.read_byte(), Err(ErrorKind::UnexpectedEof));
    assert_eq!(c.position(), 2);
    assert_eq!(c.into_inner(), vec![1, 9]);
}
