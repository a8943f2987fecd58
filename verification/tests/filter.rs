use tun_echo::pump::{checksum, echo_filter, frame_prefix};

/// A 28-byte IPv4 frame carrying an 8-byte ICMP echo request from
/// 10.0.0.2 to 203.0.113.0.
fn echo_request_frame() -> Vec<u8> {
    let mut frame = vec![
        0x45, 0x00, 0x00, 0x1C, // version/IHL, TOS, total length 28
        0x00, 0x00, 0x00, 0x00, // identification, flags/fragment
        0x40, 0x01, 0x00, 0x00, // TTL 64, protocol ICMP, header checksum
        10, 0, 0, 2, // source address
        203, 0, 113, 0, // destination address
    ];
    frame.extend_from_slice(&[
        8, 0, // ICMP type 8 (echo request), code 0
        0xAB, 0xCD, // ICMP checksum as it arrived
        0x00, 0x01, 0x00, 0x01, // identifier, sequence number
    ]);
    frame
}

#[test]
fn echo_request_becomes_reply() {
    let input = echo_request_frame();
    let mut frame = input.clone();
    assert!(echo_filter(&mut frame));
    assert_eq!(frame.len(), 28);
    // addresses swapped
    assert_eq!(&frame[12..16], &[203, 0, 113, 0]);
    assert_eq!(&frame[16..20], &[10, 0, 0, 2]);
    // ICMP type and code cleared
    assert_eq!(&frame[20..22], &[0, 0]);
    // everything outside the rewritten fields untouched
    assert_eq!(&frame[..12], &input[..12]);
    assert_eq!(&frame[24..], &input[24..]);
    // the new ICMP checksum satisfies the validation identity
    assert_eq!(checksum(&frame[20..]), 0x0000);
    // and has the exact expected bytes, low byte first:
    // zeroed segment sums to 0x0200, complement 0xFDFF
    assert_eq!(&frame[22..24], &[0xFF, 0xFD]);
}

#[test]
fn non_icmp_frames_are_dropped_unchanged() {
    let mut frame = echo_request_frame();
    frame[20] = 6;
    let input = frame.clone();
    assert!(!echo_filter(&mut frame));
    assert_eq!(frame, input);

    let mut frame = echo_request_frame();
    frame[21] = 1;
    let input = frame.clone();
    assert!(!echo_filter(&mut frame));
    assert_eq!(frame, input);
}

#[test]
fn short_frames_are_rejected_unchanged() {
    for n in [0usize, 1, 10, 21, 22, 23] {
        let mut frame: Vec<u8> = echo_request_frame()[..n].to_vec();
        let input = frame.clone();
        assert!(!echo_filter(&mut frame), "length {n}");
        assert_eq!(frame, input, "length {n}");
    }
}

#[test]
fn filter_is_idempotent_on_its_own_reply() {
    // the reply's type byte is 0, not 8, so a second pass drops it
    let mut frame = echo_request_frame();
    assert!(echo_filter(&mut frame));
    let reply = frame.clone();
    assert!(!echo_filter(&mut frame));
    assert_eq!(frame, reply);
}

#[test]
fn frame_prefix_copies_the_received_bytes() {
    let buf = [1u8, 2, 3, 4, 5, 6, 7, 8];
    assert_eq!(frame_prefix(&buf, 0), Vec::<u8>::new());
    assert_eq!(frame_prefix(&buf, 3), vec![1, 2, 3]);
    assert_eq!(frame_prefix(&buf, 8), buf.to_vec());
}
