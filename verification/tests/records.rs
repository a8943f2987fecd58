use std::cell::Cell;

use tun_echo::sockios::{
    addr_request, flags_request, to_sockaddr_in, IFIdent, IFReq, IFReqPayload, Ipv4, AF_INET,
    SIOCGIFFLAGS, SIOCSIFADDR, SIOCSIFFLAGS, SIOCSIFNETMASK,
};
use tun_echo::tun::{
    cvt, cvt_r, name_from_slot, strncpy_rs, tun_request, OsError, EINTR, IFF_NO_PI, IFF_TUN,
    IFF_UP,
};

fn slot_bytes(req: &IFReq) -> Vec<u8> {
    req.name.iter().map(|b| *b as u8).collect()
}

#[test]
fn ident_keeps_its_name() {
    let ident = IFIdent::new(String::from("echo%d"));
    assert_eq!(ident.as_str(), "echo%d");
}

#[test]
fn with_if_name_fills_the_slot_and_pads_with_nuls() {
    let ident = IFIdent::new(String::from("echo%d"));
    let req = IFReq::with_if_name(&ident);
    let mut expected = b"echo%d".to_vec();
    expected.resize(16, 0);
    assert_eq!(slot_bytes(&req), expected);
    assert!(matches!(req.payload, IFReqPayload::Zeroed));
}

#[test]
fn default_record_is_all_clear() {
    let req = IFReq::default();
    assert_eq!(slot_bytes(&req), vec![0u8; 16]);
    assert!(matches!(req.payload, IFReqPayload::Zeroed));
}

#[test]
fn tun_request_selects_tunnel_mode_without_packet_info() {
    let req = tun_request("echo%d");
    let mut expected = b"echo%d".to_vec();
    expected.resize(16, 0);
    assert_eq!(slot_bytes(&req), expected);
    assert_eq!(IFF_TUN | IFF_NO_PI, 0x1001);
    assert!(matches!(req.payload, IFReqPayload::Flags(0x1001)));
}

#[test]
fn tun_request_truncates_a_long_name_hint() {
    let req = tun_request("abcdefghijklmnopqrstuvwxyz");
    assert_eq!(slot_bytes(&req), b"abcdefghijklmnop".to_vec());
}

#[test]
fn flags_request_carries_the_flags_word() {
    let ident = IFIdent::new(String::from("echo0"));
    let req = flags_request(&ident, 0x1003 | IFF_UP);
    assert!(matches!(req.payload, IFReqPayload::Flags(0x1003)));
}

#[test]
fn addr_request_carries_an_inet_socket_address() {
    let ident = IFIdent::new(String::from("echo0"));
    let addr = Ipv4 { a: 203, b: 0, c: 113, d: 0 };
    let req = addr_request(&ident, addr);
    match req.payload {
        IFReqPayload::Addr(sa) => {
            assert_eq!(sa.family, AF_INET);
            assert_eq!(sa.port, 0);
            assert_eq!(sa.addr, addr);
        },
        _ => panic!("expected an address payload"),
    }
}

#[test]
fn to_sockaddr_in_tags_the_family() {
    let sa = to_sockaddr_in(Ipv4 { a: 255, b: 255, c: 255, d: 254 });
    assert_eq!(sa.family, 2);
    assert_eq!(sa.port, 0);
}

#[test]
fn request_code_constants_match_the_kernel() {
    assert_eq!(SIOCSIFFLAGS, 0x8914);
    assert_eq!(SIOCGIFFLAGS, 0x8913);
    assert_eq!(SIOCSIFADDR, 0x8916);
    assert_eq!(SIOCSIFNETMASK, 0x891c);
}

#[test]
fn name_from_slot_stops_at_the_first_nul() {
    let mut slot: Vec<i8> = b"echo0".iter().map(|b| *b as i8).collect();
    slot.resize(16, 0);
    assert_eq!(name_from_slot(&slot), b"echo0".to_vec());
}

#[test]
fn name_from_slot_takes_a_full_slot_whole() {
    let slot: Vec<i8> = b"abcdefghijklmnop".iter().map(|b| *b as i8).collect();
    assert_eq!(name_from_slot(&slot), b"abcdefghijklmnop".to_vec());
}

#[test]
fn strncpy_copies_up_to_the_shorter_length() {
    let mut dst = vec![1i8; 8];
    strncpy_rs(&mut dst, b"abc");
    assert_eq!(dst, vec![97, 98, 99, 1, 1, 1, 1, 1]);

    let mut short = vec![0i8; 2];
    strncpy_rs(&mut short, b"abc");
    assert_eq!(short, vec![97, 98]);
}

#[test]
fn cvt_splits_statuses_at_zero() {
    assert_eq!(cvt(0), Ok(0));
    assert_eq!(cvt(17), Ok(17));
    assert_eq!(cvt(-13), Err(OsError { code: 13 }));
}

#[test]
fn cvt_r_passes_success_and_real_errors_through() {
    assert_eq!(cvt_r(|| 5), Ok(5));
    assert_eq!(cvt_r(|| -13), Err(OsError { code: 13 }));
}

#[test]
fn cvt_r_retries_after_interrupts() {
    let calls = Cell::new(0);
    let result = cvt_r(|| {
        calls.set(calls.get() + 1);
        if calls.get() <= 2 {
            -EINTR
        } else {
            3
        }
    });
    assert_eq!(result, Ok(3));
    assert_eq!(calls.get(), 3);
}
