//! The tunnel device's helpers: system-call result conversion with the
//! interrupt-retry policy, the bounded name copy that fills a request
//! record's name slot, the creation request, and the read-back of the
//! kernel-confirmed interface name.

use crate::ioctl::{ioc_spec, iow, IOC_WRITE};
use crate::sockios::{zero_slot, IFReq, IFReqPayload, IFNAMSIZ};
use vstd::prelude::*;
use vstd::string::StringSliceAdditionalSpecFns;

verus! {

/// The request code that creates a tunnel interface: write direction,
/// type tag 'T', request number 202, and a four-byte argument, as the
/// kernel declares the operation.
pub fn tunsetiff_code() -> (code: u32)
    ensures
        code == ioc_spec(IOC_WRITE, 0x54, 202, 4),
{
    iow(0x54, 202, 4)
}

/// Tunnel framing: each frame is one bare IP packet.
pub const IFF_TUN: i16 = 0x0001;

/// Tap framing: each frame is one Ethernet frame.  Not used by this
/// system, kept for completeness of the mode flags.
pub const IFF_TAP: i16 = 0x0002;

/// Omit the extra packet-information header on every frame.
pub const IFF_NO_PI: i16 = 0x1000;

/// The interface-up bit of the interface flags word.
pub const IFF_UP: u16 = 0x1;

/// The interrupted-system-call error code; a call that fails with it is
/// retried transparently.
pub const EINTR: i32 = 4;

/// A failing system call, carried as its positive error code.
#[derive(Clone, Copy, Debug, PartialEq, Eq, Structural)]
pub struct OsError {
    pub code: i32,
}

/// Turns a raw system-call status into a result: a non-negative status is
/// the value, a negative one the error code.
pub fn cvt(res: i32) -> (r: Result<i32, OsError>)
    requires
        res > i32::MIN,
    ensures
        res >= 0 ==> r == Result::<i32, OsError>::Ok(res),
        res < 0 ==> (r matches Err(e) && e.code == -res),
{
    if res >= 0 {
        Ok(res)
    } else {
        Err(OsError { code: -res })
    }
}

/// How many consecutive interrupts the retry wrapper absorbs before it
/// gives the interrupt error back to the caller.
pub const EINTR_RETRY_LIMIT: u32 = 0x1000_0000;

/// Repeats a system call as long as it fails with an interrupt, up to the
/// generous retry bound; any other outcome is returned at once.  This is
/// the one retry policy of the system.
pub fn cvt_r<F: Fn() -> i32>(op: F) -> (r: Result<i32, OsError>)
    requires
        call_requires(op, ()),
        forall|v: i32| call_ensures(op, (), v) ==> v > i32::MIN,
    ensures
        r matches Ok(v) ==> v >= 0 && call_ensures(op, (), v),
        r matches Err(e) ==> e.code > 0 && call_ensures(op, (), (-e.code) as i32),
{
    let mut attempts: u32 = 0;
    loop
        invariant
            call_requires(op, ()),
            forall|v: i32| call_ensures(op, (), v) ==> v > i32::MIN,
            attempts <= EINTR_RETRY_LIMIT,
        decreases EINTR_RETRY_LIMIT - attempts,
    {
        let res: i32 = op();
        match cvt(res) {
            Ok(v) => {
                return Ok(v);
            },
            Err(e) => {
                if e.code != EINTR || attempts >= EINTR_RETRY_LIMIT {
                    return Err(e);
                }
            },
        }
        attempts = attempts + 1;
    }
}

/// Copies bytes into a fixed-width name slot, as the kernel's bounded
/// string copy does: up to the shorter of the two lengths, leaving the
/// rest of the slot as it was.
pub fn strncpy_rs(dst: &mut Vec<i8>, src: &[u8])
    ensures
        final(dst)@.len() == old(dst)@.len(),
        forall|i: int|
            0 <= i < old(dst)@.len() && i < src@.len() ==> #[trigger] final(dst)@[i] == src@[i]
                as i8,
        forall|i: int|
            src@.len() <= i < old(dst)@.len() ==> #[trigger] final(dst)@[i] == old(dst)@[i],
{
    let n: usize = if dst.len() < src.len() {
        dst.len()
    } else {
        src.len()
    };
    let mut i: usize = 0;
    while i < n
        invariant
            dst@.len() == old(dst)@.len(),
            n <= dst@.len(),
            n <= src@.len(),
            n == if old(dst)@.len() < src@.len() {
                old(dst)@.len() as int
            } else {
                src@.len() as int
            },
            i <= n,
            forall|j: int| 0 <= j < i ==> #[trigger] dst@[j] == src@[j] as i8,
            forall|j: int| i <= j < dst@.len() ==> #[trigger] dst@[j] == old(dst)@[j],
        decreases n - i,
    {
        dst[i] = src[i] as i8;
        i = i + 1;
    }
}

/// The record that creates the tunnel interface: the name hint in the
/// name slot, truncated or NUL-padded to the slot's width, and the mode
/// flags selecting tunnel framing without the extra header.
pub fn tun_request(name_fmt: &str) -> (r: IFReq)
    ensures
        r.wf(),
        forall|i: int|
            0 <= i < IFNAMSIZ && i < name_fmt.spec_bytes().len() ==> #[trigger] r.name@[i]
                == name_fmt.spec_bytes()[i] as i8,
        forall|i: int|
            name_fmt.spec_bytes().len() <= i < IFNAMSIZ ==> #[trigger] r.name@[i] == 0,
        r.payload == IFReqPayload::Flags(IFF_TUN | IFF_NO_PI),
{
    let mut slot: Vec<i8> = zero_slot();
    strncpy_rs(&mut slot, name_fmt.as_bytes());
    IFReq { name: slot, payload: IFReqPayload::Flags(IFF_TUN | IFF_NO_PI) }
}

/// The kernel-confirmed interface name held in a request record's name
/// slot after creation: the bytes before the first NUL.
pub fn name_from_slot(slot: &Vec<i8>) -> (name: Vec<u8>)
    ensures
        name@.len() <= slot@.len(),
        forall|i: int|
            0 <= i < name@.len() ==> #[trigger] name@[i] == slot@[i] as u8 && slot@[i] != 0,
        name@.len() < slot@.len() ==> slot@[name@.len() as int] == 0,
{
    let mut name: Vec<u8> = Vec::new();
    let mut i: usize = 0;
    while i < slot.len()
        invariant
            i <= slot@.len(),
            name@.len() == i,
            forall|j: int|
                0 <= j < i ==> #[trigger] name@[j] == slot@[j] as u8 && slot@[j] != 0,
        decreases slot@.len() - i,
    {
        let b: i8 = slot[i];
        if b == 0 {
            return name;
        }
        name.push(b as u8);
        i = i + 1;
    }
    name
}

} // verus!
