//! The interface configurator's data: the interface identifier, the
//! fixed-size interface request record each control operation sends, and
//! the IPv4 socket-address payload.

use crate::tun::strncpy_rs;
use vstd::prelude::*;
use vstd::string::StringSliceAdditionalSpecFns;
use vstd::utf8::encode_utf8;

verus! {

/// Kernel capacity of an interface name slot, terminator included.
pub const IFNAMSIZ: usize = 16;

/// The address family tag of an IPv4 socket address.
pub const AF_INET: u16 = 2;

/// Request code of the set-interface-flags control operation.
pub const SIOCSIFFLAGS: u32 = 0x8914;

/// Request code of the get-interface-flags control operation.
pub const SIOCGIFFLAGS: u32 = 0x8913;

/// Request code of the set-interface-address control operation.
pub const SIOCSIFADDR: u32 = 0x8916;

/// Request code of the set-interface-netmask control operation.
pub const SIOCSIFNETMASK: u32 = 0x891c;

/// An IPv4 address as its four octets, leftmost first.
#[derive(Clone, Copy, Debug, PartialEq, Eq, Structural)]
pub struct Ipv4 {
    pub a: u8,
    pub b: u8,
    pub c: u8,
    pub d: u8,
}

/// The kernel's IPv4 socket-address record, modelled with the fields the
/// control operations read: the family tag, the port, and the four
/// address octets in their on-wire order.
#[derive(Clone, Copy, Debug, PartialEq, Eq, Structural)]
pub struct SockAddrIn {
    pub family: u16,
    pub port: u16,
    pub addr: Ipv4,
}

/// Builds the socket-address record that carries an IPv4 address to the
/// kernel: family INET, port clear, octets as given.
pub fn to_sockaddr_in(addr: Ipv4) -> (s: SockAddrIn)
    ensures
        s == (SockAddrIn { family: AF_INET, port: 0, addr }),
{
    SockAddrIn { family: AF_INET, port: 0, addr }
}

/// An interface name: a string whose encoded byte length leaves room for
/// the terminator in the kernel's name slot.  Immutable once built.
#[derive(Debug)]
pub struct IFIdent(String);

impl IFIdent {
    /// The name's characters.
    pub closed spec fn chars(&self) -> Seq<char> {
        self.0@
    }

    /// The name's encoded bytes, as they fill a request record's name
    /// slot.
    pub closed spec fn bytes(&self) -> Seq<u8> {
        encode_utf8(self.0@)
    }

    /// The identifier's invariant: the encoded name leaves room for the
    /// slot's terminator.
    pub open spec fn wf(&self) -> bool {
        self.bytes().len() < IFNAMSIZ
    }

    pub fn new(name: String) -> (r: IFIdent)
        requires
            encode_utf8(name@).len() < IFNAMSIZ,
        ensures
            r.wf(),
            r.chars() == name@,
            r.bytes() == encode_utf8(name@),
    {
        IFIdent(name)
    }

    /// The name as a string slice.
    pub fn as_str(&self) -> (r: &str)
        ensures
            r@ == self.chars(),
            r.spec_bytes() == self.bytes(),
    {
        self.0.as_str()
    }
}

/// The payload half of an interface request record; which interpretation
/// is active depends on the control operation being issued.
#[derive(Clone, Copy, Debug, PartialEq, Eq, Structural)]
pub enum IFReqPayload {
    /// Every payload byte clear, as a fresh record starts out.
    Zeroed,
    /// An interface flags word.
    Flags(i16),
    /// An IPv4 socket address.
    Addr(SockAddrIn),
}

/// The fixed-size interface request record: a name slot of `IFNAMSIZ`
/// bytes and a payload.  Untouched parts are zero-initialized before use.
#[derive(Debug)]
pub struct IFReq {
    pub name: Vec<i8>,
    pub payload: IFReqPayload,
}

/// A name slot of the full width, every byte clear.
pub(crate) fn zero_slot() -> (slot: Vec<i8>)
    ensures
        slot@.len() == IFNAMSIZ,
        forall|i: int| 0 <= i < slot@.len() ==> slot@[i] == 0,
{
    let mut slot: Vec<i8> = Vec::new();
    let mut i: usize = 0;
    while i < IFNAMSIZ
        invariant
            slot@.len() == i,
            i <= IFNAMSIZ,
            forall|j: int| 0 <= j < i ==> slot@[j] == 0,
        decreases IFNAMSIZ - i,
    {
        slot.push(0);
        i = i + 1;
    }
    slot
}

impl IFReq {
    /// A well-formed record fills the name slot exactly.
    pub open spec fn wf(&self) -> bool {
        self.name@.len() == IFNAMSIZ
    }

    /// The name slot an identifier produces: its bytes, then NUL padding.
    pub open spec fn name_slot_of(bytes: Seq<u8>) -> Seq<i8> {
        Seq::new(
            IFNAMSIZ as nat,
            |i: int|
                if i < bytes.len() {
                    bytes[i] as i8
                } else {
                    0i8
                },
        )
    }

    /// A fresh record naming the interface: the identifier's bytes in the
    /// name slot, everything else clear.
    pub fn with_if_name(ident: &IFIdent) -> (r: IFReq)
        requires
            ident.wf(),
        ensures
            r.wf(),
            r.name@ == IFReq::name_slot_of(ident.bytes()),
            r.payload is Zeroed,
    {
        let mut slot: Vec<i8> = zero_slot();
        strncpy_rs(&mut slot, ident.as_str().as_bytes());
        assert(slot@ =~= IFReq::name_slot_of(ident.bytes()));
        IFReq { name: slot, payload: IFReqPayload::Zeroed }
    }
}

impl Default for IFReq {
    /// A zero-initialized record, as every control operation starts from.
    fn default() -> (r: IFReq)
        ensures
            r.wf(),
            forall|i: int| 0 <= i < r.name@.len() ==> r.name@[i] == 0,
            r.payload is Zeroed,
    {
        IFReq { name: zero_slot(), payload: IFReqPayload::Zeroed }
    }
}

/// The record the set-flags operation sends: the interface name and the
/// flags word, reinterpreted as the kernel's signed flags field.
pub fn flags_request(ident: &IFIdent, flags: u16) -> (r: IFReq)
    requires
        ident.wf(),
    ensures
        r.wf(),
        r.name@ == IFReq::name_slot_of(ident.bytes()),
        r.payload == IFReqPayload::Flags(flags as i16),
{
    let mut req = IFReq::with_if_name(ident);
    req.payload = IFReqPayload::Flags(flags as i16);
    req
}

/// The record the set-address and set-netmask operations send: the
/// interface name and an INET socket address holding the four octets.
pub fn addr_request(ident: &IFIdent, addr: Ipv4) -> (r: IFReq)
    requires
        ident.wf(),
    ensures
        r.wf(),
        r.name@ == IFReq::name_slot_of(ident.bytes()),
        r.payload == IFReqPayload::Addr((SockAddrIn { family: AF_INET, port: 0, addr })),
{
    let mut req = IFReq::with_if_name(ident);
    req.payload = IFReqPayload::Addr(to_sockaddr_in(addr));
    req
}

} // verus!
