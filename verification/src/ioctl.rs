//! The generic ioctl request-code layout.
//!
//! A request code packs four fields into one `u32`: the request number in
//! bits `[0, 8)`, the type tag in bits `[8, 16)`, the argument size in bits
//! `[16, 28)`, and the transfer direction in bits `[28, 31)`.  The layout is
//! a fixed kernel convention and must be reproduced bit for bit.

use vstd::prelude::*;

verus! {

pub const IOC_NRBITS: u32 = 8;
pub const IOC_TYPEBITS: u32 = 8;
pub const IOC_SIZEBITS: u32 = 12;
pub const IOC_DIRBITS: u32 = 3;

pub const IOC_NRMASK: u32 = 0xFF;
pub const IOC_TYPEMASK: u32 = 0xFF;
pub const IOC_SIZEMASK: u32 = 0xFFF;
pub const IOC_DIRMASK: u32 = 0x7;

pub const IOC_NRSHIFT: u32 = 0;
pub const IOC_TYPESHIFT: u32 = IOC_NRSHIFT + IOC_NRBITS;
pub const IOC_SIZESHIFT: u32 = IOC_TYPESHIFT + IOC_TYPEBITS;
pub const IOC_DIRSHIFT: u32 = IOC_SIZESHIFT + IOC_SIZEBITS;

/// The direction field deliberately gives "no transfer" a nonzero bit, so
/// that stale codes built before this convention stand out.
pub const IOC_NONE: u32 = 1;
pub const IOC_READ: u32 = 2;
pub const IOC_WRITE: u32 = 4;

/// The request code obtained by placing each field at its shift.  Fields
/// wider than their slot overlap silently, as the kernel convention has it.
pub open spec fn ioc_spec(dir: u32, typ: u32, nr: u32, size: u32) -> u32 {
    (dir << IOC_DIRSHIFT) | (typ << IOC_TYPESHIFT) | (nr << IOC_NRSHIFT) | (size << IOC_SIZESHIFT)
}

/// Packs a direction, a type tag, a request number and an argument size
/// into one request code.
pub fn ioc(dir: u32, typ: u32, nr: u32, size: u32) -> (code: u32)
    ensures
        code == ioc_spec(dir, typ, nr, size),
{
    (dir << IOC_DIRSHIFT) | (typ << IOC_TYPESHIFT) | (nr << IOC_NRSHIFT) | (size << IOC_SIZESHIFT)
}

/// The request code of a write-direction ioctl, as the kernel's `_IOW`
/// convention builds it.
pub fn iow(typ: u32, nr: u32, size: u32) -> (code: u32)
    ensures
        code == ioc_spec(IOC_WRITE, typ, nr, size),
{
    ioc(IOC_WRITE, typ, nr, size)
}

/// Within the declared bit widths every field can be read back from the
/// code through its mask and shift, so no two distinct field tuples share
/// a code.
pub proof fn lemma_ioc_fields(dir: u32, typ: u32, nr: u32, size: u32)
    by (bit_vector)
    requires
        dir < 8,
        typ < 256,
        nr < 256,
        size < 4096,
    ensures
        (ioc_spec(dir, typ, nr, size) >> IOC_DIRSHIFT) & IOC_DIRMASK == dir,
        (ioc_spec(dir, typ, nr, size) >> IOC_TYPESHIFT) & IOC_TYPEMASK == typ,
        (ioc_spec(dir, typ, nr, size) >> IOC_NRSHIFT) & IOC_NRMASK == nr,
        (ioc_spec(dir, typ, nr, size) >> IOC_SIZESHIFT) & IOC_SIZEMASK == size,
{
}

/// Within the declared bit widths the encoding is injective: equal codes
/// come only from equal field tuples.
pub proof fn lemma_ioc_injective(
    d1: u32, t1: u32, n1: u32, s1: u32,
    d2: u32, t2: u32, n2: u32, s2: u32,
)
    requires
        d1 < 8, t1 < 256, n1 < 256, s1 < 4096,
        d2 < 8, t2 < 256, n2 < 256, s2 < 4096,
        ioc_spec(d1, t1, n1, s1) == ioc_spec(d2, t2, n2, s2),
    ensures
        d1 == d2,
        t1 == t2,
        n1 == n2,
        s1 == s2,
{
    lemma_ioc_fields(d1, t1, n1, s1);
    lemma_ioc_fields(d2, t2, n2, s2);
}

} // verus!
