//! Building blocks for a point-to-point virtual network interface that
//! answers ICMP echo requests.
//!
//! The crate covers the pieces that can be stated and proved exactly: the
//! generic ioctl request-code layout, the fixed-size interface request
//! record, the Internet ones'-complement checksum, and the frame rewrite
//! that turns an echo request into an echo reply.  The system calls that
//! carry these values to the kernel live outside the library.

pub mod ioctl;
pub mod pump;
pub mod sockios;
pub mod tun;
