//! The numbers that Linux gives its errors and poll events, as the libc crate has them, and the
//! system's words for an error.

use vstd::prelude::*;

verus! {

/// `libc::EACCES`, permission denied: 13 on Linux.
#[verifier::external_body]
pub(crate) fn eacces() -> (r: i32)
    ensures
        r == 13,
{
    libc::EACCES
}

/// `libc::EAGAIN`, try again: 11 on Linux.
#[verifier::external_body]
pub(crate) fn eagain() -> (r: i32)
    ensures
        r == 11,
{
    libc::EAGAIN
}

/// `libc::EBUSY`, device or resource busy: 16 on Linux.
#[verifier::external_body]
pub(crate) fn ebusy() -> (r: i32)
    ensures
        r == 16,
{
    libc::EBUSY
}

/// `libc::EINVAL`, invalid argument: 22 on Linux.
#[verifier::external_body]
pub(crate) fn einval() -> (r: i32)
    ensures
        r == 22,
{
    libc::EINVAL
}

/// `libc::EIO`, input/output error: 5 on Linux.
#[verifier::external_body]
pub(crate) fn eio() -> (r: i32)
    ensures
        r == 5,
{
    libc::EIO
}

/// `libc::ENODEV`, no such device: 19 on Linux.
#[verifier::external_body]
pub(crate) fn enodev() -> (r: i32)
    ensures
        r == 19,
{
    libc::ENODEV
}

/// `libc::ENOENT`, no such file or directory: 2 on Linux.
#[verifier::external_body]
pub(crate) fn enoent() -> (r: i32)
    ensures
        r == 2,
{
    libc::ENOENT
}

/// `libc::ENXIO`, no such device or address: 6 on Linux.
#[verifier::external_body]
pub(crate) fn enxio() -> (r: i32)
    ensures
        r == 6,
{
    libc::ENXIO
}

/// `libc::POLLIN`, there is data to read: 1 on Linux.
#[verifier::external_body]
pub(crate) fn pollin() -> (r: i16)
    ensures
        r == 1,
{
    libc::POLLIN
}

/// `libc::POLLERR`, an error condition: 8 on Linux.
#[verifier::external_body]
pub(crate) fn pollerr() -> (r: i16)
    ensures
        r == 8,
{
    libc::POLLERR
}

/// `libc::POLLHUP`, the other side hung up: 16 on Linux.
#[verifier::external_body]
pub(crate) fn pollhup() -> (r: i16)
    ensures
        r == 16,
{
    libc::POLLHUP
}

/// `libc::POLLNVAL`, the descriptor is not open: 32 on Linux.
#[verifier::external_body]
pub(crate) fn pollnval() -> (r: i16)
    ensures
        r == 32,
{
    libc::POLLNVAL
}

/// `std::io::Error::from_raw_os_error` and its text: the system's own words for an error number.
/// The words depend on the machine, so nothing is claimed of them.
#[verifier::external_body]
pub(crate) fn os_error_text(errno: i32) -> (s: String) {
    std::io::Error::from_raw_os_error(errno).to_string()
}

} // verus!
