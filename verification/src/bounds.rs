//! Range and alignment checks on a request.

use vstd::prelude::*;
use crate::error::ErrorKind;

verus! {

/// Bytes per page.
pub const PAGE_SIZE: usize = 256;

/// Bytes of in-page address sent ahead of the data.
pub const ADDRESS_BYTES: usize = 2;

/// Smallest unit that can be read.
pub const READ_SIZE: usize = 1;

/// Smallest unit that can be written.
pub const WRITE_SIZE: usize = 1;

/// Granularity of an erase.
pub const ERASE_SIZE: usize = PAGE_SIZE;

/// The verdict on a request of `length` bytes at `offset` on a device of
/// `capacity` bytes whose alignment unit is `align`: the range is judged
/// first, then the alignment.
pub open spec fn slice_check(capacity: int, align: int, offset: int, length: int) -> Result<
    (),
    ErrorKind,
> {
    if offset + length > capacity {
        Err(ErrorKind::OutOfBounds)
    } else if offset % align != 0 || length % align != 0 {
        Err(ErrorKind::NotAligned)
    } else {
        Ok(())
    }
}

/// Whether `[offset, offset + length)` lies in a device of `capacity` bytes
/// and both ends are multiples of `align`.
pub fn check_slice(capacity: usize, align: usize, offset: u32, length: usize) -> (r: Result<
    (),
    ErrorKind,
>)
    requires
        align > 0,
    ensures
        r == slice_check(capacity as int, align as int, offset as int, length as int),
{
    let offset = offset as usize;
    if length > capacity || offset > capacity - length {
        return Err(ErrorKind::OutOfBounds);
    }
    if offset % align != 0 || length % align != 0 {
        return Err(ErrorKind::NotAligned);
    }
    Ok(())
}

/// Whether a read of `length` bytes at `offset` is aligned and within bounds.
pub fn check_read(capacity: usize, offset: u32, length: usize) -> (r: Result<(), ErrorKind>)
    ensures
        r == slice_check(capacity as int, READ_SIZE as int, offset as int, length as int),
        r == if offset + length > capacity {
            Err::<(), ErrorKind>(ErrorKind::OutOfBounds)
        } else {
            Ok(())
        },
{
    check_slice(capacity, READ_SIZE, offset, length)
}

/// Whether a write of `length` bytes at `offset` is aligned and within bounds.
pub fn check_write(capacity: usize, offset: u32, length: usize) -> (r: Result<(), ErrorKind>)
    ensures
        r == slice_check(capacity as int, WRITE_SIZE as int, offset as int, length as int),
        r == if offset + length > capacity {
            Err::<(), ErrorKind>(ErrorKind::OutOfBounds)
        } else {
            Ok(())
        },
{
    check_slice(capacity, WRITE_SIZE, offset, length)
}

} // verus!
