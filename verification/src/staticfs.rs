//! The `static` module: files served from a directory, read in chunks.

use vstd::prelude::*;

use crate::table::Table;

verus! {

/// The smallest read buffer, in bytes.
pub const DEFAULT_READ_BUF_SIZE: usize = 8192;

/// The read block size for a device whose block size is `blksize`: the
/// device's, unless it is smaller than the default.
pub open spec fn block_size_spec(blksize: u64) -> usize {
    if (blksize as usize) < DEFAULT_READ_BUF_SIZE {
        DEFAULT_READ_BUF_SIZE
    } else {
        blksize as usize
    }
}

/// The read block size for a device whose block size is `blksize`.
pub fn get_block_size(blksize: u64) -> (res: usize)
    ensures
        res == block_size_spec(blksize),
{
    let b = blksize as usize;
    if b < DEFAULT_READ_BUF_SIZE {
        DEFAULT_READ_BUF_SIZE
    } else {
        b
    }
}

/// The read buffer size for a file of `len` bytes on a device whose block
/// size is `blksize`: the block size, but no more than the file needs.
pub fn optimal_buf_size(blksize: u64, len: u64) -> (res: usize)
    ensures
        res == (if (block_size_spec(blksize) as u64) < len {
            block_size_spec(blksize) as u64
        } else {
            len
        }) as usize,
{
    let block_size = get_block_size(blksize) as u64;
    let m = if block_size < len {
        block_size
    } else {
        len
    };
    m as usize
}

/// Whether the stream of a range of which `len` bytes remain must read
/// again.
pub fn wants_read(len: u64) -> (res: bool)
    ensures
        res == (len > 0),
{
    len > 0
}

/// Whether a buffer with `capacity` bytes, `len` of them used, must grow to
/// take `cap` more.
pub fn needs_reserve(capacity: usize, len: usize, cap: usize) -> (res: bool)
    requires
        len <= capacity,
    ensures
        res == (capacity - len < cap),
{
    capacity - len < cap
}

/// What one read of `n` bytes does when `len` bytes of the range are still
/// to be sent: `None` ends the stream (nothing remains to be sent, or the
/// read found the end of the file); otherwise the number of bytes to send
/// and how many remain.
pub open spec fn chunk_step_spec(len: u64, n: u64) -> Option<(u64, u64)> {
    if len == 0 || n == 0 {
        None
    } else if n > len {
        Some((len, 0))
    } else {
        Some((n, (len - n) as u64))
    }
}

/// One step of streaming a file range.
pub fn chunk_step(len: u64, n: u64) -> (res: Option<(u64, u64)>)
    ensures
        res == chunk_step_spec(len, n),
{
    if len == 0 || n == 0 {
        None
    } else if n > len {
        Some((len, 0))
    } else {
        Some((n, len - n))
    }
}

/// Streaming never sends more than the range holds: each step sends at
/// most what was read, and what it sends and what remains add up to what
/// remained before.
pub proof fn law_chunk_step_conserves(len: u64, n: u64)
    requires
        n > 0,
        len > 0,
    ensures
        chunk_step_spec(len, n) matches Some((take, rest)) && take + rest == len && take <= n
            && rest < len + 1,
{
}

/// The methods of the module, by name: every file is served by `serve`.
pub fn init_static<F>(serve: F) -> (res: Table<F>)
    ensures
        res@ == map!["default"@ => serve],
{
    let mut t: Table<F> = Table::new();
    t.insert(String::from_str("default"), serve);
    assert(t@ =~= map!["default"@ => serve]);
    t
}

} // verus!
