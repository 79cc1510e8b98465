//! The table of files that GDB opened on the host through its Host I/O requests
//! (`vFile:open`, `vFile:close`, ...), by the descriptor handed to GDB.
use vstd::prelude::*;

use std::collections::HashMap;

verus! {

broadcast use vstd::std_specs::hash::group_hash_axioms;

/// Why a Host I/O request on a descriptor fails (GDB's `EMFILE` and `EBADF`).
#[derive(PartialEq, Eq, Structural, Clone, Copy, Debug)]
pub enum FdError {
    /// No descriptor is left to hand out.
    TooManyOpenFiles,
    /// The descriptor names no open file.
    BadDescriptor,
}

/// `std::collections::HashMap::get_mut`: a mutable reference to the value of `key`,
/// where the map holds one; what is written through it becomes that key's value.
#[verifier::external_body]
fn map_get_mut<F>(map: &mut HashMap<u32, F>, key: u32) -> (r: Option<&mut F>)
    ensures
        r is Some <==> old(map)@.contains_key(key),
        r matches Some(f) ==> *f == old(map)@[key],
        r matches Some(f) ==> final(map)@ == old(map)@.insert(key, *final(f)),
        r is None ==> final(map)@ == old(map)@,
{
    map.get_mut(&key)
}

/// Open host files by descriptor, and the descriptor that the next open hands out.
pub struct HostIoFiles<F> {
    files: HashMap<u32, F>,
    next_fd: u32,
}

impl<F> HostIoFiles<F> {
    /// Every open descriptor was handed out before the next one.
    pub closed spec fn wf(&self) -> bool {
        forall|fd: u32| #[trigger] self.files@.contains_key(fd) ==> fd < self.next_fd
    }

    /// The open files by descriptor.
    pub closed spec fn files(&self) -> Map<u32, F> {
        self.files@
    }

    /// The descriptor that the next open hands out.
    pub closed spec fn next_fd(&self) -> u32 {
        self.next_fd
    }

    /// No file open; descriptors are handed out from `first_fd` on.
    pub fn new(first_fd: u32) -> (r: Self)
        ensures
            r.wf(),
            r.files() == Map::<u32, F>::empty(),
            r.next_fd() == first_fd,
    {
        HostIoFiles { files: HashMap::new(), next_fd: first_fd }
    }

    /// Registers a newly opened file under the next descriptor and returns that
    /// descriptor. When the descriptors are used up (the next one would not fit
    /// in 32 bits), the file is not kept and `TooManyOpenFiles` is returned.
    pub fn open(&mut self, file: F) -> (r: Result<u32, FdError>)
        requires
            old(self).wf(),
        ensures
            final(self).wf(),
            old(self).next_fd() == u32::MAX ==> r == Err::<u32, FdError>(FdError::TooManyOpenFiles)
                && final(self).files() == old(self).files() && final(self).next_fd() == old(
                self,
            ).next_fd(),
            old(self).next_fd() < u32::MAX ==> r == Ok::<u32, FdError>(old(self).next_fd())
                && final(self).next_fd() == old(self).next_fd() + 1 && final(self).files() == old(
                self,
            ).files().insert(old(self).next_fd(), file),
    {
        let fd = self.next_fd;
        if fd == u32::MAX {
            return Err(FdError::TooManyOpenFiles);
        }
        self.next_fd = fd + 1;
        self.files.insert(fd, file);
        Ok(fd)
    }

    /// Closes `fd`: the file is dropped, or `BadDescriptor` if `fd` is not open.
    pub fn close(&mut self, fd: u32) -> (r: Result<(), FdError>)
        requires
            old(self).wf(),
        ensures
            final(self).wf(),
            final(self).next_fd() == old(self).next_fd(),
            old(self).files().contains_key(fd) ==> r == Ok::<(), FdError>(())
                && final(self).files() == old(self).files().remove(fd),
            !old(self).files().contains_key(fd) ==> r == Err::<(), FdError>(
                FdError::BadDescriptor,
            ) && final(self).files() == old(self).files(),
    {
        match self.files.remove(&fd) {
            Some(_) => Ok(()),
            None => Err(FdError::BadDescriptor),
        }
    }

    /// The file open as `fd`, or `BadDescriptor`.
    pub fn get(&self, fd: u32) -> (r: Result<&F, FdError>)
        ensures
            self.files().contains_key(fd) ==> (r matches Ok(f) && *f == self.files()[fd]),
            !self.files().contains_key(fd) ==> r == Err::<&F, FdError>(FdError::BadDescriptor),
    {
        match self.files.get(&fd) {
            Some(f) => Ok(f),
            None => Err(FdError::BadDescriptor),
        }
    }

    /// The file open as `fd`, to read or write it, or `BadDescriptor`.
    pub fn get_mut(&mut self, fd: u32) -> (r: Result<&mut F, FdError>)
        requires
            old(self).wf(),
        ensures
            final(self).wf(),
            final(self).next_fd() == old(self).next_fd(),
            old(self).files().contains_key(fd) ==> (r matches Ok(f) && *f == old(self).files()[fd]
                && final(self).files() == old(self).files().insert(fd, *final(f))),
            !old(self).files().contains_key(fd) ==> r == Err::<&mut F, FdError>(
                FdError::BadDescriptor,
            ) && final(self).files() == old(self).files(),
    {
        match map_get_mut(&mut self.files, fd) {
            Some(f) => Ok(f),
            None => Err(FdError::BadDescriptor),
        }
    }
}

/// A descriptor that `open` hands out is not in use.
pub proof fn lemma_next_fd_unused<F>(t: &HostIoFiles<F>)
    requires
        t.wf(),
    ensures
        !t.files().contains_key(t.next_fd()),
{
}

/// Opening a file and closing the descriptor that it got leaves the other open
/// files as they were.
pub proof fn lemma_open_then_close<F>(t: &HostIoFiles<F>, file: F)
    requires
        t.wf(),
    ensures
        t.files().insert(t.next_fd(), file).remove(t.next_fd()) == t.files(),
{
    assert(t.files().insert(t.next_fd(), file).remove(t.next_fd()) =~= t.files());
}

/// How many bytes a read of `count` bytes into a buffer of `buf_len` bytes asks
/// the file for: no more than the buffer holds.
pub fn read_len(count: usize, buf_len: usize) -> (r: usize)
    ensures
        r == if count < buf_len { count } else { buf_len },
{
    if count < buf_len {
        count
    } else {
        buf_len
    }
}

/// Copies as much of `src` as fits into the front of `buf` and returns how many
/// bytes that is (the answer to a `readlink` request).
pub fn copy_prefix(src: &[u8], buf: &mut [u8]) -> (r: usize)
    ensures
        r == if src@.len() < old(buf)@.len() { src@.len() } else { old(buf)@.len() },
        final(buf)@.len() == old(buf)@.len(),
        final(buf)@.subrange(0, r as int) == src@.subrange(0, r as int),
        final(buf)@.subrange(r as int, final(buf)@.len() as int) == old(buf)@.subrange(
            r as int,
            old(buf)@.len() as int,
        ),
{
    let len = if src.len() < buf.len() {
        src.len()
    } else {
        buf.len()
    };
    let mut j: usize = 0;
    while j < len
        invariant
            len <= src@.len(),
            len <= buf@.len(),
            buf@.len() == old(buf)@.len(),
            j <= len,
            forall|k: int| 0 <= k < j ==> buf@[k] == src@[k],
            forall|k: int| len <= k < buf@.len() ==> buf@[k] == old(buf)@[k],
        decreases len - j,
    {
        buf[j] = src[j];
        j = j + 1;
    }
    assert(buf@.subrange(0, len as int) =~= src@.subrange(0, len as int));
    assert(buf@.subrange(len as int, buf@.len() as int) =~= old(buf)@.subrange(
        len as int,
        old(buf)@.len() as int,
    ));
    len
}

} // verus!
