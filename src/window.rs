//! A stream that narrows the medium to one window of absolute offsets, such
//! as a partition.
use vstd::prelude::*;

use crate::driver::{
    saturating_add_signed, stream_read, saturating_offset, BulkTransport, DeviceState,
    MassStorageDevice, SeekFrom, StorageError,
};

verus! {

/// What a window holds: the device, the absolute bounds `[start, end)`,
/// and the position relative to `start`.
pub struct WindowState {
    pub device: DeviceState,
    pub start: u64,
    pub end: u64,
    pub position: u64,
}

impl WindowState {
    pub open spec fn wf(&self) -> bool {
        &&& self.device.wf()
        &&& self.start <= self.end <= self.device.capacity.size
    }

    /// Bytes in the window.
    pub open spec fn len(&self) -> int {
        self.end - self.start
    }
}

/// How many bytes a read of `wanted` bytes at local `position` yields in a
/// window of `window_len` bytes: never anything at or past its end.
pub open spec fn window_span(window_len: int, position: int, wanted: int) -> int {
    if position >= window_len {
        0
    } else if wanted < window_len - position {
        wanted
    } else {
        window_len - position
    }
}

/// The medium seen through the absolute window `[start, end)`: local offset
/// `o` is absolute offset `start + o`, and reads stop at `end`.
pub struct RangeRestrictedStream<T: BulkTransport> {
    device: MassStorageDevice<T>,
    start: u64,
    end: u64,
    position: u64,
}

impl<T: BulkTransport> View for RangeRestrictedStream<T> {
    type V = WindowState;

    closed spec fn view(&self) -> WindowState {
        WindowState {
            device: self.device@,
            start: self.start,
            end: self.end,
            position: self.position,
        }
    }
}

impl<T: BulkTransport> RangeRestrictedStream<T> {
    pub open spec fn wf(&self) -> bool {
        self@.wf()
    }

    /// A window over `[start, end)`, at local position zero; it must lie
    /// within the medium.
    pub fn new(device: MassStorageDevice<T>, start: u64, end: u64) -> (r: Result<
        Self,
        StorageError,
    >)
        requires
            device.wf(),
        ensures
            match r {
                Ok(w) => {
                    &&& start <= end <= device@.capacity.size
                    &&& w.wf()
                    &&& w@ == (WindowState { device: device@, start, end, position: 0 })
                },
                Err(e) => e == StorageError::OutOfRange && !(start <= end
                    <= device@.capacity.size),
            },
    {
        if start > end || end > device.capacity().size {
            return Err(StorageError::OutOfRange);
        }
        Ok(RangeRestrictedStream { device, start, end, position: 0 })
    }

    /// Moves the local position: from the window's start, from its end, or
    /// from the current position; never below zero.
    pub fn seek(&mut self, pos: SeekFrom) -> (r: u64)
        requires
            old(self).wf(),
        ensures
            final(self).wf(),
            r == match pos {
                SeekFrom::Start(p) => p,
                SeekFrom::End(d) => saturating_offset((old(self)@.end - old(self)@.start) as u64, d),
                SeekFrom::Current(d) => saturating_offset(old(self)@.position, d),
            },
            final(self)@ == (WindowState { position: r, ..old(self)@ }),
    {
        self.position = match pos {
            SeekFrom::Start(p) => p,
            SeekFrom::End(d) => saturating_add_signed(self.end - self.start, d),
            SeekFrom::Current(d) => saturating_add_signed(self.position, d),
        };
        self.position
    }

    /// Reads from the local position, as many bytes as `buf` holds but
    /// never past the window's end, and moves the position past them. At or
    /// past the end it reads nothing. Otherwise the device reads at absolute
    /// offset `start + position`, as its own `read` does, into the front of
    /// `buf`.
    pub fn read(&mut self, buf: &mut [u8]) -> (r: Result<usize, StorageError>)
        requires
            old(self).wf(),
        ensures
            final(self).wf(),
            final(self)@.start == old(self)@.start,
            final(self)@.end == old(self)@.end,
            final(buf)@.len() == old(buf)@.len(),
            ({
                let k = window_span(old(self)@.len(), old(self)@.position as int, old(buf)@.len() as int);
                let at = old(self)@.start + old(self)@.position;
                &&& k == 0 ==> r == Ok::<usize, StorageError>(0) && final(self)@ == old(self)@
                    && final(buf)@ == old(buf)@
                &&& k > 0 ==> stream_read(
                    DeviceState { position: at as u64, ..old(self)@.device },
                    final(self)@.device,
                    k,
                    match r {
                        Ok(_) => Ok(final(buf)@.subrange(0, k)),
                        Err(e) => Err(e),
                    },
                )
                &&& r matches Ok(n) ==> n == k && final(self)@.position == old(self)@.position + k
                    && final(buf)@.subrange(k, final(buf)@.len() as int) == old(buf)@.subrange(
                    k,
                    old(buf)@.len() as int,
                )
                &&& r is Err ==> final(self)@.position == old(self)@.position && final(buf)@ == old(
                    buf,
                )@
            }),
    {
        let window_len = self.end - self.start;
        if self.position >= window_len {
            return Ok(0);
        }
        let room = window_len - self.position;
        let n: usize = if (buf.len() as u64) < room {
            buf.len()
        } else {
            room as usize
        };
        if n == 0 {
            return Ok(0);
        }
        let at = self.start + self.position;
        self.device.seek(SeekFrom::Start(at));
        let mut staging: Vec<u8> = vec![0u8; n];
        match self.device.read(staging.as_mut_slice()) {
            Err(e) => return Err(e),
            Ok(_) => {},
        }
        let mut i: usize = 0;
        while i < n
            invariant
                i <= n,
                n == staging@.len(),
                n <= buf@.len(),
                buf@.len() == old(buf)@.len(),
                forall|j: int| 0 <= j < i ==> buf@[j] == staging@[j],
                forall|j: int| n <= j < buf@.len() ==> buf@[j] == old(buf)@[j],
            decreases n - i,
        {
            buf[i] = staging[i];
            i = i + 1;
        }
        assert(buf@.subrange(0, n as int) =~= staging@);
        assert(buf@.subrange(n as int, buf@.len() as int) =~= old(buf)@.subrange(
            n as int,
            old(buf)@.len() as int,
        ));
        self.position = self.position + n as u64;
        Ok(n)
    }

    /// The local position.
    pub fn position(&self) -> (r: u64)
        ensures
            r == self@.position,
    {
        self.position
    }

    /// Ends the window and hands the device back.
    pub fn into_inner(self) -> (r: MassStorageDevice<T>)
        ensures
            r@ == self@.device,
    {
        self.device
    }
}

} // verus!
