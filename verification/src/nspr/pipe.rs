//! An in-memory pipe: two separately owned ends over one shared byte
//! queue.
//!
//! The queue sits behind a verified reader-writer lock, so both ends
//! stay safely shareable across threads the library does not control.
//! Because the state is shared, per-call contracts cannot pin the bytes
//! down the way [`crate::nspr::loopback::Loopback`] can: the peer end,
//! possibly on another thread, decides what a call finds in the queue.
//! What each end does promise of every outcome: the byte-count bound of
//! every transport, which errors it can return and when success is
//! total, and that a call changes neither the end's role nor its
//! ability to keep using the lock. That the two ends are joined over
//! one queue is established by construction in [`new_pipe`] and
//! exercised by the crate's tests. The pipe is nonblocking: where a
//! blocking pipe would wait, it reports the would-block status, and a
//! read on an empty queue whose writer is gone reports a clean end of
//! stream.

use vstd::prelude::*;
use vstd::rwlock::RwLock;
use core::sync::atomic::AtomicBool;
use core::sync::atomic::Ordering;
use std::sync::Arc;
use crate::nspr::error::Error;
use crate::nspr::error::PR_PIPE_ERROR;
use crate::nspr::error::PR_WOULD_BLOCK_ERROR;
use crate::nspr::fd::File;
use crate::nspr::fd::FileMethods;
use crate::nspr::fd::Layer;
use crate::nspr::net::NetAddr;

verus! {

/// The bytes written and not yet read.
pub struct PipeShared {
    pub in_flight: Vec<u8>,
}

#[derive(Clone, Copy, PartialEq, Eq, Structural, Debug)]
pub enum PipeRole {
    Reader,
    Writer,
}

/// One end of a pipe. The reading end supports read and recv, the
/// writing end write and send; both report themselves nonblocking.
/// Dropping an end publishes that it is gone, so the peer can tell end
/// of stream from not-yet-arrived data.
pub struct PipeEnd {
    queue: Arc<RwLock<PipeShared, spec_fn(PipeShared) -> bool>>,
    reader_gone: Arc<AtomicBool>,
    writer_gone: Arc<AtomicBool>,
    role: PipeRole,
}

impl PipeEnd {
    pub closed spec fn role_spec(&self) -> PipeRole {
        self.role
    }

    /// The queue's lock accepts every state, so either end can always
    /// give the lock back after mutating the queue.
    pub closed spec fn pipe_wf(&self) -> bool {
        forall|s: PipeShared| #[trigger] ((*self.queue).pred())(s)
    }
}

impl Drop for PipeEnd {
    /// Publishes that this end is gone: after a writer is dropped, the
    /// reading end sees a clean end of stream once the queue drains.
    /// Relies on core::sync::atomic::AtomicBool::store, which sets the
    /// flag and neither unwinds nor opens invariants.
    #[verifier::external_body]
    fn drop(&mut self)
        opens_invariants none
        no_unwind
    {
        match self.role {
            PipeRole::Reader => self.reader_gone.store(true, Ordering::SeqCst),
            PipeRole::Writer => self.writer_gone.store(true, Ordering::SeqCst),
        }
    }
}

impl FileMethods for PipeEnd {
    open spec fn supports_read(&self) -> bool {
        self.role_spec() is Reader && self.pipe_wf()
    }

    open spec fn supports_write(&self) -> bool {
        self.role_spec() is Writer && self.pipe_wf()
    }

    open spec fn supports_connect(&self) -> bool {
        false
    }

    open spec fn supports_recv(&self) -> bool {
        self.role_spec() is Reader && self.pipe_wf()
    }

    open spec fn supports_send(&self) -> bool {
        self.role_spec() is Writer && self.pipe_wf()
    }

    open spec fn supports_getsockname(&self) -> bool {
        false
    }

    open spec fn supports_getpeername(&self) -> bool {
        false
    }

    open spec fn supports_get_nonblocking(&self) -> bool {
        true
    }

    /// The queue is shared with the peer end, so which bytes a call
    /// moves depends on the interleaving; what holds of every outcome:
    /// a read fails only with the would-block status (end of stream is
    /// the empty success), and the call leaves the end's role and its
    /// use of the lock intact.
    open spec fn read_post(pre: Self, post: Self, amount: nat, r: Result<Seq<u8>, Error>) -> bool {
        &&& post.role_spec() == pre.role_spec()
        &&& post.pipe_wf()
        &&& (r matches Err(e) ==> e.nspr_error == PR_WOULD_BLOCK_ERROR)
    }

    /// A write that succeeds consumed everything it was handed; it
    /// fails only when the reading end is gone.
    open spec fn write_post(pre: Self, post: Self, data: Seq<u8>, r: Result<int, Error>) -> bool {
        &&& post.role_spec() == pre.role_spec()
        &&& post.pipe_wf()
        &&& (r matches Ok(n) ==> n == data.len() as int)
        &&& (r matches Err(e) ==> e.nspr_error == PR_PIPE_ERROR)
    }

    open spec fn connect_post(
        pre: Self,
        post: Self,
        addr: NetAddr,
        timeout: Option<u32>,
        r: Result<(), Error>,
    ) -> bool {
        false
    }

    /// As [`Self::read_post`]; peeking additionally cannot fail, since
    /// it only looks at the queue.
    open spec fn recv_post(
        pre: Self,
        post: Self,
        amount: nat,
        peek: bool,
        timeout: Option<u32>,
        r: Result<Seq<u8>, Error>,
    ) -> bool {
        &&& post.role_spec() == pre.role_spec()
        &&& post.pipe_wf()
        &&& (r matches Err(e) ==> e.nspr_error == PR_WOULD_BLOCK_ERROR)
        &&& (peek ==> r is Ok)
    }

    /// As [`Self::write_post`].
    open spec fn send_post(
        pre: Self,
        post: Self,
        data: Seq<u8>,
        timeout: Option<u32>,
        r: Result<int, Error>,
    ) -> bool {
        &&& post.role_spec() == pre.role_spec()
        &&& post.pipe_wf()
        &&& (r matches Ok(n) ==> n == data.len() as int)
        &&& (r matches Err(e) ==> e.nspr_error == PR_PIPE_ERROR)
    }

    open spec fn getsockname_res(&self) -> Result<NetAddr, Error> {
        Err(Error { nspr_error: crate::nspr::error::PR_NOT_IMPLEMENTED_ERROR })
    }

    open spec fn getpeername_res(&self) -> Result<NetAddr, Error> {
        Err(Error { nspr_error: crate::nspr::error::PR_NOT_IMPLEMENTED_ERROR })
    }

    open spec fn get_nonblocking_res(&self) -> Result<bool, Error> {
        Ok(true)
    }

    /// Takes up to `amount` bytes off the queue. An empty answer means
    /// end of stream when the writer is gone, otherwise would-block.
    fn read(&mut self, amount: usize) -> (r: Result<Vec<u8>, Error>) {
        let (mut state, handle) = self.queue.acquire_write();
        let n = if amount <= state.in_flight.len() {
            amount
        } else {
            state.in_flight.len()
        };
        let mut taken = state.in_flight.split_off(n);
        core::mem::swap(&mut state.in_flight, &mut taken);
        if taken.len() == 0 {
            let writer_is_gone = self.writer_gone.load(Ordering::SeqCst);
            handle.release_write(state);
            if writer_is_gone {
                Ok(taken)
            } else {
                Err(Error { nspr_error: PR_WOULD_BLOCK_ERROR })
            }
        } else {
            handle.release_write(state);
            Ok(taken)
        }
    }

    /// Appends the bytes to the queue; writing into a pipe whose
    /// reading end is gone is an error.
    fn write(&mut self, data: &[u8]) -> (r: Result<usize, Error>) {
        let reader_is_gone = self.reader_gone.load(Ordering::SeqCst);
        if reader_is_gone {
            return Err(Error { nspr_error: PR_PIPE_ERROR });
        }
        let (mut state, handle) = self.queue.acquire_write();
        state.in_flight.extend_from_slice(data);
        handle.release_write(state);
        Ok(data.len())
    }

    fn connect(&mut self, addr: NetAddr, timeout: Option<u32>) -> (r: Result<(), Error>) {
        vstd::pervasive::unreached()
    }

    fn recv(&mut self, amount: usize, peek: bool, timeout: Option<u32>) -> (r: Result<
        Vec<u8>,
        Error,
    >) {
        if peek {
            let (state, handle) = self.queue.acquire_write();
            let n = if amount <= state.in_flight.len() {
                amount
            } else {
                state.in_flight.len()
            };
            let mut out: Vec<u8> = Vec::new();
            let mut i: usize = 0;
            while i < n
                invariant
                    i <= n,
                    n <= state.in_flight@.len(),
                    out@.len() == i,
                decreases n - i,
            {
                out.push(state.in_flight[i]);
                i = i + 1;
            }
            handle.release_write(state);
            Ok(out)
        } else {
            self.read(amount)
        }
    }

    fn send(&mut self, data: &[u8], timeout: Option<u32>) -> (r: Result<usize, Error>) {
        self.write(data)
    }

    fn getsockname(&self) -> (r: Result<NetAddr, Error>) {
        vstd::pervasive::unreached()
    }

    fn getpeername(&self) -> (r: Result<NetAddr, Error>) {
        vstd::pervasive::unreached()
    }

    fn get_nonblocking(&self) -> (r: Result<bool, Error>) {
        Ok(true)
    }
}

/// Builds a connected pipe and returns (reading end, writing end), each
/// as an unlayered file that owns its end exclusively. The two ends are
/// clones of one shared queue and one pair of closed-end flags, made
/// here and nowhere else: that they form one channel is a fact of this
/// construction, which the contract of a single end cannot carry.
pub fn new_pipe() -> (r: Result<(File<PipeEnd>, File<PipeEnd>), Error>)
    ensures
        r is Ok,
        r matches Ok((reader, writer)) ==> {
            &&& reader.stack() == Seq::<Layer>::empty()
            &&& writer.stack() == Seq::<Layer>::empty()
            &&& reader.inner().supports_read()
            &&& reader.inner().supports_recv()
            &&& reader.inner().role_spec() is Reader
            &&& writer.inner().supports_write()
            &&& writer.inner().supports_send()
            &&& writer.inner().role_spec() is Writer
        },
{
    crate::nspr::init();
    let state = PipeShared { in_flight: Vec::new() };
    let lock = RwLock::<PipeShared, spec_fn(PipeShared) -> bool>::new(
        state,
        Ghost(|s: PipeShared| true),
    );
    let queue = Arc::new(lock);
    let reader_gone = Arc::new(AtomicBool::new(false));
    let writer_gone = Arc::new(AtomicBool::new(false));
    let reader = PipeEnd {
        queue: queue.clone(),
        reader_gone: reader_gone.clone(),
        writer_gone: writer_gone.clone(),
        role: PipeRole::Reader,
    };
    let writer = PipeEnd { queue, reader_gone, writer_gone, role: PipeRole::Writer };
    Ok((File::from_inner(reader), File::from_inner(writer)))
}

} // verus!
