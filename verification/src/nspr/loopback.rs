//! A deterministic in-memory transport: bytes written are buffered and
//! read back in order.
//!
//! This is the reference transport of the layering laws: its operation
//! predicates pin the result down exactly, so the transparency of wrap
//! layers can be stated and proved as a round trip, not only tested.

use vstd::prelude::*;
use crate::nspr::error::Error;
use crate::nspr::error::PR_NOT_IMPLEMENTED_ERROR;
use crate::nspr::fd::FileMethods;
use crate::nspr::fd::Layer;
use crate::nspr::fd::all_wrap;
use crate::nspr::fd::lemma_read_rel_all_wrap;
use crate::nspr::fd::lemma_write_rel_all_wrap;
use crate::nspr::fd::read_rel;
use crate::nspr::fd::write_rel;
use crate::nspr::net::NetAddr;

verus! {

/// The in-memory transport. Its abstract state is the byte queue still
/// waiting to be read.
pub struct Loopback {
    buffered: Vec<u8>,
}

impl View for Loopback {
    type V = Seq<u8>;

    closed spec fn view(&self) -> Seq<u8> {
        self.buffered@
    }
}

impl Loopback {
    pub fn new() -> (r: Loopback)
        ensures
            r@ == Seq::<u8>::empty(),
    {
        Loopback { buffered: Vec::new() }
    }
}

impl FileMethods for Loopback {
    open spec fn supports_read(&self) -> bool {
        true
    }

    open spec fn supports_write(&self) -> bool {
        true
    }

    open spec fn supports_connect(&self) -> bool {
        false
    }

    open spec fn supports_recv(&self) -> bool {
        true
    }

    open spec fn supports_send(&self) -> bool {
        true
    }

    open spec fn supports_getsockname(&self) -> bool {
        false
    }

    open spec fn supports_getpeername(&self) -> bool {
        false
    }

    open spec fn supports_get_nonblocking(&self) -> bool {
        false
    }

    open spec fn read_post(pre: Self, post: Self, amount: nat, r: Result<Seq<u8>, Error>) -> bool {
        let n = if amount <= pre@.len() {
            amount as int
        } else {
            pre@.len() as int
        };
        r == Ok::<Seq<u8>, Error>(pre@.take(n)) && post@ == pre@.skip(n)
    }

    open spec fn write_post(pre: Self, post: Self, data: Seq<u8>, r: Result<int, Error>) -> bool {
        r == Ok::<int, Error>(data.len() as int) && post@ == pre@ + data
    }

    open spec fn connect_post(
        pre: Self,
        post: Self,
        addr: NetAddr,
        timeout: Option<u32>,
        r: Result<(), Error>,
    ) -> bool {
        false
    }

    open spec fn recv_post(
        pre: Self,
        post: Self,
        amount: nat,
        peek: bool,
        timeout: Option<u32>,
        r: Result<Seq<u8>, Error>,
    ) -> bool {
        let n = if amount <= pre@.len() {
            amount as int
        } else {
            pre@.len() as int
        };
        r == Ok::<Seq<u8>, Error>(pre@.take(n)) && post@ == (if peek {
            pre@
        } else {
            pre@.skip(n)
        })
    }

    open spec fn send_post(
        pre: Self,
        post: Self,
        data: Seq<u8>,
        timeout: Option<u32>,
        r: Result<int, Error>,
    ) -> bool {
        r == Ok::<int, Error>(data.len() as int) && post@ == pre@ + data
    }

    open spec fn getsockname_res(&self) -> Result<NetAddr, Error> {
        Err(Error { nspr_error: PR_NOT_IMPLEMENTED_ERROR })
    }

    open spec fn getpeername_res(&self) -> Result<NetAddr, Error> {
        Err(Error { nspr_error: PR_NOT_IMPLEMENTED_ERROR })
    }

    open spec fn get_nonblocking_res(&self) -> Result<bool, Error> {
        Err(Error { nspr_error: PR_NOT_IMPLEMENTED_ERROR })
    }

    /// Takes exactly the first `amount` buffered bytes, or everything
    /// buffered when less remains: partial reads return the exact
    /// prefix asked for whenever more data remains.
    fn read(&mut self, amount: usize) -> (r: Result<Vec<u8>, Error>) {
        let n = if amount <= self.buffered.len() {
            amount
        } else {
            self.buffered.len()
        };
        let mut tail = self.buffered.split_off(n);
        core::mem::swap(&mut self.buffered, &mut tail);
        proof {
            assert(tail@ =~= old(self)@.take(n as int));
            assert(self@ =~= old(self)@.skip(n as int));
        }
        Ok(tail)
    }

    fn write(&mut self, data: &[u8]) -> (r: Result<usize, Error>) {
        let mut i: usize = 0;
        while i < data.len()
            invariant
                i <= data@.len(),
                self@ =~= old(self)@ + data@.take(i as int),
            decreases data@.len() - i,
        {
            self.buffered.push(data[i]);
            i = i + 1;
            proof {
                assert(old(self)@ + data@.take(i as int) =~= (old(self)@ + data@.take(
                    i - 1,
                )).push(data@[i - 1]));
            }
        }
        proof {
            assert(data@.take(data@.len() as int) =~= data@);
        }
        Ok(data.len())
    }

    fn connect(&mut self, addr: NetAddr, timeout: Option<u32>) -> (r: Result<(), Error>) {
        vstd::pervasive::unreached()
    }

    fn recv(&mut self, amount: usize, peek: bool, timeout: Option<u32>) -> (r: Result<
        Vec<u8>,
        Error,
    >) {
        let n = if amount <= self.buffered.len() {
            amount
        } else {
            self.buffered.len()
        };
        if peek {
            let mut out: Vec<u8> = Vec::new();
            let mut i: usize = 0;
            while i < n
                invariant
                    i <= n,
                    n <= self.buffered@.len(),
                    *self == *old(self),
                    out@ =~= self.buffered@.take(i as int),
                decreases n - i,
            {
                out.push(self.buffered[i]);
                i = i + 1;
                proof {
                    assert(self.buffered@.take(i as int) =~= self.buffered@.take(
                        i - 1,
                    ).push(self.buffered@[i - 1]));
                }
            }
            Ok(out)
        } else {
            let mut tail = self.buffered.split_off(n);
            core::mem::swap(&mut self.buffered, &mut tail);
            proof {
                assert(tail@ =~= old(self)@.take(n as int));
                assert(self@ =~= old(self)@.skip(n as int));
            }
            Ok(tail)
        }
    }

    fn send(&mut self, data: &[u8], timeout: Option<u32>) -> (r: Result<usize, Error>) {
        self.write(data)
    }

    fn getsockname(&self) -> (r: Result<NetAddr, Error>) {
        vstd::pervasive::unreached()
    }

    fn getpeername(&self) -> (r: Result<NetAddr, Error>) {
        vstd::pervasive::unreached()
    }

    fn get_nonblocking(&self) -> (r: Result<bool, Error>) {
        vstd::pervasive::unreached()
    }
}

/// The round trip through a wrapped transport: writing bytes into an
/// empty loopback transport under any stack made only of wrap layers,
/// then reading the same number of bytes back, consumes the whole write
/// and yields exactly the bytes written, whatever the nesting depth.
pub proof fn lemma_wrapped_round_trip(
    stack: Seq<Layer>,
    q0: Loopback,
    q1: Loopback,
    q2: Loopback,
    data: Seq<u8>,
    wr: Result<int, Error>,
    rd: Result<Seq<u8>, Error>,
)
    requires
        all_wrap(stack),
        q0@.len() == 0,
        write_rel(stack, q0, q1, data, wr),
        read_rel(stack, q1, q2, data.len(), rd),
    ensures
        wr == Ok::<int, Error>(data.len() as int),
        rd == Ok::<Seq<u8>, Error>(data),
        q2@.len() == 0,
{
    lemma_write_rel_all_wrap(stack, q0, q1, data, wr);
    lemma_read_rel_all_wrap(stack, q1, q2, data.len(), rd);
    assert(q1@ =~= data);
    assert(q1@.take(data.len() as int) =~= data);
    assert(q2@ =~= Seq::<u8>::empty());
}

} // verus!
