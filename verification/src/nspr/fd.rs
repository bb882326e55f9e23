//! The layered file descriptor core.
//!
//! A caller-supplied transport implementing [`FileMethods`] is wrapped
//! into a [`File`]: a stack of layers over the transport. Operations are
//! dispatched from the top layer down; wrap layers forward the call and
//! re-assert the byte-count guard, and a security layer drives its
//! handshake against the layers beneath it. The whole dispatch works on
//! plain values: results and errors come back to the immediate caller.

use vstd::prelude::*;
use core::marker::PhantomData;
use crate::nspr::error::Error;
use crate::nspr::error::PR_END_OF_FILE_ERROR;
use crate::nspr::error::PR_INVALID_METHOD_ERROR;
use crate::nspr::error::PR_NOT_IMPLEMENTED_ERROR;
use crate::nspr::error::PR_WOULD_BLOCK_ERROR;
use crate::nspr::net::NetAddr;
use crate::nspr::net::RawNetAddr;
use crate::nspr::net::read_net_addr;
use crate::nspr::net::spec_read_net_addr;
use crate::nspr::net::spec_write_net_addr;
use crate::nspr::net::unsupported_address_error;
use crate::nspr::net::write_net_addr;
use crate::nspr::time::PRIntervalTime;
use crate::nspr::time::duration_opt_from_nspr;
use crate::nspr::time::spec_timeout_from_nspr;
use crate::nspr::PRBool;
use crate::nspr::PR_FALSE;
use crate::nspr::PR_TRUE;
use crate::nspr::bool_to_nspr;
use crate::nspr::error::PR_ADDRESS_NOT_SUPPORTED_ERROR;
use crate::cert::Certificate;

verus! {

/// Identity tag of a layer. The runtime hands each layering client one
/// process-wide tag; every layer this library builds carries
/// [`WRAPPED_FILE_IDENT`], which distinguishes it from foreign layers in
/// the same stack.
pub type PRDescIdentity = u64;

/// The identity tag of every layer built by this library.
pub const WRAPPED_FILE_IDENT: PRDescIdentity = 0x5275_7374;

/// Kind tag a dispatch table is built for.
#[derive(Clone, Copy, PartialEq, Eq, Structural, Debug)]
pub enum FileType {
    File,
    Layered,
    Pipe,
    SocketTcp,
    SocketUdp,
}

pub const PR_DESC_FILE: FileType = FileType::File;

pub const PR_DESC_LAYERED: FileType = FileType::Layered;

pub const PR_DESC_PIPE: FileType = FileType::Pipe;

pub const PR_DESC_SOCKET_TCP: FileType = FileType::SocketTcp;

pub const PR_DESC_SOCKET_UDP: FileType = FileType::SocketUdp;

pub type PRInt32 = i32;

pub type PRStatus = i32;

pub const PR_SUCCESS: PRStatus = 0;

pub const PR_FAILURE: PRStatus = -1;

/// Peek flag bit in the foreign receive flags word.
pub const PR_MSG_PEEK: i32 = 2;

/// Largest byte count a single read or write may ask for: the count must
/// fit the foreign signed 32-bit width. Asking for more is a caller
/// contract violation, excluded by precondition.
pub const MAX_IO_AMOUNT: usize = 0x7fff_ffff;

/// How many bytes a security layer asks the layers beneath it for when a
/// caller's operation forces it to drive its handshake.
pub const HANDSHAKE_PROBE_AMOUNT: usize = 1024;

/// The operation set a transport must implement to be wrapped.
///
/// Each operation has a support flag: invoking an operation the
/// transport does not support is a programming error, excluded by
/// precondition rather than reported at runtime. Each supported
/// operation is described by a transition predicate the implementation
/// chooses; the layering core's own contracts are stated over those
/// predicates. Byte-moving operations additionally promise never to
/// report more bytes than were asked for.
pub trait FileMethods: Sized {
    open spec fn supports_read(&self) -> bool {
        false
    }

    open spec fn supports_write(&self) -> bool {
        false
    }

    open spec fn supports_connect(&self) -> bool {
        false
    }

    open spec fn supports_recv(&self) -> bool {
        false
    }

    open spec fn supports_send(&self) -> bool {
        false
    }

    open spec fn supports_getsockname(&self) -> bool {
        false
    }

    open spec fn supports_getpeername(&self) -> bool {
        false
    }

    open spec fn supports_get_nonblocking(&self) -> bool {
        false
    }

    /// How a read call relates the transport's state before and after to
    /// the requested amount and the result.
    open spec fn read_post(pre: Self, post: Self, amount: nat, r: Result<Seq<u8>, Error>) -> bool {
        true
    }

    open spec fn write_post(pre: Self, post: Self, data: Seq<u8>, r: Result<int, Error>) -> bool {
        true
    }

    open spec fn connect_post(
        pre: Self,
        post: Self,
        addr: NetAddr,
        timeout: Option<u32>,
        r: Result<(), Error>,
    ) -> bool {
        true
    }

    open spec fn recv_post(
        pre: Self,
        post: Self,
        amount: nat,
        peek: bool,
        timeout: Option<u32>,
        r: Result<Seq<u8>, Error>,
    ) -> bool {
        true
    }

    open spec fn send_post(
        pre: Self,
        post: Self,
        data: Seq<u8>,
        timeout: Option<u32>,
        r: Result<int, Error>,
    ) -> bool {
        true
    }

    open spec fn getsockname_res(&self) -> Result<NetAddr, Error> {
        Err(Error { nspr_error: PR_NOT_IMPLEMENTED_ERROR })
    }

    open spec fn getpeername_res(&self) -> Result<NetAddr, Error> {
        Err(Error { nspr_error: PR_NOT_IMPLEMENTED_ERROR })
    }

    open spec fn get_nonblocking_res(&self) -> Result<bool, Error> {
        Err(Error { nspr_error: PR_NOT_IMPLEMENTED_ERROR })
    }

    /// Reads up to `amount` bytes. The bytes read come back as a fresh
    /// vector; an empty vector on a supported transport means end of
    /// stream unless the transport's own predicate says otherwise.
    fn read(&mut self, amount: usize) -> (r: Result<Vec<u8>, Error>)
        requires
            old(self).supports_read(),
            amount <= MAX_IO_AMOUNT,
        ensures
            match r {
                Ok(data) => data@.len() <= amount && Self::read_post(
                    *old(self),
                    *final(self),
                    amount as nat,
                    Ok(data@),
                ),
                Err(e) => Self::read_post(*old(self), *final(self), amount as nat, Err(e)),
            },
    ;

    /// Writes the given bytes; returns how many were consumed, never
    /// more than were given.
    fn write(&mut self, data: &[u8]) -> (r: Result<usize, Error>)
        requires
            old(self).supports_write(),
            data@.len() <= MAX_IO_AMOUNT,
        ensures
            match r {
                Ok(n) => n <= data@.len() && Self::write_post(
                    *old(self),
                    *final(self),
                    data@,
                    Ok(n as int),
                ),
                Err(e) => Self::write_post(*old(self), *final(self), data@, Err(e)),
            },
    ;

    fn connect(&mut self, addr: NetAddr, timeout: Option<u32>) -> (r: Result<(), Error>)
        requires
            old(self).supports_connect(),
        ensures
            Self::connect_post(*old(self), *final(self), addr, timeout, r),
    ;

    /// Like read, with a peek flag (peeked bytes stay available) and an
    /// optional timeout the transport itself enforces.
    fn recv(&mut self, amount: usize, peek: bool, timeout: Option<u32>) -> (r: Result<
        Vec<u8>,
        Error,
    >)
        requires
            old(self).supports_recv(),
            amount <= MAX_IO_AMOUNT,
        ensures
            match r {
                Ok(data) => data@.len() <= amount && Self::recv_post(
                    *old(self),
                    *final(self),
                    amount as nat,
                    peek,
                    timeout,
                    Ok(data@),
                ),
                Err(e) => Self::recv_post(
                    *old(self),
                    *final(self),
                    amount as nat,
                    peek,
                    timeout,
                    Err(e),
                ),
            },
    ;

    /// Like write, with an optional timeout the transport itself
    /// enforces.
    fn send(&mut self, data: &[u8], timeout: Option<u32>) -> (r: Result<usize, Error>)
        requires
            old(self).supports_send(),
            data@.len() <= MAX_IO_AMOUNT,
        ensures
            match r {
                Ok(n) => n <= data@.len() && Self::send_post(
                    *old(self),
                    *final(self),
                    data@,
                    timeout,
                    Ok(n as int),
                ),
                Err(e) => Self::send_post(*old(self), *final(self), data@, timeout, Err(e)),
            },
    ;

    fn getsockname(&self) -> (r: Result<NetAddr, Error>)
        requires
            self.supports_getsockname(),
        ensures
            r == self.getsockname_res(),
    ;

    fn getpeername(&self) -> (r: Result<NetAddr, Error>)
        requires
            self.supports_getpeername(),
        ensures
            r == self.getpeername_res(),
    ;

    fn get_nonblocking(&self) -> (r: Result<bool, Error>)
        requires
            self.supports_get_nonblocking(),
        ensures
            r == self.get_nonblocking_res(),
    ;
}

/// What the security layer keeps per socket.
pub struct SecurityState {
    /// Whether the external engine has completed a handshake on this
    /// layer. The model can only drive a handshake to its failure
    /// surface, so this stays false here.
    pub handshake_complete: bool,
    /// The certificate-validation escape hatch: when set, any peer
    /// certificate is accepted. Never a default.
    pub accept_any_cert: bool,
    /// Whether an authentication callback is registered at this layer.
    pub auth_hook_installed: bool,
    /// Server identity for hostname verification.
    pub url: Option<String>,
    /// The certificate the handshake validated, if it produced one.
    pub peer_certificate: Option<Certificate>,
}

/// One layer of a file's stack.
pub enum Layer {
    /// A pass-through layer built by a [`FileWrapper`]: it forwards each
    /// operation downward and re-asserts the byte-count guard on the way
    /// back up.
    Wrap { identity: PRDescIdentity },
    /// A security layer grafted by the TLS socket constructor.
    Security { sec: SecurityState },
}

pub open spec fn initial_security_state() -> SecurityState {
    SecurityState {
        handshake_complete: false,
        accept_any_cert: false,
        auth_hook_installed: false,
        url: None,
        peer_certificate: None,
    }
}

/// Whether some layer of the stack is a security layer that has not
/// completed its handshake. Such a layer turns byte-moving operations
/// into handshake driving, which reads from the layers beneath it.
pub open spec fn stack_gated(stack: Seq<Layer>) -> bool
    decreases stack.len(),
{
    if stack.len() == 0 {
        false
    } else {
        (match stack.last() {
            Layer::Security { sec } => !sec.handshake_complete,
            Layer::Wrap { .. } => false,
        }) || stack_gated(stack.drop_last())
    }
}

/// Whether every layer of the stack is a pass-through wrap layer.
pub open spec fn all_wrap(stack: Seq<Layer>) -> bool {
    forall|i: int| 0 <= i < stack.len() ==> stack[i] is Wrap
}

/// The error a security layer reports when a handshake-driving probe of
/// the layers beneath it comes back: end of stream on an empty read,
/// retry when the engine would need more rounds, and any probe error
/// unchanged.
pub open spec fn sec_probe_result(probe: Result<Seq<u8>, Error>) -> Error {
    match probe {
        Ok(data) => if data.len() == 0 {
            Error { nspr_error: PR_END_OF_FILE_ERROR }
        } else {
            Error { nspr_error: PR_WOULD_BLOCK_ERROR }
        },
        Err(e) => e,
    }
}

/// How a read dispatched at the top of `stack` relates the transport's
/// state before and after to the result. Wrap layers are transparent; a
/// security layer that has not completed its handshake turns the read
/// into a handshake-driving probe of the layers beneath it and reports
/// the probe's outcome as an error.
pub open spec fn read_rel<T: FileMethods>(
    stack: Seq<Layer>,
    pre: T,
    post: T,
    amount: nat,
    r: Result<Seq<u8>, Error>,
) -> bool
    decreases stack.len(),
{
    if stack.len() == 0 {
        match r {
            Ok(data) => data.len() <= amount && T::read_post(pre, post, amount, r),
            Err(_) => T::read_post(pre, post, amount, r),
        }
    } else {
        match stack.last() {
            Layer::Wrap { .. } => read_rel(stack.drop_last(), pre, post, amount, r),
            Layer::Security { sec } => if sec.handshake_complete {
                read_rel(stack.drop_last(), pre, post, amount, r)
            } else {
                match r {
                    Ok(_) => false,
                    Err(e) => exists|probe: Result<Seq<u8>, Error>|
                        read_rel(
                            stack.drop_last(),
                            pre,
                            post,
                            HANDSHAKE_PROBE_AMOUNT as nat,
                            probe,
                        ) && e == sec_probe_result(probe),
                }
            },
        }
    }
}

/// The write counterpart of [`read_rel`]. Under a pending security
/// layer a write drives the handshake, which probes the layers beneath
/// with a read; no bytes of `data` reach the transport.
pub open spec fn write_rel<T: FileMethods>(
    stack: Seq<Layer>,
    pre: T,
    post: T,
    data: Seq<u8>,
    r: Result<int, Error>,
) -> bool
    decreases stack.len(),
{
    if stack.len() == 0 {
        match r {
            Ok(n) => 0 <= n <= data.len() && T::write_post(pre, post, data, r),
            Err(_) => T::write_post(pre, post, data, r),
        }
    } else {
        match stack.last() {
            Layer::Wrap { .. } => write_rel(stack.drop_last(), pre, post, data, r),
            Layer::Security { sec } => if sec.handshake_complete {
                write_rel(stack.drop_last(), pre, post, data, r)
            } else {
                match r {
                    Ok(_) => false,
                    Err(e) => exists|probe: Result<Seq<u8>, Error>|
                        read_rel(
                            stack.drop_last(),
                            pre,
                            post,
                            HANDSHAKE_PROBE_AMOUNT as nat,
                            probe,
                        ) && e == sec_probe_result(probe),
                }
            },
        }
    }
}

/// The receive counterpart of [`read_rel`]; peek and timeout ride along
/// unchanged through wrap layers.
pub open spec fn recv_rel<T: FileMethods>(
    stack: Seq<Layer>,
    pre: T,
    post: T,
    amount: nat,
    peek: bool,
    timeout: Option<u32>,
    r: Result<Seq<u8>, Error>,
) -> bool
    decreases stack.len(),
{
    if stack.len() == 0 {
        match r {
            Ok(data) => data.len() <= amount && T::recv_post(pre, post, amount, peek, timeout, r),
            Err(_) => T::recv_post(pre, post, amount, peek, timeout, r),
        }
    } else {
        match stack.last() {
            Layer::Wrap { .. } => recv_rel(stack.drop_last(), pre, post, amount, peek, timeout, r),
            Layer::Security { sec } => if sec.handshake_complete {
                recv_rel(stack.drop_last(), pre, post, amount, peek, timeout, r)
            } else {
                match r {
                    Ok(_) => false,
                    Err(e) => exists|probe: Result<Seq<u8>, Error>|
                        read_rel(
                            stack.drop_last(),
                            pre,
                            post,
                            HANDSHAKE_PROBE_AMOUNT as nat,
                            probe,
                        ) && e == sec_probe_result(probe),
                }
            },
        }
    }
}

/// The send counterpart of [`write_rel`].
pub open spec fn send_rel<T: FileMethods>(
    stack: Seq<Layer>,
    pre: T,
    post: T,
    data: Seq<u8>,
    timeout: Option<u32>,
    r: Result<int, Error>,
) -> bool
    decreases stack.len(),
{
    if stack.len() == 0 {
        match r {
            Ok(n) => 0 <= n <= data.len() && T::send_post(pre, post, data, timeout, r),
            Err(_) => T::send_post(pre, post, data, timeout, r),
        }
    } else {
        match stack.last() {
            Layer::Wrap { .. } => send_rel(stack.drop_last(), pre, post, data, timeout, r),
            Layer::Security { sec } => if sec.handshake_complete {
                send_rel(stack.drop_last(), pre, post, data, timeout, r)
            } else {
                match r {
                    Ok(_) => false,
                    Err(e) => exists|probe: Result<Seq<u8>, Error>|
                        read_rel(
                            stack.drop_last(),
                            pre,
                            post,
                            HANDSHAKE_PROBE_AMOUNT as nat,
                            probe,
                        ) && e == sec_probe_result(probe),
                }
            },
        }
    }
}

/// An owning handle to one layered I/O object: the transport at the
/// bottom and the stack of layers above it. Ownership is exclusive and
/// move-only; dropping the handle releases the transport and every
/// layer exactly once, by construction.
pub struct File<Inner> {
    transport: Inner,
    layers: Vec<Layer>,
}

impl<Inner> File<Inner> {
    /// The transport at the bottom of the stack.
    pub closed spec fn inner(&self) -> Inner {
        self.transport
    }

    /// The layer stack, bottom first.
    pub closed spec fn stack(&self) -> Seq<Layer> {
        self.layers@
    }

    /// Whether the top of the stack is a wrap layer of this library,
    /// checked by identity tag before any dispatch trusts the handle.
    pub open spec fn is_wrapped(&self) -> bool {
        self.stack().len() > 0 && self.stack().last() == (Layer::Wrap {
            identity: WRAPPED_FILE_IDENT,
        })
    }

    pub(crate) fn from_inner(transport: Inner) -> (r: File<Inner>)
        ensures
            r.inner() == transport,
            r.stack() == Seq::<Layer>::empty(),
    {
        File { transport, layers: Vec::new() }
    }

    pub(crate) fn push_layer(&mut self, layer: Layer)
        ensures
            final(self).inner() == old(self).inner(),
            final(self).stack() == old(self).stack().push(layer),
    {
        self.layers.push(layer);
    }

    pub(crate) fn pop_layer(&mut self) -> (r: Layer)
        requires
            old(self).stack().len() > 0,
        ensures
            final(self).inner() == old(self).inner(),
            final(self).stack() == old(self).stack().drop_last(),
            r == old(self).stack().last(),
    {
        proof {
            assert(self.layers@ =~= self.layers@.drop_last().push(self.layers@.last()));
        }
        let r = self.layers.pop();
        match r {
            Some(layer) => layer,
            None => vstd::pervasive::unreached(),
        }
    }

    pub(crate) fn last_layer(&self) -> (r: Option<&Layer>)
        ensures
            match r {
                Some(layer) => self.stack().len() > 0 && *layer == self.stack().last(),
                None => self.stack().len() == 0,
            },
    {
        let n = self.layers.len();
        if n == 0 {
            None
        } else {
            Some(&self.layers[n - 1])
        }
    }

    /// A shared view of the transport under the whole stack, for
    /// callers that need the raw object (tests, cleartext framing).
    pub fn get_ref(&self) -> (r: &Inner)
        ensures
            *r == self.inner(),
    {
        &self.transport
    }

    /// An exclusive view of the transport; the layer stack stays as it
    /// is, whatever the caller does through the reference.
    pub fn get_mut(&mut self) -> (r: &mut Inner)
        ensures
            *r == old(self).inner(),
            final(self).inner() == *final(r),
            final(self).stack() == old(self).stack(),
    {
        &mut self.transport
    }
}

impl<Inner: FileMethods> File<Inner> {
    /// Dispatches a read through the layers below index `top`.
    fn read_at(&mut self, top: usize, amount: usize) -> (r: Result<Vec<u8>, Error>)
        requires
            top <= old(self).stack().len(),
            old(self).inner().supports_read(),
            amount <= MAX_IO_AMOUNT,
        ensures
            final(self).stack() == old(self).stack(),
            match r {
                Ok(data) => data@.len() <= amount && read_rel(
                    old(self).stack().take(top as int),
                    old(self).inner(),
                    final(self).inner(),
                    amount as nat,
                    Ok(data@),
                ),
                Err(e) => read_rel(
                    old(self).stack().take(top as int),
                    old(self).inner(),
                    final(self).inner(),
                    amount as nat,
                    Err(e),
                ),
            },
        decreases top,
    {
        if top == 0 {
            let r = self.transport.read(amount);
            proof {
                assert(old(self).stack().take(0) =~= Seq::<Layer>::empty());
            }
            match r {
                Ok(data) => {
                    if data.len() > amount {
                        // Defensive guard: a transport that over-reports
                        // its count is caught here, never forwarded.
                        Err(Error { nspr_error: PR_INVALID_METHOD_ERROR })
                    } else {
                        Ok(data)
                    }
                },
                Err(e) => Err(e),
            }
        } else {
            proof {
                let s = old(self).stack();
                assert(s.take(top as int).last() == s[top - 1]);
                assert(s.take(top as int).drop_last() =~= s.take(top - 1));
            }
            let (is_wrap, handshake_complete): (bool, bool) = match &self.layers[top - 1] {
                Layer::Wrap { .. } => (true, false),
                Layer::Security { sec } => (false, sec.handshake_complete),
            };
            if is_wrap {
                let r = self.read_at(top - 1, amount);
                match r {
                    Ok(data) => {
                        if data.len() > amount {
                            // The same guard, re-asserted at every wrap
                            // layer on the way back up.
                            Err(Error { nspr_error: PR_INVALID_METHOD_ERROR })
                        } else {
                            Ok(data)
                        }
                    },
                    Err(e) => Err(e),
                }
            } else if handshake_complete {
                self.read_at(top - 1, amount)
            } else {
                // A security layer without a completed handshake: the
                // read becomes a handshake-driving probe of the layers
                // beneath, and only the probe's outcome is reported.
                let probe = self.read_at(top - 1, HANDSHAKE_PROBE_AMOUNT);
                let ghost probe_view: Result<Seq<u8>, Error> = (match &probe {
                    Ok(data) => Ok(data@),
                    Err(e) => Err(*e),
                });
                let e = match probe {
                    Ok(data) => {
                        if data.len() == 0 {
                            Error { nspr_error: PR_END_OF_FILE_ERROR }
                        } else {
                            Error { nspr_error: PR_WOULD_BLOCK_ERROR }
                        }
                    },
                    Err(e2) => e2,
                };
                proof {
                    assert(e == sec_probe_result(probe_view));
                    assert(read_rel(
                        old(self).stack().take(top - 1),
                        old(self).inner(),
                        self.inner(),
                        HANDSHAKE_PROBE_AMOUNT as nat,
                        probe_view,
                    ));
                }
                Err(e)
            }
        }
    }

    /// Dispatches a write through the layers below index `top`. Under a
    /// pending security layer the write turns into handshake driving,
    /// which needs the read capability of the transport instead.
    fn write_at(&mut self, top: usize, data: &[u8]) -> (r: Result<usize, Error>)
        requires
            top <= old(self).stack().len(),
            if stack_gated(old(self).stack().take(top as int)) {
                old(self).inner().supports_read()
            } else {
                old(self).inner().supports_write()
            },
            data@.len() <= MAX_IO_AMOUNT,
        ensures
            final(self).stack() == old(self).stack(),
            match r {
                Ok(n) => n <= data@.len() && write_rel(
                    old(self).stack().take(top as int),
                    old(self).inner(),
                    final(self).inner(),
                    data@,
                    Ok(n as int),
                ),
                Err(e) => write_rel(
                    old(self).stack().take(top as int),
                    old(self).inner(),
                    final(self).inner(),
                    data@,
                    Err(e),
                ),
            },
        decreases top,
    {
        if top == 0 {
            proof {
                assert(old(self).stack().take(0) =~= Seq::<Layer>::empty());
            }
            let r = self.transport.write(data);
            match r {
                Ok(n) => {
                    if n > data.len() {
                        // Defensive guard: a transport never consumes
                        // more than it was handed.
                        Err(Error { nspr_error: PR_INVALID_METHOD_ERROR })
                    } else {
                        Ok(n)
                    }
                },
                Err(e) => Err(e),
            }
        } else {
            proof {
                let s = old(self).stack();
                assert(s.take(top as int).last() == s[top - 1]);
                assert(s.take(top as int).drop_last() =~= s.take(top - 1));
            }
            let (is_wrap, handshake_complete): (bool, bool) = match &self.layers[top - 1] {
                Layer::Wrap { .. } => (true, false),
                Layer::Security { sec } => (false, sec.handshake_complete),
            };
            if is_wrap {
                let r = self.write_at(top - 1, data);
                match r {
                    Ok(n) => {
                        if n > data.len() {
                            Err(Error { nspr_error: PR_INVALID_METHOD_ERROR })
                        } else {
                            Ok(n)
                        }
                    },
                    Err(e) => Err(e),
                }
            } else if handshake_complete {
                self.write_at(top - 1, data)
            } else {
                // Handshake driving: no byte of `data` moves; the layer
                // probes beneath itself and reports the outcome.
                let probe = self.read_at(top - 1, HANDSHAKE_PROBE_AMOUNT);
                let ghost probe_view: Result<Seq<u8>, Error> = (match &probe {
                    Ok(d) => Ok(d@),
                    Err(e) => Err(*e),
                });
                let e = match probe {
                    Ok(d) => {
                        if d.len() == 0 {
                            Error { nspr_error: PR_END_OF_FILE_ERROR }
                        } else {
                            Error { nspr_error: PR_WOULD_BLOCK_ERROR }
                        }
                    },
                    Err(e2) => e2,
                };
                proof {
                    assert(e == sec_probe_result(probe_view));
                    assert(read_rel(
                        old(self).stack().take(top - 1),
                        old(self).inner(),
                        self.inner(),
                        HANDSHAKE_PROBE_AMOUNT as nat,
                        probe_view,
                    ));
                }
                Err(e)
            }
        }
    }

    /// Dispatches a receive through the layers below index `top`.
    fn recv_at(&mut self, top: usize, amount: usize, peek: bool, timeout: Option<u32>) -> (r:
        Result<Vec<u8>, Error>)
        requires
            top <= old(self).stack().len(),
            if stack_gated(old(self).stack().take(top as int)) {
                old(self).inner().supports_read()
            } else {
                old(self).inner().supports_recv()
            },
            amount <= MAX_IO_AMOUNT,
        ensures
            final(self).stack() == old(self).stack(),
            match r {
                Ok(data) => data@.len() <= amount && recv_rel(
                    old(self).stack().take(top as int),
                    old(self).inner(),
                    final(self).inner(),
                    amount as nat,
                    peek,
                    timeout,
                    Ok(data@),
                ),
                Err(e) => recv_rel(
                    old(self).stack().take(top as int),
                    old(self).inner(),
                    final(self).inner(),
                    amount as nat,
                    peek,
                    timeout,
                    Err(e),
                ),
            },
        decreases top,
    {
        if top == 0 {
            proof {
                assert(old(self).stack().take(0) =~= Seq::<Layer>::empty());
            }
            let r = self.transport.recv(amount, peek, timeout);
            match r {
                Ok(data) => {
                    if data.len() > amount {
                        Err(Error { nspr_error: PR_INVALID_METHOD_ERROR })
                    } else {
                        Ok(data)
                    }
                },
                Err(e) => Err(e),
            }
        } else {
            proof {
                let s = old(self).stack();
                assert(s.take(top as int).last() == s[top - 1]);
                assert(s.take(top as int).drop_last() =~= s.take(top - 1));
            }
            let (is_wrap, handshake_complete): (bool, bool) = match &self.layers[top - 1] {
                Layer::Wrap { .. } => (true, false),
                Layer::Security { sec } => (false, sec.handshake_complete),
            };
            if is_wrap {
                let r = self.recv_at(top - 1, amount, peek, timeout);
                match r {
                    Ok(data) => {
                        if data.len() > amount {
                            Err(Error { nspr_error: PR_INVALID_METHOD_ERROR })
                        } else {
                            Ok(data)
                        }
                    },
                    Err(e) => Err(e),
                }
            } else if handshake_complete {
                self.recv_at(top - 1, amount, peek, timeout)
            } else {
                let probe = self.read_at(top - 1, HANDSHAKE_PROBE_AMOUNT);
                let ghost probe_view: Result<Seq<u8>, Error> = (match &probe {
                    Ok(d) => Ok(d@),
                    Err(e) => Err(*e),
                });
                let e = match probe {
                    Ok(d) => {
                        if d.len() == 0 {
                            Error { nspr_error: PR_END_OF_FILE_ERROR }
                        } else {
                            Error { nspr_error: PR_WOULD_BLOCK_ERROR }
                        }
                    },
                    Err(e2) => e2,
                };
                proof {
                    assert(e == sec_probe_result(probe_view));
                    assert(read_rel(
                        old(self).stack().take(top - 1),
                        old(self).inner(),
                        self.inner(),
                        HANDSHAKE_PROBE_AMOUNT as nat,
                        probe_view,
                    ));
                }
                Err(e)
            }
        }
    }

    /// Dispatches a send through the layers below index `top`.
    fn send_at(&mut self, top: usize, data: &[u8], timeout: Option<u32>) -> (r: Result<
        usize,
        Error,
    >)
        requires
            top <= old(self).stack().len(),
            if stack_gated(old(self).stack().take(top as int)) {
                old(self).inner().supports_read()
            } else {
                old(self).inner().supports_send()
            },
            data@.len() <= MAX_IO_AMOUNT,
        ensures
            final(self).stack() == old(self).stack(),
            match r {
                Ok(n) => n <= data@.len() && send_rel(
                    old(self).stack().take(top as int),
                    old(self).inner(),
                    final(self).inner(),
                    data@,
                    timeout,
                    Ok(n as int),
                ),
                Err(e) => send_rel(
                    old(self).stack().take(top as int),
                    old(self).inner(),
                    final(self).inner(),
                    data@,
                    timeout,
                    Err(e),
                ),
            },
        decreases top,
    {
        if top == 0 {
            proof {
                assert(old(self).stack().take(0) =~= Seq::<Layer>::empty());
            }
            let r = self.transport.send(data, timeout);
            match r {
                Ok(n) => {
                    if n > data.len() {
                        Err(Error { nspr_error: PR_INVALID_METHOD_ERROR })
                    } else {
                        Ok(n)
                    }
                },
                Err(e) => Err(e),
            }
        } else {
            proof {
                let s = old(self).stack();
                assert(s.take(top as int).last() == s[top - 1]);
                assert(s.take(top as int).drop_last() =~= s.take(top - 1));
            }
            let (is_wrap, handshake_complete): (bool, bool) = match &self.layers[top - 1] {
                Layer::Wrap { .. } => (true, false),
                Layer::Security { sec } => (false, sec.handshake_complete),
            };
            if is_wrap {
                let r = self.send_at(top - 1, data, timeout);
                match r {
                    Ok(n) => {
                        if n > data.len() {
                            Err(Error { nspr_error: PR_INVALID_METHOD_ERROR })
                        } else {
                            Ok(n)
                        }
                    },
                    Err(e) => Err(e),
                }
            } else if handshake_complete {
                self.send_at(top - 1, data, timeout)
            } else {
                let probe = self.read_at(top - 1, HANDSHAKE_PROBE_AMOUNT);
                let ghost probe_view: Result<Seq<u8>, Error> = (match &probe {
                    Ok(d) => Ok(d@),
                    Err(e) => Err(*e),
                });
                let e = match probe {
                    Ok(d) => {
                        if d.len() == 0 {
                            Error { nspr_error: PR_END_OF_FILE_ERROR }
                        } else {
                            Error { nspr_error: PR_WOULD_BLOCK_ERROR }
                        }
                    },
                    Err(e2) => e2,
                };
                proof {
                    assert(e == sec_probe_result(probe_view));
                    assert(read_rel(
                        old(self).stack().take(top - 1),
                        old(self).inner(),
                        self.inner(),
                        HANDSHAKE_PROBE_AMOUNT as nat,
                        probe_view,
                    ));
                }
                Err(e)
            }
        }
    }
}

/// A file is itself a transport: its operations dispatch through its
/// own stack, so wrapping a file stacks one more layer over the same
/// transport. The byte-count guard is re-asserted at every layer.
impl<T: FileMethods> FileMethods for File<T> {
    open spec fn supports_read(&self) -> bool {
        self.inner().supports_read()
    }

    open spec fn supports_write(&self) -> bool {
        if stack_gated(self.stack()) {
            self.inner().supports_read()
        } else {
            self.inner().supports_write()
        }
    }

    open spec fn supports_connect(&self) -> bool {
        self.inner().supports_connect()
    }

    open spec fn supports_recv(&self) -> bool {
        if stack_gated(self.stack()) {
            self.inner().supports_read()
        } else {
            self.inner().supports_recv()
        }
    }

    open spec fn supports_send(&self) -> bool {
        if stack_gated(self.stack()) {
            self.inner().supports_read()
        } else {
            self.inner().supports_send()
        }
    }

    open spec fn supports_getsockname(&self) -> bool {
        self.inner().supports_getsockname()
    }

    open spec fn supports_getpeername(&self) -> bool {
        self.inner().supports_getpeername()
    }

    open spec fn supports_get_nonblocking(&self) -> bool {
        self.inner().supports_get_nonblocking()
    }

    open spec fn read_post(pre: Self, post: Self, amount: nat, r: Result<Seq<u8>, Error>) -> bool {
        pre.stack() == post.stack() && read_rel(pre.stack(), pre.inner(), post.inner(), amount, r)
    }

    open spec fn write_post(pre: Self, post: Self, data: Seq<u8>, r: Result<int, Error>) -> bool {
        pre.stack() == post.stack() && write_rel(pre.stack(), pre.inner(), post.inner(), data, r)
    }

    open spec fn connect_post(
        pre: Self,
        post: Self,
        addr: NetAddr,
        timeout: Option<u32>,
        r: Result<(), Error>,
    ) -> bool {
        pre.stack() == post.stack() && T::connect_post(
            pre.inner(),
            post.inner(),
            addr,
            timeout,
            r,
        )
    }

    open spec fn recv_post(
        pre: Self,
        post: Self,
        amount: nat,
        peek: bool,
        timeout: Option<u32>,
        r: Result<Seq<u8>, Error>,
    ) -> bool {
        pre.stack() == post.stack() && recv_rel(
            pre.stack(),
            pre.inner(),
            post.inner(),
            amount,
            peek,
            timeout,
            r,
        )
    }

    open spec fn send_post(
        pre: Self,
        post: Self,
        data: Seq<u8>,
        timeout: Option<u32>,
        r: Result<int, Error>,
    ) -> bool {
        pre.stack() == post.stack() && send_rel(
            pre.stack(),
            pre.inner(),
            post.inner(),
            data,
            timeout,
            r,
        )
    }

    open spec fn getsockname_res(&self) -> Result<NetAddr, Error> {
        self.inner().getsockname_res()
    }

    open spec fn getpeername_res(&self) -> Result<NetAddr, Error> {
        self.inner().getpeername_res()
    }

    open spec fn get_nonblocking_res(&self) -> Result<bool, Error> {
        self.inner().get_nonblocking_res()
    }

    fn read(&mut self, amount: usize) -> (r: Result<Vec<u8>, Error>) {
        proof {
            assert(old(self).stack().take(old(self).stack().len() as int) =~= old(self).stack());
        }
        let top = self.layers.len();
        self.read_at(top, amount)
    }

    fn write(&mut self, data: &[u8]) -> (r: Result<usize, Error>) {
        proof {
            assert(old(self).stack().take(old(self).stack().len() as int) =~= old(self).stack());
        }
        let top = self.layers.len();
        self.write_at(top, data)
    }

    fn connect(&mut self, addr: NetAddr, timeout: Option<u32>) -> (r: Result<(), Error>) {
        self.transport.connect(addr, timeout)
    }

    fn recv(&mut self, amount: usize, peek: bool, timeout: Option<u32>) -> (r: Result<
        Vec<u8>,
        Error,
    >) {
        proof {
            assert(old(self).stack().take(old(self).stack().len() as int) =~= old(self).stack());
        }
        let top = self.layers.len();
        self.recv_at(top, amount, peek, timeout)
    }

    fn send(&mut self, data: &[u8], timeout: Option<u32>) -> (r: Result<usize, Error>) {
        proof {
            assert(old(self).stack().take(old(self).stack().len() as int) =~= old(self).stack());
        }
        let top = self.layers.len();
        self.send_at(top, data, timeout)
    }

    fn getsockname(&self) -> (r: Result<NetAddr, Error>) {
        self.transport.getsockname()
    }

    fn getpeername(&self) -> (r: Result<NetAddr, Error>) {
        self.transport.getpeername()
    }

    fn get_nonblocking(&self) -> (r: Result<bool, Error>) {
        self.transport.get_nonblocking()
    }
}

/// Per-transport-type factory: one dispatch table per type, shared by
/// every file wrapped through it. The table itself is the set of
/// dispatch entry points below; the factory records the descriptor type
/// they are built for and the identity tag they stamp on each layer.
pub struct FileWrapper<Inner> {
    file_type: FileType,
    identity: PRDescIdentity,
    inner_type: PhantomData<Inner>,
}

impl<Inner: FileMethods> FileWrapper<Inner> {
    pub closed spec fn spec_file_type(&self) -> FileType {
        self.file_type
    }

    pub closed spec fn ident(&self) -> PRDescIdentity {
        self.identity
    }

    /// Builds the dispatch table for one transport type. Acquiring the
    /// layer identity requires the runtime to be up, so initialization
    /// is triggered first.
    pub fn new(file_type: FileType) -> (r: Self)
        ensures
            r.spec_file_type() == file_type,
            r.ident() == WRAPPED_FILE_IDENT,
    {
        crate::nspr::init();
        FileWrapper { file_type, identity: WRAPPED_FILE_IDENT, inner_type: PhantomData }
    }

    /// Wraps a concrete transport into a file: the transport goes to the
    /// bottom, one wrap layer carrying this library's identity tag goes
    /// above it. The returned handle owns both exclusively.
    pub fn wrap(&self, inner: Inner) -> (f: File<Inner>)
        where
            Inner: Send + Sync + 'static,
        ensures
            f.inner() == inner,
            f.stack() == seq![Layer::Wrap { identity: self.ident() }],
            self.ident() == WRAPPED_FILE_IDENT ==> f.is_wrapped(),
    {
        let mut f = File::from_inner(inner);
        f.push_layer(Layer::Wrap { identity: self.identity });
        proof {
            assert(f.stack() =~= seq![Layer::Wrap { identity: self.ident() }]);
        }
        f
    }

    /// Stacks one more wrap layer over an already layered file, leaving
    /// the transport and the layers beneath untouched. Re-wrapping any
    /// number of times changes no operation's outcome.
    pub fn wrap_file(&self, file: File<Inner>) -> (f: File<Inner>)
        where
            Inner: Send + Sync + 'static,
        ensures
            f.inner() == file.inner(),
            f.stack() == file.stack().push(Layer::Wrap { identity: self.ident() }),
            self.ident() == WRAPPED_FILE_IDENT ==> f.is_wrapped(),
    {
        let mut f = file;
        f.push_layer(Layer::Wrap { identity: self.identity });
        f
    }
}

/// A non-owning view of a layered file, for contexts where the caller
/// keeps ownership and the callee must not close. Constructing one
/// never takes the file over; dropping one closes nothing.
pub struct BorrowedFile<'a, Inner> {
    file: &'a File<Inner>,
}

impl<'a, Inner> BorrowedFile<'a, Inner> {
    pub closed spec fn file_view(&self) -> File<Inner> {
        *self.file
    }

    pub fn from_file(file: &'a File<Inner>) -> (r: Self)
        ensures
            r.file_view() == *file,
    {
        BorrowedFile { file }
    }

    /// The checked variant: the handle must carry this library's wrap
    /// layer with the expected identity tag on top. Handing in a foreign
    /// layer is a programming error, excluded by precondition before any
    /// access to the secret payload.
    pub fn from_file_checked(file: &'a File<Inner>, ident: PRDescIdentity) -> (r: Self)
        requires
            file.stack().len() > 0,
            file.stack().last() == (Layer::Wrap { identity: ident }),
        ensures
            r.file_view() == *file,
    {
        BorrowedFile { file }
    }

    /// The wrapped transport itself.
    pub fn get_ref(&self) -> (r: &Inner)
        ensures
            *r == self.file_view().inner(),
    {
        self.file.get_ref()
    }
}

/// Close entry of the dispatch table: consumes the handle, which
/// releases the transport and every layer exactly once. A second close
/// cannot be expressed: the handle is gone. The layer header cannot
/// have moved either: the stack is owned storage, not a raw address, so
/// the relocation hazard of in-place layer swapping cannot arise.
pub fn close<Inner: FileMethods>(file: File<Inner>) -> (r: PRStatus)
    requires
        file.is_wrapped(),
    ensures
        r == PR_SUCCESS,
{
    let _consumed = file;
    PR_SUCCESS
}

/// Read entry of the dispatch table: checks the identity, forwards down
/// the stack, re-asserts that the count fits the requested amount, and
/// narrows it to the foreign width. Errors come back as explicit
/// values.
pub fn read<Inner: FileMethods>(fd: &mut File<Inner>, amount: PRInt32) -> (r: Result<
    (PRInt32, Vec<u8>),
    Error,
>)
    requires
        old(fd).is_wrapped(),
        old(fd).supports_read(),
        amount >= 0,
    ensures
        final(fd).stack() == old(fd).stack(),
        match r {
            Ok((n, data)) => n as int == data@.len() as int && n <= amount && read_rel(
                old(fd).stack(),
                old(fd).inner(),
                final(fd).inner(),
                amount as nat,
                Ok(data@),
            ),
            Err(e) => read_rel(
                old(fd).stack(),
                old(fd).inner(),
                final(fd).inner(),
                amount as nat,
                Err(e),
            ),
        },
{
    let res = fd.read(amount as usize);
    match res {
        Ok(data) => {
            let n = data.len() as PRInt32;
            Ok((n, data))
        },
        Err(e) => Err(e),
    }
}

/// Write entry of the dispatch table.
pub fn write<Inner: FileMethods>(fd: &mut File<Inner>, data: &[u8]) -> (r: Result<PRInt32, Error>)
    requires
        old(fd).is_wrapped(),
        old(fd).supports_write(),
        data@.len() <= MAX_IO_AMOUNT,
    ensures
        final(fd).stack() == old(fd).stack(),
        match r {
            Ok(n) => 0 <= n <= data@.len() as int && write_rel(
                old(fd).stack(),
                old(fd).inner(),
                final(fd).inner(),
                data@,
                Ok(n as int),
            ),
            Err(e) => write_rel(
                old(fd).stack(),
                old(fd).inner(),
                final(fd).inner(),
                data@,
                Err(e),
            ),
        },
{
    let res = fd.write(data);
    match res {
        Ok(n) => Ok(n as PRInt32),
        Err(e) => Err(e),
    }
}

/// Connect entry of the dispatch table: decodes the wire address first;
/// an unsupported family is a recoverable error, not a trap.
pub fn connect<Inner: FileMethods>(
    fd: &mut File<Inner>,
    addr: &RawNetAddr,
    timeout: PRIntervalTime,
) -> (r: Result<(), Error>)
    requires
        old(fd).is_wrapped(),
        spec_read_net_addr(*addr) is Some ==> old(fd).supports_connect(),
    ensures
        final(fd).stack() == old(fd).stack(),
        match spec_read_net_addr(*addr) {
            Some(a) => Inner::connect_post(
                old(fd).inner(),
                final(fd).inner(),
                a,
                spec_timeout_from_nspr(timeout),
                r,
            ),
            None => r == Err::<(), Error>(Error { nspr_error: PR_ADDRESS_NOT_SUPPORTED_ERROR })
                && *final(fd) == *old(fd),
        },
{
    match read_net_addr(addr) {
        Some(a) => fd.connect(a, duration_opt_from_nspr(timeout)),
        None => Err(unsupported_address_error()),
    }
}

/// Receive entry of the dispatch table: translates the peek bit and the
/// interval timeout, then behaves as the read entry does.
pub fn recv<Inner: FileMethods>(
    fd: &mut File<Inner>,
    amount: PRInt32,
    flags: i32,
    timeout: PRIntervalTime,
) -> (r: Result<(PRInt32, Vec<u8>), Error>)
    requires
        old(fd).is_wrapped(),
        old(fd).supports_recv(),
        amount >= 0,
    ensures
        final(fd).stack() == old(fd).stack(),
        match r {
            Ok((n, data)) => n as int == data@.len() as int && n <= amount && recv_rel(
                old(fd).stack(),
                old(fd).inner(),
                final(fd).inner(),
                amount as nat,
                (flags & PR_MSG_PEEK) != 0,
                spec_timeout_from_nspr(timeout),
                Ok(data@),
            ),
            Err(e) => recv_rel(
                old(fd).stack(),
                old(fd).inner(),
                final(fd).inner(),
                amount as nat,
                (flags & PR_MSG_PEEK) != 0,
                spec_timeout_from_nspr(timeout),
                Err(e),
            ),
        },
{
    let peek = (flags & PR_MSG_PEEK) != 0;
    let res = fd.recv(amount as usize, peek, duration_opt_from_nspr(timeout));
    match res {
        Ok(data) => {
            let n = data.len() as PRInt32;
            Ok((n, data))
        },
        Err(e) => Err(e),
    }
}

/// Send entry of the dispatch table.
pub fn send<Inner: FileMethods>(
    fd: &mut File<Inner>,
    data: &[u8],
    timeout: PRIntervalTime,
) -> (r: Result<PRInt32, Error>)
    requires
        old(fd).is_wrapped(),
        old(fd).supports_send(),
        data@.len() <= MAX_IO_AMOUNT,
    ensures
        final(fd).stack() == old(fd).stack(),
        match r {
            Ok(n) => 0 <= n <= data@.len() as int && send_rel(
                old(fd).stack(),
                old(fd).inner(),
                final(fd).inner(),
                data@,
                spec_timeout_from_nspr(timeout),
                Ok(n as int),
            ),
            Err(e) => send_rel(
                old(fd).stack(),
                old(fd).inner(),
                final(fd).inner(),
                data@,
                spec_timeout_from_nspr(timeout),
                Err(e),
            ),
        },
{
    let res = fd.send(data, duration_opt_from_nspr(timeout));
    match res {
        Ok(n) => Ok(n as PRInt32),
        Err(e) => Err(e),
    }
}

/// Local-address entry of the dispatch table: encodes the transport's
/// answer into the wire form.
pub fn getsockname<Inner: FileMethods>(fd: &File<Inner>) -> (r: Result<RawNetAddr, Error>)
    requires
        fd.is_wrapped(),
        fd.supports_getsockname(),
    ensures
        match fd.inner().getsockname_res() {
            Ok(a) => r == Ok::<RawNetAddr, Error>(spec_write_net_addr(a)),
            Err(e) => r == Err::<RawNetAddr, Error>(e),
        },
{
    match fd.getsockname() {
        Ok(a) => Ok(write_net_addr(&a)),
        Err(e) => Err(e),
    }
}

/// Peer-address entry of the dispatch table.
pub fn getpeername<Inner: FileMethods>(fd: &File<Inner>) -> (r: Result<RawNetAddr, Error>)
    requires
        fd.is_wrapped(),
        fd.supports_getpeername(),
    ensures
        match fd.inner().getpeername_res() {
            Ok(a) => r == Ok::<RawNetAddr, Error>(spec_write_net_addr(a)),
            Err(e) => r == Err::<RawNetAddr, Error>(e),
        },
{
    match fd.getpeername() {
        Ok(a) => Ok(write_net_addr(&a)),
        Err(e) => Err(e),
    }
}

/// Socket options the dispatch table recognizes.
#[derive(Clone, Copy, PartialEq, Eq, Structural, Debug)]
pub enum PRSockOption {
    Nonblocking,
    Reuseaddr,
    Keepalive,
}

/// A socket-option answer in the foreign encoding.
#[derive(Clone, Copy, PartialEq, Eq, Structural, Debug)]
pub enum PRSocketOptionData {
    Nonblocking(PRBool),
}

/// Socket-option entry of the dispatch table. Only the nonblocking
/// query has an underlying capability; asking for any other option is a
/// programming error, excluded by precondition.
pub fn getsocketoption<Inner: FileMethods>(fd: &File<Inner>, option: PRSockOption) -> (r: Result<
    PRSocketOptionData,
    Error,
>)
    requires
        fd.is_wrapped(),
        option is Nonblocking,
        fd.supports_get_nonblocking(),
    ensures
        match fd.inner().get_nonblocking_res() {
            Ok(b) => r == Ok::<PRSocketOptionData, Error>(
                PRSocketOptionData::Nonblocking(
                    if b {
                        PR_TRUE
                    } else {
                        PR_FALSE
                    },
                ),
            ),
            Err(e) => r == Err::<PRSocketOptionData, Error>(e),
        },
{
    match fd.get_nonblocking() {
        Ok(b) => Ok(PRSocketOptionData::Nonblocking(bool_to_nspr(b))),
        Err(e) => Err(e),
    }
}

/// Wrap layers are transparent to reads: a stack of them relates the
/// transport's states and the result exactly as the bare transport
/// does, whatever its depth.
pub proof fn lemma_read_rel_all_wrap<T: FileMethods>(
    stack: Seq<Layer>,
    pre: T,
    post: T,
    amount: nat,
    r: Result<Seq<u8>, Error>,
)
    requires
        all_wrap(stack),
    ensures
        read_rel(stack, pre, post, amount, r) == read_rel(
            Seq::<Layer>::empty(),
            pre,
            post,
            amount,
            r,
        ),
    decreases stack.len(),
{
    if stack.len() > 0 {
        assert(stack.last() is Wrap);
        assert(all_wrap(stack.drop_last()));
        lemma_read_rel_all_wrap(stack.drop_last(), pre, post, amount, r);
    }
}

/// Wrap layers are transparent to writes in the same way.
pub proof fn lemma_write_rel_all_wrap<T: FileMethods>(
    stack: Seq<Layer>,
    pre: T,
    post: T,
    data: Seq<u8>,
    r: Result<int, Error>,
)
    requires
        all_wrap(stack),
    ensures
        write_rel(stack, pre, post, data, r) == write_rel(
            Seq::<Layer>::empty(),
            pre,
            post,
            data,
            r,
        ),
    decreases stack.len(),
{
    if stack.len() > 0 {
        assert(stack.last() is Wrap);
        assert(all_wrap(stack.drop_last()));
        lemma_write_rel_all_wrap(stack.drop_last(), pre, post, data, r);
    }
}

/// Wrap layers are transparent to receives in the same way.
pub proof fn lemma_recv_rel_all_wrap<T: FileMethods>(
    stack: Seq<Layer>,
    pre: T,
    post: T,
    amount: nat,
    peek: bool,
    timeout: Option<u32>,
    r: Result<Seq<u8>, Error>,
)
    requires
        all_wrap(stack),
    ensures
        recv_rel(stack, pre, post, amount, peek, timeout, r) == recv_rel(
            Seq::<Layer>::empty(),
            pre,
            post,
            amount,
            peek,
            timeout,
            r,
        ),
    decreases stack.len(),
{
    if stack.len() > 0 {
        assert(stack.last() is Wrap);
        assert(all_wrap(stack.drop_last()));
        lemma_recv_rel_all_wrap(stack.drop_last(), pre, post, amount, peek, timeout, r);
    }
}

/// Wrap layers are transparent to sends in the same way.
pub proof fn lemma_send_rel_all_wrap<T: FileMethods>(
    stack: Seq<Layer>,
    pre: T,
    post: T,
    data: Seq<u8>,
    timeout: Option<u32>,
    r: Result<int, Error>,
)
    requires
        all_wrap(stack),
    ensures
        send_rel(stack, pre, post, data, timeout, r) == send_rel(
            Seq::<Layer>::empty(),
            pre,
            post,
            data,
            timeout,
            r,
        ),
    decreases stack.len(),
{
    if stack.len() > 0 {
        assert(stack.last() is Wrap);
        assert(all_wrap(stack.drop_last()));
        lemma_send_rel_all_wrap(stack.drop_last(), pre, post, data, timeout, r);
    }
}

/// Whatever the stack, a read that succeeds never reports more bytes
/// than were asked for: the guard holds at every depth.
pub proof fn lemma_read_count_bounded<T: FileMethods>(
    stack: Seq<Layer>,
    pre: T,
    post: T,
    amount: nat,
    data: Seq<u8>,
)
    requires
        read_rel(stack, pre, post, amount, Ok(data)),
    ensures
        data.len() <= amount,
    decreases stack.len(),
{
    if stack.len() > 0 {
        match stack.last() {
            Layer::Wrap { .. } => {
                lemma_read_count_bounded(stack.drop_last(), pre, post, amount, data);
            },
            Layer::Security { sec } => {
                if sec.handshake_complete {
                    lemma_read_count_bounded(stack.drop_last(), pre, post, amount, data);
                } else {
                    assert(false);
                }
            },
        }
    }
}

/// Whatever the stack, a write that succeeds never claims to have
/// consumed more bytes than it was given.
pub proof fn lemma_write_count_bounded<T: FileMethods>(
    stack: Seq<Layer>,
    pre: T,
    post: T,
    data: Seq<u8>,
    n: int,
)
    requires
        write_rel(stack, pre, post, data, Ok(n)),
    ensures
        0 <= n <= data.len(),
    decreases stack.len(),
{
    if stack.len() > 0 {
        match stack.last() {
            Layer::Wrap { .. } => {
                lemma_write_count_bounded(stack.drop_last(), pre, post, data, n);
            },
            Layer::Security { sec } => {
                if sec.handshake_complete {
                    lemma_write_count_bounded(stack.drop_last(), pre, post, data, n);
                } else {
                    assert(false);
                }
            },
        }
    }
}

/// Under a security layer whose handshake is pending, when every answer
/// the layers beneath can give to the handshake probe is a clean end of
/// stream, a handshake-driving write surfaces exactly the end-of-file
/// error to the caller.
pub proof fn lemma_security_surfaces_end_of_stream<T: FileMethods>(
    stack: Seq<Layer>,
    pre: T,
    post: T,
    data: Seq<u8>,
    r: Result<int, Error>,
)
    requires
        stack.len() > 0,
        stack.last() matches Layer::Security { sec } && !sec.handshake_complete,
        forall|p2: T, rr: Result<Seq<u8>, Error>|
            read_rel(stack.drop_last(), pre, p2, HANDSHAKE_PROBE_AMOUNT as nat, rr) ==> rr == Ok::<
                Seq<u8>,
                Error,
            >(Seq::<u8>::empty()),
        write_rel(stack, pre, post, data, r),
    ensures
        r == Err::<int, Error>(Error { nspr_error: PR_END_OF_FILE_ERROR }),
{
    match r {
        Ok(_) => {
            assert(false);
        },
        Err(e) => {
            let probe = choose|probe: Result<Seq<u8>, Error>|
                read_rel(stack.drop_last(), pre, post, HANDSHAKE_PROBE_AMOUNT as nat, probe)
                    && e == sec_probe_result(probe);
            assert(probe == Ok::<Seq<u8>, Error>(Seq::<u8>::empty()));
            assert(e == (Error { nspr_error: PR_END_OF_FILE_ERROR }));
        },
    }
}

} // verus!
