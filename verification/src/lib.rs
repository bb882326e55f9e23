//! A layered I/O model in the style of a portable runtime's file
//! descriptors, with a security layer grafted on top.
//!
//! A caller-supplied transport is wrapped into a uniform [`nspr::fd::File`]
//! object; wrapped files can be stacked under further layers, including a
//! security layer; every operation is dispatched down the stack with the
//! boundary checks the layering protocol demands. The TLS handshake and
//! record protocol themselves belong to an external security engine; this
//! crate models the layer's bookkeeping and its failure surface, which is
//! all the core has to get right.

pub mod cert;
pub mod nspr;

use vstd::prelude::*;
use core::marker::PhantomData;
pub use crate::cert::Certificate;
use crate::nspr::PRBool;
use crate::nspr::bool_from_nspr;
pub use crate::nspr::error::Error;
pub use crate::nspr::error::PR_WOULD_BLOCK_ERROR;
use crate::nspr::fd::BorrowedFile;
pub use crate::nspr::fd::File;
pub use crate::nspr::fd::FileMethods;
use crate::nspr::fd::Layer;
use crate::nspr::fd::MAX_IO_AMOUNT;
use crate::nspr::fd::SecurityState;
use crate::nspr::fd::initial_security_state;
use crate::nspr::fd::read_rel;
use crate::nspr::fd::recv_rel;
use crate::nspr::fd::send_rel;
use crate::nspr::fd::stack_gated;
use crate::nspr::fd::write_rel;
pub use crate::nspr::fd::FileWrapper;
use crate::nspr::net::NetAddr;

verus! {

/// Whole-library initialization: runtime first, then the security
/// engine. Explicit and idempotent; nothing in the model can fail here.
pub fn init() -> (r: Result<(), Error>)
    ensures
        r is Ok,
{
    crate::nspr::init();
    Ok(())
}

/// Type-level marker naming the secret type of a security-layered file:
/// a stack imported under the security layer over a transport `Inner`
/// carries this marker instead of `Inner` itself.
pub struct TLSMarker<Inner> {
    inner_type: PhantomData<Inner>,
}

impl<Inner> TLSMarker<Inner> {
    pub fn new() -> (r: TLSMarker<Inner>) {
        TLSMarker { inner_type: PhantomData }
    }
}

/// A security-engine status, with the error as an explicit value
/// instead of thread-local state a later call could overwrite.
#[derive(Clone, Copy, PartialEq, Eq, Structural, Debug)]
pub enum SECStatus {
    Success,
    WouldBlock,
    Failure(Error),
}

/// Folds a security-engine status into an ordinary result, at the call
/// where the status arose.
pub fn result_secstatus(status: SECStatus) -> (r: Result<(), Error>)
    ensures
        match status {
            SECStatus::Success => r == Ok::<(), Error>(()),
            SECStatus::WouldBlock => r == Err::<(), Error>(
                Error { nspr_error: PR_WOULD_BLOCK_ERROR },
            ),
            SECStatus::Failure(e) => r == Err::<(), Error>(e),
        },
{
    match status {
        SECStatus::Success => Ok(()),
        SECStatus::WouldBlock => Err(Error { nspr_error: PR_WOULD_BLOCK_ERROR }),
        SECStatus::Failure(e) => Err(e),
    }
}

/// A socket: a file stacked under a security layer, plus the callback
/// value its hooks dispatch to. Constructing one moves the inner file
/// in; the inner handle cannot be closed independently afterward.
pub struct TLSSocket<Inner, Callbacks> {
    file: File<Inner>,
    callbacks: Callbacks,
}

impl<Inner, Callbacks> TLSSocket<Inner, Callbacks> {
    pub closed spec fn file_spec(&self) -> File<Inner> {
        self.file
    }

    pub closed spec fn callbacks_spec(&self) -> Callbacks {
        self.callbacks
    }

    /// A socket's file always carries the security layer on top.
    pub open spec fn wf(&self) -> bool {
        self.file_spec().stack().len() > 0 && self.file_spec().stack().last() is Security
    }

    /// The state of the security layer on top of the stack.
    pub open spec fn sec_spec(&self) -> SecurityState
        recommends
            self.wf(),
    {
        match self.file_spec().stack().last() {
            Layer::Security { sec } => sec,
            Layer::Wrap { .. } => initial_security_state(),
        }
    }

    /// What every hook-bookkeeping call leaves alone: the transport,
    /// the layers beneath the security layer, and the callbacks; only
    /// the security state on top becomes `sec`.
    pub open spec fn same_but_security(pre: Self, post: Self, sec: SecurityState) -> bool {
        &&& post.wf()
        &&& post.file_spec().inner() == pre.file_spec().inner()
        &&& post.file_spec().stack() == pre.file_spec().stack().drop_last().push(
            Layer::Security { sec },
        )
        &&& post.callbacks_spec() == pre.callbacks_spec()
        &&& post.sec_spec() == sec
    }

    /// Imports the inner file under a fresh security layer. Ownership
    /// of the inner handle moves into the socket.
    pub fn new(inner: File<Inner>, callbacks: Callbacks) -> (r: Result<Self, Error>)
        ensures
            r is Ok,
            r matches Ok(sock) ==> {
                &&& sock.wf()
                &&& sock.file_spec().inner() == inner.inner()
                &&& sock.file_spec().stack() == inner.stack().push(
                    Layer::Security { sec: initial_security_state() },
                )
                &&& sock.callbacks_spec() == callbacks
                &&& sock.sec_spec() == initial_security_state()
            },
    {
        Self::new_with_model(inner, callbacks, None)
    }

    /// Like [`Self::new`], with a socket to copy configuration from.
    /// Configuring from a model would have to copy the model's callback
    /// registrations without leaking or doubling them; that path is an
    /// open design gap, so a model is excluded by precondition.
    pub fn new_with_model(inner: File<Inner>, callbacks: Callbacks, model: Option<Self>) -> (r:
        Result<Self, Error>)
        requires
            model is None,
        ensures
            r is Ok,
            r matches Ok(sock) ==> {
                &&& sock.wf()
                &&& sock.file_spec().inner() == inner.inner()
                &&& sock.file_spec().stack() == inner.stack().push(
                    Layer::Security { sec: initial_security_state() },
                )
                &&& sock.callbacks_spec() == callbacks
                &&& sock.sec_spec() == initial_security_state()
            },
    {
        let mut file = inner;
        file.push_layer(
            Layer::Security {
                sec: SecurityState {
                    handshake_complete: false,
                    accept_any_cert: false,
                    auth_hook_installed: false,
                    url: None,
                    peer_certificate: None,
                },
            },
        );
        Ok(TLSSocket { file, callbacks })
    }

    pub fn callbacks(&self) -> (r: &Callbacks)
        ensures
            *r == self.callbacks_spec(),
    {
        &self.callbacks
    }

    pub fn callbacks_mut(&mut self) -> (r: &mut Callbacks)
        ensures
            *r == old(self).callbacks_spec(),
            final(self).callbacks_spec() == *final(r),
            final(self).file_spec() == old(self).file_spec(),
    {
        &mut self.callbacks
    }

    /// Removes any certificate-validation override: validation is the
    /// engine's default again.
    pub fn unset_bad_cert_hook(&mut self) -> (r: Result<(), Error>)
        requires
            old(self).wf(),
        ensures
            r is Ok,
            Self::same_but_security(
                *old(self),
                *final(self),
                (SecurityState { accept_any_cert: false, ..old(self).sec_spec() }),
            ),
    {
        let layer = self.file.pop_layer();
        match layer {
            Layer::Security { sec } => {
                self.file.push_layer(
                    Layer::Security { sec: SecurityState { accept_any_cert: false, ..sec } },
                );
                Ok(())
            },
            Layer::Wrap { .. } => vstd::pervasive::unreached(),
        }
    }

    /// Installs the escape hatch that accepts any peer certificate.
    /// Deliberate and explicit, never a default.
    pub fn disable_security(&mut self) -> (r: Result<(), Error>)
        requires
            old(self).wf(),
        ensures
            r is Ok,
            Self::same_but_security(
                *old(self),
                *final(self),
                (SecurityState { accept_any_cert: true, ..old(self).sec_spec() }),
            ),
    {
        let layer = self.file.pop_layer();
        match layer {
            Layer::Security { sec } => {
                self.file.push_layer(
                    Layer::Security { sec: SecurityState { accept_any_cert: true, ..sec } },
                );
                Ok(())
            },
            Layer::Wrap { .. } => vstd::pervasive::unreached(),
        }
    }

    /// The peer certificate the handshake validated, if it produced
    /// one.
    pub fn peer_cert(&self) -> (r: Option<Certificate>)
        requires
            self.wf(),
        ensures
            match self.sec_spec().peer_certificate {
                Some(c) => r matches Some(rc) && rc.der@ == c.der@,
                None => r is None,
            },
    {
        match self.file.last_layer() {
            Some(layer) => match layer {
                Layer::Security { sec } => match &sec.peer_certificate {
                    Some(c) => Some(crate::cert::copy_certificate(c)),
                    None => None,
                },
                Layer::Wrap { .. } => vstd::pervasive::unreached(),
            },
            None => vstd::pervasive::unreached(),
        }
    }

    /// A non-owning view of the socket's file, for protocols that need
    /// the unencrypted framing: what it grants is a shared reference to
    /// the raw transport under the whole stack, security layer and all.
    /// Unlike an owned handle to the lower layer it cannot drive I/O,
    /// and it never closes anything.
    pub fn cleartext(&self) -> (r: BorrowedFile<'_, Inner>)
        requires
            self.wf(),
        ensures
            r.file_view() == self.file_spec(),
    {
        BorrowedFile::from_file(&self.file)
    }

    /// Removes the authentication callback registration.
    pub fn unset_auth_certificate_hook(&mut self) -> (r: Result<(), Error>)
        requires
            old(self).wf(),
        ensures
            r is Ok,
            Self::same_but_security(
                *old(self),
                *final(self),
                (SecurityState { auth_hook_installed: false, ..old(self).sec_spec() }),
            ),
    {
        let layer = self.file.pop_layer();
        match layer {
            Layer::Security { sec } => {
                self.file.push_layer(
                    Layer::Security { sec: SecurityState { auth_hook_installed: false, ..sec } },
                );
                Ok(())
            },
            Layer::Wrap { .. } => vstd::pervasive::unreached(),
        }
    }

    /// Associates a server identity with the socket for hostname
    /// verification.
    pub fn set_url(&mut self, url: String) -> (r: Result<(), Error>)
        requires
            old(self).wf(),
        ensures
            r is Ok,
            Self::same_but_security(
                *old(self),
                *final(self),
                (SecurityState { url: Some(url), ..old(self).sec_spec() }),
            ),
    {
        let layer = self.file.pop_layer();
        match layer {
            Layer::Security { sec } => {
                self.file.push_layer(
                    Layer::Security { sec: SecurityState { url: Some(url), ..sec } },
                );
                Ok(())
            },
            Layer::Wrap { .. } => vstd::pervasive::unreached(),
        }
    }
}

impl<Inner, Callbacks: AuthCertificateHook<Inner>> TLSSocket<Inner, Callbacks> {
    /// Registers the callback value as this socket's authentication
    /// hook: the engine's certificate verification will dispatch
    /// through [`raw_auth_certificate_hook`].
    pub fn use_auth_certificate_hook(&mut self) -> (r: Result<(), Error>)
        requires
            old(self).wf(),
        ensures
            r is Ok,
            Self::same_but_security(
                *old(self),
                *final(self),
                (SecurityState { auth_hook_installed: true, ..old(self).sec_spec() }),
            ),
    {
        let layer = self.file.pop_layer();
        match layer {
            Layer::Security { sec } => {
                self.file.push_layer(
                    Layer::Security { sec: SecurityState { auth_hook_installed: true, ..sec } },
                );
                Ok(())
            },
            Layer::Wrap { .. } => vstd::pervasive::unreached(),
        }
    }
}

impl<Inner: FileMethods, Callbacks> TLSSocket<Inner, Callbacks> {
    /// Connects the transport through the stack; the security layer
    /// passes connection establishment straight down.
    pub fn connect(&mut self, addr: NetAddr, timeout: Option<u32>) -> (r: Result<(), Error>)
        requires
            old(self).file_spec().inner().supports_connect(),
        ensures
            final(self).file_spec().stack() == old(self).file_spec().stack(),
            final(self).callbacks_spec() == old(self).callbacks_spec(),
            Inner::connect_post(
                old(self).file_spec().inner(),
                final(self).file_spec().inner(),
                addr,
                timeout,
                r,
            ),
    {
        self.file.connect(addr, timeout)
    }

    /// Writes through the security layer. Until the handshake is
    /// complete this drives the handshake instead, which probes the
    /// transport with a read and surfaces the outcome.
    pub fn write(&mut self, data: &[u8]) -> (r: Result<usize, Error>)
        requires
            if stack_gated(old(self).file_spec().stack()) {
                old(self).file_spec().inner().supports_read()
            } else {
                old(self).file_spec().inner().supports_write()
            },
            data@.len() <= MAX_IO_AMOUNT,
        ensures
            final(self).file_spec().stack() == old(self).file_spec().stack(),
            final(self).callbacks_spec() == old(self).callbacks_spec(),
            match r {
                Ok(n) => n <= data@.len() && write_rel(
                    old(self).file_spec().stack(),
                    old(self).file_spec().inner(),
                    final(self).file_spec().inner(),
                    data@,
                    Ok(n as int),
                ),
                Err(e) => write_rel(
                    old(self).file_spec().stack(),
                    old(self).file_spec().inner(),
                    final(self).file_spec().inner(),
                    data@,
                    Err(e),
                ),
            },
    {
        self.file.write(data)
    }

    /// Reads through the security layer, with the same handshake
    /// driving as [`Self::write`] until the handshake is complete.
    pub fn read(&mut self, amount: usize) -> (r: Result<Vec<u8>, Error>)
        requires
            old(self).file_spec().inner().supports_read(),
            amount <= MAX_IO_AMOUNT,
        ensures
            final(self).file_spec().stack() == old(self).file_spec().stack(),
            final(self).callbacks_spec() == old(self).callbacks_spec(),
            match r {
                Ok(data) => data@.len() <= amount && read_rel(
                    old(self).file_spec().stack(),
                    old(self).file_spec().inner(),
                    final(self).file_spec().inner(),
                    amount as nat,
                    Ok(data@),
                ),
                Err(e) => read_rel(
                    old(self).file_spec().stack(),
                    old(self).file_spec().inner(),
                    final(self).file_spec().inner(),
                    amount as nat,
                    Err(e),
                ),
            },
    {
        self.file.read(amount)
    }

    pub fn recv(&mut self, amount: usize, peek: bool, timeout: Option<u32>) -> (r: Result<
        Vec<u8>,
        Error,
    >)
        requires
            if stack_gated(old(self).file_spec().stack()) {
                old(self).file_spec().inner().supports_read()
            } else {
                old(self).file_spec().inner().supports_recv()
            },
            amount <= MAX_IO_AMOUNT,
        ensures
            final(self).file_spec().stack() == old(self).file_spec().stack(),
            final(self).callbacks_spec() == old(self).callbacks_spec(),
            match r {
                Ok(data) => data@.len() <= amount && recv_rel(
                    old(self).file_spec().stack(),
                    old(self).file_spec().inner(),
                    final(self).file_spec().inner(),
                    amount as nat,
                    peek,
                    timeout,
                    Ok(data@),
                ),
                Err(e) => recv_rel(
                    old(self).file_spec().stack(),
                    old(self).file_spec().inner(),
                    final(self).file_spec().inner(),
                    amount as nat,
                    peek,
                    timeout,
                    Err(e),
                ),
            },
    {
        self.file.recv(amount, peek, timeout)
    }

    pub fn send(&mut self, data: &[u8], timeout: Option<u32>) -> (r: Result<usize, Error>)
        requires
            if stack_gated(old(self).file_spec().stack()) {
                old(self).file_spec().inner().supports_read()
            } else {
                old(self).file_spec().inner().supports_send()
            },
            data@.len() <= MAX_IO_AMOUNT,
        ensures
            final(self).file_spec().stack() == old(self).file_spec().stack(),
            final(self).callbacks_spec() == old(self).callbacks_spec(),
            match r {
                Ok(n) => n <= data@.len() && send_rel(
                    old(self).file_spec().stack(),
                    old(self).file_spec().inner(),
                    final(self).file_spec().inner(),
                    data@,
                    timeout,
                    Ok(n as int),
                ),
                Err(e) => send_rel(
                    old(self).file_spec().stack(),
                    old(self).file_spec().inner(),
                    final(self).file_spec().inner(),
                    data@,
                    timeout,
                    Err(e),
                ),
            },
    {
        self.file.send(data, timeout)
    }

    pub fn getsockname(&self) -> (r: Result<NetAddr, Error>)
        requires
            self.file_spec().inner().supports_getsockname(),
        ensures
            r == self.file_spec().inner().getsockname_res(),
    {
        self.file.getsockname()
    }

    pub fn getpeername(&self) -> (r: Result<NetAddr, Error>)
        requires
            self.file_spec().inner().supports_getpeername(),
        ensures
            r == self.file_spec().inner().getpeername_res(),
    {
        self.file.getpeername()
    }

    pub fn get_nonblocking(&self) -> (r: Result<bool, Error>)
        requires
            self.file_spec().inner().supports_get_nonblocking(),
        ensures
            r == self.file_spec().inner().get_nonblocking_res(),
    {
        self.file.get_nonblocking()
    }
}

/// The capability a socket's user implements to take part in
/// certificate verification: called with whether this check is a
/// signature check and whether this side is the server, it accepts or
/// rejects.
pub trait AuthCertificateHook<Inner>: Sized {
    /// Whether this hook's executable decision is pinned down by
    /// [`Self::auth_spec`]. A hook keeps the default `false` unless it
    /// also overrides `auth_spec` to mirror its decision; only then do
    /// the dispatch contracts say which status comes back.
    open spec fn auth_obeys_spec(&self) -> bool {
        false
    }

    /// The decision this hook makes for the given socket and flags;
    /// binding only where [`Self::auth_obeys_spec`] holds.
    open spec fn auth_spec(
        &self,
        sock: &TLSSocket<Inner, Self>,
        check_sig: bool,
        is_server: bool,
    ) -> Result<(), Error> {
        Ok(())
    }

    fn auth_certificate(
        &self,
        sock: &TLSSocket<Inner, Self>,
        check_sig: bool,
        is_server: bool,
    ) -> (r: Result<(), Error>)
        ensures
            self.auth_obeys_spec() ==> r == self.auth_spec(sock, check_sig, is_server),
    ;
}

/// Dispatch target the security engine invokes during certificate
/// verification: translates the foreign boolean flags, forwards to the
/// socket's registered hook, and folds the answer into the engine's
/// status with any error as an explicit value. The typed socket
/// reference stands where the engine hands back a raw argument, so the
/// identity re-validation of that argument is by construction. The
/// hook's own decision is the caller's code: the status is pinned down
/// exactly for hooks whose spec binds them, and is never would-block.
pub fn raw_auth_certificate_hook<Inner, Callbacks: AuthCertificateHook<Inner>>(
    sock: &TLSSocket<Inner, Callbacks>,
    check_sig: PRBool,
    is_server: PRBool,
) -> (r: SECStatus)
    ensures
        !(r is WouldBlock),
        sock.callbacks_spec().auth_obeys_spec() ==> match sock.callbacks_spec().auth_spec(
            sock,
            check_sig != 0,
            is_server != 0,
        ) {
            Ok(_) => r == SECStatus::Success,
            Err(e) => r == SECStatus::Failure(e),
        },
{
    let sig = bool_from_nspr(check_sig);
    let srv = bool_from_nspr(is_server);
    match sock.callbacks().auth_certificate(sock, sig, srv) {
        Ok(_) => SECStatus::Success,
        Err(e) => SECStatus::Failure(e),
    }
}

} // verus!
