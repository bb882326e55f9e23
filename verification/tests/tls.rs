use nss::init;
use nss::nspr::error::Error;
use nss::nspr::error::PR_END_OF_FILE_ERROR;
use nss::nspr::error::PR_IO_ERROR;
use nss::nspr::error::PR_IS_CONNECTED_ERROR;
use nss::nspr::error::PR_NOT_CONNECTED_ERROR;
use nss::nspr::error::PR_WOULD_BLOCK_ERROR;
use nss::nspr::fd::File;
use nss::nspr::fd::FileMethods;
use nss::nspr::fd::FileWrapper;
use nss::nspr::fd::PR_DESC_SOCKET_TCP;
use nss::nspr::net::NetAddr;
use nss::raw_auth_certificate_hook;
use nss::result_secstatus;
use nss::AuthCertificateHook;
use nss::SECStatus;
use nss::TLSSocket;

fn fake_addr() -> NetAddr {
    NetAddr::V4 { a: 127, b: 0, c: 0, d: 1, port: 443 }
}

struct FakeSocket {
    connected: bool,
    written: Vec<u8>,
}

impl FakeSocket {
    fn new() -> Self {
        FakeSocket { connected: false, written: Vec::new() }
    }
}

impl FileMethods for FakeSocket {
    fn read(&mut self, _amount: usize) -> Result<Vec<u8>, Error> {
        Ok(Vec::new())
    }
    fn write(&mut self, data: &[u8]) -> Result<usize, Error> {
        self.written.extend_from_slice(data);
        Ok(data.len())
    }
    fn connect(&mut self, addr: NetAddr, _timeout: Option<u32>) -> Result<(), Error> {
        assert_eq!(addr, fake_addr());
        if self.connected {
            Err(Error { nspr_error: PR_IS_CONNECTED_ERROR })
        } else {
            self.connected = true;
            Ok(())
        }
    }
    fn recv(&mut self, amount: usize, _peek: bool, _timeout: Option<u32>) -> Result<Vec<u8>, Error> {
        self.read(amount)
    }
    fn send(&mut self, data: &[u8], _timeout: Option<u32>) -> Result<usize, Error> {
        self.write(data)
    }
    fn getsockname(&self) -> Result<NetAddr, Error> {
        panic!()
    }
    fn getpeername(&self) -> Result<NetAddr, Error> {
        if self.connected {
            Ok(fake_addr())
        } else {
            Err(Error { nspr_error: PR_NOT_CONNECTED_ERROR })
        }
    }
    fn get_nonblocking(&self) -> Result<bool, Error> {
        Ok(true)
    }
}

#[test]
fn just_init() {
    init().unwrap();
}

#[test]
fn handshake() {
    init().unwrap();
    let inner = FakeSocket::new();
    let sock_factory = FileWrapper::new(PR_DESC_SOCKET_TCP);
    let sock = sock_factory.wrap(inner);
    let mut ssl = TLSSocket::new(sock, ()).unwrap();
    ssl.connect(fake_addr(), None).unwrap();
    assert_eq!(ssl.write(&[]).unwrap_err().nspr_error, PR_END_OF_FILE_ERROR);
    println!("DATA: {:?}", &ssl.cleartext().get_ref().written[..]);
}

#[test]
fn getpeername_before_connect_reports_not_connected() {
    let wrapper = FileWrapper::new(PR_DESC_SOCKET_TCP);
    let f = wrapper.wrap(FakeSocket::new());
    assert_eq!(f.getpeername().unwrap_err().nspr_error, PR_NOT_CONNECTED_ERROR);
}

#[test]
fn connect_twice_reports_already_connected() {
    let wrapper = FileWrapper::new(PR_DESC_SOCKET_TCP);
    let mut f = wrapper.wrap(FakeSocket::new());
    f.connect(fake_addr(), None).unwrap();
    assert_eq!(f.getpeername().unwrap(), fake_addr());
    assert_eq!(
        f.connect(fake_addr(), None).unwrap_err().nspr_error,
        PR_IS_CONNECTED_ERROR
    );
}

#[test]
fn end_of_stream_surfaces_through_security_layer() {
    // The transport reports a clean end of stream on every read; a
    // handshake-driving write on the security layer above it must
    // surface exactly the end-of-file error.
    let wrapper = FileWrapper::new(PR_DESC_SOCKET_TCP);
    let sock = wrapper.wrap(FakeSocket::new());
    let mut ssl = TLSSocket::new(sock, ()).unwrap();
    assert_eq!(ssl.write(b"data").unwrap_err().nspr_error, PR_END_OF_FILE_ERROR);
    assert_eq!(ssl.read(4).unwrap_err().nspr_error, PR_END_OF_FILE_ERROR);
    assert_eq!(ssl.send(b"data", None).unwrap_err().nspr_error, PR_END_OF_FILE_ERROR);
    assert_eq!(ssl.recv(4, false, None).unwrap_err().nspr_error, PR_END_OF_FILE_ERROR);
}

#[test]
fn hooks_and_url_bookkeeping() {
    let wrapper = FileWrapper::new(PR_DESC_SOCKET_TCP);
    let sock = wrapper.wrap(FakeSocket::new());
    let mut ssl = TLSSocket::new(sock, ()).unwrap();
    assert!(ssl.peer_cert().is_none());
    ssl.disable_security().unwrap();
    ssl.unset_bad_cert_hook().unwrap();
    ssl.unset_auth_certificate_hook().unwrap();
    ssl.set_url(String::from("example.test")).unwrap();
    assert_eq!(ssl.get_nonblocking().unwrap(), true);
}

struct PickyHook {
    accept: bool,
}

impl<Inner> AuthCertificateHook<Inner> for PickyHook {
    fn auth_certificate(
        &self,
        _sock: &TLSSocket<Inner, Self>,
        check_sig: bool,
        is_server: bool,
    ) -> Result<(), Error> {
        assert!(check_sig);
        assert!(!is_server);
        if self.accept {
            Ok(())
        } else {
            Err(Error { nspr_error: PR_IO_ERROR })
        }
    }
}

#[test]
fn auth_hook_dispatch_translates_flags_and_status() {
    let wrapper = FileWrapper::new(PR_DESC_SOCKET_TCP);

    let sock = wrapper.wrap(FakeSocket::new());
    let mut ssl = TLSSocket::new(sock, PickyHook { accept: true }).unwrap();
    ssl.use_auth_certificate_hook().unwrap();
    assert_eq!(raw_auth_certificate_hook(&ssl, 1, 0), SECStatus::Success);

    let sock = wrapper.wrap(FakeSocket::new());
    let ssl = TLSSocket::new(sock, PickyHook { accept: false }).unwrap();
    assert_eq!(
        raw_auth_certificate_hook(&ssl, 1, 0),
        SECStatus::Failure(Error { nspr_error: PR_IO_ERROR })
    );
}

#[test]
fn callbacks_are_reachable_and_replaceable() {
    let wrapper = FileWrapper::new(PR_DESC_SOCKET_TCP);
    let sock = wrapper.wrap(FakeSocket::new());
    let mut ssl = TLSSocket::new(sock, PickyHook { accept: false }).unwrap();
    assert!(!ssl.callbacks().accept);
    ssl.callbacks_mut().accept = true;
    assert!(ssl.callbacks().accept);
}

#[test]
fn secstatus_folds_into_results() {
    assert_eq!(result_secstatus(SECStatus::Success), Ok(()));
    assert_eq!(
        result_secstatus(SECStatus::WouldBlock),
        Err(Error { nspr_error: PR_WOULD_BLOCK_ERROR })
    );
    assert_eq!(
        result_secstatus(SECStatus::Failure(Error { nspr_error: PR_IO_ERROR })),
        Err(Error { nspr_error: PR_IO_ERROR })
    );
}

#[test]
fn new_with_model_without_model_behaves_like_new() {
    let wrapper = FileWrapper::new(PR_DESC_SOCKET_TCP);
    let sock: File<FakeSocket> = wrapper.wrap(FakeSocket::new());
    let ssl = TLSSocket::new_with_model(sock, (), None).unwrap();
    assert!(ssl.peer_cert().is_none());
}

#[test]
fn certificates_copy_byte_for_byte() {
    let c = nss::cert::Certificate::new(vec![0x30, 0x82, 0x01]);
    let d = nss::cert::copy_certificate(&c);
    assert_eq!(c.der, d.der);
    let _marker: nss::TLSMarker<FakeSocket> = nss::TLSMarker::new();
}
