use nss::nspr::bool_from_nspr;
use nss::nspr::bool_to_nspr;
use nss::nspr::error::Error;
use nss::nspr::error::PR_ADDRESS_NOT_SUPPORTED_ERROR;
use nss::nspr::error::PR_NOT_CONNECTED_ERROR;
use nss::nspr::fd::FileWrapper;
use nss::nspr::fd::PR_DESC_SOCKET_TCP;
use nss::nspr::net::read_net_addr;
use nss::nspr::net::write_net_addr;
use nss::nspr::net::NetAddr;
use nss::nspr::net::RawNetAddr;
use nss::nspr::net::PR_AF_INET;
use nss::nspr::time::duration_opt_from_nspr;
use nss::nspr::time::duration_opt_to_nspr;
use nss::nspr::time::PR_INTERVAL_NO_TIMEOUT;
use nss::nspr::time::PR_INTERVAL_NO_WAIT;

#[test]
fn net_addr_round_trip() {
    let addr = NetAddr::V4 { a: 192, b: 168, c: 0, d: 7, port: 8443 };
    let raw = write_net_addr(&addr);
    assert_eq!(raw.family, PR_AF_INET);
    assert_eq!(raw.port_hi, 32);
    assert_eq!(raw.port_lo, 251);
    assert_eq!(read_net_addr(&raw), Some(addr));
}

#[test]
fn unknown_family_is_unsupported() {
    let raw = RawNetAddr { family: 99, port_hi: 0, port_lo: 80, ip0: 1, ip1: 2, ip2: 3, ip3: 4 };
    assert_eq!(read_net_addr(&raw), None);
}

#[test]
fn connect_dispatch_rejects_unknown_family() {
    struct NeverConnected;
    impl nss::nspr::fd::FileMethods for NeverConnected {
        fn read(&mut self, _amount: usize) -> Result<Vec<u8>, Error> {
            Ok(Vec::new())
        }
        fn write(&mut self, data: &[u8]) -> Result<usize, Error> {
            Ok(data.len())
        }
        fn connect(&mut self, _addr: NetAddr, _timeout: Option<u32>) -> Result<(), Error> {
            Ok(())
        }
        fn recv(&mut self, _a: usize, _p: bool, _t: Option<u32>) -> Result<Vec<u8>, Error> {
            Ok(Vec::new())
        }
        fn send(&mut self, data: &[u8], _t: Option<u32>) -> Result<usize, Error> {
            Ok(data.len())
        }
        fn getsockname(&self) -> Result<NetAddr, Error> {
            Err(Error { nspr_error: PR_NOT_CONNECTED_ERROR })
        }
        fn getpeername(&self) -> Result<NetAddr, Error> {
            Err(Error { nspr_error: PR_NOT_CONNECTED_ERROR })
        }
        fn get_nonblocking(&self) -> Result<bool, Error> {
            Ok(false)
        }
    }

    let wrapper = FileWrapper::new(PR_DESC_SOCKET_TCP);
    let mut f = wrapper.wrap(NeverConnected);
    let bad = RawNetAddr { family: 77, port_hi: 0, port_lo: 1, ip0: 0, ip1: 0, ip2: 0, ip3: 0 };
    assert_eq!(
        nss::nspr::fd::connect(&mut f, &bad, PR_INTERVAL_NO_TIMEOUT)
            .unwrap_err()
            .nspr_error,
        PR_ADDRESS_NOT_SUPPORTED_ERROR
    );
    let good = write_net_addr(&NetAddr::V4 { a: 10, b: 0, c: 0, d: 1, port: 80 });
    assert_eq!(nss::nspr::fd::connect(&mut f, &good, 250), Ok(()));
    let raw_peer = nss::nspr::fd::getpeername(&f);
    assert_eq!(raw_peer.unwrap_err().nspr_error, PR_NOT_CONNECTED_ERROR);
}

#[test]
fn interval_translation() {
    assert_eq!(duration_opt_to_nspr(None), PR_INTERVAL_NO_TIMEOUT);
    assert_eq!(duration_opt_to_nspr(Some(0)), PR_INTERVAL_NO_WAIT);
    assert_eq!(duration_opt_to_nspr(Some(250)), 250);
    assert_eq!(duration_opt_to_nspr(Some(PR_INTERVAL_NO_TIMEOUT)), PR_INTERVAL_NO_TIMEOUT - 1);
    assert_eq!(duration_opt_from_nspr(PR_INTERVAL_NO_TIMEOUT), None);
    assert_eq!(duration_opt_from_nspr(250), Some(250));
    assert_eq!(duration_opt_from_nspr(duration_opt_to_nspr(Some(1000))), Some(1000));
}

#[test]
fn nspr_bool_translation() {
    assert_eq!(bool_from_nspr(0), false);
    assert_eq!(bool_from_nspr(1), true);
    assert_eq!(bool_from_nspr(-3), true);
    assert_eq!(bool_to_nspr(true), 1);
    assert_eq!(bool_to_nspr(false), 0);
}

#[test]
fn error_from_code() {
    let e: Error = PR_NOT_CONNECTED_ERROR.into();
    assert_eq!(e.nspr_error, PR_NOT_CONNECTED_ERROR);
    assert_eq!(Error::new(PR_ADDRESS_NOT_SUPPORTED_ERROR).nspr_error, PR_ADDRESS_NOT_SUPPORTED_ERROR);
}
