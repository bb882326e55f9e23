use nss::nspr::error::Error;
use nss::nspr::error::PR_INVALID_METHOD_ERROR;
use nss::nspr::error::PR_PIPE_ERROR;
use nss::nspr::error::PR_WOULD_BLOCK_ERROR;
use nss::nspr::fd::File;
use nss::nspr::fd::FileMethods;
use nss::nspr::fd::FileWrapper;
use nss::nspr::fd::PRSockOption;
use nss::nspr::fd::PRSocketOptionData;
use nss::nspr::fd::PR_DESC_PIPE;
use nss::nspr::fd::PR_DESC_SOCKET_TCP;
use nss::nspr::fd::PR_MSG_PEEK;
use nss::nspr::loopback::Loopback;
use nss::nspr::net::NetAddr;
use nss::nspr::pipe::new_pipe;
use nss::nspr::pipe::PipeEnd;

fn pipe_test<F: FileMethods>(mut reader: F, mut writer: F) {
    let test = "Testing…";

    assert_eq!(writer.write(test.as_bytes()).unwrap(), test.len());
    let first = reader.read(4).unwrap();
    assert_eq!(&first[..], "Test".as_bytes());
    let rest = reader.read(test.len() - 4).unwrap();
    assert_eq!(rest.len(), test.len() - 4);
    let mut read_buf = first.clone();
    read_buf.extend_from_slice(&rest);
    assert_eq!(&read_buf[..], test.as_bytes());
    std::mem::drop(writer);
    assert_eq!(reader.read(test.len()).unwrap().len(), 0);
}

#[test]
fn pipe_rdwr() {
    let (reader, writer) = new_pipe().unwrap();
    pipe_test(reader, writer);
}

#[test]
fn wrapped_pipe_rdwr() {
    let wrapper = FileWrapper::new(PR_DESC_PIPE);
    let (reader, writer) = new_pipe().unwrap();
    pipe_test(wrapper.wrap_file(reader), wrapper.wrap_file(writer));
}

#[test]
fn very_wrapped_pipe_rdwr() {
    let wrapper = FileWrapper::new(PR_DESC_PIPE);
    let (mut reader, mut writer) = new_pipe().unwrap();
    for _ in 0..100 {
        reader = wrapper.wrap_file(reader);
        writer = wrapper.wrap_file(writer);
    }
    pipe_test(reader, writer);
}

#[test]
fn pipe_empty_read_would_block_while_writer_lives() {
    let (mut reader, writer) = new_pipe().unwrap();
    assert_eq!(reader.read(8).unwrap_err().nspr_error, PR_WOULD_BLOCK_ERROR);
    std::mem::drop(writer);
    assert_eq!(reader.read(8).unwrap().len(), 0);
}

#[test]
fn pipe_write_after_reader_gone_is_an_error() {
    let (reader, mut writer) = new_pipe().unwrap();
    std::mem::drop(reader);
    assert_eq!(writer.write(b"x").unwrap_err().nspr_error, PR_PIPE_ERROR);
}

#[test]
fn pipe_recv_peek_leaves_bytes() {
    let (mut reader, mut writer) = new_pipe().unwrap();
    writer.write(b"abcdef").unwrap();
    let peeked = reader.recv(4, true, None).unwrap();
    assert_eq!(&peeked[..], b"abcd");
    let taken = reader.recv(6, false, None).unwrap();
    assert_eq!(&taken[..], b"abcdef");
}

#[test]
fn pipe_peek_on_empty_queue_is_a_clean_success() {
    let (mut reader, _writer) = new_pipe().unwrap();
    assert_eq!(reader.recv(4, true, None).unwrap().len(), 0);
}

#[test]
fn pipe_reports_nonblocking() {
    let (reader, _writer) = new_pipe().unwrap();
    assert_eq!(reader.get_nonblocking().unwrap(), true);
}

#[test]
fn loopback_round_trip_unwrapped() {
    let mut q = Loopback::new();
    assert_eq!(q.write(b"hello").unwrap(), 5);
    assert_eq!(&q.read(5).unwrap()[..], b"hello");
    assert_eq!(q.read(5).unwrap().len(), 0);
}

#[test]
fn loopback_round_trip_wrapped_once() {
    let wrapper = FileWrapper::new(PR_DESC_SOCKET_TCP);
    let mut f = wrapper.wrap(Loopback::new());
    assert_eq!(f.write(b"layered bytes").unwrap(), 13);
    assert_eq!(&f.read(13).unwrap()[..], b"layered bytes");
}

#[test]
fn loopback_round_trip_hundred_wraps() {
    let base = FileWrapper::new(PR_DESC_SOCKET_TCP);
    let rewrap = FileWrapper::new(PR_DESC_SOCKET_TCP);
    let mut f = base.wrap(Loopback::new());
    for _ in 0..100 {
        f = rewrap.wrap_file(f);
    }
    assert_eq!(f.write(b"deep").unwrap(), 4);
    assert_eq!(&f.read(4).unwrap()[..], b"deep");
}

#[test]
fn loopback_partial_read_returns_exact_prefix() {
    let mut q = Loopback::new();
    q.write(b"0123456789").unwrap();
    assert_eq!(&q.read(3).unwrap()[..], b"012");
    assert_eq!(&q.read(3).unwrap()[..], b"345");
    assert_eq!(&q.read(100).unwrap()[..], b"6789");
}

#[test]
fn loopback_recv_peek_is_not_consuming() {
    let mut q = Loopback::new();
    q.send(b"peekable", None).unwrap();
    assert_eq!(&q.recv(4, true, Some(10)).unwrap()[..], b"peek");
    assert_eq!(&q.recv(4, true, None).unwrap()[..], b"peek");
    assert_eq!(&q.recv(8, false, None).unwrap()[..], b"peekable");
}

struct OverReporter;

impl FileMethods for OverReporter {
    fn read(&mut self, amount: usize) -> Result<Vec<u8>, Error> {
        // Deliberately reports more bytes than were asked for.
        Ok(vec![7u8; amount + 10])
    }
    fn write(&mut self, data: &[u8]) -> Result<usize, Error> {
        // Deliberately claims to have consumed more than it was given.
        Ok(data.len() + 5)
    }
    fn connect(&mut self, _addr: NetAddr, _timeout: Option<u32>) -> Result<(), Error> {
        panic!()
    }
    fn recv(&mut self, amount: usize, _peek: bool, _timeout: Option<u32>) -> Result<Vec<u8>, Error> {
        Ok(vec![7u8; amount + 1])
    }
    fn send(&mut self, data: &[u8], _timeout: Option<u32>) -> Result<usize, Error> {
        Ok(data.len() + 1)
    }
    fn getsockname(&self) -> Result<NetAddr, Error> {
        panic!()
    }
    fn getpeername(&self) -> Result<NetAddr, Error> {
        panic!()
    }
    fn get_nonblocking(&self) -> Result<bool, Error> {
        panic!()
    }
}

#[test]
fn over_reporting_transport_is_caught_by_the_guard() {
    let wrapper = FileWrapper::new(PR_DESC_SOCKET_TCP);
    let mut f = wrapper.wrap(OverReporter);
    assert_eq!(f.read(4).unwrap_err().nspr_error, PR_INVALID_METHOD_ERROR);
    assert_eq!(f.write(b"abc").unwrap_err().nspr_error, PR_INVALID_METHOD_ERROR);
    assert_eq!(f.recv(4, false, None).unwrap_err().nspr_error, PR_INVALID_METHOD_ERROR);
    assert_eq!(f.send(b"abc", None).unwrap_err().nspr_error, PR_INVALID_METHOD_ERROR);
}

#[test]
fn dispatch_entries_move_bytes_and_narrow_counts() {
    let wrapper = FileWrapper::new(PR_DESC_SOCKET_TCP);
    let mut f = wrapper.wrap(Loopback::new());
    let n = nss::nspr::fd::write(&mut f, b"abcde").unwrap();
    assert_eq!(n, 5);
    let (n, data) = nss::nspr::fd::read(&mut f, 3).unwrap();
    assert_eq!(n, 3);
    assert_eq!(&data[..], b"abc");
    let (n, data) = nss::nspr::fd::recv(&mut f, 2, PR_MSG_PEEK, 0xffff_ffff).unwrap();
    assert_eq!(n, 2);
    assert_eq!(&data[..], b"de");
    let (n, data) = nss::nspr::fd::recv(&mut f, 2, 0, 0xffff_ffff).unwrap();
    assert_eq!(n, 2);
    assert_eq!(&data[..], b"de");
    let n = nss::nspr::fd::send(&mut f, b"zz", 0).unwrap();
    assert_eq!(n, 2);
    let status = nss::nspr::fd::close(f);
    assert_eq!(status, nss::nspr::fd::PR_SUCCESS);
}

#[test]
fn getsocketoption_answers_nonblocking() {
    let wrapper = FileWrapper::new(PR_DESC_PIPE);
    let (reader, _writer) = new_pipe().unwrap();
    let f: File<PipeEnd> = wrapper.wrap_file(reader);
    let answer = nss::nspr::fd::getsocketoption(&f, PRSockOption::Nonblocking).unwrap();
    assert_eq!(answer, PRSocketOptionData::Nonblocking(1));
}

#[test]
fn borrowed_file_is_a_checked_view() {
    let wrapper = FileWrapper::new(PR_DESC_SOCKET_TCP);
    let mut f = wrapper.wrap(Loopback::new());
    f.write(b"view").unwrap();
    let view = nss::nspr::fd::BorrowedFile::from_file_checked(&f, nss::nspr::fd::WRAPPED_FILE_IDENT);
    let _transport: &Loopback = view.get_ref();
    let direct: &Loopback = f.get_ref();
    let _ = direct;
}
