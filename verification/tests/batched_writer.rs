use proxy_core::sink::{MemorySink, Sink, SinkError};
use proxy_core::writer::{after_drain, CircularBufWriter};
use std::io::{Error, ErrorKind};

fn limited(budget: usize) -> MemorySink {
    let mut sink = MemorySink::new();
    sink.set_budget(Some(budget));
    sink
}

#[test]
fn small_writes_stay_buffered_until_flush() {
    let mut w = CircularBufWriter::new(MemorySink::new(), 16);
    assert!(matches!(w.write(b"PING"), Ok(4)));
    assert!(matches!(w.write(b"\r\n"), Ok(2)));
    assert!(w.get_ref().contents().is_empty());
    assert!(w.flush().is_ok());
    assert_eq!(w.get_ref().contents().as_slice(), b"PING\r\n");
}

#[test]
fn write_drains_to_make_room() {
    let mut w = CircularBufWriter::new(MemorySink::new(), 4);
    assert!(matches!(w.write(b"abc"), Ok(3)));
    assert!(matches!(w.write(b"de"), Ok(2)));
    assert_eq!(w.get_ref().contents().as_slice(), b"abc");
    assert!(w.flush().is_ok());
    assert_eq!(w.get_ref().contents().as_slice(), b"abcde");
}

#[test]
fn write_longer_than_the_buffer_is_short() {
    let mut w = CircularBufWriter::new(MemorySink::new(), 4);
    assert!(matches!(w.write(b"abcdefgh"), Ok(3)));
    assert!(matches!(w.write(b"defgh"), Ok(3)));
    assert!(matches!(w.write(b"gh"), Ok(2)));
    assert!(w.flush().is_ok());
    assert_eq!(w.get_ref().contents().as_slice(), b"abcdefgh");
}

#[test]
fn write_accepts_nothing_while_full_and_blocked() {
    let mut w = CircularBufWriter::new(limited(0), 4);
    assert!(matches!(w.write(b"abc"), Ok(3)));
    assert!(matches!(w.write(b"d"), Ok(0)));
    assert!(matches!(w.write(b"d"), Ok(0)));
    assert!(w.get_ref().contents().is_empty());
    w.get_mut().set_budget(None);
    assert!(matches!(w.write(b"d"), Ok(1)));
    assert!(w.flush().is_ok());
    assert_eq!(w.get_ref().contents().as_slice(), b"abcd");
}

#[test]
fn write_uses_the_room_a_partial_drain_made() {
    let mut w = CircularBufWriter::new(limited(1), 4);
    assert!(matches!(w.write(b"abc"), Ok(3)));
    assert!(matches!(w.write(b"de"), Ok(1)));
    assert_eq!(w.get_ref().contents().as_slice(), b"a");
    w.get_mut().set_budget(None);
    assert!(w.flush().is_ok());
    assert_eq!(w.get_ref().contents().as_slice(), b"abcd");
}

#[test]
fn write_reports_a_failing_drain() {
    let mut w = CircularBufWriter::new(MemorySink::new(), 4);
    assert!(matches!(w.write(b"abc"), Ok(3)));
    w.get_mut().fail_next(Error::new(ErrorKind::ConnectionReset, "reset"));
    match w.write(b"d") {
        Err(SinkError::Failed(e)) => assert_eq!(e.kind(), ErrorKind::ConnectionReset),
        other => panic!("unexpected {:?}", other),
    }
    assert!(w.get_ref().contents().is_empty());
}

#[test]
fn partial_sink_flush_is_incomplete_then_completes() {
    let mut w = CircularBufWriter::new(limited(2), 8);
    assert!(matches!(w.write(b"abcde"), Ok(5)));
    assert!(matches!(w.flush(), Err(SinkError::WouldBlock)));
    assert_eq!(w.get_ref().contents().as_slice(), b"ab");
    assert!(matches!(w.flush(), Err(SinkError::WouldBlock)));
    assert_eq!(w.get_ref().contents().as_slice(), b"ab");
    assert_eq!(w.get_ref().flush_count(), 0);
    w.get_mut().set_budget(None);
    assert!(w.flush().is_ok());
    assert_eq!(w.get_ref().contents().as_slice(), b"abcde");
    assert_eq!(w.get_ref().flush_count(), 1);
}

#[test]
fn flush_of_an_empty_buffer_flushes_the_sink() {
    let mut w = CircularBufWriter::new(limited(0), 8);
    assert!(w.flush().is_ok());
    assert!(w.get_ref().contents().is_empty());
    assert_eq!(w.get_ref().flush_count(), 1);
    assert!(w.flush().is_ok());
    assert_eq!(w.get_ref().flush_count(), 2);
}

#[test]
fn flush_reports_a_failing_sink() {
    let mut w = CircularBufWriter::new(MemorySink::new(), 8);
    assert!(matches!(w.write(b"abc"), Ok(3)));
    w.get_mut().fail_next(Error::new(ErrorKind::BrokenPipe, "gone"));
    match w.flush() {
        Err(SinkError::Failed(e)) => assert_eq!(e.kind(), ErrorKind::BrokenPipe),
        other => panic!("unexpected {:?}", other),
    }
}

#[test]
fn shutdown_waits_for_the_buffer_to_drain() {
    let mut w = CircularBufWriter::new(limited(1), 8);
    assert!(matches!(w.write(b"abc"), Ok(3)));
    assert!(matches!(w.shutdown(), Err(SinkError::WouldBlock)));
    assert!(!w.get_ref().is_shut_down());
    assert_eq!(w.get_ref().contents().as_slice(), b"a");
    w.get_mut().set_budget(Some(1));
    assert!(matches!(w.shutdown(), Err(SinkError::WouldBlock)));
    assert!(!w.get_ref().is_shut_down());
    w.get_mut().set_budget(None);
    assert_eq!(w.get_ref().flush_count(), 0);
    assert!(w.shutdown().is_ok());
    assert!(w.get_ref().is_shut_down());
    assert_eq!(w.get_ref().flush_count(), 1);
    assert_eq!(w.get_ref().contents().as_slice(), b"abc");
}

#[test]
fn shutdown_of_an_empty_writer_closes_at_once() {
    let mut w = CircularBufWriter::new(limited(0), 8);
    assert!(w.shutdown().is_ok());
    assert!(w.get_ref().is_shut_down());
    assert_eq!(w.get_ref().flush_count(), 0);
}

#[test]
fn shutdown_stops_on_a_failing_flush() {
    let mut w = CircularBufWriter::new(MemorySink::new(), 8);
    assert!(matches!(w.write(b"abc"), Ok(3)));
    w.get_mut().fail_next(Error::new(ErrorKind::Other, "bad"));
    assert!(matches!(w.shutdown(), Err(SinkError::Failed(_))));
    assert!(!w.get_ref().is_shut_down());
}

#[test]
fn memory_sink_takes_what_its_budget_allows() {
    let mut sink = MemorySink::new();
    assert!(matches!(sink.write(b"abc"), Ok(3)));
    sink.set_budget(Some(2));
    assert!(matches!(sink.write(b"def"), Ok(2)));
    assert!(matches!(sink.write(b"f"), Err(SinkError::WouldBlock)));
    assert!(matches!(sink.write(b""), Ok(0)));
    sink.set_budget(Some(5));
    assert!(matches!(sink.write(b"f"), Ok(1)));
    assert!(matches!(sink.write(b"ghij"), Ok(4)));
    assert!(matches!(sink.write(b"k"), Err(SinkError::WouldBlock)));
    assert_eq!(sink.contents().as_slice(), b"abcdefghij");
    sink.fail_next(Error::new(ErrorKind::Other, "once"));
    assert!(matches!(sink.write(b"k"), Err(SinkError::Failed(_))));
    assert!(matches!(sink.write(b"k"), Err(SinkError::WouldBlock)));
    assert!(!sink.is_shut_down());
    assert!(sink.shutdown().is_ok());
    assert!(sink.is_shut_down());
}

#[test]
fn after_drain_by_outcome_and_emptiness() {
    assert!(after_drain(Ok(3), true).is_none());
    assert!(after_drain(Ok(0), true).is_none());
    assert!(matches!(after_drain(Ok(3), false), Some(SinkError::WouldBlock)));
    assert!(matches!(after_drain(Err(SinkError::WouldBlock), false), Some(SinkError::WouldBlock)));
    match after_drain(Err(SinkError::Failed(Error::new(ErrorKind::BrokenPipe, "gone"))), false) {
        Some(SinkError::Failed(e)) => assert_eq!(e.kind(), ErrorKind::BrokenPipe),
        other => panic!("unexpected {:?}", other),
    }
}
