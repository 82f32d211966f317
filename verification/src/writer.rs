//! A writer that batches small writes in a ring buffer in front of a sink.

use vstd::prelude::*;
use crate::ring::CircularBuffer;
use crate::sink::{writes_since, Sink, SinkError};

verus! {

/// What `flush` does once the buffer was drained with result `drained` and
/// is, or is not, empty: a failed drain is reported; bytes left behind mean
/// `SinkError::WouldBlock`; otherwise nothing is reported and the sink is
/// flushed.
pub open spec fn spec_after_drain(drained: Result<usize, SinkError>, empty: bool) -> Option<
    SinkError,
> {
    match drained {
        Err(e) => Some(e),
        Ok(_) => if empty {
            None
        } else {
            Some(SinkError::WouldBlock)
        },
    }
}

/// Decides what `flush` reports after a drain; `None` means go on and flush
/// the sink.
pub fn after_drain(drained: Result<usize, SinkError>, empty: bool) -> (r: Option<SinkError>)
    ensures
        r == spec_after_drain(drained, empty),
{
    match drained {
        Err(e) => Some(e),
        Ok(_) => if empty {
            None
        } else {
            Some(SinkError::WouldBlock)
        },
    }
}

/// Buffers writes in a `CircularBuffer` and drains them into the sink it
/// owns when room is needed, on `flush`, and before `shutdown`.
///
/// Bytes still buffered when the writer is dropped are lost: finish with
/// `shutdown`, repeated until it completes.
pub struct CircularBufWriter<W: Sink> {
    inner_writer: W,
    cir_buf: CircularBuffer,
}

impl<W: Sink> CircularBufWriter<W> {
    /// The sink behind the buffer.
    pub closed spec fn sink(&self) -> W {
        self.inner_writer
    }

    /// The ring buffer in front of the sink.
    pub closed spec fn buffer(&self) -> CircularBuffer {
        self.cir_buf
    }

    /// The ring buffer is well formed.
    pub open spec fn wf(&self) -> bool {
        self.buffer().wf()
    }

    /// The accepted bytes that the sink has not received yet, oldest first.
    pub open spec fn buffered(&self) -> Seq<u8> {
        self.buffer()@
    }

    /// Every byte accepted so far: what the sink received, then what is
    /// still buffered.
    pub open spec fn stream(&self) -> Seq<u8> {
        self.sink().received() + self.buffered()
    }

    /// The answers the sink gave to every flush so far.
    pub open spec fn flush_log(&self) -> Seq<Result<(), SinkError>> {
        self.sink().flush_results()
    }

    /// The answers the sink gave to every shutdown so far.
    pub open spec fn shutdown_log(&self) -> Seq<Result<(), SinkError>> {
        self.sink().shutdown_results()
    }

    /// Whether the writes that the sink answered between this state and
    /// `after` are those of one drain of this state's buffer.
    pub open spec fn drained_into(&self, after: Self) -> bool {
        self.buffer().drain_writes(writes_since(self.sink(), after.sink()))
    }

    /// The result of the drain of this state's buffer whose writes the sink
    /// answered between this state and `after`.
    pub open spec fn drain_answer(&self, after: Self) -> Result<usize, SinkError> {
        self.buffer().drain_result(writes_since(self.sink(), after.sink()))
    }

    /// Wraps `writer` behind an empty buffer of `capacity` slots.
    pub fn new(writer: W, capacity: usize) -> (r: Self)
        requires
            capacity > 0,
        ensures
            r.wf(),
            r.sink() == writer,
            r.buffer().capacity() == capacity,
            r.buffered() == Seq::<u8>::empty(),
    {
        Self { inner_writer: writer, cir_buf: CircularBuffer::new(capacity) }
    }

    /// The sink behind the buffer.
    pub fn get_ref(&self) -> (r: &W)
        ensures
            *r == self.sink(),
    {
        &self.inner_writer
    }

    /// The sink behind the buffer, for changing it in place.
    pub fn get_mut(&mut self) -> (r: &mut W)
        ensures
            *r == old(self).sink(),
            final(self).sink() == *final(r),
            final(self).buffer() == old(self).buffer(),
    {
        &mut self.inner_writer
    }

    /// Accepts a prefix of `data` into the buffer and returns its length.
    ///
    /// When `data` does not fit into the free space, the buffer is first
    /// drained into the sink as far as the sink allows; a failure of the sink
    /// there is returned and nothing of `data` is accepted. A sink that would
    /// block is no failure: whatever room there is gets used, and with a full
    /// buffer the result is `Ok(0)`.
    pub fn write(&mut self, data: &[u8]) -> (r: Result<usize, SinkError>)
        requires
            old(self).wf(),
        ensures
            final(self).wf(),
            final(self).buffer().capacity() == old(self).buffer().capacity(),
            final(self).flush_log() == old(self).flush_log(),
            final(self).shutdown_log() == old(self).shutdown_log(),
            old(self).sink().received().is_prefix_of(final(self).sink().received()),
            old(self).sink().writes().is_prefix_of(final(self).sink().writes()),
            match r {
                Ok(n) => {
                    &&& n <= data@.len()
                    &&& final(self).stream() == old(self).stream() + data@.take(n as int)
                    &&& n == data@.len() || final(self).buffer().free() == 0
                },
                Err(e) => {
                    &&& final(self).stream() == old(self).stream()
                    &&& e is Failed
                    &&& final(self).buffered().len() > 0
                    &&& old(self).buffer().free() < data@.len()
                },
            },
            data@.len() <= old(self).buffer().free() ==> {
                &&& r == Ok::<usize, SinkError>(data@.len() as usize)
                &&& final(self).sink() == old(self).sink()
                &&& final(self).buffered() == old(self).buffered() + data@
            },
            data@.len() > old(self).buffer().free() ==> {
                &&& old(self).drained_into(*final(self))
                &&& match old(self).drain_answer(*final(self)) {
                    Err(SinkError::Failed(e)) => r == Err::<usize, SinkError>(
                        SinkError::Failed(e),
                    ),
                    _ => r is Ok,
                }
            },
            old(self).sink().never_refuses() ==> final(self).sink().never_refuses(),
            old(self).sink().never_fails() ==> final(self).sink().never_fails() && r is Ok,
            old(self).sink().never_refuses() && data@.len() > old(self).buffer().free() ==> {
                &&& final(self).sink().received() == old(self).stream()
                &&& r matches Ok(n)
                &&& final(self).buffered() == data@.take(n as int)
            },
    {
        if self.cir_buf.writable_len() < data.len() {
            let drained = self.cir_buf.write_to(&mut self.inner_writer);
            proof {
                let k = old(self).buffered().len() - self.buffered().len();
                let was = old(self).buffered();
                assert(was.take(k) + was.skip(k) =~= was);
                assert(self.stream() =~= old(self).stream());
            }
            if let Err(SinkError::Failed(e)) = drained {
                return Err(SinkError::Failed(e));
            }
        }
        let ghost before = self.stream();
        let n: usize = self.cir_buf.write_data(data);
        proof {
            assert(self.stream() =~= before + data@.take(n as int));
            assert(data@.take(data@.len() as int) =~= data@);
        }
        Ok(n)
    }

    /// Drains the buffer into the sink and, if nothing is left, flushes the
    /// sink and returns what it answered.
    ///
    /// If bytes are left because the sink took only some, the result is
    /// `Err(SinkError::WouldBlock)` and the sink is not flushed: call again
    /// later.
    pub fn flush(&mut self) -> (r: Result<(), SinkError>)
        requires
            old(self).wf(),
        ensures
            final(self).wf(),
            final(self).buffer().capacity() == old(self).buffer().capacity(),
            final(self).shutdown_log() == old(self).shutdown_log(),
            final(self).stream() == old(self).stream(),
            old(self).sink().received().is_prefix_of(final(self).sink().received()),
            old(self).sink().writes().is_prefix_of(final(self).sink().writes()),
            old(self).drained_into(*final(self)),
            match spec_after_drain(
                old(self).drain_answer(*final(self)),
                final(self).buffered().len() == 0,
            ) {
                Some(e) => {
                    &&& r == Err::<(), SinkError>(e)
                    &&& final(self).flush_log() == old(self).flush_log()
                },
                None => final(self).flush_log() == old(self).flush_log().push(r),
            },
            r is Ok ==> final(self).buffered().len() == 0,
            final(self).buffered().len() > 0 ==> {
                &&& r is Err
                &&& final(self).flush_log() == old(self).flush_log()
            },
            final(self).buffered().len() == 0 ==> {
                final(self).flush_log() == old(self).flush_log().push(r)
            },
            old(self).sink().never_refuses() ==> {
                &&& r is Ok
                &&& final(self).sink().never_refuses()
                &&& final(self).buffered().len() == 0
                &&& final(self).sink().received() == old(self).stream()
            },
            old(self).sink().never_fails() ==> {
                &&& final(self).sink().never_fails()
                &&& r is Err ==> r matches Err(SinkError::WouldBlock)
            },
    {
        let drained = self.cir_buf.write_to(&mut self.inner_writer);
        proof {
            let k = old(self).buffered().len() - self.buffered().len();
            let was = old(self).buffered();
            assert(was.take(k) + was.skip(k) =~= was);
            assert(self.stream() =~= old(self).stream());
        }
        match after_drain(drained, self.cir_buf.empty()) {
            Some(e) => Err(e),
            None => self.inner_writer.flush(),
        }
    }

    /// One step of an orderly close: drains and flushes while bytes are
    /// buffered, and asks the sink to shut down only once none are.
    ///
    /// `Err(SinkError::WouldBlock)` means not yet complete: call again later.
    /// `Err(SinkError::Failed(_))` ends the attempt.
    pub fn shutdown(&mut self) -> (r: Result<(), SinkError>)
        requires
            old(self).wf(),
        ensures
            final(self).wf(),
            final(self).buffer().capacity() == old(self).buffer().capacity(),
            final(self).stream() == old(self).stream(),
            old(self).sink().received().is_prefix_of(final(self).sink().received()),
            old(self).sink().writes().is_prefix_of(final(self).sink().writes()),
            old(self).buffered().len() == 0 ==> {
                &&& final(self).buffer() == old(self).buffer()
                &&& final(self).sink().writes() == old(self).sink().writes()
                &&& final(self).flush_log() == old(self).flush_log()
                &&& final(self).shutdown_log() == old(self).shutdown_log().push(r)
            },
            old(self).buffered().len() > 0 ==> {
                &&& old(self).drained_into(*final(self))
                &&& match spec_after_drain(
                    old(self).drain_answer(*final(self)),
                    final(self).buffered().len() == 0,
                ) {
                    Some(e) => {
                        &&& r == Err::<(), SinkError>(e)
                        &&& final(self).flush_log() == old(self).flush_log()
                        &&& final(self).shutdown_log() == old(self).shutdown_log()
                    },
                    None => {
                        &&& final(self).flush_log().len() == old(self).flush_log().len() + 1
                        &&& final(self).flush_log().drop_last() == old(self).flush_log()
                        &&& match final(self).flush_log().last() {
                            Ok(_) => final(self).shutdown_log() == old(self).shutdown_log().push(r),
                            Err(e) => {
                                &&& r == Err::<(), SinkError>(e)
                                &&& final(self).shutdown_log() == old(self).shutdown_log()
                            },
                        }
                    },
                }
            },
            final(self).shutdown_log().len() > old(self).shutdown_log().len()
                ==> final(self).buffered().len() == 0,
            final(self).buffered().len() > 0 ==> r is Err,
            r is Ok ==> final(self).shutdown_log() == old(self).shutdown_log().push(r),
            old(self).sink().never_refuses() ==> {
                &&& r is Ok
                &&& final(self).sink().never_refuses()
                &&& final(self).buffered().len() == 0
                &&& final(self).sink().received() == old(self).stream()
            },
            old(self).sink().never_fails() ==> {
                &&& final(self).sink().never_fails()
                &&& r is Err ==> r matches Err(SinkError::WouldBlock)
            },
    {
        if !self.cir_buf.empty() {
            let flushed = self.flush();
            proof {
                let log = old(self).flush_log();
                assert(log.push(flushed).drop_last() =~= log);
            }
            match flushed {
                Ok(()) => {},
                Err(e) => {
                    return Err(e);
                },
            }
        }
        let ghost mid = self.inner_writer;
        let r = self.inner_writer.shutdown();
        proof {
            assert(writes_since(old(self).sink(), self.sink()) =~= writes_since(
                old(self).sink(),
                mid,
            ));
        }
        r
    }
}

} // verus!
