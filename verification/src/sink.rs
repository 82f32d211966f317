//! The byte sink that buffered data is drained into.

use vstd::prelude::*;
use vstd::slice::slice_subrange;

verus! {

/// `std::io::Error`, carried through verbatim and never inspected here.
#[verifier::external_type_specification]
#[verifier::external_body]
pub struct ExIoError(std::io::Error);

/// Why a sink operation made no progress.
#[derive(Debug)]
pub enum SinkError {
    /// The sink cannot take the operation right now; try again later.
    WouldBlock,
    /// The sink failed; the connection is expected to be torn down.
    Failed(std::io::Error),
}

/// A non-blocking byte sink.
///
/// Each operation either completes, reports `SinkError::WouldBlock`, or fails
/// with `SinkError::Failed`. The model of a sink is the byte stream it has
/// received so far and a record of every answer it has given: to each write,
/// with the bytes that were offered, to each flush and to each shutdown.
///
/// The model functions have bodies so that a sink written in plain Rust need
/// not define them. Nothing is proved from those bodies: generic code knows
/// a sink only through the contracts of `write`, `flush` and `shutdown`, and
/// a sink that wants them proved of itself defines its own model, as
/// `MemorySink` does.
pub trait Sink {
    /// Every byte the sink has accepted, in order.
    open spec fn received(&self) -> Seq<u8> {
        arbitrary()
    }

    /// Every write so far, oldest first: the bytes offered and the answer.
    open spec fn writes(&self) -> Seq<(Seq<u8>, Result<usize, SinkError>)> {
        arbitrary()
    }

    /// The answer to every flush so far, oldest first.
    open spec fn flush_results(&self) -> Seq<Result<(), SinkError>> {
        arbitrary()
    }

    /// The answer to every shutdown so far, oldest first.
    open spec fn shutdown_results(&self) -> Seq<Result<(), SinkError>> {
        arbitrary()
    }

    /// True of a sink that completes every operation: it accepts the whole of
    /// every write offered to it, and every flush and shutdown succeeds.
    open spec fn never_refuses(&self) -> bool {
        false
    }

    /// True of a sink that may block but reports no `SinkError::Failed`.
    open spec fn never_fails(&self) -> bool {
        false
    }

    /// Offers `data`; on success returns how many leading bytes were taken.
    fn write(&mut self, data: &[u8]) -> (r: Result<usize, SinkError>)
        ensures
            match r {
                Ok(n) => n <= data@.len() && final(self).received() == old(self).received()
                    + data@.take(n as int),
                Err(_) => final(self).received() == old(self).received(),
            },
            old(self).never_refuses() ==> r == Ok::<usize, SinkError>(data@.len() as usize),
            old(self).never_refuses() ==> final(self).never_refuses(),
            old(self).never_fails() ==> {
                &&& final(self).never_fails()
                &&& r is Err ==> r matches Err(SinkError::WouldBlock)
            },
            final(self).writes() == old(self).writes().push((data@, r)),
            final(self).flush_results() == old(self).flush_results(),
            final(self).shutdown_results() == old(self).shutdown_results(),
    ;

    /// Pushes accepted bytes further down; accepts no new ones.
    fn flush(&mut self) -> (r: Result<(), SinkError>)
        ensures
            final(self).received() == old(self).received(),
            old(self).never_refuses() ==> final(self).never_refuses() && r is Ok,
            old(self).never_fails() ==> {
                &&& final(self).never_fails()
                &&& r is Err ==> r matches Err(SinkError::WouldBlock)
            },
            final(self).writes() == old(self).writes(),
            final(self).flush_results() == old(self).flush_results().push(r),
            final(self).shutdown_results() == old(self).shutdown_results(),
    ;

    /// Asks the sink to close.
    fn shutdown(&mut self) -> (r: Result<(), SinkError>)
        ensures
            final(self).received() == old(self).received(),
            old(self).never_refuses() ==> final(self).never_refuses() && r is Ok,
            old(self).never_fails() ==> {
                &&& final(self).never_fails()
                &&& r is Err ==> r matches Err(SinkError::WouldBlock)
            },
            final(self).writes() == old(self).writes(),
            final(self).flush_results() == old(self).flush_results(),
            final(self).shutdown_results() == old(self).shutdown_results().push(r),
    ;
}

/// The writes that a sink has answered between the states `before` and
/// `after`, oldest first.
pub open spec fn writes_since<W: Sink>(before: W, after: W) -> Seq<
    (Seq<u8>, Result<usize, SinkError>),
> {
    after.writes().skip(before.writes().len() as int)
}

/// An in-memory sink that keeps every byte it accepts.
///
/// It can be given a budget: the number of bytes it will still accept before
/// it reports `SinkError::WouldBlock`. Without a budget it accepts every write
/// in full. It can also be armed with a failure that the next write reports.
pub struct MemorySink {
    data: Vec<u8>,
    budget: Option<usize>,
    failure: Option<std::io::Error>,
    flushes: usize,
    shut: bool,
    write_log: Ghost<Seq<(Seq<u8>, Result<usize, SinkError>)>>,
    flush_log: Ghost<Seq<Result<(), SinkError>>>,
    shutdown_log: Ghost<Seq<Result<(), SinkError>>>,
}

impl MemorySink {
    /// The bytes still accepted before the sink blocks; `None` is no limit.
    pub closed spec fn budget(&self) -> Option<usize> {
        self.budget
    }

    /// The failure that the next write reports, if any.
    pub closed spec fn pending_failure(&self) -> Option<std::io::Error> {
        self.failure
    }

    /// Whether the sink was shut down.
    pub closed spec fn shut_down(&self) -> bool {
        self.shut
    }

    /// The number of flushes, as far as a `usize` counts them.
    pub closed spec fn flushes(&self) -> usize {
        self.flushes
    }

    /// A sink without a budget and with nothing received.
    pub fn new() -> (r: Self)
        ensures
            r.received() == Seq::<u8>::empty(),
            r.budget() is None,
            r.pending_failure() is None,
            r.never_refuses(),
            !r.shut_down(),
            r.flushes() == 0,
            r.writes().len() == 0,
            r.flush_results().len() == 0,
            r.shutdown_results().len() == 0,
    {
        MemorySink {
            data: Vec::new(),
            budget: None,
            failure: None,
            flushes: 0,
            shut: false,
            write_log: Ghost(Seq::empty()),
            flush_log: Ghost(Seq::empty()),
            shutdown_log: Ghost(Seq::empty()),
        }
    }

    /// Replaces the budget; `None` lifts it.
    pub fn set_budget(&mut self, budget: Option<usize>)
        ensures
            final(self).budget() == budget,
            final(self).received() == old(self).received(),
            final(self).pending_failure() == old(self).pending_failure(),
            final(self).shut_down() == old(self).shut_down(),
            final(self).flushes() == old(self).flushes(),
            final(self).writes() == old(self).writes(),
            final(self).flush_results() == old(self).flush_results(),
            final(self).shutdown_results() == old(self).shutdown_results(),
    {
        self.budget = budget;
    }

    /// Arms the sink: the next write fails with `error` and accepts nothing.
    pub fn fail_next(&mut self, error: std::io::Error)
        ensures
            final(self).pending_failure() == Some(error),
            final(self).budget() == old(self).budget(),
            final(self).received() == old(self).received(),
            final(self).shut_down() == old(self).shut_down(),
            final(self).flushes() == old(self).flushes(),
            final(self).writes() == old(self).writes(),
            final(self).flush_results() == old(self).flush_results(),
            final(self).shutdown_results() == old(self).shutdown_results(),
    {
        self.failure = Some(error);
    }

    /// The bytes received so far, in order.
    pub fn contents(&self) -> (r: &Vec<u8>)
        ensures
            r@ == self.received(),
    {
        &self.data
    }

    /// How often the sink was flushed; the count stops at `usize::MAX`.
    pub fn flush_count(&self) -> (r: usize)
        ensures
            r == self.flushes(),
    {
        self.flushes
    }

    /// True once `shutdown` was called.
    pub fn is_shut_down(&self) -> (r: bool)
        ensures
            r == self.shut_down(),
    {
        self.shut
    }
}

impl Sink for MemorySink {
    closed spec fn received(&self) -> Seq<u8> {
        self.data@
    }

    closed spec fn writes(&self) -> Seq<(Seq<u8>, Result<usize, SinkError>)> {
        self.write_log@
    }

    closed spec fn flush_results(&self) -> Seq<Result<(), SinkError>> {
        self.flush_log@
    }

    closed spec fn shutdown_results(&self) -> Seq<Result<(), SinkError>> {
        self.shutdown_log@
    }

    open spec fn never_refuses(&self) -> bool {
        self.budget() is None && self.pending_failure() is None
    }

    open spec fn never_fails(&self) -> bool {
        self.pending_failure() is None
    }

    /// Reports the armed failure if there is one; otherwise accepts as many
    /// leading bytes as the budget allows, and blocks when it allows none of
    /// a non-empty write.
    fn write(&mut self, data: &[u8]) -> (r: Result<usize, SinkError>)
        ensures
            final(self).shut_down() == old(self).shut_down(),
            final(self).flushes() == old(self).flushes(),
            final(self).pending_failure() is None,
            match old(self).pending_failure() {
                Some(e) => {
                    &&& r == Err::<usize, SinkError>(SinkError::Failed(e))
                    &&& final(self).budget() == old(self).budget()
                },
                None => match old(self).budget() {
                    None => {
                        &&& r == Ok::<usize, SinkError>(data@.len() as usize)
                        &&& final(self).budget() is None
                    },
                    Some(b) => if b == 0 && data@.len() > 0 {
                        r == Err::<usize, SinkError>(SinkError::WouldBlock) && final(self).budget()
                            == Some(b)
                    } else if b < data@.len() {
                        r == Ok::<usize, SinkError>(b) && final(self).budget() == Some(0usize)
                    } else {
                        r == Ok::<usize, SinkError>(data@.len() as usize) && final(self).budget()
                            == Some((b - data@.len()) as usize)
                    },
                },
            },
    {
        if let Some(e) = self.failure.take() {
            let failed: Result<usize, SinkError> = Err(SinkError::Failed(e));
            self.write_log = Ghost(self.write_log@.push((data@, failed)));
            return failed;
        }
        let taken: usize = match self.budget {
            None => data.len(),
            Some(b) => {
                if b == 0 && data.len() > 0 {
                    let blocked: Result<usize, SinkError> = Err(SinkError::WouldBlock);
                    self.write_log = Ghost(self.write_log@.push((data@, blocked)));
                    return blocked;
                }
                let taken: usize = if b < data.len() {
                    b
                } else {
                    data.len()
                };
                self.budget = Some(b - taken);
                taken
            },
        };
        let accepted = slice_subrange(data, 0, taken);
        self.data.extend_from_slice(accepted);
        proof {
            assert(self.data@ =~= old(self).data@ + data@.take(taken as int));
        }
        let done: Result<usize, SinkError> = Ok(taken);
        self.write_log = Ghost(self.write_log@.push((data@, done)));
        done
    }

    /// Always completes, and counts the flush.
    fn flush(&mut self) -> (r: Result<(), SinkError>)
        ensures
            r is Ok,
            final(self).flushes() == (if old(self).flushes() < usize::MAX {
                (old(self).flushes() + 1) as usize
            } else {
                usize::MAX
            }),
            final(self).shut_down() == old(self).shut_down(),
            final(self).budget() == old(self).budget(),
            final(self).pending_failure() == old(self).pending_failure(),
    {
        if self.flushes < usize::MAX {
            self.flushes = self.flushes + 1;
        }
        let done: Result<(), SinkError> = Ok(());
        self.flush_log = Ghost(self.flush_log@.push(done));
        done
    }

    /// Always completes, and marks the sink as shut down.
    fn shutdown(&mut self) -> (r: Result<(), SinkError>)
        ensures
            r is Ok,
            final(self).shut_down(),
            final(self).flushes() == old(self).flushes(),
            final(self).budget() == old(self).budget(),
            final(self).pending_failure() == old(self).pending_failure(),
    {
        self.shut = true;
        let done: Result<(), SinkError> = Ok(());
        self.shutdown_log = Ghost(self.shutdown_log@.push(done));
        done
    }
}

} // verus!
