//! A fixed-capacity circular byte buffer with one reserved slot.

use vstd::prelude::*;
use vstd::slice::slice_subrange;
use crate::sink::{writes_since, Sink, SinkError};

verus! {

/// What a buffer of capacity `cap` holding `content` holds after `data` is
/// offered to it: the longest prefix of `data` that still fits is appended.
pub open spec fn after_write(content: Seq<u8>, cap: int, data: Seq<u8>) -> Seq<u8> {
    content + data.take(accepted_len(content, cap, data))
}

/// How many bytes of `data` a buffer of capacity `cap` holding `content` takes.
pub open spec fn accepted_len(content: Seq<u8>, cap: int, data: Seq<u8>) -> int {
    if data.len() <= cap - 1 - content.len() {
        data.len() as int
    } else {
        cap - 1 - content.len()
    }
}

/// What an empty buffer of capacity `cap` holds after each of `writes` was
/// offered to it in turn.
pub open spec fn after_writes(cap: int, writes: Seq<Seq<u8>>) -> Seq<u8>
    decreases writes.len(),
{
    if writes.len() == 0 {
        Seq::empty()
    } else {
        after_write(after_writes(cap, writes.drop_last()), cap, writes.last())
    }
}

/// The number of bytes that the last of `writes` has accepted, when each of
/// them was offered in turn to a buffer of capacity `cap` that started empty.
pub open spec fn last_accepted(cap: int, writes: Seq<Seq<u8>>) -> int
    recommends
        writes.len() > 0,
{
    accepted_len(after_writes(cap, writes.drop_last()), cap, writes.last())
}

/// The accepted prefixes of `writes`, one after the other.
pub open spec fn accepted_bytes(cap: int, writes: Seq<Seq<u8>>) -> Seq<u8>
    decreases writes.len(),
{
    if writes.len() == 0 {
        Seq::empty()
    } else {
        accepted_bytes(cap, writes.drop_last()) + writes.last().take(last_accepted(cap, writes))
    }
}

/// Nothing is lost, added or reordered between writing and draining: a
/// buffer that started empty holds, after any run of writes, exactly the
/// accepted prefixes in the order of the writes, and never more than one
/// less than its capacity. So a sink that had `received` and then gets the
/// whole content of the buffer, as `write_to` hands it to a sink that never
/// refuses, has `received` followed by exactly the accepted prefixes.
pub proof fn lemma_conservation(cap: int, writes: Seq<Seq<u8>>, received: Seq<u8>)
    requires
        cap > 0,
    ensures
        after_writes(cap, writes) == accepted_bytes(cap, writes),
        after_writes(cap, writes).len() <= cap - 1,
        writes.len() > 0 ==> 0 <= last_accepted(cap, writes) <= writes.last().len(),
        received + after_writes(cap, writes) == received + accepted_bytes(cap, writes),
    decreases writes.len(),
{
    if writes.len() > 0 {
        lemma_conservation(cap, writes.drop_last(), received);
    }
}

/// The result of a drain whose first write took `first_len` bytes, the whole
/// run up to the end of the array, and whose second write ended in `second`:
/// the two counts together; the first count alone if the second write would
/// block; the failure if it failed.
pub open spec fn spec_join_runs(first_len: usize, second: Result<usize, SinkError>) -> Result<
    usize,
    SinkError,
> {
    match second {
        Ok(written) => Ok((first_len + written) as usize),
        Err(SinkError::WouldBlock) => Ok(first_len),
        Err(SinkError::Failed(e)) => Err(SinkError::Failed(e)),
    }
}

/// Computes the result of a two-part drain from the count of its first write
/// and the outcome of its second.
pub fn join_runs(first_len: usize, second: Result<usize, SinkError>) -> (r: Result<
    usize,
    SinkError,
>)
    requires
        second matches Ok(written) ==> first_len + written <= usize::MAX,
    ensures
        r == spec_join_runs(first_len, second),
{
    match second {
        Ok(written) => Ok(first_len + written),
        Err(SinkError::WouldBlock) => Ok(first_len),
        Err(e) => Err(e),
    }
}

/// Fixed-capacity byte queue: `head` is the oldest buffered byte, `tail` the
/// next free slot, and one slot always stays unused so that `head == tail`
/// means empty.
pub struct CircularBuffer {
    buf: Vec<u8>,
    start: usize,
    end: usize,
}

impl CircularBuffer {
    /// Index of the oldest buffered byte.
    pub closed spec fn head(&self) -> int {
        self.start as int
    }

    /// Index of the next free slot.
    pub closed spec fn tail(&self) -> int {
        self.end as int
    }

    /// The backing array.
    pub closed spec fn store(&self) -> Seq<u8> {
        self.buf@
    }

    /// Size of the backing array; one less is usable.
    pub open spec fn capacity(&self) -> int {
        self.store().len() as int
    }

    /// Both indices lie inside the backing array.
    pub open spec fn wf(&self) -> bool {
        &&& 0 <= self.head() < self.capacity()
        &&& 0 <= self.tail() < self.capacity()
    }

    /// Number of buffered bytes.
    pub open spec fn occupied(&self) -> int {
        if self.head() <= self.tail() {
            self.tail() - self.head()
        } else {
            self.capacity() - self.head() + self.tail()
        }
    }

    /// Number of bytes that can still be buffered.
    pub open spec fn free(&self) -> int {
        self.capacity() - 1 - self.occupied()
    }

    /// One past the last index of the run of buffered bytes that begins at
    /// `head` and does not cross the end of the array.
    pub open spec fn run_end(&self) -> int {
        if self.head() <= self.tail() {
            self.tail()
        } else {
            self.capacity()
        }
    }

    /// The buffered bytes, oldest first.
    pub open spec fn view(&self) -> Seq<u8> {
        if self.head() <= self.tail() {
            self.store().subrange(self.head(), self.tail())
        } else {
            self.store().subrange(self.head(), self.capacity()) + self.store().subrange(
                0,
                self.tail(),
            )
        }
    }

    /// The buffer never holds more than one less than its capacity, the
    /// number of bytes it holds is `(tail - head + capacity) mod capacity`,
    /// and it is empty exactly when `head == tail`.
    pub proof fn lemma_capacity_invariant(&self)
        requires
            self.wf(),
        ensures
            0 <= self.occupied() <= self.capacity() - 1,
            0 <= self.free() <= self.capacity() - 1,
            self@.len() == self.occupied(),
            self.occupied() == (self.tail() - self.head() + self.capacity()) % self.capacity(),
            (self.head() == self.tail()) <==> self@.len() == 0,
    {
        let c = self.capacity();
        if self.head() <= self.tail() {
            vstd::arithmetic::div_mod::lemma_mod_add_multiples_vanish(self.tail() - self.head(), c);
            let held = (self.tail() - self.head()) as nat;
            vstd::arithmetic::div_mod::lemma_small_mod(held, c as nat);
        } else {
            vstd::arithmetic::div_mod::lemma_small_mod(
                (self.tail() - self.head() + c) as nat,
                c as nat,
            );
        }
    }

    /// The run of buffered bytes from `head` up to the end of the array or to
    /// `tail`, whichever comes first.
    pub open spec fn first_run(&self) -> Seq<u8> {
        self.store().subrange(self.head(), self.run_end())
    }

    /// The buffered bytes that lie at the start of the array, behind a run
    /// that reaches its end; empty when the content does not wrap.
    pub open spec fn second_run(&self) -> Seq<u8> {
        if self.head() <= self.tail() {
            Seq::empty()
        } else {
            self.store().subrange(0, self.tail())
        }
    }

    /// Whether `calls` are the writes that draining this buffer makes, given
    /// the answers in them: none if nothing is buffered; else the first run;
    /// and then the second run, if there is one and the sink took all of the
    /// first.
    pub open spec fn drain_writes(&self, calls: Seq<(Seq<u8>, Result<usize, SinkError>)>) -> bool {
        if self@.len() == 0 {
            calls.len() == 0
        } else {
            &&& 1 <= calls.len() <= 2
            &&& calls[0].0 == self.first_run()
            &&& calls.len() == 2 <==> self.second_run().len() > 0 && calls[0].1 == Ok::<
                usize,
                SinkError,
            >(self.first_run().len() as usize)
            &&& calls.len() == 2 ==> calls[1].0 == self.second_run()
        }
    }

    /// The result of draining this buffer when the sink answered its writes
    /// as in `calls`: `Ok(0)` without a write, the sink's answer to a single
    /// write, and `spec_join_runs` of the two answers to two.
    pub open spec fn drain_result(
        &self,
        calls: Seq<(Seq<u8>, Result<usize, SinkError>)>,
    ) -> Result<usize, SinkError> {
        if calls.len() == 0 {
            Ok(0)
        } else if calls.len() == 1 {
            calls[0].1
        } else {
            spec_join_runs(self.first_run().len() as usize, calls[1].1)
        }
    }

    /// Creates an empty buffer backed by `capacity` slots.
    pub fn new(capacity: usize) -> (r: Self)
        requires
            capacity > 0,
        ensures
            r.wf(),
            r.capacity() == capacity,
            r.head() == 0,
            r.tail() == 0,
            r@ == Seq::<u8>::empty(),
    {
        Self { buf: vec![0u8; capacity], start: 0, end: 0 }
    }

    /// True iff nothing is buffered.
    pub fn empty(&self) -> (r: bool)
        ensures
            r == (self.head() == self.tail()),
            self.wf() ==> r == (self@.len() == 0),
    {
        self.start == self.end
    }

    /// Number of bytes that `write_data` would accept right now.
    pub fn writable_len(&self) -> (r: usize)
        requires
            self.wf(),
        ensures
            r == self.free(),
            r == self.capacity() - 1 - self@.len(),
    {
        if self.start <= self.end {
            let first_len: usize = self.buf.len() - self.end;
            if self.start > 1 {
                first_len + self.start - 1
            } else if self.start == 1 {
                first_len
            } else {
                first_len - 1
            }
        } else {
            self.start - self.end - 1
        }
    }

    /// Appends `data[from .. from + len]` at `tail`, where the bytes fit both
    /// before the end of the array and into the free space; a `tail` that
    /// reaches the end of the array wraps to index 0.
    fn append_run(&mut self, data: &[u8], from: usize, len: usize)
        requires
            old(self).wf(),
            from + len <= data@.len(),
            old(self).tail() + len <= old(self).capacity(),
            len <= old(self).free(),
        ensures
            final(self).wf(),
            final(self).capacity() == old(self).capacity(),
            final(self).head() == old(self).head(),
            final(self).tail() == (if old(self).tail() + len == old(self).capacity() {
                0
            } else {
                old(self).tail() + len
            }),
            final(self)@ == old(self)@ + data@.subrange(from as int, from + len),
            len == 0 ==> final(self).store() == old(self).store(),
    {
        let total: usize = data.len();
        let buf_size: usize = self.buf.len();
        let at: usize = self.end;
        let mut k: usize = 0;
        while k < len
            invariant
                k <= len,
                total == data@.len(),
                from + len <= total,
                at + len <= buf_size,
                buf_size == self.buf@.len(),
                self.buf@.len() == old(self).buf@.len(),
                self.start == old(self).start,
                self.end == old(self).end,
                at == self.end,
                forall|i: int| 0 <= i < at ==> #[trigger] self.buf@[i] == old(self).buf@[i],
                forall|i: int|
                    at + k <= i < self.buf@.len() ==> #[trigger] self.buf@[i] == old(self).buf@[i],
                forall|i: int| at <= i < at + k ==> #[trigger] self.buf@[i] == data@[from + i - at],
            decreases len - k,
        {
            let byte: u8 = data[from + k];
            self.buf.set(at + k, byte);
            k += 1;
        }
        self.end = at + len;
        if self.end == buf_size {
            self.end = 0;
        }
        proof {
            assert(len == 0 ==> self.buf@ =~= old(self).buf@);
            assert(self@ =~= old(self)@ + data@.subrange(from as int, from + len));
        }
    }

    /// Buffers the longest prefix of `data` that fits and returns its length.
    ///
    /// The copy starts at `tail`; when it reaches the end of the array it
    /// continues at index 0, stopping one slot short of `head`.
    pub fn write_data(&mut self, data: &[u8]) -> (n: usize)
        requires
            old(self).wf(),
        ensures
            final(self).wf(),
            final(self).capacity() == old(self).capacity(),
            final(self).head() == old(self).head(),
            n == accepted_len(old(self)@, old(self).capacity(), data@),
            n <= old(self).free(),
            n <= data@.len(),
            final(self)@ == after_write(old(self)@, old(self).capacity(), data@),
            final(self)@ == old(self)@ + data@.take(n as int),
            final(self).tail() == (if old(self).tail() + n < old(self).capacity() {
                old(self).tail() + n
            } else {
                old(self).tail() + n - old(self).capacity()
            }),
            data@.len() == 0 ==> {
                &&& n == 0
                &&& final(self).tail() == old(self).tail()
                &&& final(self).store() == old(self).store()
            },
    {
        let buf_size: usize = self.buf.len();
        if self.start <= self.end {
            let queue_size: usize = if self.start == 0 {
                buf_size - 1
            } else {
                buf_size
            };
            let room: usize = queue_size - self.end;
            let first_len: usize = if room < data.len() {
                room
            } else {
                data.len()
            };
            self.append_run(data, 0, first_len);
            proof {
                assert(data@.subrange(0, first_len as int) =~= data@.take(first_len as int));
            }
            let full: bool = if self.end + 1 == buf_size {
                self.start == 0
            } else {
                self.end + 1 == self.start
            };
            if full || first_len == data.len() {
                return first_len;
            }
            let rest: usize = data.len() - first_len;
            let second_len: usize = if self.start - 1 < rest {
                self.start - 1
            } else {
                rest
            };
            self.append_run(data, first_len, second_len);
            proof {
                assert(data@.take(first_len as int) + data@.subrange(
                    first_len as int,
                    first_len + second_len,
                ) =~= data@.take(first_len + second_len));
            }
            first_len + second_len
        } else {
            let room: usize = self.start - 1 - self.end;
            let len: usize = if room < data.len() {
                room
            } else {
                data.len()
            };
            self.append_run(data, 0, len);
            proof {
                assert(data@.subrange(0, len as int) =~= data@.take(len as int));
            }
            len
        }
    }

    /// Drops the `n` oldest bytes, which lie in the run that begins at `head`;
    /// a `head` that reaches the end of the array wraps to index 0.
    pub fn consume(&mut self, n: usize)
        requires
            old(self).wf(),
            n <= old(self).run_end() - old(self).head(),
        ensures
            final(self).wf(),
            final(self).capacity() == old(self).capacity(),
            final(self).tail() == old(self).tail(),
            final(self).store() == old(self).store(),
            final(self)@ == old(self)@.skip(n as int),
            final(self).head() == (if old(self).head() + n == old(self).capacity() {
                0
            } else {
                old(self).head() + n
            }),
    {
        let buf_size: usize = self.buf.len();
        self.start = self.start + n;
        if self.start == buf_size {
            self.start = 0;
        }
        proof {
            assert(self@ =~= old(self)@.skip(n as int));
        }
    }

    /// Offers `store[start .. end]`, a leading part of the run that begins at
    /// `head`, to `writer` and advances `head` past what the sink took.
    ///
    /// With nothing buffered the sink is not called.
    pub fn write_range_to<W: Sink>(&mut self, writer: &mut W, start: usize, end: usize) -> (r:
        Result<usize, SinkError>)
        requires
            old(self).wf(),
            start == old(self).head(),
            start <= end <= old(self).run_end(),
        ensures
            final(self).wf(),
            final(self).capacity() == old(self).capacity(),
            final(self).tail() == old(self).tail(),
            final(self).store() == old(self).store(),
            final(writer).flush_results() == old(writer).flush_results(),
            final(writer).shutdown_results() == old(writer).shutdown_results(),
            old(writer).never_refuses() ==> final(writer).never_refuses(),
            old(writer).never_fails() ==> {
                &&& final(writer).never_fails()
                &&& r is Err ==> r matches Err(SinkError::WouldBlock)
            },
            old(self)@.len() == 0 ==> r == Ok::<usize, SinkError>(0) && *final(self) == *old(self)
                && *final(writer) == *old(writer),
            match r {
                Ok(n) => {
                    &&& n <= end - start
                    &&& final(self)@ == old(self)@.skip(n as int)
                    &&& final(writer).received() == old(writer).received() + old(self)@.take(
                        n as int,
                    )
                    &&& final(self).head() == (if start + n == old(self).capacity() {
                        0
                    } else {
                        start + n
                    })
                },
                Err(_) => {
                    &&& *final(self) == *old(self)
                    &&& final(writer).received() == old(writer).received()
                },
            },
            old(self)@.len() > 0 && old(writer).never_refuses() ==> r == Ok::<usize, SinkError>(
                (end - start) as usize,
            ),
            old(self)@.len() > 0 ==> final(writer).writes() == old(writer).writes().push(
                (old(self).store().subrange(start as int, end as int), r),
            ),
    {
        if self.empty() {
            return Ok(0);
        }
        let outcome = writer.write(slice_subrange(self.buf.as_slice(), start, end));
        match outcome {
            Ok(written) => {
                proof {
                    let run = old(self).store().subrange(start as int, end as int);
                    assert(run.take(written as int) =~= old(self)@.take(written as int));
                }
                self.consume(written);
                Ok(written)
            },
            Err(e) => Err(e),
        }
    }

    /// Drains buffered bytes into `writer`, oldest first, in at most two
    /// writes: the run up to the end of the array, then, if the sink took all
    /// of it, the run that starts at index 0.
    ///
    /// A would-block on the second write is not an error: the bytes of the
    /// first one count. A failure on the second write is returned, and the
    /// bytes of the first one stay drained.
    pub fn write_to<W: Sink>(&mut self, writer: &mut W) -> (r: Result<usize, SinkError>)
        requires
            old(self).wf(),
        ensures
            final(self).wf(),
            final(self).capacity() == old(self).capacity(),
            final(self).tail() == old(self).tail(),
            final(self).store() == old(self).store(),
            final(writer).flush_results() == old(writer).flush_results(),
            final(writer).shutdown_results() == old(writer).shutdown_results(),
            old(writer).never_refuses() ==> final(writer).never_refuses(),
            old(writer).never_fails() ==> {
                &&& final(writer).never_fails()
                &&& r is Err ==> r matches Err(SinkError::WouldBlock)
            },
            final(self)@.len() <= old(self)@.len(),
            final(self)@ == old(self)@.skip(old(self)@.len() - final(self)@.len()),
            final(writer).received() == old(writer).received() + old(self)@.take(
                old(self)@.len() - final(self)@.len(),
            ),
            r matches Ok(n) ==> n == old(self)@.len() - final(self)@.len(),
            r is Err ==> {
                ||| final(self)@.len() == old(self)@.len()
                ||| old(self).tail() < old(self).head() && final(self)@.len() == old(self).tail()
            },
            r is Err ==> final(self)@.len() > 0,
            r matches Err(SinkError::WouldBlock) ==> *final(self) == *old(self),
            old(self)@.len() == 0 ==> r == Ok::<usize, SinkError>(0) && *final(self) == *old(self)
                && *final(writer) == *old(writer),
            old(writer).never_refuses() ==> {
                &&& r == Ok::<usize, SinkError>(old(self)@.len() as usize)
                &&& final(self)@.len() == 0
                &&& final(writer).received() == old(writer).received() + old(self)@
            },
            old(writer).writes().is_prefix_of(final(writer).writes()),
            old(self).drain_writes(writes_since(*old(writer), *final(writer))),
            r == old(self).drain_result(writes_since(*old(writer), *final(writer))),
    {
        let start: usize = self.start;
        let end: usize = self.end;
        let buf_size: usize = self.buf.len();
        proof {
            assert(old(self)@.take(old(self)@.len() as int) =~= old(self)@);
        }
        if self.start <= self.end {
            let r = self.write_range_to(writer, start, end);
            proof {
                let calls = writer.writes().skip(old(writer).writes().len() as int);
                if old(self)@.len() > 0 {
                    assert(calls =~= seq![(old(self).first_run(), r)]);
                } else {
                    assert(calls =~= Seq::empty());
                }
            }
            r
        } else {
            let first = self.write_range_to(writer, start, buf_size);
            proof {
                let calls = writer.writes().skip(old(writer).writes().len() as int);
                assert(calls =~= seq![(old(self).first_run(), first)]);
            }
            let first_len: usize = match first {
                Ok(written) => written,
                Err(e) => {
                    return Err(e);
                },
            };
            if self.start != 0 {
                return Ok(first_len);
            }
            let second = self.write_range_to(writer, 0, end);
            proof {
                let calls = writer.writes().skip(old(writer).writes().len() as int);
                if end > 0 {
                    assert(calls =~= seq![
                        (old(self).first_run(), first),
                        (old(self).second_run(), second),
                    ]);
                } else {
                    assert(calls =~= seq![(old(self).first_run(), first)]);
                }
                let done = old(self)@.len() - self@.len();
                assert(self@ =~= old(self)@.skip(done));
                assert(writer.received() =~= old(writer).received() + old(self)@.take(done));
            }
            join_runs(first_len, second)
        }
    }
}

} // verus!
