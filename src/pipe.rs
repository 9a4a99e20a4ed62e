//! A bounded queue between two stages: two fixed buffers that the sender
//! and the receiver swap over a pair of channels of capacity one, filled
//! buffers forward and empty ones back.
use crate::buffer::Buffer;
use crate::error::{AnyError, AnyResult};
use crate::io::{Closable, Reader, Writer};
use std::sync::mpsc::{Receiver, SyncSender};
use vstd::prelude::*;

verus! {

#[verifier::external_type_specification]
#[verifier::external_body]
#[verifier::reject_recursive_types(T)]
pub struct ExSyncSender<T>(SyncSender<T>);

#[verifier::external_type_specification]
#[verifier::external_body]
#[verifier::reject_recursive_types(T)]
pub struct ExReceiver<T>(Receiver<T>);

/// Relies on `std::sync::mpsc::sync_channel(1)`: a channel that holds at
/// most one message in flight.
#[verifier::external_body]
fn channel_of_one<T>() -> (SyncSender<T>, Receiver<T>) {
    std::sync::mpsc::sync_channel(1)
}

/// Relies on `SyncSender::send`: `true` once the message is handed over,
/// `false` when the receiving side has gone.
#[verifier::external_body]
fn send<T>(sender: &SyncSender<T>, value: T) -> bool {
    match sender.send(value) {
        Ok(()) => true,
        Err(_) => false,
    }
}

/// Relies on `Receiver::recv`: the next message, or `None` once the
/// sending side has gone and nothing is left.
#[verifier::external_body]
fn receive<T>(receiver: &Receiver<T>) -> Option<T> {
    receiver.recv().ok()
}

/// A filled buffer and how many of its elements are valid.
type Filled<T, const SIZE: usize> = (Buffer<T, SIZE>, usize);

/// The sending side of a pipe.
#[verifier::reject_recursive_types(T)]
#[verifier::reject_recursive_types(SIZE)]
pub struct PipedWriter<T: Copy, const SIZE: usize> {
    sender: SyncSender<Filled<T, SIZE>>,
    receiver: Receiver<Buffer<T, SIZE>>,
    buffer: Option<Buffer<T, SIZE>>,
    index: usize,
    sent: Ghost<Seq<T>>,
}

/// The receiving side of a pipe.
#[verifier::reject_recursive_types(T)]
#[verifier::reject_recursive_types(SIZE)]
pub struct PipedReader<T: Copy, const SIZE: usize> {
    sender: SyncSender<Buffer<T, SIZE>>,
    receiver: Receiver<Filled<T, SIZE>>,
    buffer: Option<Buffer<T, SIZE>>,
    length: usize,
    index: usize,
    consumed: Ghost<Seq<T>>,
    received: Ghost<Seq<T>>,
}

/// A pipe of buffers of `SIZE` elements, each filled with `value` at first.
pub fn pipe<T: Copy, const SIZE: usize>(value: T) -> (r: (PipedWriter<T, SIZE>, PipedReader<T, SIZE>))
    requires
        SIZE > 0,
    ensures
        r.0.wf(),
        r.0.is_open(),
        r.0.pending() == Seq::<T>::empty(),
        r.0.sent() == Seq::<T>::empty(),
        r.1.wf(),
        r.1.consumed() == Seq::<T>::empty(),
        r.1.received() == Seq::<T>::empty(),
        r.1.buffered() == Seq::<T>::empty(),
{
    let (writer_sender, reader_receiver) = channel_of_one::<Filled<T, SIZE>>();
    let (reader_sender, writer_receiver) = channel_of_one::<Buffer<T, SIZE>>();
    let writer = PipedWriter {
        sender: writer_sender,
        receiver: writer_receiver,
        buffer: Some(Buffer::new(value)),
        index: 0,
        sent: Ghost(Seq::empty()),
    };
    let reader = PipedReader {
        sender: reader_sender,
        receiver: reader_receiver,
        buffer: Some(Buffer::new(value)),
        length: 0,
        index: 0,
        consumed: Ghost(Seq::empty()),
        received: Ghost(Seq::empty()),
    };
    assert(writer.pending() =~= Seq::<T>::empty());
    assert(reader.buffered() =~= Seq::<T>::empty());
    (writer, reader)
}

impl<T: Copy, const SIZE: usize> PipedWriter<T, SIZE> {
    /// Whether the writer still has a buffer; it loses it when the reader
    /// has gone.
    pub closed spec fn is_open(&self) -> bool {
        self.buffer is Some
    }

    /// The elements written since the last buffer was sent.
    pub closed spec fn pending(&self) -> Seq<T> {
        match self.buffer {
            Some(b) => b@.subrange(0, self.index as int),
            None => Seq::empty(),
        }
    }

    /// The elements sent to the reader so far, in order.
    pub closed spec fn sent(&self) -> Seq<T> {
        self.sent@
    }

    /// An open writer holds a full-size buffer that is not yet full.
    pub closed spec fn wf(&self) -> bool {
        &&& SIZE > 0
        &&& match self.buffer {
            Some(b) => b@.len() == SIZE && self.index < SIZE,
            None => self.index == 0,
        }
    }

    /// Takes in what the reader handed back after a send: `None` when the
    /// reader has gone, or an empty buffer. A buffer of `SIZE` elements
    /// becomes the writer's buffer; anything else closes the writer.
    fn accept_empty(&mut self, received: Option<Buffer<T, SIZE>>) -> (r: AnyResult<()>)
        requires
            old(self).buffer is None,
            old(self).index == 0,
            SIZE > 0,
        ensures
            final(self).wf(),
            final(self).sent() == old(self).sent(),
            (r is Ok) == (received matches Some(b) && b@.len() == SIZE),
            r is Ok ==> final(self).is_open() && final(self).pending() == Seq::<T>::empty(),
            r is Err ==> !final(self).is_open() && (r matches Err(AnyError::BrokenPipe)),
    {
        match received {
            Some(empty) => {
                if empty.len() != SIZE {
                    return Err(AnyError::BrokenPipe);
                }
                self.buffer = Some(empty);
                self.index = 0;
                assert(self.pending() =~= Seq::<T>::empty());
                Ok(())
            },
            None => Err(AnyError::BrokenPipe),
        }
    }

    /// Sends the filled part of `buffer` and takes an empty buffer back.
    fn sync(&mut self, buffer: Buffer<T, SIZE>, length: usize) -> (r: AnyResult<()>)
        requires
            old(self).buffer is None,
            old(self).index == 0,
            SIZE > 0,
            0 < length <= SIZE,
            buffer@.len() == SIZE,
        ensures
            final(self).wf(),
            r is Ok ==> final(self).is_open() && final(self).pending() == Seq::<T>::empty()
                && final(self).sent() == old(self).sent() + buffer@.subrange(0, length as int),
            r is Err ==> !final(self).is_open() && final(self).sent() == old(self).sent()
                && (r matches Err(AnyError::BrokenPipe)),
    {
        let ghost filled = buffer@.subrange(0, length as int);
        if !send(&self.sender, (buffer, length)) {
            return Err(AnyError::BrokenPipe);
        }
        let received = receive(&self.receiver);
        let r = self.accept_empty(received);
        if r.is_ok() {
            self.sent = Ghost(self.sent@ + filled);
        }
        r
    }

    /// Writes one element; a buffer that becomes full is sent.
    pub fn write(&mut self, value: T) -> (r: AnyResult<()>)
        requires
            old(self).wf(),
        ensures
            final(self).wf(),
            !old(self).is_open() ==> (r matches Err(AnyError::BrokenPipe)) && !final(self).is_open()
                && final(self).sent() == old(self).sent(),
            r is Ok ==> final(self).is_open() && final(self).sent() + final(self).pending()
                == old(self).sent() + old(self).pending().push(value),
            r is Ok && old(self).pending().len() + 1 < SIZE ==> final(self).sent() == old(self).sent(),
            r is Err ==> (r matches Err(AnyError::BrokenPipe)) && !final(self).is_open(),
            old(self).is_open() && old(self).pending().len() + 1 < SIZE ==> r is Ok,
    {
        match self.buffer.take() {
            None => Err(AnyError::BrokenPipe),
            Some(mut buffer) => {
                let ghost before = buffer@.subrange(0, self.index as int);
                buffer.set(self.index, value);
                let length = self.index + 1;
                assert(buffer@.subrange(0, length as int) =~= before.push(value));
                if length == SIZE {
                    self.index = 0;
                    let r = self.sync(buffer, length);
                    proof {
                        if r is Ok {
                            assert(self.sent() + self.pending() =~= self.sent());
                        }
                    }
                    r
                } else {
                    self.buffer = Some(buffer);
                    self.index = length;
                    Ok(())
                }
            },
        }
    }

    /// Writes every element of `values` in order.
    pub fn write_all(&mut self, values: &[T]) -> (r: AnyResult<()>)
        requires
            old(self).wf(),
        ensures
            final(self).wf(),
            r is Ok ==> final(self).is_open() && final(self).sent() + final(self).pending()
                == old(self).sent() + old(self).pending() + values@,
            r is Err ==> (r matches Err(AnyError::BrokenPipe)) && !final(self).is_open(),
            !old(self).is_open() ==> (r matches Err(AnyError::BrokenPipe)),
            old(self).is_open() && old(self).pending().len() + values@.len() < SIZE ==> r is Ok
                && final(self).sent() == old(self).sent(),
    {
        let ghost short = old(self).is_open() && old(self).pending().len() + values@.len() < SIZE;
        let mut i: usize = 0;
        while i < values.len()
            invariant
                self.wf(),
                0 <= i <= values@.len(),
                self.is_open() || i == 0,
                i == 0 ==> self.is_open() == old(self).is_open(),
                !old(self).is_open() ==> !self.is_open(),
                short == (old(self).is_open() && old(self).pending().len() + values@.len() < SIZE),
                self.sent() + self.pending() == old(self).sent() + old(self).pending() + values@.subrange(0, i as int),
                short ==> self.is_open() && self.sent() == old(self).sent()
                    && self.pending().len() == old(self).pending().len() + i,
            decreases values@.len() - i,
        {
            let ghost (sent0, pending0) = (self.sent(), self.pending());
            let r = self.write(values[i]);
            if r.is_err() {
                return r;
            }
            assert(sent0 + pending0.push(values@[i as int]) =~= (sent0 + pending0).push(values@[i as int]));
            assert(values@.subrange(0, i + 1) =~= values@.subrange(0, i as int).push(values@[i as int]));
            assert((old(self).sent() + old(self).pending() + values@.subrange(0, i as int)).push(values@[i as int])
                =~= old(self).sent() + old(self).pending() + values@.subrange(0, i + 1));
            i = i + 1;
        }
        assert(values@.subrange(0, values@.len() as int) =~= values@);
        if !self.is_open_exec() {
            return Err(AnyError::BrokenPipe);
        }
        Ok(())
    }

    /// Whether the writer is still open.
    pub fn is_open_exec(&self) -> (r: bool)
        ensures
            r == self.is_open(),
    {
        self.buffer.is_some()
    }

    /// Sends the pending elements, if there are any, as a partly filled
    /// buffer.
    pub fn flush(&mut self) -> (r: AnyResult<()>)
        requires
            old(self).wf(),
        ensures
            final(self).wf(),
            r is Ok ==> final(self).sent() == old(self).sent() + old(self).pending()
                && final(self).pending().len() == 0 && final(self).is_open() == old(self).is_open(),
            old(self).pending().len() == 0 ==> r is Ok,
            r is Err ==> (r matches Err(AnyError::BrokenPipe)) && !final(self).is_open()
                && final(self).sent() == old(self).sent(),
    {
        if self.index == 0 {
            assert(self.sent() + self.pending() =~= self.sent());
            return Ok(());
        }
        match self.buffer.take() {
            Some(buffer) => {
                let length = self.index;
                self.index = 0;
                self.sync(buffer, length)
            },
            None => Ok(()),
        }
    }

    /// Sends what is pending, as `flush` does, and ends the writing side.
    pub fn close(self) -> (r: AnyResult<()>)
        requires
            self.wf(),
        ensures
            self.pending().len() == 0 ==> r is Ok,
    {
        let mut this = self;
        this.flush()
    }
}

impl<T: Copy, const SIZE: usize> PipedReader<T, SIZE> {
    /// The elements read so far, in order.
    pub closed spec fn consumed(&self) -> Seq<T> {
        self.consumed@
    }

    /// The elements received from the writer so far, in order.
    pub closed spec fn received(&self) -> Seq<T> {
        self.received@
    }

    /// The received elements not yet read.
    pub closed spec fn buffered(&self) -> Seq<T> {
        match self.buffer {
            Some(b) => b@.subrange(self.index as int, self.length as int),
            None => Seq::empty(),
        }
    }

    /// Whether the writer may still send; once it has gone the reader has
    /// no buffer.
    pub closed spec fn is_open(&self) -> bool {
        self.buffer is Some
    }

    /// The read position lies within the valid part of a full-size buffer,
    /// and what was received is what was read followed by what is buffered.
    pub closed spec fn wf(&self) -> bool {
        &&& self.index <= self.length <= SIZE
        &&& match self.buffer {
            Some(b) => b@.len() == SIZE,
            None => self.index == self.length,
        }
        &&& self.received@ == self.consumed@ + self.buffered()
    }

    /// Takes in what the channel delivered once the current buffer was used
    /// up: `None` when the writer has gone, or a filled buffer with the
    /// count of its valid elements. A buffer of `SIZE` elements with 1 to
    /// `SIZE` valid ones becomes the current buffer; anything else ends the
    /// stream.
    fn accept_filled(&mut self, received: Option<Filled<T, SIZE>>) -> (r: bool)
        requires
            old(self).wf(),
            old(self).buffer is None,
        ensures
            final(self).wf(),
            final(self).consumed() == old(self).consumed(),
            r == (received matches Some((b, n)) && 0 < n <= SIZE && b@.len() == SIZE),
            r ==> final(self).is_open() && final(self).received() == old(self).received()
                + final(self).buffered() && match received {
                Some((b, n)) => final(self).buffered() == b@.subrange(0, n as int),
                None => false,
            },
            !r ==> !final(self).is_open() && final(self).received() == old(self).received(),
    {
        match received {
            Some((new_buffer, length)) => {
                if 0 < length && length <= SIZE && new_buffer.len() == SIZE {
                    let ghost fresh = new_buffer@.subrange(0, length as int);
                    self.buffer = Some(new_buffer);
                    self.length = length;
                    self.index = 0;
                    self.received = Ghost(self.received@ + fresh);
                    assert(self.buffered() =~= fresh);
                    true
                } else {
                    self.length = self.index;
                    false
                }
            },
            None => {
                self.length = self.index;
                false
            },
        }
    }

    /// Once the current buffer is used up, returns it and receives the next.
    fn sync(&mut self)
        requires
            old(self).wf(),
        ensures
            final(self).wf(),
            final(self).consumed() == old(self).consumed(),
            final(self).is_open() ==> final(self).index < final(self).length,
            old(self).buffered().len() > 0 ==> *final(self) == *old(self),
            final(self).received().len() >= old(self).received().len(),
            final(self).received().subrange(0, old(self).received().len() as int) == old(self).received(),
    {
        if self.index < self.length {
            return;
        }
        match self.buffer.take() {
            None => {},
            Some(old_buffer) => {
                let ghost before = self.received@;
                self.length = self.index;
                assert(self.buffered() =~= Seq::<T>::empty());
                let received = receive(&self.receiver);
                if self.accept_filled(received) {
                    let _ = send(&self.sender, old_buffer);
                }
                assert(self.received@.subrange(0, before.len() as int) =~= before);
            },
        }
    }

    /// Reads the next element, or `None` once the writer has closed and
    /// everything it sent has been read. A buffered element is always
    /// returned without waiting.
    pub fn read(&mut self) -> (r: AnyResult<Option<T>>)
        requires
            old(self).wf(),
        ensures
            final(self).wf(),
            r is Ok,
            r matches Ok(Some(v)) ==> final(self).consumed() == old(self).consumed().push(v),
            r matches Ok(None) ==> final(self).consumed() == old(self).consumed() && !final(self).is_open()
                && final(self).received() == old(self).received(),
            old(self).buffered().len() > 0 ==> (r matches Ok(Some(v)) && v == old(self).buffered()[0]
                && final(self).buffered() == old(self).buffered().drop_first()
                && final(self).received() == old(self).received()),
            final(self).received().len() >= old(self).received().len(),
            final(self).received().subrange(0, old(self).received().len() as int) == old(self).received(),
    {
        self.sync();
        match &self.buffer {
            None => Ok(None),
            Some(buffer) => {
                let ghost before = self.buffered();
                let value = buffer.get(self.index);
                self.index = self.index + 1;
                self.consumed = Ghost(self.consumed@.push(value));
                assert(self.buffered() =~= before.drop_first());
                assert(self.consumed@ + self.buffered() =~= old(self).consumed@ + before);
                Ok(Some(value))
            },
        }
    }

    /// Reads every buffered element at once, receiving the next buffer
    /// first if none is left; `None` once the writer has closed and
    /// everything it sent has been read.
    pub fn read_chunk(&mut self) -> (r: AnyResult<Option<Vec<T>>>)
        requires
            old(self).wf(),
        ensures
            final(self).wf(),
            r is Ok,
            r matches Ok(Some(v)) ==> v@.len() > 0 && final(self).consumed() == old(self).consumed() + v@
                && final(self).buffered().len() == 0,
            r matches Ok(None) ==> final(self).consumed() == old(self).consumed() && !final(self).is_open(),
            old(self).buffered().len() > 0 ==> (r matches Ok(Some(v)) && v@ == old(self).buffered()),
    {
        self.sync();
        match &self.buffer {
            None => Ok(None),
            Some(buffer) => {
                let ghost before = self.buffered();
                let mut chunk: Vec<T> = Vec::new();
                let mut i: usize = self.index;
                while i < self.length
                    invariant
                        self.index <= i <= self.length <= SIZE,
                        buffer@.len() == SIZE,
                        before == buffer@.subrange(self.index as int, self.length as int),
                        chunk@ == buffer@.subrange(self.index as int, i as int),
                    decreases self.length - i,
                {
                    chunk.push(buffer.get(i));
                    assert(buffer@.subrange(self.index as int, i + 1) =~= buffer@.subrange(
                        self.index as int,
                        i as int,
                    ).push(buffer@[i as int]));
                    i = i + 1;
                }
                self.index = self.length;
                self.consumed = Ghost(self.consumed@ + chunk@);
                assert(self.buffered() =~= Seq::<T>::empty());
                assert(self.consumed@ + self.buffered() =~= old(self).consumed@ + before);
                Ok(Some(chunk))
            },
        }
    }

    /// Ends the reading side; buffers in flight are dropped.
    pub fn close(self) -> (r: AnyResult<()>)
        ensures
            r is Ok,
    {
        Ok(())
    }
}

impl<T: Copy, const SIZE: usize> Writer<T> for PipedWriter<T, SIZE> {
    open spec fn writable(&self) -> bool {
        self.wf()
    }

    fn write(&mut self, value: T) -> (r: AnyResult<()>) {
        PipedWriter::write(self, value)
    }
}

impl<T: Copy, const SIZE: usize> Closable<()> for PipedWriter<T, SIZE> {
    open spec fn closable(&self) -> bool {
        self.wf()
    }

    fn close(self) -> (r: AnyResult<()>) {
        PipedWriter::close(self)
    }
}

impl<T: Copy, const SIZE: usize> Reader<T> for PipedReader<T, SIZE> {
    open spec fn readable(&self) -> bool {
        self.wf()
    }

    fn read(&mut self) -> (r: AnyResult<Option<T>>) {
        PipedReader::read(self)
    }
}

impl<T: Copy, const SIZE: usize> Closable<()> for PipedReader<T, SIZE> {
    open spec fn closable(&self) -> bool {
        true
    }

    fn close(self) -> (r: AnyResult<()>) {
        PipedReader::close(self)
    }
}

} // verus!
