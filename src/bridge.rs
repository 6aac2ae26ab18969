use byteorder::{ByteOrder, LittleEndian};
use std::sync::mpsc::{Receiver, SyncSender};
use vstd::prelude::*;

verus! {

/// Bytes in one serialized sample.
pub const SAMPLE_WIDTH: usize = 4;

/// Interleaved channels in one sample group.
pub const CHANNELS: usize = 2;

/// Smallest buffer a read accepts: one sample for every channel.
pub const MIN_READ: usize = SAMPLE_WIDTH * CHANNELS;

/// Chunks the channel holds between sink and source: none, so a chunk is
/// handed over only when the reader takes it.
pub const HANDOFF_CAPACITY: usize = 0;

#[verifier::external_type_specification]
#[verifier::external_body]
#[verifier::reject_recursive_types(T)]
pub struct ExReceiver<T>(Receiver<T>);

#[verifier::external_type_specification]
#[verifier::external_body]
#[verifier::reject_recursive_types(T)]
pub struct ExSyncSender<T>(SyncSender<T>);

/// The four bytes of a word, least significant first.
pub open spec fn le_word(w: u32) -> Seq<u8> {
    seq![(w & 0xff) as u8, ((w >> 8u32) & 0xff) as u8, ((w >> 16u32) & 0xff) as u8, ((w >> 24u32) & 0xff) as u8]
}

/// The little-endian byte form of a sequence of words.
pub open spec fn le_seq(s: Seq<u32>) -> Seq<u8>
    decreases s.len(),
{
    if s.len() == 0 {
        Seq::empty()
    } else {
        le_seq(s.drop_last()) + le_word(s.last())
    }
}

/// The byte stream that a sequence of chunks makes, one after another.
pub open spec fn stream_of(chunks: Seq<Seq<u32>>) -> Seq<u8>
    decreases chunks.len(),
{
    if chunks.len() == 0 {
        Seq::empty()
    } else {
        stream_of(chunks.drop_last()) + le_seq(chunks.last())
    }
}

pub open spec fn min_nat(a: int, b: int) -> int {
    if a <= b { a } else { b }
}

/// Relies on byteorder's `LittleEndian::write_u32_into`: every word is written
/// as its four bytes, least significant first, in order.
#[verifier::external_body]
fn le_bytes_of(src: &Vec<u32>) -> (r: Vec<u8>)
    requires
        src@.len() * 4 <= usize::MAX,
    ensures
        r@ == le_seq(src@),
{
    let mut dst = vec![0u8; src.len() * 4];
    LittleEndian::write_u32_into(src.as_slice(), dst.as_mut_slice());
    dst
}

/// Relies on std's `Receiver::recv`: it blocks until a chunk arrives, and gives
/// `None` once every sender is gone and nothing is left to take.
#[verifier::external_body]
fn receive_chunk(rx: &Receiver<Vec<u32>>) -> (r: Option<Vec<u32>>) {
    rx.recv().ok()
}

/// Relies on std's `mpsc::sync_channel`: a connected sender and receiver,
/// with room for `bound` chunks in between.
#[verifier::external_body]
fn open_channel(bound: usize) -> (r: (SyncSender<Vec<u32>>, Receiver<Vec<u32>>)) {
    std::sync::mpsc::sync_channel(bound)
}

/// Relies on std's `SyncSender::send`: it hands the chunk over, and fails only
/// when the receiving side is gone.
#[verifier::external_body]
fn send_chunk(tx: &SyncSender<Vec<u32>>, chunk: Vec<u32>) -> (r: bool) {
    tx.send(chunk).is_ok()
}

/// The consumer side has been torn down.
#[derive(Debug, Clone, Copy, PartialEq, Eq, Structural)]
pub enum Closed {
    Closed,
}

#[derive(Debug, Clone, Copy, PartialEq, Eq, Structural)]
pub enum PullError {
    /// The buffer cannot hold one sample of every channel.
    BufferTooSmall,
    /// A chunk whose byte form would not fit in the address space.
    ChunkTooLarge,
}

/// Producer end of the bridge: hands each chunk of samples (as the bit
/// patterns of 32-bit floats) to the reader, waiting until it is taken.
pub struct EmittedSink {
    sender: SyncSender<Vec<u32>>,
    submitted: Ghost<Seq<Seq<u32>>>,
}

impl EmittedSink {
    /// The channel end that chunks go into.
    pub closed spec fn sender(&self) -> SyncSender<Vec<u32>> {
        self.sender
    }

    /// Every chunk handed over so far, in order.
    pub closed spec fn submitted(&self) -> Seq<Seq<u32>> {
        self.submitted@
    }

    pub fn new(sender: SyncSender<Vec<u32>>) -> (r: EmittedSink)
        ensures
            r.sender() == sender,
            r.submitted() == Seq::<Seq<u32>>::empty(),
    {
        EmittedSink { sender, submitted: Ghost(Seq::empty()) }
    }

    /// Submits one chunk, waiting until the reader takes it. `Err(Closed)`
    /// means the reader is gone for good and the chunk was not handed over.
    pub fn write(&mut self, samples: Vec<u32>) -> (r: Result<(), Closed>)
        ensures
            final(self).sender() == old(self).sender(),
            r is Ok ==> final(self).submitted() == old(self).submitted().push(samples@),
            r is Err ==> r == Err::<(), Closed>(Closed::Closed) && final(self).submitted()
                == old(self).submitted(),
    {
        let ghost chunk = samples@;
        if send_chunk(&self.sender, samples) {
            self.submitted = Ghost(self.submitted@.push(chunk));
            Ok(())
        } else {
            Err(Closed::Closed)
        }
    }
}

/// Consumer end of the bridge: a non-seekable byte stream over the chunks
/// that the sink submits.
pub struct MyMediaSource {
    receiver: Receiver<Vec<u32>>,
    window: Vec<u8>,
    cursor: usize,
    closed: bool,
    received: Ghost<Seq<Seq<u32>>>,
    delivered: Ghost<Seq<u8>>,
}

impl MyMediaSource {
    /// Bytes of the current chunk not yet handed out.
    pub closed spec fn pending(&self) -> Seq<u8> {
        self.window@.subrange(self.cursor as int, self.window@.len() as int)
    }

    /// The channel end that chunks come from.
    pub closed spec fn receiver(&self) -> Receiver<Vec<u32>> {
        self.receiver
    }

    /// Every chunk taken from the channel so far, in order.
    pub closed spec fn received(&self) -> Seq<Seq<u32>> {
        self.received@
    }

    /// Every byte handed out so far, in order.
    pub closed spec fn delivered(&self) -> Seq<u8> {
        self.delivered@
    }

    /// The producer side has been seen to close.
    pub closed spec fn is_closed(&self) -> bool {
        self.closed
    }

    pub closed spec fn wf(&self) -> bool {
        &&& self.cursor <= self.window@.len()
        &&& self.delivered@ + self.pending() == stream_of(self.received@)
        &&& self.closed ==> self.pending().len() == 0
    }

    pub fn new(receiver: Receiver<Vec<u32>>) -> (r: MyMediaSource)
        ensures
            r.wf(),
            r.receiver() == receiver,
            r.pending() == Seq::<u8>::empty(),
            r.received() == Seq::<Seq<u32>>::empty(),
            r.delivered() == Seq::<u8>::empty(),
            !r.is_closed(),
    {
        let r = MyMediaSource {
            receiver,
            window: Vec::new(),
            cursor: 0,
            closed: false,
            received: Ghost(Seq::empty()),
            delivered: Ghost(Seq::empty()),
        };
        proof {
            assert(r.pending() =~= Seq::<u8>::empty());
            assert(r.delivered@ + r.pending() =~= stream_of(r.received@));
        }
        r
    }

    pub fn is_seekable(&self) -> (r: bool)
        ensures
            !r,
    {
        false
    }

    pub fn byte_len(&self) -> (r: Option<u64>)
        ensures
            r is None,
    {
        None
    }

    /// True when the current chunk has been handed out in full.
    pub fn is_drained(&self) -> (r: bool)
        requires
            self.wf(),
        ensures
            r == (self.pending().len() == 0),
    {
        self.cursor == self.window.len()
    }

    /// Takes in what the channel gave: a new chunk replaces the drained window,
    /// and `None` marks the producer as gone. A chunk whose byte form would
    /// not fit in the address space is refused and nothing changes.
    pub fn load_chunk(&mut self, incoming: Option<Vec<u32>>) -> (r: Result<(), PullError>)
        requires
            old(self).wf(),
            old(self).pending().len() == 0,
            !old(self).is_closed(),
        ensures
            final(self).wf(),
            final(self).receiver() == old(self).receiver(),
            final(self).delivered() == old(self).delivered(),
            r is Err <==> (incoming matches Some(c) && c@.len() * 4 > usize::MAX),
            r is Err ==> r == Err::<(), PullError>(PullError::ChunkTooLarge) && *final(self)
                == *old(self),
            r is Ok ==> match incoming {
                Some(c) => {
                    &&& final(self).received() == old(self).received().push(c@)
                    &&& final(self).pending() == le_seq(c@)
                    &&& !final(self).is_closed()
                },
                None => {
                    &&& final(self).received() == old(self).received()
                    &&& final(self).pending() == old(self).pending()
                    &&& final(self).is_closed()
                },
            },
    {
        match incoming {
            Some(c) => {
                if c.len() > usize::MAX / 4 {
                    return Err(PullError::ChunkTooLarge);
                }
                let bytes = le_bytes_of(&c);
                self.window = bytes;
                self.cursor = 0;
                self.received = Ghost(self.received@.push(c@));
                proof {
                    assert(self.received@.drop_last() =~= old(self).received@);
                    assert(old(self).delivered@ + old(self).pending() =~= old(self).delivered@);
                    assert(self.pending() =~= le_seq(c@));
                }
            },
            None => {
                self.closed = true;
            },
        }
        Ok(())
    }

    /// Copies as much of the window as fits into `buf`, from the cursor on.
    pub fn copy_out(&mut self, buf: &mut [u8]) -> (n: usize)
        requires
            old(self).wf(),
        ensures
            final(self).wf(),
            final(self).receiver() == old(self).receiver(),
            n == min_nat(old(buf)@.len() as int, old(self).pending().len() as int),
            final(buf)@.len() == old(buf)@.len(),
            final(buf)@.take(n as int) == old(self).pending().take(n as int),
            final(buf)@.skip(n as int) == old(buf)@.skip(n as int),
            final(self).pending() == old(self).pending().skip(n as int),
            final(self).delivered() == old(self).delivered() + old(self).pending().take(n as int),
            final(self).received() == old(self).received(),
            final(self).is_closed() == old(self).is_closed(),
    {
        let avail = self.window.len() - self.cursor;
        let n: usize = if buf.len() < avail { buf.len() } else { avail };
        let start = self.cursor;
        let mut i: usize = 0;
        assert(start + n <= self.window.len());
        while i < n
            invariant
                i <= n,
                start == old(self).cursor,
                start + n <= self.window@.len(),
                start + n <= usize::MAX,
                self.window@ == old(self).window@,
                n <= buf@.len(),
                buf@.len() == old(buf)@.len(),
                forall|k: int| 0 <= k < i ==> buf@[k] == self.window@[start + k],
                forall|k: int| i <= k < buf@.len() ==> buf@[k] == old(buf)@[k],
            decreases n - i,
        {
            buf[i] = self.window[start + i];
            i = i + 1;
        }
        self.cursor = start + n;
        self.delivered = Ghost(self.delivered@ + old(self).pending().take(n as int));
        proof {
            assert(buf@.take(n as int) =~= old(self).pending().take(n as int));
            assert(buf@.skip(n as int) =~= old(buf)@.skip(n as int));
            assert(self.pending() =~= old(self).pending().skip(n as int));
            assert(old(self).pending().take(n as int) + old(self).pending().skip(n as int)
                =~= old(self).pending());
            assert(self.delivered@ + self.pending() =~= old(self).delivered@ + old(self).pending());
        }
        n
    }

    /// Takes one chunk from the channel, waiting for it, into the drained
    /// window; marks the producer as gone if the channel is closed.
    pub fn fetch(&mut self) -> (r: Result<(), PullError>)
        requires
            old(self).wf(),
            old(self).pending().len() == 0,
            !old(self).is_closed(),
        ensures
            final(self).wf(),
            final(self).receiver() == old(self).receiver(),
            final(self).delivered() == old(self).delivered(),
            r is Ok ==> {
                ||| {
                    &&& final(self).received().len() == old(self).received().len() + 1
                    &&& final(self).received().drop_last() == old(self).received()
                    &&& final(self).pending() == le_seq(final(self).received().last())
                    &&& !final(self).is_closed()
                }
                ||| {
                    &&& final(self).received() == old(self).received()
                    &&& final(self).is_closed()
                }
            },
            r is Err ==> r == Err::<(), PullError>(PullError::ChunkTooLarge) && *final(self)
                == *old(self),
    {
        let incoming = receive_chunk(&self.receiver);
        let ghost got: Option<Seq<u32>> = match &incoming {
            Some(c) => Some(c@),
            None => None,
        };
        let r = self.load_chunk(incoming);
        proof {
            if let Some(c) = got {
                if r is Ok {
                    assert(self.received@.drop_last() =~= old(self).received@);
                }
            }
        }
        r
    }

    /// Fills `buf` from the window and gives the number of bytes written.
    /// `None` asks the caller to `fetch` the next chunk and read again: the
    /// window is drained and the producer is still there. `Ok(0)` comes only
    /// once the producer is gone and nothing is left.
    pub fn read(&mut self, buf: &mut [u8]) -> (r: Option<Result<usize, PullError>>)
        requires
            old(self).wf(),
        ensures
            final(self).wf(),
            final(self).receiver() == old(self).receiver(),
            final(self).received() == old(self).received(),
            final(self).is_closed() == old(self).is_closed(),
            r matches Some(Err(e)) ==> e == PullError::BufferTooSmall && old(buf)@.len() < MIN_READ,
            old(buf)@.len() < MIN_READ ==> r == Some(Err::<usize, PullError>(PullError::BufferTooSmall)),
            r is None <==> (old(buf)@.len() >= MIN_READ && old(self).pending().len() == 0
                && !old(self).is_closed()),
            !(r matches Some(Ok(_))) ==> *final(self) == *old(self) && final(buf)@ == old(buf)@,
            old(buf)@.len() >= MIN_READ && old(self).is_closed() ==> r == Some(
                Ok::<usize, PullError>(0),
            ),
            r matches Some(Ok(n)) ==> {
                let pending = old(self).pending();
                &&& n == min_nat(old(buf)@.len() as int, pending.len() as int)
                &&& (n == 0 <==> old(self).is_closed())
                &&& final(buf)@.len() == old(buf)@.len()
                &&& final(buf)@.take(n as int) == pending.take(n as int)
                &&& final(buf)@.skip(n as int) == old(buf)@.skip(n as int)
                &&& final(self).pending() == pending.skip(n as int)
                &&& final(self).delivered() == old(self).delivered() + pending.take(n as int)
            },
    {
        if buf.len() < MIN_READ {
            return Some(Err(PullError::BufferTooSmall));
        }
        if self.cursor == self.window.len() && !self.closed {
            return None;
        }
        let n = self.copy_out(buf);
        Some(Ok(n))
    }
}

/// A connected sink and source over a channel that holds no chunk in
/// between: each `write` waits until a read takes its chunk.
pub fn bridge() -> (r: (EmittedSink, MyMediaSource))
    ensures
        r.0.submitted() == Seq::<Seq<u32>>::empty(),
        r.1.wf(),
        r.1.pending() == Seq::<u8>::empty(),
        r.1.received() == Seq::<Seq<u32>>::empty(),
        r.1.delivered() == Seq::<u8>::empty(),
        !r.1.is_closed(),
{
    let (tx, rx) = open_channel(HANDOFF_CAPACITY);
    (EmittedSink::new(tx), MyMediaSource::new(rx))
}

/// Whatever reads were made, the bytes handed out followed by those still
/// waiting are exactly the little-endian form of the chunks taken, one after
/// another: nothing is lost, repeated or reordered. Once the producer is gone,
/// the bytes handed out are the whole stream.
pub proof fn lemma_stream_exact(src: &MyMediaSource)
    requires
        src.wf(),
    ensures
        src.delivered() + src.pending() == stream_of(src.received()),
        src.is_closed() ==> src.delivered() == stream_of(src.received()),
{
    if src.is_closed() {
        assert(src.delivered() + src.pending() =~= src.delivered());
    }
}

} // verus!
