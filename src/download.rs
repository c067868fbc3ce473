use vstd::prelude::*;

use crate::error::ReceiveError;

verus! {

/// The sizes that the cipher fixes: the largest ciphertext that is decrypted
/// in one shot, and the nonce lengths of the two kinds of ciphertext.
#[derive(Clone, Copy, Debug, PartialEq, Eq, Structural)]
pub struct CipherSizes {
    pub one_shot_max: usize,
    pub one_shot_nonce_len: usize,
    pub stream_nonce_len: usize,
}

impl CipherSizes {
    /// Either nonce fits in a buffer that holds more than a one-shot block.
    pub open spec fn wf(&self) -> bool {
        self.one_shot_nonce_len <= self.one_shot_max && self.stream_nonce_len
            <= self.one_shot_max
    }
}

/// How a downloaded body is decrypted.
#[derive(Clone, Copy, Debug, PartialEq, Eq, Structural)]
pub enum Strategy {
    /// The whole body is one authenticated block.
    OneShot,
    /// The body is a stream nonce followed by an authenticated stream.
    Stream,
}

/// The strategy for a body whose length is announced.
pub open spec fn known_size_strategy_spec(size: int, sizes: CipherSizes) -> Strategy {
    if size <= sizes.one_shot_max {
        Strategy::OneShot
    } else {
        Strategy::Stream
    }
}

/// The strategy for a body of unannounced length once `len` bytes are
/// buffered; `None` where the body is too short to hold any nonce.
pub open spec fn unknown_size_strategy(len: int, sizes: CipherSizes) -> Option<Strategy> {
    if len < sizes.one_shot_nonce_len {
        None
    } else if len <= sizes.one_shot_max {
        Some(Strategy::OneShot)
    } else {
        Some(Strategy::Stream)
    }
}

/// Picks the strategy for a body whose length the response announced.
pub fn known_size_strategy(size: u64, sizes: &CipherSizes) -> (r: Strategy)
    ensures
        r == known_size_strategy_spec(size as int, *sizes),
{
    if size <= sizes.one_shot_max as u64 {
        Strategy::OneShot
    } else {
        Strategy::Stream
    }
}

/// The first bytes of a body of unannounced length, collected until they
/// exceed one one-shot block or the body ends.
pub struct HeadBuffer {
    buffer: Vec<u8>,
    sizes: CipherSizes,
}

impl View for HeadBuffer {
    type V = Seq<u8>;

    closed spec fn view(&self) -> Seq<u8> {
        self.buffer@
    }
}

impl HeadBuffer {
    pub closed spec fn sizes(&self) -> CipherSizes {
        self.sizes
    }

    pub fn new(sizes: CipherSizes) -> (r: HeadBuffer)
        ensures
            r@ == Seq::<u8>::empty(),
            r.sizes() == sizes,
    {
        HeadBuffer { buffer: Vec::new(), sizes }
    }

    /// More than one one-shot block is buffered: no more chunks are needed.
    pub fn is_full(&self) -> (r: bool)
        ensures
            r == (self@.len() > self.sizes().one_shot_max),
    {
        self.buffer.len() > self.sizes.one_shot_max
    }

    /// Number of buffered bytes.
    pub fn len(&self) -> (r: usize)
        ensures
            r == self@.len(),
    {
        self.buffer.len()
    }

    /// Appends the next chunk of the body, in arrival order.
    pub fn absorb(&mut self, chunk: &[u8])
        requires
            old(self)@.len() + chunk@.len() <= usize::MAX,
        ensures
            final(self)@ == old(self)@ + chunk@,
            final(self).sizes() == old(self).sizes(),
    {
        let mut i: usize = 0;
        while i < chunk.len()
            invariant
                i <= chunk@.len(),
                self.buffer@ == old(self)@ + chunk@.subrange(0, i as int),
                self.sizes == old(self).sizes,
            decreases chunk@.len() - i,
        {
            self.buffer.push(chunk[i]);
            i = i + 1;
            proof {
                assert(self.buffer@ =~= old(self)@ + chunk@.subrange(0, i as int));
            }
        }
        proof {
            assert(chunk@.subrange(0, chunk@.len() as int) =~= chunk@);
        }
    }

    /// Decides how the body is decrypted from what was buffered: too short
    /// for a nonce is an incomplete download; one block at most is decrypted
    /// in one shot; anything longer yields the stream nonce and a reader that
    /// replays the rest of the buffer before the live body.
    pub fn finish(self) -> (r: Result<UnknownDownloadKind, ReceiveError>)
        requires
            self.sizes().wf(),
        ensures
            match unknown_size_strategy(self@.len() as int, self.sizes()) {
                None => r == Err::<UnknownDownloadKind, ReceiveError>(
                    ReceiveError::IncompleteDownload,
                ),
                Some(Strategy::OneShot) => r matches Ok(UnknownDownloadKind::OneShot(b)) && b@
                    == self@,
                Some(Strategy::Stream) => r matches Ok(UnknownDownloadKind::Stream(n, rd)) && n@
                    == self@.take(self.sizes().stream_nonce_len as int) && rd.pending()
                    == self@.skip(self.sizes().stream_nonce_len as int),
            },
    {
        let len = self.buffer.len();
        if len < self.sizes.one_shot_nonce_len {
            return Err(ReceiveError::IncompleteDownload);
        }
        if len <= self.sizes.one_shot_max {
            return Ok(UnknownDownloadKind::OneShot(self.buffer));
        }
        let nonce_len = self.sizes.stream_nonce_len;
        let mut nonce: Vec<u8> = Vec::new();
        let mut i: usize = 0;
        while i < nonce_len
            invariant
                i <= nonce_len,
                nonce_len <= self.buffer@.len(),
                nonce@ == self.buffer@.take(i as int),
            decreases nonce_len - i,
        {
            nonce.push(self.buffer[i]);
            i = i + 1;
            proof {
                assert(nonce@ =~= self.buffer@.take(i as int));
            }
        }
        let reader = ReplayReader { buffer: self.buffer, was_read: nonce_len };
        proof {
            assert(reader.pending() =~= self@.skip(nonce_len as int));
        }
        Ok(UnknownDownloadKind::Stream(nonce, reader))
    }
}

/// The decision for a body of unannounced length.
pub enum UnknownDownloadKind {
    /// The whole body, to be decrypted in one shot.
    OneShot(Vec<u8>),
    /// The stream nonce, and the bytes after it that were already buffered.
    Stream(Vec<u8>, ReplayReader),
}

/// The buffered bytes of a streamed body not yet handed to the decryptor.
/// Once they are used up, reading continues from the live body.
pub struct ReplayReader {
    buffer: Vec<u8>,
    was_read: usize,
}

impl ReplayReader {
    /// The replay cursor never passes the end of the buffer.
    #[verifier::type_invariant]
    spec fn inv(&self) -> bool {
        self.was_read <= self.buffer@.len()
    }

    /// The bytes still to replay, in order.
    pub closed spec fn pending(&self) -> Seq<u8> {
        self.buffer@.subrange(self.was_read as int, self.buffer@.len() as int)
    }

    /// Hands out up to `max` of the pending bytes. `None` means the buffer is
    /// used up and the caller reads from the live body; a request for zero
    /// bytes gets an empty piece.
    pub fn read_buffered(&mut self, max: usize) -> (r: Option<Vec<u8>>)
        ensures
            max == 0 ==> (r matches Some(b) && b@.len() == 0 && final(self).pending()
                == old(self).pending()),
            max > 0 && old(self).pending().len() == 0 ==> (r is None && final(self).pending()
                == old(self).pending()),
            max > 0 && old(self).pending().len() > 0 ==> (r matches Some(b) && b@.len() == (
            if max < old(self).pending().len() {
                max as int
            } else {
                old(self).pending().len() as int
            }) && b@ + final(self).pending() == old(self).pending()),
    {
        proof {
            use_type_invariant(&*self);
        }
        if max == 0 {
            return Some(Vec::new());
        }
        if self.was_read == self.buffer.len() {
            return None;
        }
        let available = self.buffer.len() - self.was_read;
        let n = if available < max {
            available
        } else {
            max
        };
        let start = self.was_read;
        let mut out: Vec<u8> = Vec::new();
        let mut i: usize = 0;
        while i < n
            invariant
                i <= n,
                start + n <= self.buffer@.len(),
                self.buffer@.len() <= usize::MAX,
                self.was_read == start,
                out@ == self.buffer@.subrange(start as int, start + i),
            decreases n - i,
        {
            out.push(self.buffer[start + i]);
            i = i + 1;
            proof {
                assert(out@ =~= self.buffer@.subrange(start as int, start + i));
            }
        }
        self.was_read = start + n;
        proof {
            assert(out@ + self.pending() =~= old(self).pending());
        }
        Some(out)
    }
}

/// The bytes of a list of chunks, one after another.
pub open spec fn flatten(chunks: Seq<Seq<u8>>) -> Seq<u8>
    decreases chunks.len(),
{
    if chunks.len() == 0 {
        Seq::empty()
    } else {
        flatten(chunks.drop_last()) + chunks.last()
    }
}

proof fn lemma_flatten_split(chunks: Seq<Seq<u8>>, k: int)
    requires
        0 <= k <= chunks.len(),
    ensures
        flatten(chunks) == flatten(chunks.take(k)) + flatten(chunks.skip(k)),
    decreases chunks.len(),
{
    if k == chunks.len() {
        assert(chunks.take(k) =~= chunks);
        assert(flatten(chunks.skip(k)) =~= Seq::<u8>::empty());
    } else {
        let p = chunks.drop_last();
        lemma_flatten_split(p, k);
        assert(p.take(k) =~= chunks.take(k));
        assert(chunks.skip(k).drop_last() =~= p.skip(k));
        assert(chunks.skip(k).last() == chunks.last());
    }
}

/// A streamed body decrypts the same however it was split into chunks: once
/// the first `k` chunks are buffered and hold more than one block, the nonce
/// taken from the buffer and the bytes the decryptor then reads (the rest of
/// the buffer, then the remaining chunks) are the body's first nonce-length
/// bytes and all of the rest, which is what the announced-length path reads.
pub proof fn lemma_stream_input_independent_of_chunking(
    chunks: Seq<Seq<u8>>,
    k: int,
    sizes: CipherSizes,
)
    requires
        sizes.wf(),
        0 <= k <= chunks.len(),
        flatten(chunks.take(k)).len() > sizes.one_shot_max,
    ensures
        unknown_size_strategy(flatten(chunks.take(k)).len() as int, sizes) == Some(
            Strategy::Stream,
        ),
        flatten(chunks.take(k)).take(sizes.stream_nonce_len as int) == flatten(chunks).take(
            sizes.stream_nonce_len as int,
        ),
        flatten(chunks.take(k)).skip(sizes.stream_nonce_len as int) + flatten(chunks.skip(k))
            == flatten(chunks).skip(sizes.stream_nonce_len as int),
{
    lemma_flatten_split(chunks, k);
    let head = flatten(chunks.take(k));
    let n = sizes.stream_nonce_len as int;
    assert((head + flatten(chunks.skip(k))).take(n) =~= head.take(n));
    assert(head.skip(n) + flatten(chunks.skip(k)) =~= (head + flatten(chunks.skip(k))).skip(n));
}

/// A body of at most one block that is long enough for a nonce is decrypted
/// in one shot whether its length was announced or not, and a head buffer
/// that received it as a single chunk holds exactly that body.
pub proof fn lemma_one_shot_paths_agree(payload: Seq<u8>, sizes: CipherSizes)
    requires
        sizes.one_shot_nonce_len <= payload.len() <= sizes.one_shot_max,
    ensures
        known_size_strategy_spec(payload.len() as int, sizes) == Strategy::OneShot,
        unknown_size_strategy((Seq::<u8>::empty() + payload).len() as int, sizes) == Some(
            Strategy::OneShot,
        ),
        Seq::<u8>::empty() + payload == payload,
{
    assert(Seq::<u8>::empty() + payload =~= payload);
}

} // verus!
