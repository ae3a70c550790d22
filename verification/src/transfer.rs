//! The arithmetic of moving one file: fixed-size chunks on the way up,
//! positioned writes on the way down.

use vstd::prelude::*;

verus! {

/// The largest number of bytes sent in one write request. The value is a
/// fixed parameter of the protocol.
pub const CHUNK_SIZE: u64 = 2_097_153;

/// A contiguous byte range of a file: where it starts and how long it is.
#[derive(Clone, Copy, Debug, PartialEq, Eq, Structural)]
pub struct Chunk {
    pub offset: u64,
    pub len: u64,
}

/// The smaller of two numbers.
pub open spec fn least(a: int, b: int) -> int {
    if a <= b {
        a
    } else {
        b
    }
}

/// The number of chunks that a file of `size` bytes is sent in: `size`
/// divided by the chunk size, rounded up.
pub open spec fn chunk_count(size: nat) -> nat {
    ((size + CHUNK_SIZE - 1) / (CHUNK_SIZE as int)) as nat
}

/// The byte at which chunk number `index` starts.
pub open spec fn chunk_offset(index: nat) -> nat {
    (index * CHUNK_SIZE) as nat
}

/// The length of chunk number `index` of a file of `size` bytes: a full
/// chunk, or what is left of the file where that is less.
pub open spec fn chunk_len(size: nat, index: nat) -> nat {
    least(CHUNK_SIZE as int, size - chunk_offset(index)) as nat
}

/// The chunks that a file of `size` bytes is sent in, in order.
pub open spec fn planned(size: nat) -> Seq<Chunk> {
    Seq::new(
        chunk_count(size),
        |i: int|
            Chunk {
                offset: chunk_offset(i as nat) as u64,
                len: chunk_len(size, i as nat) as u64,
            },
    )
}

/// The progress of one upload: the size that was declared for the remote
/// object and the number of bytes written to it so far.
#[derive(Clone, Copy, Debug)]
pub struct Upload {
    size: u64,
    sent: u64,
}

impl Upload {
    /// The declared size of the object.
    pub closed spec fn spec_size(&self) -> nat {
        self.size as nat
    }

    /// The number of bytes written so far.
    pub closed spec fn spec_sent(&self) -> nat {
        self.sent as nat
    }

    /// No more is ever written than was declared.
    #[verifier::type_invariant]
    spec fn within_size(self) -> bool {
        self.sent <= self.size
    }

    /// The number of bytes to read next: a full chunk, or what is left of
    /// the declared size where that is less.
    pub open spec fn spec_request(&self) -> nat {
        least(CHUNK_SIZE as int, self.spec_size() - self.spec_sent()) as nat
    }

    /// An upload of `size` bytes of which nothing has been written.
    pub fn new(size: u64) -> (upload: Upload)
        ensures
            upload.spec_size() == size,
            upload.spec_sent() == 0,
    {
        Upload { size, sent: 0 }
    }

    /// The declared size of the object.
    pub fn size(&self) -> (size: u64)
        ensures
            size == self.spec_size(),
    {
        self.size
    }

    /// The number of bytes written so far, which is the offset of the next
    /// chunk.
    pub fn sent(&self) -> (sent: u64)
        ensures
            sent == self.spec_sent(),
    {
        self.sent
    }

    /// The number of bytes to read next. Zero once the declared size has
    /// been written.
    pub fn request(&self) -> (len: u64)
        ensures
            len == self.spec_request(),
            len <= CHUNK_SIZE,
    {
        proof {
            use_type_invariant(self);
        }
        let left: u64 = self.size - self.sent;
        if left < CHUNK_SIZE {
            left
        } else {
            CHUNK_SIZE
        }
    }

    /// The number of bytes that count of a read of `read` bytes: a read
    /// cannot yield more than was asked for.
    pub open spec fn spec_accepted(&self, read: u64) -> nat {
        least(read as int, self.spec_request() as int) as nat
    }

    /// Takes note that `read` bytes were read from the file. A read of no
    /// bytes ends the upload: nothing is to be written. Otherwise the bytes
    /// read are to be written at the offset that was current, and the
    /// offset moves on by their number.
    pub fn advance(&mut self, read: u64) -> (chunk: Option<Chunk>)
        ensures
            final(self).spec_size() == old(self).spec_size(),
            final(self).spec_sent() <= final(self).spec_size(),
            final(self).spec_sent() == old(self).spec_sent() + old(self).spec_accepted(read),
            old(self).spec_accepted(read) == 0 ==> chunk is None,
            old(self).spec_accepted(read) > 0 ==> chunk == Some(
                Chunk {
                    offset: old(self).spec_sent() as u64,
                    len: old(self).spec_accepted(read) as u64,
                },
            ),
    {
        proof {
            use_type_invariant(&*self);
        }
        let asked: u64 = self.request();
        let taken: u64 = if read < asked {
            read
        } else {
            asked
        };
        if taken == 0 {
            return None;
        }
        let chunk = Chunk { offset: self.sent, len: taken };
        self.sent = self.sent + taken;
        Some(chunk)
    }
}

/// The chunks in which a file of `size` bytes goes up when every read
/// yields as many bytes as were asked for.
pub fn chunk_plan(size: u64) -> (plan: Vec<Chunk>)
    ensures
        plan@ == planned(size as nat),
{
    let mut upload = Upload::new(size);
    let mut plan: Vec<Chunk> = Vec::new();
    loop
        invariant
            upload.spec_size() == size,
            upload.spec_sent() == least(size as int, plan.len() * CHUNK_SIZE),
            plan.len() <= chunk_count(size as nat),
            forall|j: int| 0 <= j < plan.len() ==> plan@[j] == planned(size as nat)[j],
        ensures
            plan@ == planned(size as nat),
        decreases size - upload.spec_sent(),
    {
        let asked: u64 = upload.request();
        match upload.advance(asked) {
            None => {
                assert(plan@ =~= planned(size as nat));
                break ;
            },
            Some(chunk) => {
                plan.push(chunk);
            },
        }
    }
    plan
}

/// The progress of one download: the number of bytes received so far.
#[derive(Clone, Copy, Debug)]
pub struct Download {
    received: u64,
}

impl Download {
    /// The number of bytes received so far.
    pub closed spec fn spec_received(&self) -> nat {
        self.received as nat
    }

    /// A download of which nothing has been received.
    pub fn new() -> (download: Download)
        ensures
            download.spec_received() == 0,
    {
        Download { received: 0 }
    }

    /// The number of bytes received so far.
    pub fn received(&self) -> (received: u64)
        ensures
            received == self.spec_received(),
    {
        self.received
    }

    /// Takes note of a buffer of `len` bytes and gives the offset in the
    /// local file at which it is to be written: the number of bytes that
    /// came before it. `None`, and nothing noted, where the total would no
    /// longer fit in 64 bits.
    pub fn place(&mut self, len: u64) -> (offset: Option<u64>)
        ensures
            old(self).spec_received() + len <= u64::MAX ==> offset == Some(
                old(self).spec_received() as u64,
            ) && final(self).spec_received() == old(self).spec_received() + len,
            old(self).spec_received() + len > u64::MAX ==> offset is None
                && final(self).spec_received() == old(self).spec_received(),
    {
        if len > u64::MAX - self.received {
            return None;
        }
        let offset: u64 = self.received;
        self.received = self.received + len;
        Some(offset)
    }
}

/// The chunk size divides a file as a rounded-up division says: the chunks
/// are as many as the size divided by the chunk size, rounded up; each
/// starts where the one before it ended; all but the last are full; the
/// last holds the remainder of that division, or a full chunk where the
/// remainder is zero; and none is empty.
pub proof fn law_chunk_sizing(size: u64)
    ensures
        planned(size as nat).len() == chunk_count(size as nat),
        size == 0 ==> chunk_count(size as nat) == 0,
        size > 0 ==> (chunk_count(size as nat) - 1) * CHUNK_SIZE < size <= chunk_count(size as nat)
            * CHUNK_SIZE,
        forall|i: int|
            0 <= i < chunk_count(size as nat) ==> (#[trigger] planned(size as nat)[i]).offset == i
                * CHUNK_SIZE,
        forall|i: int|
            0 <= i < chunk_count(size as nat) - 1 ==> (#[trigger] planned(size as nat)[i]).len
                == CHUNK_SIZE,
        size > 0 ==> planned(size as nat).last().len == (if size % CHUNK_SIZE == 0 {
            CHUNK_SIZE
        } else {
            size % CHUNK_SIZE
        }),
        forall|i: int|
            0 <= i < chunk_count(size as nat) ==> (#[trigger] planned(size as nat)[i]).len > 0,
{
}

/// What a file holds after `data` was written into it at `offset`: the
/// bytes of `data` from `offset` on, the file's own bytes elsewhere, and
/// zero where the file had to grow to reach `offset`.
pub open spec fn written(file: Seq<u8>, offset: nat, data: Seq<u8>) -> Seq<u8> {
    Seq::new(
        if file.len() >= offset + data.len() {
            file.len()
        } else {
            offset + data.len()
        },
        |i: int|
            if offset <= i < offset + data.len() {
                data[i - offset]
            } else if i < file.len() {
                file[i]
            } else {
                0u8
            },
    )
}

/// A remote object of `size` bytes as it is declared, before any write.
pub open spec fn blank(size: nat) -> Seq<u8> {
    Seq::new(size, |i: int| 0u8)
}

/// The remote object after each of `chunks` was filled from the same
/// range of `data`, in order.
pub open spec fn sent_up(object: Seq<u8>, data: Seq<u8>, chunks: Seq<Chunk>) -> Seq<u8>
    decreases chunks.len(),
{
    if chunks.len() == 0 {
        object
    } else {
        let chunk = chunks.last();
        written(
            sent_up(object, data, chunks.drop_last()),
            chunk.offset as nat,
            data.subrange(chunk.offset as int, chunk.offset + chunk.len),
        )
    }
}

/// The remote object after the file `data` went up: declared with the
/// file's size, then written chunk by chunk.
pub open spec fn uploaded(data: Seq<u8>) -> Seq<u8> {
    sent_up(blank(data.len()), data, planned(data.len()))
}

/// The buffers of a stream written one after the other.
pub open spec fn stream_bytes(buffers: Seq<Seq<u8>>) -> Seq<u8>
    decreases buffers.len(),
{
    if buffers.len() == 0 {
        Seq::empty()
    } else {
        stream_bytes(buffers.drop_last()) + buffers.last()
    }
}

/// The local file after each of `buffers` was written at the offset that
/// [`Download::place`] gives it: the number of bytes that came before it.
pub open spec fn brought_down(buffers: Seq<Seq<u8>>) -> Seq<u8>
    decreases buffers.len(),
{
    if buffers.len() == 0 {
        Seq::empty()
    } else {
        written(
            brought_down(buffers.drop_last()),
            stream_bytes(buffers.drop_last()).len(),
            buffers.last(),
        )
    }
}

/// After the first `k` chunks went up, the object holds the file as far
/// as those chunks reach.
proof fn lemma_sent_up_prefix(data: Seq<u8>, k: nat)
    requires
        data.len() <= u64::MAX,
        k <= chunk_count(data.len()),
    ensures
        sent_up(blank(data.len()), data, planned(data.len()).take(k as int)).len() == data.len(),
        forall|i: int|
            0 <= i < least(data.len() as int, k * CHUNK_SIZE) ==> sent_up(
                blank(data.len()),
                data,
                planned(data.len()).take(k as int),
            )[i] == data[i],
    decreases k,
{
    let size = data.len();
    let chunks = planned(size).take(k as int);
    if k > 0 {
        lemma_sent_up_prefix(data, (k - 1) as nat);
        assert(chunks.drop_last() =~= planned(size).take(k - 1));
        assert(chunks.last() == planned(size)[k - 1]);
    }
}

/// A file that went up in chunks is held by the remote store byte for
/// byte.
pub proof fn law_upload_exact(data: Seq<u8>)
    requires
        data.len() <= u64::MAX,
    ensures
        uploaded(data) == data,
{
    let size = data.len();
    lemma_sent_up_prefix(data, chunk_count(size));
    assert(planned(size).take(chunk_count(size) as int) =~= planned(size));
    assert(uploaded(data) =~= data);
}

/// Buffers written each at the number of bytes that came before it make
/// up the stream, whatever its division into buffers.
pub proof fn law_download_exact(buffers: Seq<Seq<u8>>)
    ensures
        brought_down(buffers) == stream_bytes(buffers),
    decreases buffers.len(),
{
    if buffers.len() > 0 {
        law_download_exact(buffers.drop_last());
        assert(brought_down(buffers) =~= stream_bytes(buffers));
    }
}

/// A file sent up in chunks and then brought down as a stream of buffers,
/// from a store that hands out what it holds, arrives byte for byte.
pub proof fn law_round_trip(data: Seq<u8>, buffers: Seq<Seq<u8>>)
    requires
        data.len() <= u64::MAX,
        stream_bytes(buffers) == uploaded(data),
    ensures
        brought_down(buffers) == data,
{
    law_upload_exact(data);
    law_download_exact(buffers);
}

} // verus!
