use vstd::prelude::*;

use crate::rpc::{ApiError, BodyType, RequestNo, Response, RpcType, TransportError};

verus! {

/// The largest payload that one response frame may carry.
pub const MAX_RPC_BODY_LEN: usize = 65536;

/// The number of chunks of at most `m` bytes that `len` bytes take:
/// the ceiling of `len / m`.
pub open spec fn chunk_count(len: nat, m: nat) -> nat {
    if m == 0 {
        0
    } else {
        ((len + m - 1) as int / m as int) as nat
    }
}

/// The `i`-th chunk of `data`: the bytes from `i * m` up to `(i + 1) * m`,
/// or up to the end of `data` where that comes first.
pub open spec fn chunk_at(data: Seq<u8>, m: nat, i: int) -> Seq<u8> {
    let start = i * m;
    let end = if start + m < data.len() {
        start + m
    } else {
        data.len() as int
    };
    data.subrange(start, end)
}

/// `data` cut into consecutive chunks of `m` bytes, the last one holding
/// the rest.
pub open spec fn chunks(data: Seq<u8>, m: nat) -> Seq<Seq<u8>> {
    Seq::new(chunk_count(data.len(), m), |i: int| chunk_at(data, m, i))
}

/// A chunk starts before the end of the data exactly when its index is below
/// the chunk count.
proof fn lemma_chunk_start(len: nat, m: nat, k: nat)
    requires
        m > 0,
    ensures
        (k * m < len) == (k < chunk_count(len, m)),
{
    let c = chunk_count(len, m) as int;
    let n = (len + m - 1) as int;
    vstd::arithmetic::div_mod::lemma_fundamental_div_mod(n, m as int);
    let r = n % m as int;
    assert(n == m * c + r);
    assert(0 <= r < m);
    if k < c {
        assert(k * m <= (c - 1) * m) by (nonlinear_arith)
            requires
                k <= c - 1,
                m > 0,
        ;
        assert((c - 1) * m == m * c - m) by (nonlinear_arith);
    } else {
        assert(k * m >= c * m) by (nonlinear_arith)
            requires
                k >= c,
                m > 0,
        ;
        assert(c * m == m * c) by (nonlinear_arith);
    }
}

/// The first `k` chunks, put together, are the bytes of `data` before the
/// start of chunk `k`.
proof fn lemma_chunks_prefix(data: Seq<u8>, m: nat, k: nat)
    requires
        m > 0,
        k <= chunk_count(data.len(), m),
    ensures
        chunks(data, m).take(k as int).flatten() == data.subrange(
            0,
            if k * m < data.len() {
                (k * m) as int
            } else {
                data.len() as int
            },
        ),
    decreases k,
{
    let cs = chunks(data, m);
    if k == 0 {
        assert(cs.take(0) =~= Seq::<Seq<u8>>::empty());
        assert(data.subrange(0, 0) =~= Seq::<u8>::empty());
    } else {
        let p = (k - 1) as nat;
        lemma_chunks_prefix(data, m, p);
        lemma_chunk_start(data.len(), m, p);
        assert((p + 1) * m == p * m + m) by (nonlinear_arith);
        assert(cs.take(k as int) =~= cs.take(p as int).push(cs[p as int]));
        cs.take(p as int).lemma_flatten_push(cs[p as int]);
        assert(cs.take(k as int).flatten() =~= data.subrange(
            0,
            if k * m < data.len() {
                (k * m) as int
            } else {
                data.len() as int
            },
        ));
    }
}

/// Chunking a payload of `L` bytes with frames of at most `m > 0` bytes gives
/// `ceil(L / m)` chunks, none when the payload is empty; every chunk but the
/// last holds exactly `m` bytes, the last between 1 and `m`; and the chunks,
/// put together in order, give the payload back.
pub proof fn lemma_chunking(data: Seq<u8>, m: nat)
    requires
        m > 0,
    ensures
        chunks(data, m).len() == (data.len() + m - 1) as int / m as int,
        data.len() == 0 ==> chunks(data, m).len() == 0,
        forall|i: int|
            0 <= i < chunks(data, m).len() - 1 ==> (#[trigger] chunks(data, m)[i]).len() == m,
        chunks(data, m).len() > 0 ==> 1 <= chunks(data, m).last().len() <= m,
        chunks(data, m).flatten() == data,
{
    let cs = chunks(data, m);
    let c = chunk_count(data.len(), m);
    if data.len() == 0 {
        assert((m - 1) as int / m as int == 0) by (nonlinear_arith)
            requires
                m > 0,
        ;
    }
    assert forall|i: int| 0 <= i < cs.len() - 1 implies (#[trigger] cs[i]).len() == m by {
        lemma_chunk_start(data.len(), m, (i + 1) as nat);
        assert((i + 1) * m == i * m + m) by (nonlinear_arith);
        lemma_chunk_start(data.len(), m, i as nat);
    }
    if c > 0 {
        let l = (c - 1) as nat;
        lemma_chunk_start(data.len(), m, l);
        lemma_chunk_start(data.len(), m, c);
        assert((l + 1) * m == l * m + m) by (nonlinear_arith);
    }
    lemma_chunks_prefix(data, m, c);
    lemma_chunk_start(data.len(), m, c);
    assert(cs.take(c as int) =~= cs);
    assert(data.subrange(0, data.len() as int) =~= data);
}

/// Where the chunk that starts at `offset` ends.
fn chunk_end(len: usize, offset: usize, m: usize) -> (r: usize)
    requires
        offset < len,
        m > 0,
    ensures
        offset < r <= len,
        r == if offset + m < len {
            offset + m
        } else {
            len as int
        },
{
    if len - offset > m {
        offset + m
    } else {
        len
    }
}

/// Cuts `data` into consecutive chunks of `max_len` bytes, the last one
/// holding the rest; empty data gives no chunk.
pub fn split_chunks(data: &[u8], max_len: usize) -> (r: Vec<Vec<u8>>)
    requires
        max_len > 0,
    ensures
        r@.map_values(|c: Vec<u8>| c@) == chunks(data@, max_len as nat),
{
    let ghost m = max_len as nat;
    let ghost len = data@.len();
    let mut out: Vec<Vec<u8>> = Vec::new();
    let mut offset: usize = 0;
    let ghost mut k: nat = 0;
    while offset < data.len()
        invariant
            m == max_len > 0,
            len == data@.len(),
            k <= chunk_count(len, m),
            out@.len() == k,
            offset == if k * m < len {
                k * m
            } else {
                len
            },
            forall|j: int| 0 <= j < k ==> #[trigger] out@[j]@ == chunk_at(data@, m, j),
        decreases len - offset,
    {
        proof {
            lemma_chunk_start(len, m, k);
        }
        let end = chunk_end(data.len(), offset, max_len);
        let piece = vstd::slice::slice_subrange(data, offset, end);
        out.push(vstd::slice::slice_to_vec(piece));
        proof {
            assert((k + 1) * m == k * m + m) by (nonlinear_arith);
            k = k + 1;
        }
        offset = end;
    }
    proof {
        lemma_chunk_start(len, m, k);
    }
    assert(out@.map_values(|c: Vec<u8>| c@) =~= chunks(data@, m));
    out
}

/// Where a chunked response stands.
#[derive(Debug, Clone, Copy, PartialEq, Eq, Structural)]
pub enum StreamState {
    /// More frames are owed.
    Open,
    /// Every chunk and the end-of-stream marker were written.
    Completed,
    /// A write failed; nothing more is sent.
    Aborted,
}

/// A frame of a chunked response, to be handed to the transport.
#[derive(Debug, PartialEq)]
pub enum StreamFrame {
    /// A binary data chunk.
    Chunk(Response),
    /// The end-of-stream marker for the given request.
    End(RequestNo),
}

/// The `i`-th frame of the complete response for `data`: a data chunk, or,
/// after the last chunk, the end-of-stream marker (`None`).
pub open spec fn frame_at(data: Seq<u8>, i: int) -> Option<Seq<u8>> {
    if i < chunk_count(data.len(), MAX_RPC_BODY_LEN as nat) {
        Some(chunk_at(data, MAX_RPC_BODY_LEN as nat, i))
    } else {
        None
    }
}

/// Every frame of the complete response for `data`, in order.
pub open spec fn complete_frames(data: Seq<u8>) -> Seq<Option<Seq<u8>>> {
    chunks(data, MAX_RPC_BODY_LEN as nat).map_values(|c: Seq<u8>| Some(c)).push(None)
}

/// Whether `f` is the frame for request `req_no` that carries `e`.
pub open spec fn is_frame(f: StreamFrame, req_no: RequestNo, e: Option<Seq<u8>>) -> bool {
    match e {
        Some(c) => match f {
            StreamFrame::Chunk(r) => {
                &&& r.req_no == req_no
                &&& r.rpc_type == RpcType::Source
                &&& r.body_type == BodyType::Binary
                &&& r.body@ == c
            },
            StreamFrame::End(_) => false,
        },
        None => match f {
            StreamFrame::Chunk(_) => false,
            StreamFrame::End(n) => n == req_no,
        },
    }
}

/// The sending of a binary payload as a stream of bounded chunks followed by
/// an end-of-stream marker, one frame at a time: the caller writes the frame
/// that `next_frame` gives and reports the outcome to `on_written`.
pub struct BlobStream {
    req_no: RequestNo,
    data: Vec<u8>,
    offset: usize,
    state: StreamState,
    sent: Ghost<Seq<Option<Seq<u8>>>>,
}

impl BlobStream {
    /// The request that the stream answers.
    pub closed spec fn spec_req_no(&self) -> RequestNo {
        self.req_no
    }

    /// The payload being streamed.
    pub closed spec fn spec_payload(&self) -> Seq<u8> {
        self.data@
    }

    /// Where the stream stands.
    pub closed spec fn spec_state(&self) -> StreamState {
        self.state
    }

    /// The frames written so far, in order: `Some` for a data chunk, `None`
    /// for the end-of-stream marker.
    pub closed spec fn spec_sent(&self) -> Seq<Option<Seq<u8>>> {
        self.sent@
    }

    /// The frames written are the first frames of the complete response, in
    /// order; the stream has completed exactly when all of them, end marker
    /// included, were written; and the offset is where the next chunk starts.
    pub closed spec fn wf(&self) -> bool {
        let len = self.data@.len();
        let k = self.sent@.len();
        let m = MAX_RPC_BODY_LEN as nat;
        &&& k <= chunk_count(len, m) + 1
        &&& forall|i: int| 0 <= i < k ==> #[trigger] self.sent@[i] == frame_at(self.data@, i)
        &&& (self.state == StreamState::Completed) == (k == chunk_count(len, m) + 1)
        &&& self.offset == if k * m < len {
            k * m
        } else {
            len
        }
    }

    /// A stream of `data` in answer to request `req_no`, nothing sent yet.
    pub fn new(req_no: RequestNo, data: Vec<u8>) -> (r: Self)
        ensures
            r.wf(),
            r.spec_req_no() == req_no,
            r.spec_payload() == data@,
            r.spec_state() == StreamState::Open,
            r.spec_sent() == Seq::<Option<Seq<u8>>>::empty(),
    {
        let r = BlobStream {
            req_no,
            data,
            offset: 0,
            state: StreamState::Open,
            sent: Ghost(Seq::empty()),
        };
        proof {
            lemma_chunk_start(r.data@.len(), MAX_RPC_BODY_LEN as nat, 0);
        }
        r
    }

    /// Where the stream stands.
    pub fn state(&self) -> (r: StreamState)
        ensures
            r == self.spec_state(),
    {
        self.state
    }

    /// The frame to write next, or `None` once the stream has completed or
    /// been aborted.
    pub fn next_frame(&self) -> (r: Option<StreamFrame>)
        requires
            self.wf(),
        ensures
            self.spec_state() == StreamState::Open ==> (r matches Some(f) && is_frame(
                f,
                self.spec_req_no(),
                frame_at(self.spec_payload(), self.spec_sent().len() as int),
            )),
            self.spec_state() != StreamState::Open ==> r is None,
    {
        if self.state != StreamState::Open {
            return None;
        }
        let ghost k = self.sent@.len();
        proof {
            lemma_chunk_start(self.data@.len(), MAX_RPC_BODY_LEN as nat, k);
        }
        if self.offset < self.data.len() {
            let end = chunk_end(self.data.len(), self.offset, MAX_RPC_BODY_LEN);
            let piece = vstd::slice::slice_subrange(self.data.as_slice(), self.offset, end);
            Some(
                StreamFrame::Chunk(
                    Response {
                        req_no: self.req_no,
                        rpc_type: RpcType::Source,
                        body_type: BodyType::Binary,
                        body: vstd::slice::slice_to_vec(piece),
                    },
                ),
            )
        } else {
            Some(StreamFrame::End(self.req_no))
        }
    }

    /// Takes the outcome of writing the frame that `next_frame` gave. A
    /// failure aborts the stream and is handed back; no end-of-stream marker
    /// follows it.
    pub fn on_written(&mut self, outcome: Result<(), TransportError>) -> (r: Result<(), ApiError>)
        requires
            old(self).wf(),
            old(self).spec_state() == StreamState::Open,
        ensures
            final(self).wf(),
            final(self).spec_req_no() == old(self).spec_req_no(),
            final(self).spec_payload() == old(self).spec_payload(),
            outcome is Ok ==> {
                &&& r is Ok
                &&& final(self).spec_sent() == old(self).spec_sent().push(
                    frame_at(old(self).spec_payload(), old(self).spec_sent().len() as int),
                )
                &&& final(self).spec_state() == if old(self).spec_sent().len() == chunk_count(
                    old(self).spec_payload().len(),
                    MAX_RPC_BODY_LEN as nat,
                ) {
                    StreamState::Completed
                } else {
                    StreamState::Open
                }
            },
            outcome is Err ==> {
                &&& r == Err::<(), ApiError>(ApiError::Transport(outcome->Err_0))
                &&& final(self).spec_sent() == old(self).spec_sent()
                &&& final(self).spec_state() == StreamState::Aborted
            },
    {
        let ghost k = self.sent@.len();
        let ghost m = MAX_RPC_BODY_LEN as nat;
        proof {
            lemma_chunk_start(self.data@.len(), m, k);
            lemma_chunk_start(self.data@.len(), m, k + 1);
            assert((k + 1) * m == k * m + m) by (nonlinear_arith);
        }
        match outcome {
            Ok(()) => {
                let ghost e = frame_at(self.data@, k as int);
                if self.offset < self.data.len() {
                    self.offset = chunk_end(self.data.len(), self.offset, MAX_RPC_BODY_LEN);
                } else {
                    self.state = StreamState::Completed;
                }
                self.sent = Ghost(self.sent@.push(e));
                Ok(())
            },
            Err(e) => {
                self.state = StreamState::Aborted;
                Err(ApiError::Transport(e))
            },
        }
    }
}

/// A stream holds an end-of-stream marker among its written frames exactly
/// when it has completed; once it has, its frames are every data chunk in
/// order followed by one end-of-stream marker, the last frame written.
pub proof fn lemma_end_marker(s: &BlobStream)
    requires
        s.wf(),
    ensures
        (exists|i: int| 0 <= i < s.spec_sent().len() && #[trigger] s.spec_sent()[i] is None)
            == (s.spec_state() == StreamState::Completed),
        s.spec_state() == StreamState::Completed ==> {
            &&& s.spec_sent() == complete_frames(s.spec_payload())
            &&& s.spec_sent().last() is None
            &&& forall|i: int|
                0 <= i < s.spec_sent().len() - 1 ==> #[trigger] s.spec_sent()[i] is Some
        },
{
    let c = chunk_count(s.data@.len(), MAX_RPC_BODY_LEN as nat);
    if s.spec_state() == StreamState::Completed {
        assert(s.spec_sent()[c as int] is None);
        assert(s.spec_sent() =~= complete_frames(s.spec_payload()));
    } else {
        assert forall|i: int| 0 <= i < s.spec_sent().len() implies #[trigger] s.spec_sent()[i] is Some by {}
    }
}

} // verus!
