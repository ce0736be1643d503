use vstd::prelude::*;
use std::collections::VecDeque;

use crate::encode::{bind_fits, encode_maybe_sync, params_view, query_message, sync_message, write_sync};
use vstd::utf8::encode_utf8;
use crate::message::{Column, Error, Statement};
use crate::stream::PipelineStream;

verus! {

/// A batch of queries encoded into one buffer, to be written to the server at once.
pub struct Pipeline<'a> {
    pub(crate) columns: VecDeque<&'a [Column]>,
    pub(crate) buf: Vec<u8>,
    pub(crate) sync_mode: bool,
    pub(crate) borrowed: bool,
}

impl<'a> Pipeline<'a> {
    /// The result schemas of the queries, in the order they were encoded.
    pub closed spec fn pending(&self) -> Seq<&'a [Column]> {
        self.columns@
    }

    /// The encoded queries.
    pub closed spec fn bytes(&self) -> Seq<u8> {
        self.buf@
    }

    pub closed spec fn is_sync(&self) -> bool {
        self.sync_mode
    }

    pub closed spec fn is_borrowed(&self) -> bool {
        self.borrowed
    }

    /// A sync pipeline: each query is its own unit for the server.
    pub fn new() -> (r: Pipeline<'a>)
        ensures
            r.pending().len() == 0,
            r.bytes().len() == 0,
            r.is_sync(),
            !r.is_borrowed(),
    {
        Self::with_capacity(0, true)
    }

    /// An unsync pipeline: all queries form one unit for the server.
    pub fn unsync() -> (r: Pipeline<'a>)
        ensures
            r.pending().len() == 0,
            r.bytes().len() == 0,
            !r.is_sync(),
            !r.is_borrowed(),
    {
        Self::with_capacity(0, false)
    }

    /// An empty pipeline with room reserved for `cap` queries.
    pub fn with_capacity(cap: usize, sync_mode: bool) -> (r: Pipeline<'a>)
        ensures
            r.pending().len() == 0,
            r.bytes().len() == 0,
            r.is_sync() == sync_mode,
            !r.is_borrowed(),
    {
        Pipeline { columns: VecDeque::with_capacity(cap), buf: Vec::new(), sync_mode, borrowed: false }
    }

    /// An empty pipeline that encodes into the caller's buffer, cleared first.
    /// The buffer comes back to the caller on submission.
    pub fn with_capacity_from_buf(cap: usize, sync_mode: bool, buf: Vec<u8>) -> (r: Pipeline<'a>)
        ensures
            r.pending().len() == 0,
            r.bytes().len() == 0,
            r.is_sync() == sync_mode,
            r.is_borrowed(),
    {
        let mut buf = buf;
        buf.clear();
        Pipeline { columns: VecDeque::with_capacity(cap), buf, sync_mode, borrowed: true }
    }

    /// The same pipeline over a buffer of its own, holding a copy of the bytes.
    pub fn into_owned(self) -> (r: Pipeline<'a>)
        ensures
            r.pending() == self.pending(),
            r.bytes() == self.bytes(),
            r.is_sync() == self.is_sync(),
            !r.is_borrowed(),
    {
        let mut buf: Vec<u8> = Vec::new();
        buf.extend_from_slice(self.buf.as_slice());
        Pipeline { columns: self.columns, buf, sync_mode: self.sync_mode, borrowed: false }
    }

    /// Number of queries encoded so far.
    pub fn len(&self) -> (r: usize)
        ensures
            r == self.pending().len(),
    {
        self.columns.len()
    }

    /// Number of bytes encoded so far.
    pub fn buf_len(&self) -> (r: usize)
        ensures
            r == self.bytes().len(),
    {
        self.buf.len()
    }

    /// Adds a query, giving each parameter's bytes (`None` for NULL).
    pub fn query(&mut self, stmt: &'a Statement, params: &Vec<Option<Vec<u8>>>) -> (r: Result<(), Error>)
        ensures
            Self::query_outcome(*old(self), *final(self), stmt, params@, r),
    {
        self.push_query(stmt, params)
    }

    /// Adds a query with an owned parameter list.
    pub fn query_raw(&mut self, stmt: &'a Statement, params: Vec<Option<Vec<u8>>>) -> (r: Result<(), Error>)
        ensures
            Self::query_outcome(*old(self), *final(self), stmt, params@, r),
    {
        self.push_query(stmt, &params)
    }

    /// What adding a query does: a wrong number of parameters is refused with
    /// nothing written; a query within the protocol's limits is accepted, its
    /// bytes and schema appended; one beyond them is refused with `Encode`
    /// and the pipeline left exactly as it was.
    pub open spec fn query_outcome(
        pre: Pipeline<'a>,
        post: Pipeline<'a>,
        stmt: &'a Statement,
        params: Seq<Option<Vec<u8>>>,
        r: Result<(), Error>,
    ) -> bool {
        &&& post.is_sync() == pre.is_sync()
        &&& post.is_borrowed() == pre.is_borrowed()
        &&& (params.len() != stmt.params@.len() <==> r == Err::<(), Error>(
            Error::BindingMismatch { expected: stmt.params@.len() as usize, given: params.len() as usize },
        ))
        &&& (params.len() == stmt.params@.len() ==> (r is Ok <==> bind_fits(encode_utf8(stmt.name@), params_view(params))))
        &&& (r is Ok ==> post.bytes() == pre.bytes() + query_message(encode_utf8(stmt.name@), params_view(params), pre.is_sync())
            && post.pending().len() == pre.pending().len() + 1
            && post.pending().drop_last() == pre.pending() && post.pending().last()@ == stmt.columns@)
        &&& (r is Err ==> post.bytes() == pre.bytes() && post.pending() == pre.pending())
        &&& (r is Err ==> r == Err::<(), Error>(Error::Encode) || params.len() != stmt.params@.len())
    }

    fn push_query(&mut self, stmt: &'a Statement, params: &Vec<Option<Vec<u8>>>) -> (r: Result<(), Error>)
        ensures
            Self::query_outcome(*old(self), *final(self), stmt, params@, r),
    {
        if params.len() != stmt.params.len() {
            return Err(Error::BindingMismatch { expected: stmt.params.len(), given: params.len() });
        }
        let len = self.buf.len();
        if encode_maybe_sync(&stmt.name, params, self.sync_mode, &mut self.buf) {
            let cols = stmt.columns();
            self.columns.push_back(cols);
            assert(self.columns@.drop_last() =~= old(self).columns@);
            Ok(())
        } else {
            self.buf.truncate(len);
            assert(self.buf@ =~= old(self).buf@);
            Err(Error::Encode)
        }
    }
}

/// A query that fails to encode after another one succeeded leaves the
/// pipeline exactly as the successful query left it: its bytes, and its queue
/// of schemas, hold the earlier queries and nothing of the failed one.
pub proof fn lemma_failed_query_rolls_back<'a>(
    p0: Pipeline<'a>,
    p1: Pipeline<'a>,
    p2: Pipeline<'a>,
    s1: &'a Statement,
    params1: Seq<Option<Vec<u8>>>,
    s2: &'a Statement,
    params2: Seq<Option<Vec<u8>>>,
    e: Error,
)
    requires
        Pipeline::query_outcome(p0, p1, s1, params1, Ok(())),
        Pipeline::query_outcome(p1, p2, s2, params2, Err(e)),
    ensures
        p2.bytes() == p0.bytes() + query_message(encode_utf8(s1.name@), params_view(params1), p0.is_sync()),
        p2.bytes().len() == p1.bytes().len(),
        p2.pending() == p1.pending(),
        p2.pending().len() == p0.pending().len() + 1,
        p2.pending().drop_last() == p0.pending(),
{
}

/// What submission hands to the transport and to the caller.
pub struct Submission<'a> {
    /// The bytes to write to the server.
    pub buf: Vec<u8>,
    /// How many reply boundaries the transport must deliver.
    pub sync_count: usize,
    /// The reader of the replies.
    pub stream: PipelineStream<'a>,
}

/// Number of reply boundaries: one per query in sync mode, one in all otherwise.
pub open spec fn boundary_count(sync_mode: bool, queries: nat) -> nat {
    if sync_mode { queries } else { 1 }
}

/// Readies the buffer for the transport: in unsync mode one Sync message is
/// appended, unless `encode_sync` says it is already there. Returns the number
/// of reply boundaries to expect.
pub fn prepare_dispatch(sync_mode: bool, encode_sync: bool, queries: usize, buf: &mut Vec<u8>) -> (r: usize)
    ensures
        r == boundary_count(sync_mode, queries as nat),
        final(buf)@ == if !sync_mode && encode_sync { old(buf)@ + sync_message() } else { old(buf)@ },
{
    if sync_mode {
        queries
    } else {
        if encode_sync {
            write_sync(buf);
        }
        1
    }
}

/// Submits a pipeline: fails on one without queries, else readies its bytes
/// and opens the stream that reads the replies in the order of the queries.
pub fn pipeline<'a>(pipe: Pipeline<'a>) -> (r: Result<Submission<'a>, Error>)
    ensures
        pipe.bytes().len() == 0 <==> r == Err::<Submission<'a>, Error>(Error::EmptyPipeline),
        pipe.bytes().len() > 0 <==> r is Ok,
        r matches Ok(s) ==> {
            &&& s.sync_count == boundary_count(pipe.is_sync(), pipe.pending().len())
            &&& s.buf@ == if pipe.is_sync() { pipe.bytes() } else { pipe.bytes() + sync_message() }
            &&& s.stream.pending() == pipe.pending()
            &&& s.stream.replies().len() == 0
        },
{
    let Pipeline { columns, buf, sync_mode, borrowed: _ } = pipe;
    let mut buf = buf;
    if buf.len() == 0 {
        return Err(Error::EmptyPipeline);
    }
    let n = columns.len();
    let sync_count = prepare_dispatch(sync_mode, true, n, &mut buf);
    Ok(Submission { buf, sync_count, stream: PipelineStream::new(columns) })
}

} // verus!
