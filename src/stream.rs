use vstd::prelude::*;
use std::collections::VecDeque;

use crate::affected::{affected_of, affected_rows};
use crate::message::{BackendMessage, Column, Error};

verus! {

/// Messages that the stream passes over between items: what an abandoned
/// item left unread, and synchronization acknowledgements.
pub open spec fn is_skipped(m: BackendMessage) -> bool {
    m is DataRow || m is CommandComplete || m is ReadyForQuery
}

/// How many messages at the front of `m` the stream passes over.
pub open spec fn skip_len(m: Seq<BackendMessage>) -> nat
    decreases m.len(),
{
    if m.len() > 0 && is_skipped(m[0]) {
        1 + skip_len(m.drop_first())
    } else {
        0
    }
}

/// How many data rows stand at the front of `m`.
pub open spec fn rows_len(m: Seq<BackendMessage>) -> nat
    decreases m.len(),
{
    if m.len() > 0 && m[0] is DataRow {
        1 + rows_len(m.drop_first())
    } else {
        0
    }
}

/// One decoded row: a value per column of its query.
pub struct Row<'a> {
    pub columns: &'a [Column],
    pub values: Vec<Option<Vec<u8>>>,
}

impl<'a> Row<'a> {
    /// Pairs a row's values with its query's columns; their numbers must agree.
    pub fn try_new(columns: &'a [Column], values: Vec<Option<Vec<u8>>>) -> (r: Result<Row<'a>, Error>)
        ensures
            values@.len() == columns@.len() <==> r is Ok,
            r matches Ok(row) ==> row.columns == columns && row.values == values,
            r matches Err(e) ==> e == (Error::ColumnCount { expected: columns@.len() as usize, given: values@.len() as usize }),
    {
        if values.len() == columns.len() {
            Ok(Row { columns, values })
        } else {
            Err(Error::ColumnCount { expected: columns.len(), given: values.len() })
        }
    }

    pub fn len(&self) -> (r: usize)
        ensures
            r == self.values@.len(),
    {
        self.values.len()
    }

    /// The bytes of column `i`, `None` where it is NULL or out of range.
    pub fn get(&self, i: usize) -> (r: Option<&Vec<u8>>)
        ensures
            i >= self.values@.len() ==> r is None,
            i < self.values@.len() ==> r == match self.values@[i as int] {
                Some(v) => Some(&v),
                None => None::<&Vec<u8>>,
            },
    {
        if i < self.values.len() {
            match &self.values[i] {
                Some(v) => Some(v),
                None => None,
            }
        } else {
            None
        }
    }
}

/// The replies of a submitted pipeline, read one query at a time.
pub struct PipelineStream<'a> {
    pub(crate) res: VecDeque<BackendMessage>,
    pub(crate) columns: VecDeque<&'a [Column]>,
}

/// A query's cursor over its rows.
pub struct PipelineItem<'a> {
    pub(crate) finished: bool,
    pub(crate) columns: &'a [Column],
}

/// What asking the stream for its next item gives.
pub enum StreamNext<'a> {
    /// The next query's results start.
    Item(PipelineItem<'a>),
    /// Every query has had its item.
    Done,
    /// More replies are needed to go on.
    Pending,
}

/// What asking an item for its next row gives.
pub enum ItemNext<'a> {
    Row(Row<'a>),
    /// The query's results are finished.
    Done,
    /// More replies are needed to go on.
    Pending,
}

impl<'a> PipelineStream<'a> {
    /// The result schemas of the queries whose items are still to come.
    pub closed spec fn pending(&self) -> Seq<&'a [Column]> {
        self.columns@
    }

    /// The replies received and not yet read.
    pub closed spec fn replies(&self) -> Seq<BackendMessage> {
        self.res@
    }

    pub fn new(columns: VecDeque<&'a [Column]>) -> (r: PipelineStream<'a>)
        ensures
            r.pending() == columns@,
            r.replies().len() == 0,
    {
        PipelineStream { res: VecDeque::new(), columns }
    }

    /// Hands the stream the next message that the server sent.
    pub fn feed(&mut self, msg: BackendMessage)
        ensures
            final(self).pending() == old(self).pending(),
            final(self).replies() == old(self).replies().push(msg),
    {
        self.res.push_back(msg);
    }

    /// Exactly the number of items still to come.
    pub fn size_hint(&self) -> (r: (usize, Option<usize>))
        ensures
            r.0 == self.pending().len(),
            r.1 == Some(self.pending().len() as usize),
    {
        let len = self.columns.len();
        (len, Some(len))
    }

    /// Advances to the next query's item. Passes over what an abandoned item
    /// left unread and synchronization acknowledgements; a BindComplete starts
    /// the next item; any other message is a protocol violation.
    pub fn try_next(&mut self) -> (r: Result<StreamNext<'a>, Error>)
        ensures
            old(self).pending().len() == 0 ==> (r matches Ok(StreamNext::Done)) && *final(self) == *old(self),
            old(self).pending().len() > 0 ==> Self::next_outcome(old(self).pending(), old(self).replies(), final(self).pending(), final(self).replies(), r),
    {
        if self.columns.len() == 0 {
            return Ok(StreamNext::Done);
        }
        let ghost start = self.res@;
        let ghost consumed: nat = 0;
        loop
            invariant
                self.columns@ == old(self).columns@,
                self.columns@.len() > 0,
                start == old(self).res@,
                consumed <= start.len(),
                self.res@ == start.skip(consumed as int),
                skip_len(start) == consumed + skip_len(self.res@),
            decreases self.res@.len(),
        {
            let ghost before = self.res@;
            match self.res.pop_front() {
                None => {
                    proof { assert(consumed == start.len()); }
                    return Ok(StreamNext::Pending);
                },
                Some(msg) => {
                    proof {
                        assert(before[0] == msg);
                        assert(self.res@ == before.drop_first());
                        assert(self.res@ =~= start.skip(consumed + 1int));
                    }
                    match msg {
                        BackendMessage::BindComplete => {
                            let columns = self.columns.pop_front().unwrap();
                            return Ok(StreamNext::Item(PipelineItem { finished: false, columns }));
                        },
                        BackendMessage::DataRow(_) | BackendMessage::CommandComplete(_) | BackendMessage::ReadyForQuery => {
                            proof { consumed = consumed + 1; }
                        },
                        BackendMessage::Other => {
                            return Err(Error::Unexpected);
                        },
                    }
                },
            }
        }
    }

    /// The result of `try_next` on a stream with items still to come, over
    /// the queue of schemas `p` and the unread replies `m`.
    pub open spec fn next_outcome(
        p: Seq<&'a [Column]>,
        m: Seq<BackendMessage>,
        p2: Seq<&'a [Column]>,
        m2: Seq<BackendMessage>,
        r: Result<StreamNext<'a>, Error>,
    ) -> bool {
        let k = skip_len(m);
        if k == m.len() {
            (r matches Ok(StreamNext::Pending)) && p2 == p && m2.len() == 0
        } else if m[k as int] is BindComplete {
            &&& r matches Ok(StreamNext::Item(it)) && it.columns() == p[0] && !it.is_finished()
            &&& p2 == p.drop_first()
            &&& m2 == m.skip(k + 1int)
        } else {
            r == Err::<StreamNext<'a>, Error>(Error::Unexpected) && p2 == p && m2 == m.skip(k + 1int)
        }
    }
}

impl<'a> PipelineItem<'a> {
    pub closed spec fn is_finished(&self) -> bool {
        self.finished
    }

    pub closed spec fn columns(&self) -> &'a [Column] {
        self.columns
    }

    pub fn finished(&self) -> (r: bool)
        ensures
            r == self.is_finished(),
    {
        self.finished
    }

    /// The query's result schema.
    pub fn column_schema(&self) -> (r: &'a [Column])
        ensures
            r == self.columns(),
    {
        self.columns
    }

    /// Reads the query's next row. A finished item gives `Done` and reads
    /// nothing; a CommandComplete finishes it; any message but a data row is
    /// a protocol violation.
    pub fn try_next(&mut self, stream: &mut PipelineStream<'a>) -> (r: Result<ItemNext<'a>, Error>)
        ensures
            final(self).columns() == old(self).columns(),
            final(stream).pending() == old(stream).pending(),
            old(self).is_finished() ==> (r matches Ok(ItemNext::Done)) && final(self).is_finished()
                && *final(stream) == *old(stream),
            !old(self).is_finished() && old(stream).replies().len() == 0 ==> (r matches Ok(ItemNext::Pending))
                && !final(self).is_finished() && *final(stream) == *old(stream),
            !old(self).is_finished() && old(stream).replies().len() > 0 ==> {
                &&& final(stream).replies() == old(stream).replies().drop_first()
                &&& match old(stream).replies()[0] {
                    BackendMessage::DataRow(v) => !final(self).is_finished() && if v@.len() == old(self).columns()@.len() {
                        r matches Ok(ItemNext::Row(row)) && row.values == v && row.columns == old(self).columns()
                    } else {
                        r == Err::<ItemNext<'a>, Error>(Error::ColumnCount {
                            expected: old(self).columns()@.len() as usize,
                            given: v@.len() as usize,
                        })
                    },
                    BackendMessage::CommandComplete(_) => (r matches Ok(ItemNext::Done)) && final(self).is_finished(),
                    _ => r == Err::<ItemNext<'a>, Error>(Error::Unexpected) && !final(self).is_finished(),
                }
            },
    {
        if self.finished {
            return Ok(ItemNext::Done);
        }
        if stream.res.len() == 0 {
            return Ok(ItemNext::Pending);
        }
        let ghost before = stream.res@;
        match stream.res.pop_front() {
            None => Ok(ItemNext::Pending),
            Some(msg) => {
                proof { assert(before[0] == msg); }
                match msg {
                    BackendMessage::DataRow(v) => match Row::try_new(self.columns, v) {
                        Ok(row) => Ok(ItemNext::Row(row)),
                        Err(e) => Err(e),
                    },
                    BackendMessage::CommandComplete(_) => {
                        self.finished = true;
                        Ok(ItemNext::Done)
                    },
                    _ => Err(Error::Unexpected),
                }
            },
        }
    }

    /// Reads past the query's rows to its CommandComplete and returns the
    /// affected-row count it reports. `None` where the replies ran out first:
    /// call again once more have come.
    pub fn row_affected(&mut self, stream: &mut PipelineStream<'a>) -> (r: Result<Option<u64>, Error>)
        requires
            !old(self).is_finished(),
        ensures
            final(self).columns() == old(self).columns(),
            final(stream).pending() == old(stream).pending(),
            ({
                let m = old(stream).replies();
                let k = rows_len(m);
                if k == m.len() {
                    r == Ok::<Option<u64>, Error>(None) && !final(self).is_finished() && final(stream).replies().len() == 0
                } else {
                    &&& final(stream).replies() == m.skip(k + 1int)
                    &&& match m[k as int] {
                        BackendMessage::CommandComplete(tag) => r == Ok::<Option<u64>, Error>(Some(affected_of(tag@)))
                            && final(self).is_finished(),
                        _ => r == Err::<Option<u64>, Error>(Error::Unexpected) && !final(self).is_finished(),
                    }
                }
            }),
    {
        let ghost start = stream.res@;
        let ghost consumed: nat = 0;
        loop
            invariant
                stream.columns@ == old(stream).columns@,
                self.columns == old(self).columns,
                !self.finished,
                start == old(stream).res@,
                consumed <= start.len(),
                stream.res@ == start.skip(consumed as int),
                rows_len(start) == consumed + rows_len(stream.res@),
            decreases stream.res@.len(),
        {
            let ghost before = stream.res@;
            match stream.res.pop_front() {
                None => {
                    return Ok(None);
                },
                Some(msg) => {
                    proof {
                        assert(before[0] == msg);
                        assert(stream.res@ =~= start.skip(consumed + 1int));
                    }
                    match msg {
                        BackendMessage::DataRow(_) => {
                            proof { consumed = consumed + 1; }
                        },
                        BackendMessage::CommandComplete(tag) => {
                            self.finished = true;
                            return Ok(Some(affected_rows(&tag)));
                        },
                        _ => {
                            return Err(Error::Unexpected);
                        },
                    }
                },
            }
        }
    }
}

/// The schemas of the items that successive `try_next` calls yield from
/// schema queue `p` over replies `m`, when each item is dropped as soon as it
/// is yielded, up to the end of the queue, the replies, or an error.
pub open spec fn drain<S>(p: Seq<S>, m: Seq<BackendMessage>) -> Seq<S>
    decreases m.len(),
{
    if p.len() == 0 {
        Seq::empty()
    } else {
        let k = skip_len(m);
        if k < m.len() && m[k as int] is BindComplete {
            seq![p[0]] + drain(p.drop_first(), m.skip(k + 1int))
        } else {
            Seq::empty()
        }
    }
}

/// `drain` follows `try_next`: an item yielded is the head of what `drain`
/// gives, and the rest is what `drain` gives from the stream that is left;
/// any other outcome ends it.
pub proof fn lemma_drain_step<'a>(
    p: Seq<&'a [Column]>,
    m: Seq<BackendMessage>,
    p2: Seq<&'a [Column]>,
    m2: Seq<BackendMessage>,
    r: Result<StreamNext<'a>, Error>,
)
    requires
        p.len() > 0,
        PipelineStream::next_outcome(p, m, p2, m2, r),
    ensures
        r matches Ok(StreamNext::Item(it)) ==> drain(p, m) == seq![it.columns()] + drain(p2, m2),
        !(r matches Ok(StreamNext::Item(_))) ==> drain(p, m).len() == 0,
{
    lemma_skip_len_bound(m);
    let k = skip_len(m);
    if k < m.len() && m[k as int] is BindComplete {
        assert(drain(p, m) == seq![p[0]] + drain(p.drop_first(), m.skip(k + 1int)));
    }
}

/// The server's reply to one query: BindComplete, data rows, CommandComplete.
pub open spec fn is_query_reply(q: Seq<BackendMessage>) -> bool {
    &&& q.len() >= 2
    &&& q[0] is BindComplete
    &&& q.last() is CommandComplete
    &&& forall|i: int| 0 < i < q.len() - 1 ==> #[trigger] q[i] is DataRow
}

/// The reply to a whole pipeline: each query's reply in order, followed by
/// a ReadyForQuery after each one in sync mode, or once at the end otherwise.
pub open spec fn pipeline_reply(qs: Seq<Seq<BackendMessage>>, sync_mode: bool) -> Seq<BackendMessage>
    decreases qs.len(),
{
    if qs.len() == 0 {
        if sync_mode { Seq::empty() } else { seq![BackendMessage::ReadyForQuery] }
    } else {
        qs[0] + (if sync_mode { seq![BackendMessage::ReadyForQuery] } else { Seq::empty() })
            + pipeline_reply(qs.drop_first(), sync_mode)
    }
}

proof fn lemma_skip_len_bound(m: Seq<BackendMessage>)
    ensures
        skip_len(m) <= m.len(),
    decreases m.len(),
{
    if m.len() > 0 && is_skipped(m[0]) {
        lemma_skip_len_bound(m.drop_first());
    }
}

proof fn lemma_skip_prefix(a: Seq<BackendMessage>, b: Seq<BackendMessage>)
    requires
        forall|i: int| 0 <= i < a.len() ==> is_skipped(#[trigger] a[i]),
    ensures
        skip_len(a + b) == a.len() + skip_len(b),
    decreases a.len(),
{
    if a.len() > 0 {
        assert((a + b)[0] == a[0]);
        assert((a + b).drop_first() == a.drop_first() + b);
        lemma_skip_prefix(a.drop_first(), b);
    } else {
        assert(a + b == b);
    }
}

/// Skippable messages ahead of a BindComplete do not change what is yielded.
proof fn lemma_drain_skips<S>(p: Seq<S>, a: Seq<BackendMessage>, r: Seq<BackendMessage>)
    requires
        forall|i: int| 0 <= i < a.len() ==> is_skipped(#[trigger] a[i]),
        r.len() > 0,
        r[0] is BindComplete,
    ensures
        drain(p, a + r) == drain(p, r),
{
    if p.len() > 0 {
        lemma_skip_prefix(a, r);
        assert(skip_len(r) == 0);
        assert((a + r)[a.len() as int] == r[0]);
        assert((a + r).skip(a.len() + 1int) =~= r.skip(1));
    }
}

proof fn lemma_reply_starts(qs: Seq<Seq<BackendMessage>>, sync_mode: bool)
    requires
        qs.len() > 0,
        is_query_reply(qs[0]),
    ensures
        pipeline_reply(qs, sync_mode).len() > 0,
        pipeline_reply(qs, sync_mode)[0] is BindComplete,
{
    let sep = if sync_mode { seq![BackendMessage::ReadyForQuery] } else { Seq::<BackendMessage>::empty() };
    assert(pipeline_reply(qs, sync_mode) == qs[0] + sep + pipeline_reply(qs.drop_first(), sync_mode));
    assert((qs[0] + sep + pipeline_reply(qs.drop_first(), sync_mode))[0] == qs[0][0]);
}

/// Reading a query's reply from `j` on, then the rest of the pipeline's reply,
/// yields exactly the items still queued.
proof fn lemma_tail_yields<S>(p: Seq<S>, q: Seq<BackendMessage>, j: int, qs: Seq<Seq<BackendMessage>>, sync_mode: bool)
    requires
        is_query_reply(q),
        1 <= j <= q.len(),
        qs.len() == p.len(),
        forall|i: int| 0 <= i < qs.len() ==> is_query_reply(#[trigger] qs[i]),
    ensures
        drain(p, q.skip(j) + (if sync_mode { seq![BackendMessage::ReadyForQuery] } else { Seq::empty() })
            + pipeline_reply(qs, sync_mode)) == p,
    decreases qs.len(), 1int,
{
    let sep = if sync_mode { seq![BackendMessage::ReadyForQuery] } else { Seq::<BackendMessage>::empty() };
    if p.len() > 0 {
        let a = q.skip(j) + sep;
        assert forall|i: int| 0 <= i < a.len() implies is_skipped(#[trigger] a[i]) by {
            if i < q.len() - j {
                assert(a[i] == q[j + i]);
                if j + i < q.len() - 1 {
                    assert(q[j + i] is DataRow);
                }
            }
        }
        assert(is_query_reply(qs[0]));
        lemma_reply_starts(qs, sync_mode);
        lemma_drain_skips(p, a, pipeline_reply(qs, sync_mode));
        assert(a + pipeline_reply(qs, sync_mode) == q.skip(j) + sep + pipeline_reply(qs, sync_mode));
        lemma_pipeline_yields(p, qs, sync_mode);
    }
}

/// Whatever number of rows each query returns, the items that a pipeline's
/// stream yields are one per query, in the order the queries were encoded,
/// in sync and in unsync mode alike.
pub proof fn lemma_pipeline_yields<S>(p: Seq<S>, qs: Seq<Seq<BackendMessage>>, sync_mode: bool)
    requires
        qs.len() == p.len(),
        forall|i: int| 0 <= i < qs.len() ==> is_query_reply(#[trigger] qs[i]),
    ensures
        drain(p, pipeline_reply(qs, sync_mode)) == p,
    decreases qs.len(), 0int,
{
    if p.len() > 0 {
        let sep = if sync_mode { seq![BackendMessage::ReadyForQuery] } else { Seq::<BackendMessage>::empty() };
        let q = qs[0];
        assert(is_query_reply(q));
        let rest = qs.drop_first();
        let m = pipeline_reply(qs, sync_mode);
        assert(m == q + sep + pipeline_reply(rest, sync_mode));
        lemma_reply_starts(qs, sync_mode);
        assert(skip_len(m) == 0);
        assert(m.skip(1) == q.skip(1) + sep + pipeline_reply(rest, sync_mode));
        assert forall|i: int| 0 <= i < rest.len() implies is_query_reply(#[trigger] rest[i]) by {
            assert(rest[i] == qs[i + 1]);
        }
        lemma_tail_yields(p.drop_first(), q, 1, rest, sync_mode);
        assert(p == seq![p[0]] + p.drop_first());
    } else {
        assert(drain(p, pipeline_reply(qs, sync_mode)) =~= p);
    }
}

/// An item dropped after reading any number of its rows leaves the stream
/// in step: the items still to come are yielded, in order.
pub proof fn lemma_abandoned_item<S>(
    p: Seq<S>,
    q: Seq<BackendMessage>,
    read: int,
    qs: Seq<Seq<BackendMessage>>,
    sync_mode: bool,
)
    requires
        is_query_reply(q),
        0 <= read <= q.len() - 1,
        qs.len() == p.len(),
        forall|i: int| 0 <= i < qs.len() ==> is_query_reply(#[trigger] qs[i]),
    ensures
        drain(p, q.skip(1 + read) + (if sync_mode { seq![BackendMessage::ReadyForQuery] } else { Seq::empty() })
            + pipeline_reply(qs, sync_mode)) == p,
{
    lemma_tail_yields(p, q, 1 + read, qs, sync_mode);
}

} // verus!
