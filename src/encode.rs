use vstd::prelude::*;
use bytes::{BufMut, BytesMut};
use postgres_protocol::message::frontend;
use postgres_protocol::IsNull;
use vstd::utf8::encode_utf8;

verus! {

/// The bytes of a Bind message for the unnamed portal, the named prepared
/// statement and the given parameter values, all in binary format.
pub uninterp spec fn bind_message(statement: Seq<u8>, params: Seq<Option<Seq<u8>>>) -> Seq<u8>;

/// View of a parameter list: each value's bytes, `None` for SQL NULL.
pub open spec fn params_view(params: Seq<Option<Vec<u8>>>) -> Seq<Option<Seq<u8>>> {
    params.map_values(|p: Option<Vec<u8>>| match p {
        Some(v) => Some(v@),
        None => None,
    })
}

/// Bytes that the parameter values take in a Bind message: a four-byte
/// length for each, then the value's own bytes.
pub open spec fn values_size(params: Seq<Option<Seq<u8>>>) -> nat
    decreases params.len(),
{
    if params.len() == 0 {
        0
    } else {
        values_size(params.drop_last()) + 4 + match params.last() {
            Some(v) => v.len(),
            None => 0,
        }
    }
}

/// Whether a Bind message for these arguments is within the protocol's
/// limits: a statement name without NUL, at most 65535 values, and a body
/// whose length fits the message's signed 32-bit length field.
pub open spec fn bind_fits(statement: Seq<u8>, params: Seq<Option<Seq<u8>>>) -> bool {
    &&& !statement.contains(0u8)
    &&& params.len() <= 65535
    &&& statement.len() + 16 + values_size(params) <= i32::MAX
}

/// The Execute message for the unnamed portal with no row limit.
pub open spec fn execute_message() -> Seq<u8> {
    seq![69u8, 0u8, 0u8, 0u8, 9u8, 0u8, 0u8, 0u8, 0u8, 0u8]
}

/// The Sync message.
pub open spec fn sync_message() -> Seq<u8> {
    seq![83u8, 0u8, 0u8, 0u8, 4u8]
}

/// The bytes one query adds to a pipeline's buffer.
pub open spec fn query_message(statement: Seq<u8>, params: Seq<Option<Seq<u8>>>, sync_mode: bool) -> Seq<u8> {
    if sync_mode {
        bind_message(statement, params) + execute_message() + sync_message()
    } else {
        bind_message(statement, params) + execute_message()
    }
}

/// Relies on postgres_protocol::message::frontend::bind: on success it appends
/// the Bind message; on failure what it wrote stands after the old contents.
/// It succeeds exactly when the message is within the protocol's limits: a
/// NUL in the name fails in `write_cstr`, more than 65535 values in
/// `write_counted`, and a body longer than `i32::MAX` in `write_body`.
#[verifier::external_body]
fn write_bind(statement: &String, params: &Vec<Option<Vec<u8>>>, buf: &mut Vec<u8>) -> (r: bool)
    ensures
        final(buf)@.len() >= old(buf)@.len(),
        final(buf)@.subrange(0, old(buf)@.len() as int) == old(buf)@,
        r ==> final(buf)@ == old(buf)@ + bind_message(encode_utf8(statement@), params_view(params@)),
        r <==> bind_fits(encode_utf8(statement@), params_view(params@)),
{
    let mut b = BytesMut::new();
    let res = frontend::bind("", statement.as_str(), Some(1), params.iter(), |v, b| match v {
        Some(bytes) => { b.put_slice(bytes); Ok(IsNull::No) },
        None => Ok(IsNull::Yes),
    }, Some(1), &mut b);
    buf.extend_from_slice(&b);
    res.is_ok()
}

/// Relies on postgres_protocol::message::frontend::execute: with the unnamed
/// portal and no row limit it appends the ten bytes of that Execute message.
#[verifier::external_body]
fn write_execute(buf: &mut Vec<u8>)
    ensures
        final(buf)@ == old(buf)@ + execute_message(),
{
    let mut b = BytesMut::new();
    frontend::execute("", 0, &mut b).unwrap();
    buf.extend_from_slice(&b);
}

/// Relies on postgres_protocol::message::frontend::sync: it appends the five
/// bytes of a Sync message.
#[verifier::external_body]
pub(crate) fn write_sync(buf: &mut Vec<u8>)
    ensures
        final(buf)@ == old(buf)@ + sync_message(),
{
    let mut b = BytesMut::new();
    frontend::sync(&mut b);
    buf.extend_from_slice(&b);
}

/// Appends one query to `buf`: Bind, Execute and, in sync mode, Sync. On
/// failure the bytes written so far are left after the old contents.
pub fn encode_maybe_sync(statement: &String, params: &Vec<Option<Vec<u8>>>, sync_mode: bool, buf: &mut Vec<u8>) -> (r: bool)
    ensures
        final(buf)@.len() >= old(buf)@.len(),
        final(buf)@.subrange(0, old(buf)@.len() as int) == old(buf)@,
        r ==> final(buf)@ == old(buf)@ + query_message(encode_utf8(statement@), params_view(params@), sync_mode),
        r <==> bind_fits(encode_utf8(statement@), params_view(params@)),
{
    if !write_bind(statement, params, buf) {
        return false;
    }
    write_execute(buf);
    if sync_mode {
        write_sync(buf);
    }
    proof {
        assert(final(buf)@ == old(buf)@ + query_message(encode_utf8(statement@), params_view(params@), sync_mode)) by {
            if sync_mode {
                assert(buf@ == old(buf)@ + bind_message(encode_utf8(statement@), params_view(params@)) + execute_message() + sync_message());
            }
        }
    }
    true
}

} // verus!
