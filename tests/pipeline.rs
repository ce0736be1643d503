use xitca_pipeline::affected::affected_rows;
use xitca_pipeline::message::{BackendMessage, Column, Error, Statement};
use xitca_pipeline::pipeline::{pipeline, Pipeline};
use xitca_pipeline::stream::{ItemNext, PipelineItem, PipelineStream, StreamNext};
use xitca_pipeline::web::{App, NoOpTlsAcceptorService, PathRef};

fn column(name: &str) -> Column {
    Column { name: name.to_string(), type_oid: 23 }
}

fn select_stmt() -> Statement {
    Statement::new("s1".to_string(), vec![23], vec![column("id"), column("name")])
}

fn update_stmt() -> Statement {
    Statement::new("s2".to_string(), vec![], vec![])
}

fn row(a: &[u8], b: &[u8]) -> BackendMessage {
    BackendMessage::DataRow(vec![Some(a.to_vec()), Some(b.to_vec())])
}

fn cc(tag: &str) -> BackendMessage {
    BackendMessage::CommandComplete(tag.as_bytes().to_vec())
}

fn next_item<'a>(s: &mut PipelineStream<'a>) -> PipelineItem<'a> {
    match s.try_next() {
        Ok(StreamNext::Item(it)) => it,
        _ => panic!("expected an item"),
    }
}

fn is_done(r: Result<StreamNext<'_>, Error>) -> bool {
    matches!(r, Ok(StreamNext::Done))
}

fn expected_bind(stmt: &[u8], values: &[Option<&[u8]>]) -> Vec<u8> {
    let mut body = vec![0u8];
    body.extend_from_slice(stmt);
    body.push(0);
    body.extend_from_slice(&[0, 1, 0, 1]);
    body.extend_from_slice(&(values.len() as u16).to_be_bytes());
    for v in values {
        match v {
            Some(b) => {
                body.extend_from_slice(&(b.len() as i32).to_be_bytes());
                body.extend_from_slice(b);
            }
            None => body.extend_from_slice(&(-1i32).to_be_bytes()),
        }
    }
    body.extend_from_slice(&[0, 1, 0, 1]);
    let mut out = vec![b'B'];
    out.extend_from_slice(&((body.len() + 4) as i32).to_be_bytes());
    out.extend_from_slice(&body);
    out
}

const EXECUTE: [u8; 10] = [b'E', 0, 0, 0, 9, 0, 0, 0, 0, 0];
const SYNC: [u8; 5] = [b'S', 0, 0, 0, 4];

#[test]
fn sync_query_bytes() {
    let stmt = select_stmt();
    let mut pipe = Pipeline::new();
    pipe.query(&stmt, &vec![Some(vec![0, 0, 0, 7])]).unwrap();
    let mut want = expected_bind(b"s1", &[Some(&[0, 0, 0, 7])]);
    want.extend_from_slice(&EXECUTE);
    want.extend_from_slice(&SYNC);
    let sub = pipeline(pipe).ok().unwrap();
    assert_eq!(sub.buf, want);
    assert_eq!(sub.sync_count, 1);
}

#[test]
fn unsync_appends_one_sync_marker() {
    let stmt = select_stmt();
    let upd = update_stmt();
    let mut pipe = Pipeline::unsync();
    pipe.query(&stmt, &vec![None]).unwrap();
    pipe.query_raw(&upd, vec![]).unwrap();
    pipe.query_raw(&upd, vec![]).unwrap();
    let mut want = expected_bind(b"s1", &[None]);
    want.extend_from_slice(&EXECUTE);
    for _ in 0..2 {
        want.extend_from_slice(&expected_bind(b"s2", &[]));
        want.extend_from_slice(&EXECUTE);
    }
    want.extend_from_slice(&SYNC);
    let sub = pipeline(pipe).ok().unwrap();
    assert_eq!(sub.buf, want);
    assert_eq!(sub.sync_count, 1);
    let mut s = sub.stream;
    for m in [BackendMessage::BindComplete, cc("SELECT 0"), BackendMessage::BindComplete, cc("UPDATE 1"),
        BackendMessage::BindComplete, cc("UPDATE 2"), BackendMessage::ReadyForQuery] {
        s.feed(m);
    }
    let mut n = 0;
    while let Ok(StreamNext::Item(_)) = s.try_next() {
        n += 1;
    }
    assert_eq!(n, 3);
}

#[test]
fn sync_pipeline_yields_one_item_per_query() {
    let stmt = select_stmt();
    let upd = update_stmt();
    let mut pipe = Pipeline::with_capacity(3, true);
    pipe.query(&stmt, &vec![None]).unwrap();
    pipe.query_raw(&upd, vec![]).unwrap();
    pipe.query(&stmt, &vec![None]).unwrap();
    let sub = pipeline(pipe).ok().unwrap();
    assert_eq!(sub.sync_count, 3);
    let mut s = sub.stream;
    assert_eq!(s.size_hint(), (3, Some(3)));
    for m in [BackendMessage::BindComplete, row(b"1", b"a"), cc("SELECT 1"), BackendMessage::ReadyForQuery,
        BackendMessage::BindComplete, cc("UPDATE 0"), BackendMessage::ReadyForQuery,
        BackendMessage::BindComplete, cc("SELECT 0"), BackendMessage::ReadyForQuery] {
        s.feed(m);
    }
    let a = next_item(&mut s);
    assert_eq!(a.column_schema().len(), 2);
    let b = next_item(&mut s);
    assert_eq!(b.column_schema().len(), 0);
    assert_eq!(s.size_hint(), (1, Some(1)));
    let c = next_item(&mut s);
    assert_eq!(c.column_schema().len(), 2);
    assert!(is_done(s.try_next()));
}

// two queries: the first returns three rows, the second updates.
#[test]
fn rows_then_update() {
    let stmt = select_stmt();
    let upd = update_stmt();
    let mut pipe = Pipeline::new();
    pipe.query(&stmt, &vec![None]).unwrap();
    pipe.query_raw(&upd, vec![]).unwrap();
    let mut s = pipeline(pipe).ok().unwrap().stream;
    for m in [BackendMessage::BindComplete, row(b"1", b"a"), row(b"2", b"b"), row(b"3", b"c"), cc("SELECT 3"),
        BackendMessage::ReadyForQuery, BackendMessage::BindComplete, cc("UPDATE 4"), BackendMessage::ReadyForQuery] {
        s.feed(m);
    }
    let mut item = next_item(&mut s);
    let mut ids = Vec::new();
    loop {
        match item.try_next(&mut s) {
            Ok(ItemNext::Row(r)) => ids.push(r.get(0).unwrap().clone()),
            Ok(ItemNext::Done) => break,
            _ => panic!("unexpected"),
        }
    }
    assert_eq!(ids, vec![b"1".to_vec(), b"2".to_vec(), b"3".to_vec()]);
    assert!(item.finished());
    assert!(matches!(item.try_next(&mut s), Ok(ItemNext::Done)));
    let mut item2 = next_item(&mut s);
    assert_eq!(item2.row_affected(&mut s), Ok(Some(4)));
    assert!(is_done(s.try_next()));
}

// wrong parameter count is refused and nothing is queued.
#[test]
fn binding_mismatch_leaves_pipeline() {
    let stmt = select_stmt();
    let mut pipe = Pipeline::new();
    pipe.query_raw(&stmt, vec![None]).unwrap();
    let len = pipe.buf_len();
    let r = pipe.query_raw(&stmt, vec![None, None]);
    assert_eq!(r, Err(Error::BindingMismatch { expected: 1, given: 2 }));
    assert_eq!(pipe.len(), 1);
    assert_eq!(pipe.buf_len(), len);
}

// dropping an item after its first row: the stream skips the rest.
#[test]
fn abandoned_item_is_skipped() {
    let stmt = select_stmt();
    let upd = update_stmt();
    let mut pipe = Pipeline::new();
    pipe.query(&stmt, &vec![None]).unwrap();
    pipe.query_raw(&upd, vec![]).unwrap();
    let mut s = pipeline(pipe).ok().unwrap().stream;
    for m in [BackendMessage::BindComplete, row(b"1", b"a"), row(b"2", b"b"), row(b"3", b"c"), cc("SELECT 3"),
        BackendMessage::ReadyForQuery, BackendMessage::BindComplete, cc("DELETE 2"), BackendMessage::ReadyForQuery] {
        s.feed(m);
    }
    {
        let mut item = next_item(&mut s);
        match item.try_next(&mut s) {
            Ok(ItemNext::Row(r)) => assert_eq!(r.get(0).unwrap(), &b"1".to_vec()),
            _ => panic!("expected a row"),
        }
    }
    let mut item2 = next_item(&mut s);
    assert_eq!(item2.column_schema().len(), 0);
    assert_eq!(item2.row_affected(&mut s), Ok(Some(2)));
}

#[test]
fn encode_failure_rolls_back() {
    let stmt = select_stmt();
    let bad = Statement::new("bad\0name".to_string(), vec![], vec![]);
    let mut pipe = Pipeline::new();
    pipe.query(&stmt, &vec![None]).unwrap();
    let len = pipe.buf_len();
    assert_eq!(pipe.query_raw(&bad, vec![]), Err(Error::Encode));
    assert_eq!(pipe.buf_len(), len);
    assert_eq!(pipe.len(), 1);
}

#[test]
fn too_many_values_is_refused() {
    let many = Statement::new("m".to_string(), vec![23; 65536], vec![]);
    let mut pipe = Pipeline::new();
    assert_eq!(pipe.query_raw(&many, vec![None; 65536]), Err(Error::Encode));
    assert_eq!(pipe.buf_len(), 0);
    assert_eq!(pipe.len(), 0);
    let most = Statement::new("m".to_string(), vec![23; 65535], vec![]);
    assert_eq!(pipe.query_raw(&most, vec![None; 65535]), Ok(()));
    assert_eq!(pipe.len(), 1);
}

#[test]
fn exhausted_stream_stays_done() {
    let upd = update_stmt();
    let mut pipe = Pipeline::new();
    pipe.query_raw(&upd, vec![]).unwrap();
    let mut s = pipeline(pipe).ok().unwrap().stream;
    s.feed(BackendMessage::BindComplete);
    let _ = next_item(&mut s);
    for _ in 0..3 {
        assert!(is_done(s.try_next()));
    }
}

#[test]
fn empty_pipeline_is_refused() {
    let pipe = Pipeline::new();
    assert!(matches!(pipeline(pipe), Err(Error::EmptyPipeline)));
}

#[test]
fn unexpected_message_fails() {
    let upd = update_stmt();
    let mut pipe = Pipeline::new();
    pipe.query_raw(&upd, vec![]).unwrap();
    let mut s = pipeline(pipe).ok().unwrap().stream;
    s.feed(BackendMessage::Other);
    assert!(matches!(s.try_next(), Err(Error::Unexpected)));
}

#[test]
fn pending_until_replies_arrive() {
    let stmt = select_stmt();
    let mut pipe = Pipeline::new();
    pipe.query(&stmt, &vec![None]).unwrap();
    let mut s = pipeline(pipe).ok().unwrap().stream;
    assert!(matches!(s.try_next(), Ok(StreamNext::Pending)));
    s.feed(BackendMessage::BindComplete);
    let mut item = next_item(&mut s);
    assert!(matches!(item.try_next(&mut s), Ok(ItemNext::Pending)));
    s.feed(BackendMessage::DataRow(vec![None]));
    assert!(matches!(item.try_next(&mut s), Err(Error::ColumnCount { expected: 2, given: 1 })));
    s.feed(row(b"1", b"a"));
    assert_eq!(item.row_affected(&mut s), Ok(None));
    s.feed(BackendMessage::ReadyForQuery);
    assert_eq!(item.row_affected(&mut s), Err(Error::Unexpected));
}

#[test]
fn borrowed_buffer_is_cleared_and_copied() {
    let upd = update_stmt();
    let mut pipe = Pipeline::with_capacity_from_buf(1, true, vec![1, 2, 3]);
    assert_eq!(pipe.buf_len(), 0);
    pipe.query_raw(&upd, vec![]).unwrap();
    let n = pipe.buf_len();
    let owned = pipe.into_owned();
    assert_eq!(owned.buf_len(), n);
    assert_eq!(owned.len(), 1);
}

#[test]
fn affected_row_counts() {
    assert_eq!(affected_rows(&b"UPDATE 3".to_vec()), 3);
    assert_eq!(affected_rows(&b"INSERT 0 5".to_vec()), 5);
    assert_eq!(affected_rows(&b"SELECT +12".to_vec()), 12);
    assert_eq!(affected_rows(&b"CREATE TABLE".to_vec()), 0);
    assert_eq!(affected_rows(&b"".to_vec()), 0);
    assert_eq!(affected_rows(&b"UPDATE ".to_vec()), 0);
    assert_eq!(affected_rows(&b"X 18446744073709551615".to_vec()), u64::MAX);
    assert_eq!(affected_rows(&b"X 18446744073709551616".to_vec()), 0);
}

#[test]
fn app_builder_keeps_routes_and_layers() {
    let state = String::from("state");
    let app: App<String, &str, &str> = App::with_current_thread_state(state)
        .at("/", "handler")
        .at("/stateless", "stateless_handler")
        .enclosed_fn("middleware_fn")
        .enclosed("Middleware")
        .enclosed("UncheckedReady");
    assert_eq!(app.route_count(), 2);
    assert_eq!(app.layer_count(), 3);
    let empty: App<(), u8, u8> = App::new();
    assert_eq!(empty.route_count(), 0);
    let multi: App<u32, u8, u8> = App::with_multi_thread_state(1);
    assert_eq!(multi.layer_count(), 0);
}

#[test]
fn noop_tls_and_path() {
    let svc = NoOpTlsAcceptorService;
    assert!(svc.new_service().poll_ready());
    assert_eq!(svc.call(7u8), 7);
    assert_eq!(PathRef("/abc").as_str(), "/abc");
}
