use vmod_reqwest::exchange::{advance, begin, ExchangeEvent, NextStep};
use vmod_reqwest::message::{RespMsg, Response};
use vmod_reqwest::transaction::{client, settle, BgThread, Entry, Request, VclTransaction};

type Queue = tokio::sync::mpsc::UnboundedReceiver<(Request, tokio::sync::mpsc::Sender<RespMsg>)>;

fn executor() -> (BgThread, Queue) {
    let rt = tokio::runtime::Runtime::new().unwrap();
    let (sender, queue) = tokio::sync::mpsc::unbounded_channel();
    (BgThread { rt, sender }, queue)
}

fn new_client(name: &str) -> client {
    client::new(name, None, None, reqwest::Client::new()).ok().unwrap()
}

fn fixed_response() -> Response {
    Response {
        status: 200,
        headers: vec![("x-test".to_string(), b"1".to_vec())],
        body: Some(b"ok".to_vec()),
    }
}

/// Answers every queued request with `reply`, recording how many came.
fn answer_with(bgt: &BgThread, mut queue: Queue, reply: fn() -> RespMsg) -> std::sync::Arc<std::sync::atomic::AtomicUsize> {
    let seen = std::sync::Arc::new(std::sync::atomic::AtomicUsize::new(0));
    let counter = seen.clone();
    bgt.rt.spawn(async move {
        while let Some((_req, tx)) = queue.recv().await {
            counter.fetch_add(1, std::sync::atomic::Ordering::SeqCst);
            let _ = tx.send(reply()).await;
        }
    });
    seen
}

/// Runs each queued request for real through the exchange state machine.
fn run_for_real(bgt: &BgThread, mut queue: Queue) {
    bgt.rt.spawn(async move {
        while let Some((req, tx)) = queue.recv().await {
            tokio::spawn(async move {
                let (method, mut state) = match begin(&req.method, req.buffered) {
                    Ok(v) => v,
                    Err(m) => {
                        let _ = tx.send(m).await;
                        return;
                    }
                };
                let sent = req.client.request(method, req.url.as_str()).send().await;
                let mut resp = None;
                let mut ev = ExchangeEvent::Responded(match sent {
                    Ok(r) => {
                        let head = Response { status: r.status().as_u16() as i64, headers: Vec::new(), body: None };
                        resp = Some(r);
                        Ok(head)
                    }
                    Err(e) => Err(e.to_string()),
                });
                loop {
                    let step = advance(state, ev);
                    state = step.state;
                    if let Some(m) = step.emit {
                        if tx.send(m).await.is_err() {
                            return;
                        }
                    }
                    ev = match step.next {
                        NextStep::Stop => return,
                        NextStep::ReadBody => match resp.take() {
                            Some(r) => ExchangeEvent::BodyRead(r.bytes().await.map(|b| b.to_vec()).map_err(|e| e.to_string())),
                            None => return,
                        },
                        NextStep::ReadChunk => match resp.as_mut() {
                            Some(r) => ExchangeEvent::ChunkRead(
                                r.chunk().await.map(|c| c.map(|b| b.to_vec())).map_err(|e| e.to_string()),
                            ),
                            None => return,
                        },
                    };
                }
            });
        }
    });
}

fn send(c: &client, bgt: &BgThread, slot: &mut Option<Vec<Entry>>, name: &str) -> Result<(), String> {
    let (tx, rx) = tokio::sync::mpsc::channel(1);
    let req = c.send(slot, name, rx)?;
    let _ = bgt.sender.send((req, tx));
    Ok(())
}

fn reply(c: &client, bgt: &BgThread, slot: &mut Option<Vec<Entry>>, name: &str) -> Option<RespMsg> {
    let (tx, rx) = tokio::sync::mpsc::channel(1);
    if let Ok(Some(req)) = c.submit(slot, name, rx) {
        let _ = bgt.sender.send((req, tx));
    }
    c.next_reply(slot, name)
}

fn status(c: &client, bgt: &BgThread, slot: &mut Option<Vec<Entry>>, name: &str) -> Result<i64, String> {
    let m = reply(c, bgt, slot, name);
    c.status(slot, name, m)
}

fn header(c: &client, bgt: &BgThread, slot: &mut Option<Vec<Entry>>, name: &str, key: &str) -> Result<Option<Vec<u8>>, String> {
    let m = reply(c, bgt, slot, name);
    c.header(slot, name, key, m)
}

fn body_as_string(c: &client, bgt: &BgThread, slot: &mut Option<Vec<Entry>>, name: &str) -> Result<Vec<u8>, String> {
    let m = reply(c, bgt, slot, name);
    c.body_as_string(slot, name, m)
}

fn error(c: &client, bgt: &BgThread, slot: &mut Option<Vec<Entry>>, name: &str) -> Result<Option<String>, String> {
    let m = reply(c, bgt, slot, name);
    c.error(slot, name, m)
}

#[test]
fn send_hands_out_the_held_request() {
    let c = new_client("c1");
    let mut slot: Option<Vec<Entry>> = None;
    c.init(&mut slot, "r", "http://example.com/x", "PUT").unwrap();
    c.set_header(&mut slot, "r", "k", "v").unwrap();
    let (_tx, rx) = tokio::sync::mpsc::channel::<RespMsg>(1);
    let req = c.send(&mut slot, "r", rx).ok().unwrap();
    assert_eq!(req.url, "http://example.com/x");
    assert_eq!(req.method, "PUT");
    assert_eq!(req.headers, vec![("k".to_string(), "v".to_string())]);
    assert!(req.buffered);
    assert!(matches!(slot.as_ref().unwrap()[0].transaction, VclTransaction::Sent(_)));
    let (_tx2, rx2) = tokio::sync::mpsc::channel::<RespMsg>(1);
    assert!(c.submit(&mut slot, "r", rx2).ok().unwrap().is_none());
}

#[test]
fn accessors_settle_with_the_given_reply() {
    let c = new_client("c1");
    let mut slot: Option<Vec<Entry>> = None;
    c.init(&mut slot, "r", "http://example.com/", "GET").unwrap();
    let msg = "reqwest: request \"r\" isn't initialized".to_string();
    // nothing sent yet: not ready to answer, and no reply to wait for
    assert!(c.next_reply(&mut slot, "r").is_none());
    assert_eq!(c.status(&mut slot, "r", None), Err(msg));
    let (_tx, rx) = tokio::sync::mpsc::channel::<RespMsg>(1);
    assert!(c.submit(&mut slot, "r", rx).ok().unwrap().is_some());
    assert_eq!(c.status(&mut slot, "r", Some(RespMsg::Headers(fixed_response()))), Ok(200));
    // settled: later replies change nothing
    assert_eq!(c.status(&mut slot, "r", Some(RespMsg::Failed("late".to_string()))), Ok(200));
    assert_eq!(c.error(&mut slot, "r", None), Ok(None));
}

#[test]
fn round_trip_buffered_request() {
    let (bgt, queue) = executor();
    answer_with(&bgt, queue, || RespMsg::Headers(fixed_response()));
    let c = new_client("c1");
    let mut slot: Option<Vec<Entry>> = None;
    c.init(&mut slot, "r", "http://example.com/", "GET").unwrap();
    send(&c, &bgt, &mut slot, "r").unwrap();
    assert_eq!(status(&c, &bgt, &mut slot, "r").unwrap(), 200);
    assert_eq!(header(&c, &bgt, &mut slot, "r", "x-test").unwrap(), Some(b"1".to_vec()));
    assert_eq!(header(&c, &bgt, &mut slot, "r", "X-Test").unwrap(), Some(b"1".to_vec()));
    assert_eq!(header(&c, &bgt, &mut slot, "r", "x-missing").unwrap(), None);
    assert_eq!(body_as_string(&c, &bgt, &mut slot, "r").unwrap(), b"ok".to_vec());
    assert_eq!(error(&c, &bgt, &mut slot, "r").unwrap(), None);
}

#[test]
fn accessor_resolves_once_and_caches() {
    let (bgt, queue) = executor();
    let seen = answer_with(&bgt, queue, || RespMsg::Headers(fixed_response()));
    let c = new_client("c1");
    let mut slot: Option<Vec<Entry>> = None;
    c.init(&mut slot, "r", "http://example.com/", "GET").unwrap();
    // an accessor on an unsent transaction sends it first
    assert_eq!(status(&c, &bgt, &mut slot, "r").unwrap(), 200);
    assert_eq!(status(&c, &bgt, &mut slot, "r").unwrap(), 200);
    assert_eq!(body_as_string(&c, &bgt, &mut slot, "r").unwrap(), b"ok".to_vec());
    assert_eq!(body_as_string(&c, &bgt, &mut slot, "r").unwrap(), b"ok".to_vec());
    assert_eq!(seen.load(std::sync::atomic::Ordering::SeqCst), 1);
    assert!(matches!(slot.as_ref().unwrap()[0].transaction, VclTransaction::Resp(Ok(_))));
}

#[test]
fn failed_exchange_answers() {
    let (bgt, queue) = executor();
    answer_with(&bgt, queue, || RespMsg::Failed("connection refused".to_string()));
    let c = new_client("c1");
    let mut slot: Option<Vec<Entry>> = None;
    c.init(&mut slot, "r", "http://example.com/", "GET").unwrap();
    send(&c, &bgt, &mut slot, "r").unwrap();
    assert_eq!(status(&c, &bgt, &mut slot, "r").unwrap(), 0);
    assert_eq!(header(&c, &bgt, &mut slot, "r", "x-test").unwrap(), None);
    assert_eq!(body_as_string(&c, &bgt, &mut slot, "r").unwrap(), Vec::<u8>::new());
    assert_eq!(error(&c, &bgt, &mut slot, "r").unwrap(), Some("connection refused".to_string()));
}

#[test]
fn unreachable_address_reports_error() {
    let (bgt, queue) = executor();
    run_for_real(&bgt, queue);
    let c = new_client("c1");
    let mut slot: Option<Vec<Entry>> = None;
    c.init(&mut slot, "r", "http://127.0.0.1:1/", "GET").unwrap();
    send(&c, &bgt, &mut slot, "r").unwrap();
    let err = error(&c, &bgt, &mut slot, "r").unwrap();
    assert!(!err.unwrap().is_empty());
    assert_eq!(status(&c, &bgt, &mut slot, "r").unwrap(), 0);
}

#[test]
fn invalid_method_reports_error() {
    let (bgt, queue) = executor();
    run_for_real(&bgt, queue);
    let c = new_client("c1");
    let mut slot: Option<Vec<Entry>> = None;
    c.init(&mut slot, "r", "http://127.0.0.1:1/", "BAD METHOD").unwrap();
    assert_eq!(status(&c, &bgt, &mut slot, "r").unwrap(), 0);
    assert!(error(&c, &bgt, &mut slot, "r").unwrap().is_some());
}

#[test]
fn closed_executor_settles_as_failure() {
    let (bgt, queue) = executor();
    drop(queue);
    let c = new_client("c1");
    let mut slot: Option<Vec<Entry>> = None;
    c.init(&mut slot, "r", "http://example.com/", "GET").unwrap();
    assert_eq!(status(&c, &bgt, &mut slot, "r").unwrap(), 0);
    assert_eq!(
        error(&c, &bgt, &mut slot, "r").unwrap(),
        Some("reqwest: the exchange ended without a response".to_string())
    );
}

#[test]
fn mutation_only_before_send() {
    let (bgt, queue) = executor();
    answer_with(&bgt, queue, || RespMsg::Headers(fixed_response()));
    let c = new_client("c1");
    let mut slot: Option<Vec<Entry>> = None;
    c.init(&mut slot, "r", "http://example.com/", "POST").unwrap();
    c.set_header(&mut slot, "r", "a", "1").unwrap();
    c.set_header(&mut slot, "r", "a", "2").unwrap();
    c.set_body(&mut slot, "r", "first").unwrap();
    c.set_body(&mut slot, "r", "second").unwrap();
    match &slot.as_ref().unwrap()[0].transaction {
        VclTransaction::Req(req) => {
            assert_eq!(req.headers, vec![("a".to_string(), "1".to_string()), ("a".to_string(), "2".to_string())]);
            assert!(matches!(&req.body, vmod_reqwest::transaction::ReqBody::Full(b) if b == b"second"));
            assert_eq!(req.method, "POST");
            assert!(req.buffered);
        }
        _ => panic!("expected an unsent request"),
    }
    send(&c, &bgt, &mut slot, "r").unwrap();
    let msg = "reqwest: request \"r\" isn't initialized".to_string();
    assert_eq!(c.set_header(&mut slot, "r", "b", "3"), Err(msg.clone()));
    assert_eq!(c.set_body(&mut slot, "r", "third"), Err(msg.clone()));
    assert_eq!(send(&c, &bgt, &mut slot, "r"), Err(msg.clone()));
    assert_eq!(status(&c, &bgt, &mut slot, "r").unwrap(), 200);
    assert_eq!(c.set_header(&mut slot, "r", "b", "3"), Err(msg));
}

#[test]
fn unknown_transaction_is_not_initialized() {
    let (bgt, _queue) = executor();
    let c = new_client("c1");
    let mut slot: Option<Vec<Entry>> = None;
    let msg = "reqwest: request \"nope\" isn't initialized".to_string();
    assert_eq!(status(&c, &bgt, &mut slot, "nope"), Err(msg.clone()));
    assert_eq!(c.set_header(&mut slot, "nope", "a", "b"), Err(msg.clone()));
    assert!(slot.is_none());
    c.init(&mut slot, "other", "http://example.com/", "GET").unwrap();
    assert_eq!(error(&c, &bgt, &mut slot, "nope"), Err(msg.clone()));
    assert_eq!(body_as_string(&c, &bgt, &mut slot, "nope"), Err(msg.clone()));
    assert_eq!(header(&c, &bgt, &mut slot, "nope", "a"), Err(msg.clone()));
    assert_eq!(c.set_body(&mut slot, "nope", "x"), Err(msg.clone()));
    assert_eq!(send(&c, &bgt, &mut slot, "nope"), Err(msg));
}

#[test]
fn init_replaces_and_keys_by_client() {
    let c1 = new_client("c1");
    let c2 = new_client("c2");
    let mut slot: Option<Vec<Entry>> = None;
    c1.init(&mut slot, "r", "http://a/", "GET").unwrap();
    c2.init(&mut slot, "r", "http://b/", "GET").unwrap();
    c1.set_header(&mut slot, "r", "k", "v").unwrap();
    c1.init(&mut slot, "r", "http://c/", "PUT").unwrap();
    let entries = slot.as_ref().unwrap();
    assert_eq!(entries.len(), 2);
    match &entries[0].transaction {
        VclTransaction::Req(req) => {
            assert_eq!(req.url, "http://c/");
            assert_eq!(req.method, "PUT");
            assert!(req.headers.is_empty());
        }
        _ => panic!("expected an unsent request"),
    }
    assert_eq!(entries[1].client_name, "c2");
    match &entries[1].transaction {
        VclTransaction::Req(req) => assert_eq!(req.url, "http://b/"),
        _ => panic!("expected an unsent request"),
    }
}

#[test]
fn client_new_rules() {
    let e = client::new("x", Some("http://a"), Some(true), reqwest::Client::new());
    assert_eq!(
        e.err().unwrap(),
        "reqwest: client() can't take both an https and a base_url argument"
    );
    let mut c = client::new("x", None, Some(true), reqwest::Client::new()).ok().unwrap();
    assert!(c.https);
    assert_eq!(c.backend(), 0);
    c.bind(42);
    assert_eq!(c.backend(), 42);
    let c = client::new("x", Some("http://a"), None, reqwest::Client::new()).ok().unwrap();
    assert!(!c.https);
    assert_eq!(c.base_url.as_deref(), Some("http://a"));
}

#[test]
fn settle_each_reply() {
    assert_eq!(settle(Some(RespMsg::Headers(fixed_response()))).ok().unwrap().status, 200);
    assert_eq!(settle(Some(RespMsg::Failed("boom".to_string()))).err().unwrap(), "boom");
    assert_eq!(
        settle(Some(RespMsg::Chunk(vec![1]))).err().unwrap(),
        "reqwest: unexpected body chunk before the response"
    );
    assert_eq!(settle(None).err().unwrap(), "reqwest: the exchange ended without a response");
}
