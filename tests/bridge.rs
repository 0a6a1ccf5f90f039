use request_bridge::body::{collect_body, BodyBuffer};
use request_bridge::envelope::{ResponseEnvelope, ENVELOPE_VERSION};
use request_bridge::executor::Executor;
use request_bridge::outcome::{
    failure, settle_encoded, AsyncKind, AsyncResult, Command, FailureKind, HttpRequest, Identity,
};
use request_bridge::unit::{complete, prepare, Completion, Prepared};
use request_bridge::uri::{join_uri, rewrite_uri, settle_destination};

fn base() -> String {
    "https://cluster.example".to_string()
}

fn command(name: &str, id: u64, pq: Option<&str>) -> Command {
    Command {
        controller_name: name.to_string(),
        async_request_id: id,
        request: HttpRequest {
            method: "GET".to_string(),
            path_and_query: pq.map(|p| p.to_string()),
            headers: vec![(b"accept".to_vec(), b"application/json".to_vec())],
            body: b"payload".to_vec(),
        },
    }
}

fn identity(name: &str, id: u64) -> Identity {
    Identity { controller_name: name.to_string(), async_request_id: id }
}

fn le64(n: u64) -> Vec<u8> {
    n.to_le_bytes().to_vec()
}

fn expected_envelope(status: u16, headers: &[(&[u8], &[u8])], body: &[u8]) -> Vec<u8> {
    let mut out = vec![ENVELOPE_VERSION];
    out.extend_from_slice(&status.to_le_bytes());
    out.extend(le64(headers.len() as u64));
    for (n, v) in headers {
        out.extend(le64(n.len() as u64));
        out.extend_from_slice(n);
        out.extend(le64(v.len() as u64));
        out.extend_from_slice(v);
    }
    out.extend(le64(body.len() as u64));
    out.extend_from_slice(body);
    out
}

#[test]
fn joins_base_and_path_and_query() {
    let r = join_uri(&base(), &"/api/v1/pods?x=1".to_string());
    assert_eq!(r, "https://cluster.example/api/v1/pods?x=1");
}

#[test]
fn rewrites_to_cluster_base() {
    let d = rewrite_uri(&base(), &Some("/api/v1/pods?x=1".to_string())).unwrap();
    assert_eq!(d.text, "https://cluster.example/api/v1/pods?x=1");
    assert_eq!(d.uri.to_string(), "https://cluster.example/api/v1/pods?x=1");
    assert_eq!(d.uri.path_and_query().unwrap().as_str(), "/api/v1/pods?x=1");
}

#[test]
fn rewrite_without_path_fails() {
    let r = rewrite_uri(&base(), &None);
    assert_eq!(r.unwrap_err(), FailureKind::UriConstruction);
}

#[test]
fn rewrite_of_malformed_path_fails() {
    let r = rewrite_uri(&base(), &Some("/a b".to_string()));
    assert_eq!(r.unwrap_err(), FailureKind::UriConstruction);
}

#[test]
fn settle_destination_maps_parse_error() {
    let bad = http::Uri::try_from("/a b").unwrap_err();
    let r = settle_destination("x".to_string(), Err(bad));
    assert_eq!(r.unwrap_err(), FailureKind::UriConstruction);
    let good = http::Uri::try_from("/ok").unwrap();
    let d = settle_destination("/ok".to_string(), Ok(good)).unwrap();
    assert_eq!(d.text, "/ok");
}

#[test]
fn envelope_bytes_are_exact() {
    let e = ResponseEnvelope {
        status_code: 200,
        headers: vec![(b"ct".to_vec(), b"text".to_vec())],
        body: b"hi".to_vec(),
    };
    let bytes = e.encode().unwrap();
    assert_eq!(bytes, expected_envelope(200, &[(b"ct", b"text")], b"hi"));
}

#[test]
fn repeated_headers_keep_both_values_in_order() {
    let e = ResponseEnvelope {
        status_code: 404,
        headers: vec![
            (b"set-cookie".to_vec(), b"a=1".to_vec()),
            (b"set-cookie".to_vec(), b"b=2".to_vec()),
        ],
        body: Vec::new(),
    };
    let bytes = e.encode().unwrap();
    assert_eq!(
        bytes,
        expected_envelope(404, &[(b"set-cookie", b"a=1"), (b"set-cookie", b"b=2")], b"")
    );
    let first = bytes.windows(3).position(|w| w == b"a=1").unwrap();
    let second = bytes.windows(3).position(|w| w == b"b=2").unwrap();
    assert!(first < second);
}

#[test]
fn envelope_encoding_is_deterministic() {
    let e = ResponseEnvelope { status_code: 201, headers: vec![], body: vec![1, 2, 3] };
    assert_eq!(e.encode(), e.clone().encode());
}

#[test]
fn body_within_limit_is_kept() {
    let mut b = BodyBuffer::new(5);
    assert_eq!(b.push_chunk(vec![1, 2]), Ok(()));
    assert_eq!(b.push_chunk(vec![3, 4, 5]), Ok(()));
    assert_eq!(b.len(), 5);
    assert_eq!(b.into_bytes(), vec![1, 2, 3, 4, 5]);
}

#[test]
fn body_over_limit_is_refused() {
    let mut b = BodyBuffer::new(4);
    assert_eq!(b.push_chunk(vec![1, 2, 3]), Ok(()));
    assert_eq!(b.push_chunk(vec![4, 5]), Err(FailureKind::BodyTooLarge));
    assert_eq!(b.len(), 3);
    assert_eq!(b.limit(), 4);
}

#[test]
fn collect_body_exact_and_over_limit() {
    assert_eq!(collect_body(4, vec![vec![1], vec![2, 3], vec![]]), Ok(vec![1, 2, 3]));
    assert_eq!(collect_body(3, vec![vec![1, 2], vec![3]]), Ok(vec![1, 2, 3]));
    assert_eq!(collect_body(2, vec![vec![1, 2], vec![3]]), Err(FailureKind::BodyTooLarge));
    assert_eq!(collect_body(0, vec![]), Ok(vec![]));
}

#[test]
fn body_too_large_becomes_failure_result() {
    let r = complete(identity("ctl", 9), Completion::Failed(FailureKind::BodyTooLarge, b"big".to_vec()));
    assert_eq!(r.kind, AsyncKind::Failure);
    assert_eq!(r.payload, Some(vec![4, b'b', b'i', b'g']));
    assert_eq!(r.async_request_id, 9);
}

#[test]
fn connection_failure_becomes_request_execution_failure() {
    let r = complete(
        identity("ctl", 3),
        Completion::Failed(FailureKind::RequestExecution, b"unreachable".to_vec()),
    );
    assert_eq!(r.controller_name, "ctl");
    assert_eq!(r.async_request_id, 3);
    assert_eq!(r.kind, AsyncKind::Failure);
    let p = r.payload.unwrap();
    assert_eq!(p[0], 2);
    assert_eq!(&p[1..], b"unreachable");
}

#[test]
fn response_becomes_success_result() {
    let e = ResponseEnvelope { status_code: 200, headers: vec![], body: b"ok".to_vec() };
    let r = complete(identity("ctl", 5), Completion::Responded(e));
    assert_eq!(r.kind, AsyncKind::Success);
    assert_eq!(r.payload, Some(expected_envelope(200, &[], b"ok")));
    assert_eq!(r.controller_name, "ctl");
    assert_eq!(r.async_request_id, 5);
}

#[test]
fn failed_encoding_becomes_serialization_failure() {
    let r = settle_encoded(identity("ctl", 1), None);
    assert_eq!(r.kind, AsyncKind::Failure);
    assert_eq!(r.payload, Some(vec![5]));
    let s = settle_encoded(identity("ctl", 1), Some(vec![7, 8]));
    assert_eq!(s.kind, AsyncKind::Success);
    assert_eq!(s.payload, Some(vec![7, 8]));
}

#[test]
fn failure_tags_are_distinct() {
    let kinds = [
        FailureKind::UriConstruction,
        FailureKind::RequestExecution,
        FailureKind::BodyRead,
        FailureKind::BodyTooLarge,
        FailureKind::Serialization,
        FailureKind::ResultDelivery,
    ];
    let tags: Vec<u8> = kinds.iter().map(|k| k.tag()).collect();
    assert_eq!(tags, vec![1, 2, 3, 4, 5, 6]);
    let r = failure(identity("c", 0), FailureKind::BodyRead, vec![]);
    assert_eq!(r.payload, Some(vec![3]));
}

#[test]
fn prepare_rewrites_and_keeps_request() {
    match prepare(command("ctl", 7, Some("/api/v1/pods?x=1")), &base()) {
        Prepared::Send(o) => {
            assert_eq!(o.identity.controller_name, "ctl");
            assert_eq!(o.identity.async_request_id, 7);
            assert_eq!(o.method, "GET");
            assert_eq!(o.destination.text, "https://cluster.example/api/v1/pods?x=1");
            assert_eq!(o.body, b"payload".to_vec());
            assert_eq!(o.headers.len(), 1);
        }
        Prepared::Done(_) => panic!("expected a call"),
    }
}

#[test]
fn prepare_without_uri_resolves_at_once() {
    match prepare(command("ctl", 8, None), &base()) {
        Prepared::Done(r) => {
            assert_eq!(r.controller_name, "ctl");
            assert_eq!(r.async_request_id, 8);
            assert_eq!(r.kind, AsyncKind::Failure);
            assert_eq!(r.payload, Some(vec![1]));
        }
        Prepared::Send(_) => panic!("expected a result"),
    }
}

#[test]
fn many_commands_complete_out_of_order_correlated() {
    let n: u64 = 8;
    let mut ids = Vec::new();
    for i in 0..n {
        match prepare(command("ctl", 100 + i, Some("/x")), &base()) {
            Prepared::Send(o) => ids.push(o.identity),
            Prepared::Done(_) => panic!("expected a call"),
        }
    }
    let mut results: Vec<AsyncResult> = Vec::new();
    for id in ids.into_iter().rev() {
        let status = 200 + (id.async_request_id as u16 - 100);
        let e = ResponseEnvelope { status_code: status, headers: vec![], body: vec![] };
        results.push(complete(id, Completion::Responded(e)));
    }
    assert_eq!(results.len(), n as usize);
    let mut seen: Vec<u64> = results.iter().map(|r| r.async_request_id).collect();
    for r in &results {
        let status = 200 + (r.async_request_id as u16 - 100);
        assert_eq!(r.payload, Some(expected_envelope(status, &[], b"")));
    }
    seen.sort();
    assert_eq!(seen, (100..100 + n).collect::<Vec<u64>>());
}

#[test]
fn executor_bounds_running_units() {
    let mut ex = Executor::new(2);
    assert!(ex.accepts());
    assert_eq!(ex.start_unit(), Some(0));
    assert_eq!(ex.start_unit(), Some(1));
    assert!(!ex.accepts());
    assert_eq!(ex.start_unit(), None);
    assert_eq!(ex.in_flight(), 2);
    assert!(ex.finish(1));
    assert_eq!(ex.start_unit(), Some(2));
}

#[test]
fn executor_finishes_each_ticket_once_in_any_order() {
    let mut ex = Executor::new(4);
    let ts: Vec<u64> = (0..4).map(|_| ex.start_unit().unwrap()).collect();
    for t in [2u64, 0, 3, 1] {
        assert!(ts.contains(&t));
        assert!(ex.finish(t));
        assert!(!ex.finish(t));
    }
    assert_eq!(ex.in_flight(), 0);
    assert!(!ex.finish(9));
}

#[test]
fn closing_keeps_running_units() {
    let mut ex = Executor::new(3);
    let a = ex.start_unit().unwrap();
    let b = ex.start_unit().unwrap();
    let c = ex.start_unit().unwrap();
    ex.close();
    assert!(!ex.accepts());
    assert_eq!(ex.start_unit(), None);
    assert_eq!(ex.in_flight(), 3);
    assert!(!ex.is_drained());
    assert!(ex.finish(b));
    assert!(ex.finish(c));
    assert!(!ex.is_drained());
    assert!(ex.finish(a));
    assert!(ex.is_drained());
}

#[test]
fn zero_limit_starts_nothing() {
    let mut ex = Executor::new(0);
    assert!(!ex.accepts());
    assert_eq!(ex.start_unit(), None);
}
