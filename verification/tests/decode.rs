//! Decoding facades: UTF-8 text, JSON documents, and the error kinds the
//! engine can finalize a request with.

use h_crawler::codec::decode_json;
use h_crawler::codec::decode_text;
use h_crawler::Crawler;
use h_crawler::DisplayableError;
use h_crawler::FetchClient;
use h_crawler::FetchError;

/// A fetch client that answers each target with fixed bytes.
struct BodyClient {
    bodies: Vec<(String, Vec<u8>)>,
}

impl FetchClient for BodyClient {
    fn fetch(&mut self, target: &str, _query: &Vec<(String, String)>) -> Result<(u16, Vec<u8>), String> {
        for (t, body) in self.bodies.iter() {
            if t == target {
                return Ok((200, body.clone()));
            }
        }
        Err(String::from("no such target"))
    }
}

fn engine() -> Crawler {
    Crawler::new(2, 60, Vec::new(), Vec::new(), 0).unwrap()
}

fn pairs(targets: &[&str]) -> Vec<(String, Vec<(String, String)>)> {
    targets.iter().map(|t| (t.to_string(), Vec::new())).collect()
}

#[test]
fn text_decodes_utf8_bodies() {
    let mut crawler = engine();
    let mut client = BodyClient { bodies: vec![("page".to_string(), "hello, text".as_bytes().to_vec())] };
    let results = crawler.get_text(&mut client, "", pairs(&["page"]));
    assert_eq!(results.len(), 1);
    assert_eq!(results[0].as_ref().unwrap(), "hello, text");
}

#[test]
fn text_turns_invalid_utf8_into_decode_error() {
    let mut crawler = engine();
    let mut client = BodyClient { bodies: vec![("bad".to_string(), vec![0xff, 0xfe, 0x41])] };
    let results = crawler.get_text(&mut client, "", pairs(&["bad"]));
    match &results[0] {
        Err(FetchError::DecodeError(_)) => (),
        other => panic!("expected a decode error, got ok={}", other.is_ok()),
    }
}

#[test]
fn json_decoding_is_idempotent_across_a_batch() {
    // Two requests answered with the same document yield two equal,
    // independent values.
    let mut crawler = engine();
    let body = br#"{"a":1}"#.to_vec();
    let mut client = BodyClient {
        bodies: vec![("one".to_string(), body.clone()), ("two".to_string(), body)],
    };
    let results = crawler.get_json(&mut client, "", pairs(&["one", "two"]));
    assert_eq!(results.len(), 2);
    let first = results[0].as_ref().unwrap();
    let second = results[1].as_ref().unwrap();
    assert_eq!(first, second);
    assert_eq!(first.get("a").and_then(|v| v.as_i64()), Some(1));
    assert_eq!(second.get("a").and_then(|v| v.as_i64()), Some(1));
}

#[test]
fn json_turns_malformed_body_into_decode_error() {
    let mut crawler = engine();
    let mut client = BodyClient { bodies: vec![("broken".to_string(), b"{\"a\":".to_vec())] };
    let results = crawler.get_json(&mut client, "", pairs(&["broken"]));
    match &results[0] {
        Err(FetchError::DecodeError(_)) => (),
        other => panic!("expected a decode error, got ok={}", other.is_ok()),
    }
}

#[test]
fn decode_failures_pass_fetch_failures_through() {
    let failure = FetchError::Exhausted(Box::new(FetchError::HttpStatusError(502)));
    let text = decode_text(vec![Err(failure)]);
    match &text[0] {
        Err(FetchError::Exhausted(last)) => match last.as_ref() {
            FetchError::HttpStatusError(status) => assert_eq!(*status, 502),
            other => panic!("wrong inner error: {}", other.describe()),
        },
        _ => panic!("failure outcome must pass through"),
    }
    let failure = FetchError::TransportError("nope".to_string());
    let json = decode_json(vec![Err(failure)]);
    match &json[0] {
        Err(FetchError::TransportError(d)) => assert_eq!(d, "nope"),
        _ => panic!("failure outcome must pass through"),
    }
}

#[test]
fn decode_handles_mixed_batches_in_order() {
    let outcomes = vec![
        Ok(b"first".to_vec()),
        Err(FetchError::HttpStatusError(404)),
        Ok(b"third".to_vec()),
    ];
    let decoded = decode_text(outcomes);
    assert_eq!(decoded.len(), 3);
    assert_eq!(decoded[0].as_ref().unwrap(), "first");
    assert!(matches!(decoded[1], Err(FetchError::HttpStatusError(404))));
    assert_eq!(decoded[2].as_ref().unwrap(), "third");
}

#[test]
fn http_status_failure_is_reported_with_its_status() {
    struct TeapotClient;
    impl FetchClient for TeapotClient {
        fn fetch(&mut self, _t: &str, _q: &Vec<(String, String)>) -> Result<(u16, Vec<u8>), String> {
            Ok((418, b"short and stout".to_vec()))
        }
    }
    let mut crawler = engine();
    let mut client = TeapotClient;
    let results = crawler.get_byte(&mut client, "", pairs(&["pot"]));
    match &results[0] {
        Err(FetchError::Exhausted(last)) => {
            assert!(matches!(last.as_ref(), FetchError::HttpStatusError(418)));
        },
        _ => panic!("a non-success status must fail the request"),
    }
}

#[test]
fn error_descriptions_name_their_kind() {
    assert_eq!(
        FetchError::TransportError("dns failure".to_string()).describe(),
        "dns failure"
    );
    assert_eq!(FetchError::HttpStatusError(503).describe(), "HTTP status 503");
    assert_eq!(
        FetchError::DecodeError("bad byte".to_string()).describe(),
        "decode error: bad byte"
    );
    assert_eq!(
        FetchError::Exhausted(Box::new(FetchError::HttpStatusError(500))).describe(),
        "retries exhausted: HTTP status 500"
    );
}

#[test]
fn displayable_error_wraps_a_description() {
    let err = DisplayableError::from(String::from("everything is on fire"));
    assert_eq!(err.message(), "everything is on fire");
}
