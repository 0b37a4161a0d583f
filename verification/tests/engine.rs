//! Batch-level behavior of the fetch engine, driven with scripted fetch
//! clients.

use h_crawler::crawler::classify;
use h_crawler::Crawler;
use h_crawler::FetchClient;
use h_crawler::FetchError;

/// A fetch client that answers from a script: each listed target fails
/// with the given status a set number of times before it succeeds, and
/// every call is recorded.
struct ScriptedClient {
    fail_first: Vec<(String, usize)>,
    fail_status: u16,
    calls: Vec<String>,
}

impl ScriptedClient {
    fn new(fail_first: Vec<(&str, usize)>, fail_status: u16) -> ScriptedClient {
        ScriptedClient {
            fail_first: fail_first
                .into_iter()
                .map(|(t, n)| (t.to_string(), n))
                .collect(),
            fail_status,
            calls: Vec::new(),
        }
    }

    fn calls_for(&self, target: &str) -> usize {
        self.calls.iter().filter(|c| c.as_str() == target).count()
    }
}

impl FetchClient for ScriptedClient {
    fn fetch(&mut self, target: &str, _query: &Vec<(String, String)>) -> Result<(u16, Vec<u8>), String> {
        self.calls.push(target.to_string());
        for entry in self.fail_first.iter_mut() {
            if entry.0 == target && entry.1 > 0 {
                entry.1 -= 1;
                return Ok((self.fail_status, Vec::new()));
            }
        }
        Ok((200, format!("body:{target}").into_bytes()))
    }
}

/// A fetch client that never succeeds.
struct FailingClient {
    calls: usize,
}

impl FetchClient for FailingClient {
    fn fetch(&mut self, _target: &str, _query: &Vec<(String, String)>) -> Result<(u16, Vec<u8>), String> {
        self.calls += 1;
        Err(String::from("connection refused"))
    }
}

fn engine(concurrency: usize, retry: usize) -> Crawler {
    Crawler::new(concurrency, 60, Vec::new(), Vec::new(), retry).unwrap()
}

fn pairs(targets: &[&str]) -> Vec<(String, Vec<(String, String)>)> {
    targets.iter().map(|t| (t.to_string(), Vec::new())).collect()
}

#[test]
fn batch_keeps_length_and_order() {
    let mut crawler = engine(3, 1);
    let mut client = ScriptedClient::new(vec![], 500);
    let results = crawler.get_byte(&mut client, "", pairs(&["a", "b", "c", "d"]));
    assert_eq!(results.len(), 4);
    for (i, name) in ["a", "b", "c", "d"].iter().enumerate() {
        let body = results[i].as_ref().unwrap();
        assert_eq!(body, &format!("body:{name}").into_bytes());
    }
}

#[test]
fn order_is_restored_after_out_of_order_completion() {
    // Drive the engine by hand and finalize the requests backwards: the
    // returned list still follows submission order.
    let mut crawler = engine(3, 0);
    crawler.start_batch("", pairs(&["a", "b", "c"]));
    let t0 = crawler.next_task().unwrap();
    let t1 = crawler.next_task().unwrap();
    let t2 = crawler.next_task().unwrap();
    crawler.report(t2.sequence_id, Ok(b"two".to_vec()));
    crawler.report(t1.sequence_id, Ok(b"one".to_vec()));
    crawler.report(t0.sequence_id, Ok(b"zero".to_vec()));
    assert!(crawler.is_complete());
    let results = crawler.take_results();
    assert_eq!(results.len(), 3);
    assert_eq!(results[0].as_ref().unwrap(), &b"zero".to_vec());
    assert_eq!(results[1].as_ref().unwrap(), &b"one".to_vec());
    assert_eq!(results[2].as_ref().unwrap(), &b"two".to_vec());
}

#[test]
fn concurrency_cap_limits_in_flight_tasks() {
    let mut crawler = engine(2, 1);
    crawler.start_batch("", pairs(&["a", "b", "c", "d"]));
    let t0 = crawler.next_task();
    let t1 = crawler.next_task();
    assert!(t0.is_some());
    assert!(t1.is_some());
    assert_eq!(crawler.in_flight_count(), 2);
    // The cap is reached: no further task is handed out.
    assert!(crawler.next_task().is_none());
    // Finishing one attempt frees one worker.
    crawler.report(t0.unwrap().sequence_id, Ok(Vec::new()));
    assert_eq!(crawler.in_flight_count(), 1);
    assert!(crawler.next_task().is_some());
}

#[test]
fn always_failing_request_is_attempted_retry_plus_one_times() {
    let retry = 2;
    let mut crawler = engine(1, retry);
    let mut client = FailingClient { calls: 0 };
    let results = crawler.get_byte(&mut client, "", pairs(&["only"]));
    assert_eq!(client.calls, retry + 1);
    assert_eq!(results.len(), 1);
    match &results[0] {
        Err(FetchError::Exhausted(last)) => match last.as_ref() {
            FetchError::TransportError(d) => assert_eq!(d, "connection refused"),
            other => panic!("unexpected last error: {}", other.describe()),
        },
        other => panic!("expected exhaustion, got {:?}", other.is_ok()),
    }
}

#[test]
fn retry_is_deferred_behind_fresh_requests() {
    // Request 0 fails its first attempt; request 1 succeeds at once. The
    // fresh request is dispatched (and finalized) before the retry.
    let mut crawler = engine(1, 1);
    let mut client = ScriptedClient::new(vec![("a", 1)], 500);
    let results = crawler.get_byte(&mut client, "", pairs(&["a", "b"]));
    assert_eq!(client.calls, vec!["a", "b", "a"]);
    assert!(results[0].is_ok());
    assert!(results[1].is_ok());
}

#[test]
fn retry_dispatch_waits_for_whole_fresh_queue() {
    // Step the queue by hand: after request 0 fails, the next dispatched
    // task is fresh request 1, not the retry of request 0; the success of
    // request 1 is finalized while request 0's retry is still queued.
    let mut crawler = engine(1, 1);
    crawler.start_batch("", pairs(&["a", "b"]));
    let t0 = crawler.next_task().unwrap();
    assert_eq!(t0.sequence_id, 0);
    crawler.report(t0.sequence_id, classify(Ok((500, Vec::new()))));
    let t1 = crawler.next_task().unwrap();
    assert_eq!(t1.sequence_id, 1, "fresh request must precede the retry");
    crawler.report(t1.sequence_id, Ok(b"fine".to_vec()));
    assert_eq!(crawler.finalized_count(), 1, "request 1 finalized before the retry runs");
    let t0_again = crawler.next_task().unwrap();
    assert_eq!(t0_again.sequence_id, 0);
    crawler.report(t0_again.sequence_id, Ok(b"late".to_vec()));
    let results = crawler.take_results();
    assert_eq!(results[0].as_ref().unwrap(), &b"late".to_vec());
    assert_eq!(results[1].as_ref().unwrap(), &b"fine".to_vec());
}

#[test]
fn progress_counts_only_final_successes() {
    let mut crawler = engine(2, 1);
    crawler.start_batch("job", pairs(&["a", "b", "c"]));
    assert_eq!(crawler.completed_count(), 0);
    let t0 = crawler.next_task().unwrap();
    let t1 = crawler.next_task().unwrap();
    // A failure that will be retried counts nothing.
    crawler.report(t0.sequence_id, classify(Ok((503, Vec::new()))));
    assert_eq!(crawler.completed_count(), 0);
    crawler.report(t1.sequence_id, Ok(Vec::new()));
    assert_eq!(crawler.completed_count(), 1);
    let t2 = crawler.next_task().unwrap();
    assert_eq!(t2.sequence_id, 2);
    crawler.report(t2.sequence_id, Ok(Vec::new()));
    assert_eq!(crawler.completed_count(), 2);
    // The retried request finally succeeds: counted exactly once.
    let t0_retry = crawler.next_task().unwrap();
    assert_eq!(t0_retry.sequence_id, 0);
    crawler.report(t0_retry.sequence_id, Ok(Vec::new()));
    assert_eq!(crawler.completed_count(), 3);
    assert!(crawler.is_complete());
}

#[test]
fn attempt_counter_tracks_dispatches() {
    let mut crawler = engine(1, 3);
    crawler.start_batch("", pairs(&["a"]));
    assert_eq!(crawler.attempt_count(0), 0);
    let t = crawler.next_task().unwrap();
    assert_eq!(crawler.attempt_count(0), 1);
    crawler.report(t.sequence_id, classify(Err(String::from("down"))));
    let t = crawler.next_task().unwrap();
    assert_eq!(crawler.attempt_count(0), 2);
    crawler.report(t.sequence_id, Ok(Vec::new()));
    assert_eq!(crawler.attempt_count(0), 2);
}

#[test]
fn concrete_scenario_two_workers_one_retry() {
    // Batch of 3, concurrency 2, retry budget 1; request index 2 fails
    // with a status once, then succeeds.
    let mut crawler = engine(2, 1);
    let mut client = ScriptedClient::new(vec![("two", 1)], 500);
    crawler.start_batch("scenario", pairs(&["zero", "one", "two"]));
    while !crawler.is_complete() {
        if let Some(task) = crawler.next_task() {
            let response = client.fetch(&task.target, &task.query);
            crawler.report(task.sequence_id, classify(response));
        }
    }
    let line = crawler.render_progress();
    assert!(line.ends_with("/3"), "progress line {line:?} should end at /3");
    assert_eq!(line, "scenario => 3/3");
    let results = crawler.take_results();
    assert_eq!(results.len(), 3);
    assert!(results.iter().all(|r| r.is_ok()));
    assert_eq!(client.calls_for("two"), 2);
    assert_eq!(client.calls_for("zero"), 1);
    assert_eq!(client.calls_for("one"), 1);
}

#[test]
fn progress_line_renders_label_and_counts() {
    let mut crawler = engine(2, 0);
    crawler.start_batch("gallery", pairs(&["a", "b", "c", "d", "e"]));
    assert_eq!(crawler.render_progress(), "gallery => 0/5");
    let t = crawler.next_task().unwrap();
    crawler.report(t.sequence_id, Ok(Vec::new()));
    assert_eq!(crawler.render_progress(), "gallery => 1/5");
}

#[test]
fn cookie_header_joins_pairs_in_order() {
    let cookies = vec![
        ("ipb_member_id".to_string(), "12345".to_string()),
        ("ipb_pass_hash".to_string(), "cafe".to_string()),
    ];
    assert_eq!(
        h_crawler::crawler::cookie_header(&cookies),
        "ipb_member_id=12345;ipb_pass_hash=cafe;"
    );
    assert_eq!(h_crawler::crawler::cookie_header(&Vec::new()), "");
}

#[test]
fn construction_validates_configuration() {
    assert!(Crawler::new(0, 60, Vec::new(), Vec::new(), 1).is_err());
    assert!(Crawler::new(4, 0, Vec::new(), Vec::new(), 1).is_err());
    assert!(Crawler::new(4, 60, Vec::new(), Vec::new(), usize::MAX).is_err());
    assert!(Crawler::new(1, 1, Vec::new(), Vec::new(), 0).is_ok());
}

#[test]
fn engine_settings_are_kept() {
    let headers = vec![("Referer".to_string(), "https://example.org/".to_string())];
    let cookies = vec![("K".to_string(), "V".to_string())];
    let crawler = Crawler::new(5, 77, headers.clone(), cookies.clone(), 2).unwrap();
    assert_eq!(crawler.concurrency_cap(), 5);
    assert_eq!(crawler.timeout_seconds(), 77);
    assert_eq!(crawler.retry_limit(), 2);
    assert_eq!(crawler.default_headers(), &headers);
    assert_eq!(crawler.default_cookies(), &cookies);
}

#[test]
fn empty_batch_completes_at_once() {
    let mut crawler = engine(1, 1);
    let mut client = ScriptedClient::new(vec![], 500);
    let results = crawler.get_byte(&mut client, "", Vec::new());
    assert!(results.is_empty());
    assert!(client.calls.is_empty());
}

#[test]
fn engine_is_reusable_across_batches() {
    let mut crawler = engine(2, 1);
    let mut client = ScriptedClient::new(vec![], 500);
    let first = crawler.get_byte(&mut client, "", pairs(&["a"]));
    let second = crawler.get_byte(&mut client, "", pairs(&["b", "c"]));
    assert_eq!(first.len(), 1);
    assert_eq!(second.len(), 2);
}
