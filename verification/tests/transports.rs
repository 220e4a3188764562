use fast_requests::batch::{assemble, REQUEST_TIMEOUT_SECS};
use fast_requests::outcome::{Outcome, Reply, RequestError};
use fast_requests::transport::{
    conclude, conclude_all, failure_of_task, failure_of_transport, received, settle, settle_all,
    with_text,
};
use reqwest::ResponseBuilderExt;

type Joined = Result<Result<Reply, reqwest::Error>, tokio::task::JoinError>;

fn runtime() -> tokio::runtime::Runtime {
    tokio::runtime::Builder::new_current_thread().enable_all().build().unwrap()
}

fn response(status: u16, url: &str, body: &'static str) -> reqwest::Response {
    let built = http::Response::builder()
        .status(status)
        .url(reqwest::Url::parse(url).unwrap())
        .body(body)
        .unwrap();
    reqwest::Response::from(built)
}

fn status_error(status: u16, url: &str) -> reqwest::Error {
    match response(status, url, "").error_for_status() {
        Err(error) => error,
        Ok(_) => panic!("status {} is no error status", status),
    }
}

fn builder_error() -> reqwest::Error {
    match reqwest::Client::new().get("not a url").build() {
        Err(error) => error,
        Ok(_) => panic!("a malformed URL made a request"),
    }
}

fn panicked_task() -> tokio::task::JoinError {
    let joined = runtime().block_on(async {
        let handle: tokio::task::JoinHandle<()> = tokio::spawn(async { panic!("boom") });
        handle.await
    });
    joined.unwrap_err()
}

fn cancelled_task() -> tokio::task::JoinError {
    let joined = runtime().block_on(async {
        let handle: tokio::task::JoinHandle<()> =
            tokio::spawn(async { std::future::pending::<()>().await });
        handle.abort();
        handle.await
    });
    joined.unwrap_err()
}

fn full_reply(status: u16, url: &str, body: &'static str) -> Reply {
    let response = response(status, url, body);
    let head = received(&response);
    let read = runtime().block_on(response.text());
    with_text(head, read)
}

#[test]
fn timeout_is_thirty_seconds() {
    assert_eq!(REQUEST_TIMEOUT_SECS, 30);
}

#[test]
fn malformed_url_is_a_failure_without_status() {
    let failure = failure_of_transport(&builder_error());
    assert_eq!(failure.status_code, 0);
    assert!(failure.error.starts_with("builder error"));
}

#[test]
fn error_from_a_status_carries_the_status_and_says_so() {
    let failure = failure_of_transport(&status_error(404, "http://example.com/missing"));
    assert_eq!(
        failure,
        RequestError {
            status_code: 404,
            error: "HTTP status client error (404 Not Found) for url (http://example.com/missing)"
                .to_string(),
        }
    );
}

#[test]
fn server_error_status_is_carried_too() {
    let failure = failure_of_transport(&status_error(503, "http://example.com/"));
    assert_eq!(failure.status_code, 503);
    assert!(failure.error.starts_with("HTTP status server error (503"));
}

#[test]
fn panicked_task_is_a_failure_without_status() {
    let failure = failure_of_task(&panicked_task());
    assert_eq!(failure.status_code, 0);
    assert!(failure.error.starts_with("task "));
    assert!(failure.error.ends_with("panicked with message \"boom\""));
}

#[test]
fn cancelled_task_is_a_failure_without_status() {
    let failure = failure_of_task(&cancelled_task());
    assert_eq!(failure.status_code, 0);
    assert!(failure.error.starts_with("task "));
    assert!(failure.error.ends_with("was cancelled"));
}

#[test]
fn task_failure_reads_unlike_a_transport_failure() {
    let task = failure_of_task(&panicked_task());
    let transport = failure_of_transport(&builder_error());
    assert!(!task.error.is_empty());
    assert!(!transport.error.is_empty());
    assert_ne!(task.error, transport.error);
    assert!(!transport.error.starts_with("task "));
}

#[test]
fn received_notes_status_and_final_url_and_no_text() {
    let reply = received(&response(200, "http://example.com/landing?x=1", "ignored here"));
    assert_eq!(
        reply,
        Reply {
            status_code: 200,
            final_url: "http://example.com/landing?x=1".to_string(),
            text: None,
        }
    );
}

#[test]
fn received_reads_other_statuses() {
    assert_eq!(received(&response(404, "http://example.com/", "")).status_code, 404);
    assert_eq!(received(&response(999, "http://example.com/", "")).status_code, 999);
    assert_eq!(received(&response(100, "http://example.com/", "")).status_code, 100);
}

#[test]
fn with_text_adds_the_text_that_was_read() {
    let head = Reply { status_code: 200, final_url: "http://a/".to_string(), text: None };
    let full = with_text(head, Ok("body text".to_string()));
    assert_eq!(
        full,
        Reply {
            status_code: 200,
            final_url: "http://a/".to_string(),
            text: Some("body text".to_string()),
        }
    );
}

#[test]
fn with_text_leaves_no_text_when_reading_failed() {
    let head = Reply { status_code: 200, final_url: "http://a/".to_string(), text: None };
    let full = with_text(head, Err(builder_error()));
    assert_eq!(
        full,
        Reply { status_code: 200, final_url: "http://a/".to_string(), text: None }
    );
}

#[test]
fn response_with_status_200_is_a_success_with_url_and_body() {
    let outcome = conclude(Ok(Ok(full_reply(200, "http://example.com/page", "hello world"))));
    assert_eq!(
        outcome,
        Outcome::Success {
            status_code: 200,
            final_url: "http://example.com/page".to_string(),
            body: "hello world".to_string(),
        }
    );
}

#[test]
fn response_with_status_404_is_a_success_with_status_404() {
    let outcome = conclude(Ok(Ok(full_reply(404, "http://example.com/missing", "gone"))));
    assert_eq!(
        outcome,
        Outcome::Success {
            status_code: 404,
            final_url: "http://example.com/missing".to_string(),
            body: "gone".to_string(),
        }
    );
}

#[test]
fn status_error_404_is_a_failure_with_status_404() {
    let outcome = conclude(Ok(Err(status_error(404, "http://example.com/missing"))));
    assert_eq!(
        outcome,
        Outcome::Failure {
            status_code: 404,
            error: "HTTP status client error (404 Not Found) for url (http://example.com/missing)"
                .to_string(),
        }
    );
}

#[test]
fn reply_whose_body_could_not_be_read_is_a_success_with_empty_body() {
    let head = received(&response(200, "http://example.com/", "lost"));
    let outcome = conclude(Ok(Ok(with_text(head, Err(builder_error())))));
    assert_eq!(
        outcome,
        Outcome::Success {
            status_code: 200,
            final_url: "http://example.com/".to_string(),
            body: String::new(),
        }
    );
}

#[test]
fn settle_hands_a_value_on_untouched() {
    let settled = settle::<u32>(Ok(Ok(17)));
    assert_eq!(settled, Ok(17));
}

#[test]
fn settle_turns_a_client_error_into_a_failure() {
    let settled = settle::<u32>(Ok(Err(status_error(500, "http://example.com/"))));
    let failure = settled.unwrap_err();
    assert_eq!(failure.status_code, 500);
    assert!(failure.error.contains("500"));
}

#[test]
fn settle_turns_a_task_error_into_a_failure_with_status_zero() {
    let settled = settle::<u32>(Err(cancelled_task()));
    let failure = settled.unwrap_err();
    assert_eq!(failure.status_code, 0);
    assert!(failure.error.ends_with("was cancelled"));
}

#[test]
fn settle_all_of_nothing_is_nothing() {
    let settled = settle_all::<u32>(vec![]);
    assert!(settled.is_empty());
}

#[test]
fn settle_all_keeps_every_place() {
    let settled = settle_all::<u32>(vec![
        Ok(Ok(1)),
        Ok(Err(builder_error())),
        Err(panicked_task()),
        Ok(Ok(4)),
        Ok(Err(status_error(404, "http://example.com/"))),
    ]);
    assert_eq!(settled.len(), 5);
    assert_eq!(settled[0], Ok(1));
    assert_eq!(settled[1].as_ref().unwrap_err().status_code, 0);
    assert!(settled[1].as_ref().unwrap_err().error.starts_with("builder error"));
    assert_eq!(settled[2].as_ref().unwrap_err().status_code, 0);
    assert!(settled[2].as_ref().unwrap_err().error.starts_with("task "));
    assert_eq!(settled[3], Ok(4));
    assert_eq!(settled[4].as_ref().unwrap_err().status_code, 404);
}

#[test]
fn conclude_all_of_nothing_is_nothing() {
    assert_eq!(conclude_all(vec![]), vec![]);
}

#[test]
fn one_failure_does_not_stop_the_others() {
    let joined: Vec<Joined> = vec![
        Ok(Err(builder_error())),
        Ok(Ok(full_reply(200, "http://example.com/a", "A"))),
        Err(panicked_task()),
        Ok(Ok(full_reply(200, "http://example.com/b", "B"))),
    ];
    let outcomes = conclude_all(joined);
    assert_eq!(outcomes.len(), 4);
    assert!(!outcomes[0].is_success());
    assert_eq!(outcomes[0].status_code(), 0);
    assert_eq!(
        outcomes[1],
        Outcome::Success {
            status_code: 200,
            final_url: "http://example.com/a".to_string(),
            body: "A".to_string(),
        }
    );
    assert!(!outcomes[2].is_success());
    assert_eq!(outcomes[2].status_code(), 0);
    assert_eq!(
        outcomes[3],
        Outcome::Success {
            status_code: 200,
            final_url: "http://example.com/b".to_string(),
            body: "B".to_string(),
        }
    );
}

#[test]
fn assemble_of_no_requests_is_an_empty_batch() {
    assert_eq!(assemble(0, vec![]), Some(vec![]));
}

#[test]
fn assemble_orders_outcomes_by_request_not_by_completion() {
    let arrivals: Vec<(usize, Joined)> = vec![
        (2, Ok(Ok(full_reply(200, "http://example.com/2", "two")))),
        (0, Ok(Err(status_error(404, "http://example.com/0")))),
        (3, Err(cancelled_task())),
        (1, Ok(Ok(full_reply(201, "http://example.com/1", "one")))),
    ];
    let outcomes = assemble(4, arrivals).unwrap();
    assert_eq!(outcomes.len(), 4);
    assert_eq!(outcomes[0].status_code(), 404);
    assert!(!outcomes[0].is_success());
    assert_eq!(
        outcomes[1],
        Outcome::Success {
            status_code: 201,
            final_url: "http://example.com/1".to_string(),
            body: "one".to_string(),
        }
    );
    assert_eq!(
        outcomes[2],
        Outcome::Success {
            status_code: 200,
            final_url: "http://example.com/2".to_string(),
            body: "two".to_string(),
        }
    );
    assert_eq!(outcomes[3].status_code(), 0);
    assert!(!outcomes[3].is_success());
}

#[test]
fn assemble_keeps_duplicate_urls_as_separate_outcomes() {
    let arrivals: Vec<(usize, Joined)> = vec![
        (1, Ok(Ok(full_reply(200, "http://example.com/same", "same")))),
        (0, Ok(Ok(full_reply(200, "http://example.com/same", "same")))),
    ];
    let outcomes = assemble(2, arrivals).unwrap();
    assert_eq!(outcomes.len(), 2);
    assert_eq!(outcomes[0], outcomes[1]);
}

#[test]
fn assemble_with_a_request_that_never_reported_gives_nothing() {
    let arrivals: Vec<(usize, Joined)> =
        vec![(1, Ok(Ok(full_reply(200, "http://example.com/1", "one"))))];
    assert_eq!(assemble(2, arrivals), None);
}
