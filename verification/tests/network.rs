use deadlyze::error::MatchError;
use deadlyze::network::{
    broadcast_url_endpoint, locate_step, parse_broadcast_url, url_from_lookup, AttemptOutcome,
    ConnectStep, Connector, LocatorStep, Transport, TransportOutcome,
};
use deadlyze::text::decimal_string;

fn unavailable(match_id: u64, cause: &str) -> MatchError {
    MatchError::EndpointUnavailable { match_id, cause: cause.to_string() }
}

#[test]
fn numbers_are_written_in_decimal() {
    assert_eq!(decimal_string(0), "0");
    assert_eq!(decimal_string(7), "7");
    assert_eq!(decimal_string(10), "10");
    assert_eq!(decimal_string(50050183), "50050183");
    assert_eq!(decimal_string(u64::MAX), "18446744073709551615");
}

#[test]
fn endpoint_names_the_match() {
    assert_eq!(
        broadcast_url_endpoint(50050183),
        "https://api.deadlock-api.com/v1/matches/50050183/live/url"
    );
    assert_eq!(broadcast_url_endpoint(0), "https://api.deadlock-api.com/v1/matches/0/live/url");
}

#[test]
fn broadcast_url_is_read_from_body() {
    let body = "{\"broadcast_url\": \"http://cdn.example/tv/1\", \"other\": 3}";
    assert_eq!(parse_broadcast_url(7, body), Ok("http://cdn.example/tv/1".to_string()));
}

#[test]
fn body_without_url_is_unavailable() {
    let missing = "broadcast_url not found in API response";
    assert_eq!(parse_broadcast_url(7, "{\"other\": 3}"), Err(unavailable(7, missing)));
    assert_eq!(parse_broadcast_url(7, "{\"broadcast_url\": 3}"), Err(unavailable(7, missing)));
    assert_eq!(parse_broadcast_url(7, "[\"broadcast_url\"]"), Err(unavailable(7, missing)));
    assert_eq!(parse_broadcast_url(7, "\"broadcast_url\""), Err(unavailable(7, missing)));
}

#[test]
fn body_that_is_not_json_is_unavailable() {
    assert_eq!(
        parse_broadcast_url(9, "<html>busy</html>"),
        Err(unavailable(9, "expected value at line 1 column 1"))
    );
    assert_eq!(
        parse_broadcast_url(9, ""),
        Err(unavailable(9, "EOF while parsing a value at line 1 column 0"))
    );
    for body in ["{\"broadcast_url\": \"x\"} trailing", "{\"broadcast_url\": ", "{'a': 1}"] {
        let cause = serde_json::from_str::<serde_json::Value>(body).unwrap_err().to_string();
        assert_eq!(parse_broadcast_url(9, body), Err(unavailable(9, &cause)));
        assert_eq!(
            locate_step(9, Transport::Primary, TransportOutcome::Body(body.to_string())),
            LocatorStep::Failed(unavailable(9, &cause))
        );
    }
}

#[test]
fn lookup_result_decides_the_url() {
    assert_eq!(url_from_lookup(3, Ok(Some("u".to_string()))), Ok("u".to_string()));
    assert_eq!(
        url_from_lookup(3, Ok(None)),
        Err(unavailable(3, "broadcast_url not found in API response"))
    );
    assert_eq!(url_from_lookup(3, Err("bad".to_string())), Err(unavailable(3, "bad")));
}

#[test]
fn locator_parses_an_answer() {
    let body = "{\"broadcast_url\":\"http://cdn.example/x\"}".to_string();
    assert_eq!(
        locate_step(1, Transport::Primary, TransportOutcome::Body(body.clone())),
        LocatorStep::Resolved("http://cdn.example/x".to_string())
    );
    assert_eq!(
        locate_step(1, Transport::Fallback, TransportOutcome::Body(body)),
        LocatorStep::Resolved("http://cdn.example/x".to_string())
    );
    assert_eq!(
        locate_step(1, Transport::Primary, TransportOutcome::Body("{}".to_string())),
        LocatorStep::Failed(unavailable(1, "broadcast_url not found in API response"))
    );
}

#[test]
fn locator_falls_back_once() {
    assert_eq!(
        locate_step(1, Transport::Primary, TransportOutcome::Unreachable("tls".to_string())),
        LocatorStep::UseFallback
    );
    assert_eq!(
        locate_step(1, Transport::Fallback, TransportOutcome::Unreachable("tls".to_string())),
        LocatorStep::Failed(unavailable(1, "tls"))
    );
}

#[test]
fn locator_fails_on_refusal() {
    for via in [Transport::Primary, Transport::Fallback] {
        assert_eq!(
            locate_step(4, via, TransportOutcome::Refused("404".to_string())),
            LocatorStep::Failed(unavailable(4, "404"))
        );
    }
}

#[test]
fn unavailable_message_names_the_cause() {
    assert_eq!(unavailable(4, "404").message(), "Failed to get broadcast URL: 404");
}

#[test]
fn first_success_ends_connecting() {
    let mut connector = Connector::standard();
    assert_eq!(connector.begin(), ConnectStep::Attempt { attempt: 1, total: 10, wait_secs: 0 });
    assert_eq!(connector.after_attempt(AttemptOutcome::Opened), ConnectStep::Connected { attempt: 1 });
}

#[test]
fn failure_is_retried_after_delay() {
    let mut connector = Connector::new(3, 4);
    connector.begin();
    assert_eq!(
        connector.after_attempt(AttemptOutcome::Failed("e1".to_string())),
        ConnectStep::Attempt { attempt: 2, total: 3, wait_secs: 4 }
    );
    assert_eq!(
        connector.after_attempt(AttemptOutcome::Failed("e2".to_string())),
        ConnectStep::Attempt { attempt: 3, total: 3, wait_secs: 4 }
    );
    assert_eq!(connector.after_attempt(AttemptOutcome::Opened), ConnectStep::Connected { attempt: 3 });
}

#[test]
fn ten_failures_exhaust_the_connector() {
    let mut connector = Connector::standard();
    let mut step = connector.begin();
    let mut made = 0;
    loop {
        match step {
            ConnectStep::Attempt { attempt, total, wait_secs } => {
                made += 1;
                assert_eq!(attempt, made);
                assert_eq!(total, 10);
                assert_eq!(wait_secs, if made == 1 { 0 } else { 4 });
                step = connector.after_attempt(AttemptOutcome::Failed(format!("refused {}", made)));
            }
            other => {
                step = other;
                break;
            }
        }
    }
    assert_eq!(made, 10);
    let expected =
        MatchError::ConnectionExhausted { attempts: 10, last_error: "refused 10".to_string() };
    assert_eq!(
        expected.message(),
        "Connection error: Failed to connect after 10 attempts: refused 10"
    );
    assert_eq!(step, ConnectStep::Exhausted(expected));
}

#[test]
fn no_attempt_allowed_gives_up_at_once() {
    let mut connector = Connector::new(0, 4);
    let step = connector.begin();
    let expected = MatchError::ConnectionExhausted { attempts: 0, last_error: String::new() };
    assert_eq!(expected.message(), "Connection error: Maximum retry attempts exceeded");
    assert_eq!(step, ConnectStep::Exhausted(expected));
}
