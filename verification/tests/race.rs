use pgview::encode::{FetchedCell, FetchedRow, RawCell};
use pgview::executor::{settle, CancelBroker, ExecError, ExecEvent, QueryStatus, Settled, Winner};

fn one_row() -> Vec<FetchedRow> {
    vec![FetchedRow {
        cells: vec![FetchedCell { name: "n".to_string(), oid: 23, raw: RawCell::Int(5) }],
    }]
}

#[test]
fn slot_holds_at_most_one_signal() {
    let mut broker = CancelBroker::new();
    assert!(!broker.try_take());
    broker.request_cancel();
    // a second request while the slot is full is inert
    broker.request_cancel();
    assert!(broker.try_take());
    assert!(!broker.try_take());
}

#[test]
fn cancel_before_response_wins_the_race() {
    let mut broker = CancelBroker::new();
    broker.request_cancel();
    let winner = broker.poll_race(QueryStatus::Pending);
    assert!(matches!(winner, Some(Winner::Cancel)));
    // the signal was consumed by winning
    assert!(!broker.try_take());
    // the settled invocation must issue the backend cancel and report it
    let settled = settle(ExecEvent::Raced(Winner::Cancel));
    assert!(matches!(settled, Settled::CancelBackend));
}

#[test]
fn cancel_after_response_has_no_effect() {
    let mut broker = CancelBroker::new();
    broker.request_cancel();
    let winner = broker.poll_race(QueryStatus::Done(Ok(one_row())));
    match winner {
        Some(Winner::Query(Ok(rows))) => assert_eq!(rows.len(), 1),
        _ => panic!("the completed response must win"),
    }
    // the late signal is left pending for the next listener
    assert!(broker.try_take());
    // and the pending result is still returned in full
    let settled = settle(ExecEvent::Raced(Winner::Query(Ok(one_row()))));
    match settled {
        Settled::Response(Ok(json)) => {
            assert_eq!(json, "[[[\"n\",\"number\",\"5\"]]]");
        }
        _ => panic!("the result must be returned"),
    }
}

#[test]
fn no_winner_while_nothing_happened() {
    let mut broker = CancelBroker::new();
    let winner = broker.poll_race(QueryStatus::Pending);
    assert!(matches!(winner, None));
}

#[test]
fn connection_failure_is_its_own_error() {
    let settled = settle(ExecEvent::ConnectFailed("refused".to_string()));
    match settled {
        Settled::Response(Err(ExecError::Connection(e))) => assert_eq!(e, "refused"),
        _ => panic!("a failed connection must surface as a connection error"),
    }
}

#[test]
fn error_messages_flatten() {
    assert_eq!(ExecError::Cancelled.message(), "Query was cancelled");
    assert_eq!(ExecError::Connection("no route".to_string()).message(), "no route");
    assert_eq!(ExecError::Query("bad syntax".to_string()).message(), "bad syntax");
    assert_eq!(ExecError::Serialization("too deep".to_string()).message(), "too deep");
}

#[test]
fn backend_failure_is_a_query_error() {
    let settled = settle(ExecEvent::Raced(Winner::Query(Err("syntax error".to_string()))));
    match settled {
        Settled::Response(Err(ExecError::Query(e))) => assert_eq!(e, "syntax error"),
        _ => panic!("a failed statement must surface as a query error"),
    }
}
