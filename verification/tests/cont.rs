use mw::cont::{get_all, ContinueStream, MaybeContinue, State, Step};
use mw::params::{Field, FieldValue, Params};
use mw::MwError;
use serde_json::Value;
use std::collections::VecDeque;

type Token = serde_json::Map<String, Value>;

fn text(key: &str, value: &str) -> Field {
    Field { key: key.to_string(), value: FieldValue::Text(value.to_string()) }
}

fn json(key: &str, value: Value) -> Field {
    Field { key: key.to_string(), value: FieldValue::Json(value) }
}

fn token(entries: &[(&str, &str)]) -> Token {
    let mut map = serde_json::Map::new();
    for (key, value) in entries {
        map.insert(key.to_string(), Value::String(value.to_string()));
    }
    map
}

fn page(items: &[&'static str], cont: Option<Token>) -> Result<MaybeContinue<Vec<&'static str>>, MwError> {
    Ok(MaybeContinue { cont, inner: items.to_vec() })
}

fn identity(items: Vec<&'static str>) -> Result<Vec<&'static str>, MwError> {
    Ok(items)
}

/// Pulls the stream to its end.  Each query that it hands out is answered by
/// the next of `responses`; before the answer is reported the stream is
/// pulled `idle` more times.
fn consume<P, F>(
    stream: &mut ContinueStream<P, F, &'static str>,
    responses: Vec<Result<MaybeContinue<Vec<&'static str>>, MwError>>,
    idle: usize,
) -> (Vec<Result<&'static str, MwError>>, Vec<Vec<Field>>)
where
    P: Params,
    F: Fn(Vec<&'static str>) -> Result<Vec<&'static str>, MwError>,
{
    let mut responses: VecDeque<_> = responses.into();
    let mut received = Vec::new();
    let mut requests = Vec::new();
    loop {
        match stream.poll_next() {
            Step::Item(item) => received.push(item),
            Step::End => return (received, requests),
            Step::Send(query) => {
                requests.push(query);
                for _ in 0..idle {
                    assert!(matches!(stream.poll_next(), Step::Pending));
                }
                assert!(stream.is_awaiting());
                let response = responses.pop_front().expect("a response for every request");
                match stream.resolve(response) {
                    Some(item) => received.push(item),
                    None => return (received, requests),
                }
            }
            Step::Pending => panic!("nothing is in flight"),
        }
    }
}

fn oks(received: &[Result<&'static str, MwError>]) -> Vec<&'static str> {
    received.iter().map(|item| *item.as_ref().expect("an item")).collect()
}

#[test]
fn two_pages_end_to_end() {
    let mut stream = get_all([("list", "items")], identity);
    let responses = vec![page(&["A", "B"], Some(token(&[("offset", "2")]))), page(&["C"], None)];
    let (received, requests) = consume(&mut stream, responses, 0);
    assert_eq!(oks(&received), vec!["A", "B", "C"]);
    assert_eq!(requests.len(), 2);
    assert_eq!(
        requests[0],
        vec![text("format", "json"), text("formatversion", "2"), text("list", "items")]
    );
    assert_eq!(
        requests[1],
        vec![
            text("format", "json"),
            text("formatversion", "2"),
            text("list", "items"),
            json("offset", Value::String("2".into())),
        ]
    );
    assert!(stream.is_done());
    assert!(matches!(stream.poll_next(), Step::End));
}

#[test]
fn second_request_merges_the_token_behind_the_base_parameters() {
    let mut stream = get_all([("a", "1")], identity);
    let responses =
        vec![page(&["x"], Some(token(&[("a", "2"), ("b", "3")]))), page(&[], None)];
    let (received, requests) = consume(&mut stream, responses, 0);
    assert_eq!(oks(&received), vec!["x"]);
    assert_eq!(requests.len(), 2);
    assert_eq!(
        requests[1],
        vec![
            text("format", "json"),
            text("formatversion", "2"),
            text("a", "1"),
            json("a", Value::String("2".into())),
            json("b", Value::String("3".into())),
        ]
    );
}

#[test]
fn items_come_in_order_across_pages() {
    let mut stream = get_all([("list", "items")], identity);
    let responses = vec![
        page(&["a", "b", "c"], Some(token(&[("from", "d")]))),
        page(&["d"], Some(token(&[("from", "e")]))),
        page(&["e", "f"], None),
    ];
    let (received, requests) = consume(&mut stream, responses, 0);
    assert_eq!(oks(&received), vec!["a", "b", "c", "d", "e", "f"]);
    assert_eq!(requests.len(), 3);
}

#[test]
fn pulls_while_a_request_is_in_flight_change_nothing() {
    let mut stream = get_all([("list", "items")], identity);
    let responses = vec![
        page(&["a", "b"], Some(token(&[("from", "c")]))),
        page(&["c"], None),
    ];
    let (received, requests) = consume(&mut stream, responses, 5);
    assert_eq!(oks(&received), vec!["a", "b", "c"]);
    assert_eq!(requests.len(), 2);
}

#[test]
fn a_new_stream_asks_for_the_first_page() {
    let mut stream = get_all([("list", "items")], identity);
    assert!(!stream.is_awaiting());
    assert!(!stream.is_done());
    match stream.poll_next() {
        Step::Send(query) => assert_eq!(
            query,
            vec![text("format", "json"), text("formatversion", "2"), text("list", "items")]
        ),
        other => panic!("expected a request, got {:?}", other),
    }
    assert!(stream.is_awaiting());
    assert!(matches!(stream.poll_next(), Step::Pending));
    assert!(matches!(stream.poll_next(), Step::Pending));
    assert!(stream.is_awaiting());
}

#[test]
fn an_empty_page_without_token_ends_the_stream() {
    let mut stream = get_all([("list", "items")], identity);
    assert!(matches!(stream.poll_next(), Step::Send(_)));
    assert!(stream.resolve(page(&[], None)).is_none());
    assert!(stream.is_done());
    assert!(matches!(stream.poll_next(), Step::End));
    assert!(matches!(stream.poll_next(), Step::End));
}

#[test]
fn an_empty_page_with_token_is_a_protocol_error() {
    let mut stream = get_all([("list", "items")], identity);
    let responses = vec![page(&[], Some(token(&[("offset", "2")]))), page(&["never"], None)];
    let (received, requests) = consume(&mut stream, responses, 0);
    assert_eq!(received.len(), 1);
    assert!(matches!(received[0], Err(MwError::Protocol)));
    assert_eq!(requests.len(), 1);
    assert!(stream.is_done());
    assert!(matches!(stream.poll_next(), Step::End));
}

#[test]
fn a_protocol_error_after_good_pages_comes_last() {
    let mut stream = get_all([("list", "items")], identity);
    let responses = vec![
        page(&["a"], Some(token(&[("offset", "1")]))),
        page(&[], Some(token(&[("offset", "1")]))),
    ];
    let (received, requests) = consume(&mut stream, responses, 0);
    assert_eq!(received.len(), 2);
    assert!(matches!(received[0], Ok("a")));
    assert!(matches!(received[1], Err(MwError::Protocol)));
    assert_eq!(requests.len(), 2);
}

#[test]
fn a_failed_request_ends_the_stream_with_its_error() {
    let mut stream = get_all([("list", "items")], identity);
    assert!(matches!(stream.poll_next(), Step::Send(_)));
    let out = stream.resolve(Err(MwError::Unauthorized));
    assert!(matches!(out, Some(Err(MwError::Unauthorized))));
    assert!(stream.is_done());
    assert!(matches!(stream.poll_next(), Step::End));
}

#[test]
fn a_failure_on_the_second_page_comes_after_the_items_of_the_first() {
    let mut stream = get_all([("list", "items")], identity);
    let responses =
        vec![page(&["a", "b"], Some(token(&[("offset", "2")]))), Err(MwError::Unauthorized)];
    let (received, requests) = consume(&mut stream, responses, 0);
    assert_eq!(received.len(), 3);
    assert!(matches!(received[0], Ok("a")));
    assert!(matches!(received[1], Ok("b")));
    assert!(matches!(received[2], Err(MwError::Unauthorized)));
    assert_eq!(requests.len(), 2);
}

#[test]
fn a_failing_mapping_ends_the_stream_with_its_error() {
    let refuse = |_: Vec<&'static str>| -> Result<Vec<&'static str>, MwError> {
        Err(MwError::Unauthorized)
    };
    let mut stream = get_all([("list", "items")], refuse);
    assert!(matches!(stream.poll_next(), Step::Send(_)));
    let out = stream.resolve(page(&["a"], Some(token(&[("offset", "1")]))));
    assert!(matches!(out, Some(Err(MwError::Unauthorized))));
    assert!(stream.is_done());
    assert!(matches!(stream.poll_next(), Step::End));
}

#[test]
fn the_mapping_decides_the_items() {
    let twice = |items: Vec<u32>| -> Result<Vec<u32>, MwError> {
        Ok(items.iter().flat_map(|n| [*n, *n * 10]).collect())
    };
    let mut stream = get_all([("list", "numbers")], twice);
    assert!(matches!(stream.poll_next(), Step::Send(_)));
    let out = stream.resolve(Ok(MaybeContinue { cont: None, inner: vec![1, 2] }));
    assert!(matches!(out, Some(Ok(1))));
    assert!(matches!(stream.poll_next(), Step::Item(Ok(10))));
    assert!(matches!(stream.poll_next(), Step::Item(Ok(2))));
    assert!(matches!(stream.poll_next(), Step::Item(Ok(20))));
    assert!(matches!(stream.poll_next(), Step::End));
}

#[test]
fn the_last_item_of_a_page_with_token_leads_to_the_next_request() {
    let mut stream = get_all([("list", "items")], identity);
    assert!(matches!(stream.poll_next(), Step::Send(_)));
    let out = stream.resolve(page(&["only"], Some(token(&[("offset", "1")]))));
    assert!(matches!(out, Some(Ok("only"))));
    assert!(!stream.is_awaiting());
    assert!(!stream.is_done());
    match stream.poll_next() {
        Step::Send(query) => assert_eq!(query[3], json("offset", Value::String("1".into()))),
        other => panic!("expected a request, got {:?}", other),
    }
    assert!(stream.is_awaiting());
}

#[test]
fn values_with_items_waits_with_them() {
    let items: VecDeque<u8> = vec![1, 2].into();
    match State::values(items, None) {
        State::Values(items, cont) => {
            assert_eq!(items, VecDeque::from(vec![1, 2]));
            assert!(cont.is_none());
        }
        other => panic!("expected items, got {:?}", other),
    }
}

#[test]
fn values_without_items_but_with_token_continues() {
    let cont = token(&[("offset", "2")]);
    match State::<u8>::values(VecDeque::new(), Some(cont.clone())) {
        State::Cont(token) => assert_eq!(token, cont),
        other => panic!("expected a token, got {:?}", other),
    }
}

#[test]
fn values_without_items_and_token_is_done() {
    assert!(matches!(State::<u8>::values(VecDeque::new(), None), State::Done));
}

#[test]
fn page_hands_out_the_first_item_and_keeps_the_rest() {
    let cont = token(&[("offset", "3")]);
    let (state, out) = State::page(vec!['a', 'b', 'c'], Some(cont.clone()));
    assert!(matches!(out, Some(Ok('a'))));
    match state {
        State::Values(items, kept) => {
            assert_eq!(items, VecDeque::from(vec!['b', 'c']));
            assert_eq!(kept, Some(cont));
        }
        other => panic!("expected items, got {:?}", other),
    }
}

#[test]
fn page_with_one_item_and_no_token_is_the_last() {
    let (state, out) = State::page(vec!['a'], None);
    assert!(matches!(out, Some(Ok('a'))));
    assert!(matches!(state, State::Done));
}

#[test]
fn page_without_items() {
    let (state, out) = State::<char>::page(Vec::new(), None);
    assert!(out.is_none());
    assert!(matches!(state, State::Done));
    let (state, out) = State::<char>::page(Vec::new(), Some(token(&[("offset", "3")])));
    assert!(matches!(out, Some(Err(MwError::Protocol))));
    assert!(matches!(state, State::Done));
}

#[test]
fn the_default_state_is_the_start() {
    assert!(matches!(State::<u8>::default(), State::Init));
}

#[test]
fn a_transport_error_is_the_last_item() {
    let e = reqwest::Client::new().get("no address").build().expect_err("no address");
    let words = e.to_string();
    let mut stream = get_all([("list", "items")], identity);
    assert!(matches!(stream.poll_next(), Step::Send(_)));
    match stream.resolve(Err(MwError::from(e))) {
        Some(Err(MwError::Reqwest(inner))) => assert_eq!(inner.to_string(), words),
        other => panic!("expected the error, got {:?}", other),
    }
    assert!(stream.is_done());
    assert!(matches!(stream.poll_next(), Step::End));
}
