use mw::client::{logged_in, userinfo_query, Method};
use mw::edit_tokens::{join_types, split, take_tokens, token_table, tokens_query};
use mw::header::bearer;
use mw::params::{Field, FieldValue};
use mw::queue::from_vec;
use mw::ua::{agent, ua, UA};
use mw::{ClientBuilder, MwError};
use std::collections::VecDeque;

fn table(pairs: &[(&str, &str)]) -> Vec<(String, String)> {
    pairs.iter().map(|(key, value)| (key.to_string(), value.to_string())).collect()
}

#[test]
fn bearer_puts_the_word_in_front_of_the_token() {
    let value = bearer("abc123").expect("a plain token");
    assert_eq!(value.as_bytes(), b"Bearer abc123");
    let empty = bearer("").expect("an empty token");
    assert_eq!(empty.as_bytes(), b"Bearer ");
}

#[test]
fn bearer_refuses_control_characters() {
    assert!(matches!(bearer("abc\ndef"), Err(MwError::InvalidHeaderValue(_))));
    assert!(matches!(bearer("abc\u{7f}"), Err(MwError::InvalidHeaderValue(_))));
    assert!(matches!(bearer("\u{0}"), Err(MwError::InvalidHeaderValue(_))));
}

#[test]
fn bearer_takes_tabs_and_bytes_beyond_ascii() {
    assert_eq!(bearer("a\tb").expect("a tab").as_bytes(), b"Bearer a\tb");
    assert_eq!(bearer("é").expect("two bytes").as_bytes(), "Bearer é".as_bytes());
}

#[test]
fn userinfo_query_asks_for_the_user() {
    assert_eq!(userinfo_query(), [("action", "query"), ("meta", "userinfo"), ("uiprop", "")]);
}

#[test]
fn tokens_query_names_the_types() {
    assert_eq!(
        tokens_query("csrf|watch"),
        [("action", "query"), ("meta", "tokens"), ("type", "csrf|watch")]
    );
}

#[test]
fn a_name_that_is_no_address_is_the_user() {
    assert!(matches!(logged_in("Example".to_string(), false, false), Ok(name) if name == "Example"));
}

#[test]
fn an_address_means_not_logged_in() {
    assert!(matches!(logged_in("127.0.0.1".to_string(), true, false), Err(MwError::Unauthorized)));
    assert!(matches!(logged_in("::1".to_string(), false, true), Err(MwError::Unauthorized)));
    assert!(matches!(logged_in("x".to_string(), true, true), Err(MwError::Unauthorized)));
}

#[test]
fn types_are_joined_with_bars() {
    assert_eq!(join_types(&["csrf", "watch", "patrol"]), "csrf|watch|patrol");
    assert_eq!(join_types(&["csrf"]), "csrf");
    assert_eq!(join_types(&[]), "");
}

#[test]
fn empty_types_in_front_leave_no_bar() {
    assert_eq!(join_types(&["", "a"]), "a");
    assert_eq!(join_types(&["", "", "a", "b"]), "a|b");
    assert_eq!(join_types(&["a", "", "b"]), "a||b");
    assert_eq!(join_types(&["a", ""]), "a|");
    assert_eq!(join_types(&["", ""]), "");
}

#[test]
fn split_gives_the_pieces_between_the_bars() {
    assert_eq!(split("csrf|watch", '|'), vec!["csrf", "watch"]);
    assert_eq!(split("csrf", '|'), vec!["csrf"]);
    assert_eq!(split("", '|'), vec![""]);
    assert_eq!(split("a|", '|'), vec!["a", ""]);
    assert_eq!(split("|", '|'), vec!["", ""]);
    assert_eq!(split("|a||b", '|'), vec!["", "a", "", "b"]);
    assert_eq!(split("é|ü", '|'), vec!["é", "ü"]);
    assert_eq!(split("a,b|c", ','), vec!["a", "b|c"]);
}

#[test]
fn split_agrees_with_the_standard_library() {
    for text in ["", "|", "a", "a|b|c", "||", "x|", "|x", "ab|cd||ef|"] {
        let expected: Vec<String> = text.split('|').map(str::to_string).collect();
        assert_eq!(split(text, '|'), expected);
    }
}

#[test]
fn tokens_come_in_the_order_of_the_types() {
    let answer = token_table(table(&[("watchtoken", "w+\\"), ("csrftoken", "c+\\")]));
    assert_eq!(
        take_tokens("csrf|watch", answer),
        Some(vec!["c+\\".to_string(), "w+\\".to_string()])
    );
}

#[test]
fn a_single_token() {
    let answer = token_table(table(&[("csrftoken", "secret"), ("other", "x")]));
    assert_eq!(take_tokens("csrf", answer), Some(vec!["secret".to_string()]));
}

#[test]
fn a_missing_token_gives_nothing() {
    let answer = token_table(table(&[("csrftoken", "secret")]));
    assert_eq!(take_tokens("csrf|watch", answer), None);
    assert_eq!(take_tokens("csrf", token_table(Vec::new())), None);
}

#[test]
fn a_type_asked_twice_is_not_served() {
    let answer = token_table(table(&[("csrftoken", "secret")]));
    assert_eq!(take_tokens("csrf|csrf", answer), None);
}

#[test]
fn no_types_ask_for_the_bare_key() {
    assert_eq!(take_tokens("", token_table(table(&[("csrftoken", "secret")]))), None);
    assert_eq!(
        take_tokens("", token_table(table(&[("token", "bare")]))),
        Some(vec!["bare".to_string()])
    );
}

#[test]
fn of_two_pairs_with_one_key_the_later_counts() {
    let answer = token_table(table(&[("csrftoken", "old"), ("csrftoken", "new")]));
    assert_eq!(take_tokens("csrf", answer), Some(vec!["new".to_string()]));
}

#[test]
fn joined_types_split_back_into_the_types() {
    let types = ["csrf", "watch", "rollback"];
    let joined = join_types(&types);
    assert_eq!(split(&joined, '|'), types);
}

#[test]
fn ua_puts_the_application_first() {
    assert_eq!(ua("app/1.0"), format!("app/1.0; {}", UA));
    assert_eq!(ua(""), format!("; {}", UA));
}

#[test]
fn the_library_names_itself() {
    assert_eq!(UA, "mw.rs/0.1.0 (https://github.com/fee1-dead/mw)");
}

#[test]
fn agent_falls_back_to_the_library() {
    assert_eq!(agent(Some("bot/2")), "bot/2");
    assert_eq!(agent(None), UA);
}

#[test]
fn errors_in_words() {
    assert_eq!(MwError::Unauthorized.message(), "failed to log in");
    assert_eq!(MwError::Protocol.message(), "cannot continue without return value");
    let refused = bearer("\n").expect_err("a line feed");
    let inner = reqwest::header::HeaderValue::from_str("\n").expect_err("a line feed");
    assert_eq!(refused.message(), inner.to_string());
}

#[test]
fn outside_errors_convert() {
    let inner = reqwest::header::HeaderValue::from_str("\n").expect_err("a line feed");
    assert!(matches!(MwError::from(inner), MwError::InvalidHeaderValue(_)));
}

#[test]
fn a_queue_keeps_the_order_of_the_vector() {
    assert_eq!(from_vec(vec![1, 2, 3]), VecDeque::from(vec![1, 2, 3]));
    assert_eq!(from_vec(Vec::<u8>::new()), VecDeque::new());
    let mut queue = from_vec(vec!["a", "b"]);
    assert_eq!(queue.pop_front(), Some("a"));
    assert_eq!(queue.pop_front(), Some("b"));
    assert_eq!(queue.pop_front(), None);
}

fn text(key: &str, value: &str) -> Field {
    Field { key: key.to_string(), value: FieldValue::Text(value.to_string()) }
}

#[test]
fn an_anonymous_client_has_the_chosen_settings() {
    let client = ClientBuilder::new("https://example.org/w/api.php").user_agent("bot/1").anonymous();
    assert_eq!(client.url(), "https://example.org/w/api.php");
    assert_eq!(client.agent(), "bot/1");
    assert!(!client.cookies());
    assert!(client.authorization().is_none());
}

#[test]
fn without_a_choice_the_client_sends_the_agent_of_the_library() {
    let client = ClientBuilder::new("https://example.org/w/api.php").anonymous();
    assert_eq!(client.agent(), UA);
}

#[test]
fn the_last_user_agent_counts() {
    let client =
        ClientBuilder::new("https://example.org/").user_agent("one").user_agent("two").anonymous();
    assert_eq!(client.agent(), "two");
    assert_eq!(client.url(), "https://example.org/");
}

#[test]
fn an_oauth_client_presents_its_token() {
    let client = ClientBuilder::new("https://example.org/w/api.php")
        .user_agent("bot/1")
        .login_oauth("s3cret")
        .expect("a plain token");
    assert_eq!(client.url(), "https://example.org/w/api.php");
    assert_eq!(client.agent(), "bot/1");
    assert!(!client.cookies());
    assert_eq!(client.authorization().expect("a header").as_bytes(), b"Bearer s3cret");
}

#[test]
fn an_oauth_token_that_no_header_can_hold_is_refused() {
    let out = ClientBuilder::new("https://example.org/w/api.php").login_oauth("two\r\nlines");
    assert!(matches!(out, Err(MwError::InvalidHeaderValue(_))));
}

#[test]
fn get_puts_the_complete_query_in_the_address() {
    let client = ClientBuilder::new("https://example.org/w/api.php").anonymous();
    let request = client.get([("action", "query"), ("meta", "siteinfo")]);
    assert!(matches!(request.method, Method::Get));
    assert_eq!(request.url, "https://example.org/w/api.php");
    assert_eq!(
        request.fields,
        vec![
            text("format", "json"),
            text("formatversion", "2"),
            text("action", "query"),
            text("meta", "siteinfo"),
        ]
    );
}

#[test]
fn post_sends_the_complete_query_as_a_form() {
    let client = ClientBuilder::new("https://example.org/w/api.php").anonymous();
    let request = client.post([("action", "edit")]);
    assert!(matches!(request.method, Method::Post));
    assert_eq!(request.url, "https://example.org/w/api.php");
    assert_eq!(
        request.fields,
        vec![text("format", "json"), text("formatversion", "2"), text("action", "edit")]
    );
}

#[test]
fn with_url_talks_to_another_address() {
    let client = ClientBuilder::new("https://example.org/w/api.php").user_agent("bot/1").anonymous();
    let other = client.with_url("https://other.example/w/api.php");
    assert_eq!(other.settings().agent(), "bot/1");
    let request = other.get([("action", "query")]);
    assert!(matches!(request.method, Method::Get));
    assert_eq!(request.url, "https://other.example/w/api.php");
    assert_eq!(request.fields.len(), 3);
    let posted = other.post([("action", "edit")]);
    assert!(matches!(posted.method, Method::Post));
    assert_eq!(posted.url, "https://other.example/w/api.php");
    assert_eq!(client.get([("action", "query")]).url, "https://example.org/w/api.php");
}

#[test]
fn send_carries_exactly_the_given_query() {
    let client = ClientBuilder::new("https://example.org/w/api.php").anonymous();
    let request = client.with_url(client.url()).send(vec![text("list", "items")]);
    assert!(matches!(request.method, Method::Get));
    assert_eq!(request.url, "https://example.org/w/api.php");
    assert_eq!(request.fields, vec![text("list", "items")]);
}

#[test]
fn a_transport_error_passes_through() {
    let e = reqwest::Client::new().get("no address").build().expect_err("no address");
    let words = e.to_string();
    let ours = MwError::from(e);
    assert!(matches!(ours, MwError::Reqwest(_)));
    assert_eq!(ours.message(), words);
}
