use auction_query::config::Config;
use auction_query::server::{
    answer_query, answer_request, answer_results, bad_request, find_failed, found, index,
    internal_error, log_line, not_found, plan_find, Answer, Body, Request, Response,
};
use auction_query::text::{append_bool, append_decimal, first_line, strip_codes};
use auction_query::update::Statistics;
use mongodb::bson::{Bson, Document};

fn config() -> Config {
    Config {
        base_url: "127.0.0.1:8080".to_string(),
        api_key: "secret key".to_string(),
        mongo_db_url: "mongodb://localhost".to_string(),
    }
}

fn request(method: &str, path: &str, uri: &str) -> Request {
    Request {
        method: method.to_string(),
        path: path.to_string(),
        uri: uri.to_string(),
    }
}

fn ask(method: &str, path: &str, uri: &str, connected: bool) -> Answer {
    answer_request(
        &request(method, path, uri),
        &config(),
        &Statistics::new(),
        connected,
    )
    .unwrap()
}

fn reply(answer: Answer) -> Response {
    match answer {
        Answer::Reply(response) => response,
        Answer::Find(_) => panic!("a search"),
    }
}

fn json(status: u16, text: &str) -> Response {
    Response {
        status,
        content_type: "application/json".to_string(),
        body: Body::Text(text.to_string()),
    }
}

fn pair(name: &str, value: &str) -> (String, String) {
    (name.to_string(), value.to_string())
}

#[test]
fn fixed_answers() {
    assert_eq!(not_found(), json(404, "{\"success\":false}"));
    assert_eq!(
        bad_request("Why"),
        json(400, "{\"success\":false,\"reason\":\"Why\"}")
    );
    assert_eq!(
        internal_error("Why"),
        json(500, "{\"success\":false,\"reason\":\"Why\"}")
    );
    assert_eq!(
        find_failed(),
        json(
            500,
            "{\"success\":false,\"reason\":\"Error when querying database\"}"
        )
    );
}

#[test]
fn index_tells_the_statistics() {
    let statistics = Statistics {
        is_updating: true,
        total_updates: -12,
        last_updated: 1650,
    };
    let expected = format!(
        "{{
                    \"success\":true,
                    \"information\":\"A versatile API facade for the Hypixel Auction API. Lets you query and sort by item id, name, and much more! This updates about every 1 minute. This API is currently private and is created by CrypticPlasma.\",
                    \"statistics\":
                    {{
                        \"is_updating\":\"{}\",
                        \"total_updates\":\"{}\",
                        \"last_updated\":\"{}\"
                    }}
                }}",
        true, -12, 1650
    );
    assert_eq!(index(&statistics), json(200, &expected));
    let answer = answer_request(&request("GET", "/", "/"), &config(), &statistics, false);
    assert_eq!(reply(answer.unwrap()), json(200, &expected));
}

#[test]
fn other_requests_are_not_found() {
    for (method, path) in [("POST", "/"), ("GET", "/other"), ("PUT", "/query"), ("get", "/")] {
        assert_eq!(reply(ask(method, path, path, true)), not_found());
    }
}

#[test]
fn wrong_key_is_refused_first() {
    let refused = json(400, "{\"success\":false,\"reason\":\"Not authorized\"}");
    for uri in ["/query", "/query?key=no", "/query?query=oops&key=secret"] {
        assert_eq!(reply(ask("GET", "/query", uri, true)), refused);
        assert_eq!(reply(ask("GET", "/query", uri, false)), refused);
    }
}

#[test]
fn bad_documents_are_refused_in_order() {
    let key = "key=secret%20key";
    assert_eq!(
        reply(ask("GET", "/query", &format!("/query?{}&query=oops&sort=oops", key), false)),
        json(400, "{\"success\":false,\"reason\":\"Invalid query JSON\"}")
    );
    assert_eq!(
        reply(ask("GET", "/query", &format!("/query?{}&sort=%5B%5D", key), false)),
        json(400, "{\"success\":false,\"reason\":\"Invalid sort JSON\"}")
    );
    assert_eq!(
        reply(ask("GET", "/query", &format!("/query?{}&query=%7B%7D&sort=no", key), true)),
        json(400, "{\"success\":false,\"reason\":\"Invalid sort JSON\"}")
    );
    assert_eq!(
        reply(ask("GET", "/query", &format!("/query?{}", key), false)),
        json(500, "{\"success\":false,\"reason\":\"Database isn't connected\"}")
    );
}

#[test]
fn good_query_is_searched_for() {
    let uri = "/query?query=%7B%22tier%22%3A%22RARE%22%7D&sort=%7B%22end%22%3A-1%7D&key=secret+key";
    match ask("GET", "/query", uri, true) {
        Answer::Find(find) => {
            let mut filter = Document::new();
            filter.insert("tier", "RARE");
            let mut sort = Document::new();
            sort.insert("end", -1i64);
            assert_eq!(find.filter, filter);
            assert_eq!(find.sort, sort);
            assert!(find.allow_disk_use);
        }
        Answer::Reply(_) => panic!("an answer"),
    }
}

#[test]
fn missing_documents_are_empty_and_the_last_value_counts() {
    let pairs = vec![
        pair("key", "wrong"),
        pair("query", "oops"),
        pair("other", "x"),
        pair("query", "{\"a\":1}"),
        pair("key", "right"),
    ];
    match answer_query(&pairs, &"right".to_string(), true) {
        Answer::Find(find) => {
            assert_eq!(find.filter.get("a"), Some(&Bson::Int32(1)));
            assert_eq!(find.sort, Document::new());
        }
        Answer::Reply(_) => panic!("an answer"),
    }
    assert_eq!(
        reply(answer_query(&pairs, &"wrong".to_string(), true)),
        bad_request("Not authorized")
    );
}

#[test]
fn bare_query_searches_for_all() {
    match ask("GET", "/query", "/query?key=secret+key", true) {
        Answer::Find(find) => {
            assert_eq!(find.filter, Document::new());
            assert_eq!(find.sort, Document::new());
            assert!(find.allow_disk_use);
        }
        Answer::Reply(_) => panic!("an answer"),
    }
}

#[test]
fn empty_key_is_met_by_none() {
    assert!(matches!(
        answer_query(&vec![], &"".to_string(), true),
        Answer::Find(_)
    ));
}

#[test]
fn url_that_is_none_has_no_answer() {
    let mut config = config();
    config.base_url = "not a host".to_string();
    let query = request("GET", "/query", "/query");
    assert!(answer_request(&query, &config, &Statistics::new(), true).is_none());
    let other = request("GET", "/other", "/other");
    assert!(answer_request(&other, &config, &Statistics::new(), true).is_some());
}

#[test]
fn plan_of_a_search() {
    let document = || Some(Document::new());
    assert_eq!(reply(plan_find(None, None, true)), bad_request("Invalid query JSON"));
    assert_eq!(reply(plan_find(document(), None, true)), bad_request("Invalid sort JSON"));
    assert_eq!(
        reply(plan_find(document(), document(), false)),
        internal_error("Database isn't connected")
    );
    assert!(matches!(
        plan_find(document(), document(), true),
        Answer::Find(_)
    ));
}

#[test]
fn results_are_answered_in_json() {
    let mut document = Document::new();
    document.insert("uuid", "u1");
    document.insert("end", 5i64);
    let expected = b"[{\"uuid\":\"u1\",\"end\":5},{}]".to_vec();
    let answer = answer_results(&vec![document, Document::new()]);
    assert_eq!(answer, found(expected.clone()));
    assert_eq!(answer.status, 200);
    assert_eq!(answer.content_type, "application/json");
    assert_eq!(answer.body, Body::Bytes(expected));
    let mut odd = Document::new();
    odd.insert("n", f64::NAN);
    odd.insert("none", Bson::Null);
    assert_eq!(
        answer_results(&vec![odd]),
        found(b"[{\"n\":null,\"none\":null}]".to_vec())
    );
    assert_eq!(answer_results(&vec![]), found(b"[]".to_vec()));
}

#[test]
fn configuration_is_read() {
    let text = "{\"base_url\":\"b\",\"api_key\":\"k\",\"mongo_db_url\":\"m\",\"more\":1}";
    assert_eq!(
        Config::from_json(text),
        Some(Config {
            base_url: "b".to_string(),
            api_key: "k".to_string(),
            mongo_db_url: "m".to_string(),
        })
    );
    assert_eq!(Config::from_json("{\"base_url\":\"b\",\"api_key\":\"k\"}"), None);
    assert_eq!(
        Config::from_json("{\"base_url\":1,\"api_key\":\"k\",\"mongo_db_url\":\"m\"}"),
        None
    );
    assert_eq!(Config::from_json("[]"), None);
    assert_eq!(Config::from_json("{"), None);
}

#[test]
fn numbers_and_truth_values_in_text() {
    let mut text = String::new();
    for number in [0, 7, 10, -1, 1234567890, i64::MAX, i64::MIN] {
        append_decimal(&mut text, number);
        text.push(' ');
    }
    append_bool(&mut text, true);
    append_bool(&mut text, false);
    assert_eq!(
        text,
        "0 7 10 -1 1234567890 9223372036854775807 -9223372036854775808 truefalse"
    );
}

#[test]
fn first_lines() {
    assert_eq!(first_line(""), "");
    assert_eq!(first_line("\nabc"), "");
    assert_eq!(first_line("one"), "one");
    assert_eq!(first_line("\u{a7}9one\ntwo\nthree"), "\u{a7}9one");
}

#[test]
fn colour_codes_are_stripped() {
    assert_eq!(strip_codes("plain text"), "plain text");
    assert_eq!(strip_codes("\u{a7}9Sharp\u{a7}lness\u{a7}R"), "Sharpness");
    assert_eq!(strip_codes("\u{a7}g\u{a7}p\u{a7}z\u{a7}"), "\u{a7}g\u{a7}p\u{a7}z\u{a7}");
    assert_eq!(strip_codes("\u{a7}\u{a7}aa"), "\u{a7}a");
    assert_eq!(strip_codes("\u{a7}\u{212a}x"), "x");
}

#[test]
fn every_code_character_is_known() {
    for code in (0u32..0x180).chain(0x2120..0x2140) {
        if let Some(c) = char::from_u32(code) {
            let is_code = "0123456789abcdefklmnorABCDEFKLMNOR\u{212a}".contains(c);
            let text = format!("\u{a7}{}.", c);
            let expected = if is_code { ".".to_string() } else { text.clone() };
            assert_eq!(strip_codes(&text), expected);
        }
    }
}

#[test]
fn log_line_shortens_the_path() {
    assert_eq!(log_line(&request("GET", "/query", "/query?key=k")), "GET /query");
    assert_eq!(log_line(&request("PUT", "", "*")), "PUT ");
    let long = "/\u{e9}".repeat(16);
    assert_eq!(
        log_line(&request("GET", &long, &long)),
        format!("GET {}", "/\u{e9}".repeat(15))
    );
}
