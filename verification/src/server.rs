//! The server: what each request is answered.

use crate::config::Config;
use crate::document::{document_entries, Entry};
use crate::text::{
    append_bool, append_decimal, bool_text, decimal_text, decimal_texts_differ,
    numbers_hold_digits_only, substring, truth_values_are_told_apart,
};
use crate::update::Statistics;
use mongodb::bson::Document;
use reqwest::Url;
use vstd::prelude::*;

verus! {

/// The content type of every answer.
pub const JSON: &'static str = "application/json";

/// What the index says before it tells whether an update is under way.
pub const INDEX_HEAD: &'static str = "{
                    \"success\":true,
                    \"information\":\"A versatile API facade for the Hypixel Auction API. Lets you query and sort by item id, name, and much more! This updates about every 1 minute. This API is currently private and is created by CrypticPlasma.\",
                    \"statistics\":
                    {
                        \"is_updating\":\"";

/// What stands between that and the number of updates.
pub const INDEX_TOTAL: &'static str = "\",
                        \"total_updates\":\"";

/// What stands between that and the time of the last update.
pub const INDEX_LAST: &'static str = "\",
                        \"last_updated\":\"";

/// What the index says after that.
pub const INDEX_TAIL: &'static str = "\"
                    }
                }";

/// What is answered where there is nothing to find.
pub const NOT_FOUND_BODY: &'static str = "{\"success\":false}";

/// What a refusal says before its reason.
pub const REASON_HEAD: &'static str = "{\"success\":false,\"reason\":\"";

/// What a refusal says after its reason.
pub const REASON_TAIL: &'static str = "\"}";

/// What a JSON array begins with.
pub const OPENING_BRACKET: u8 = 91;

/// What stands between two elements of a JSON array.
pub const COMMA: u8 = 44;

/// What a JSON array ends with.
pub const CLOSING_BRACKET: u8 = 93;

/// A request: its method, its path, and the whole of its target.
#[derive(Debug, PartialEq, Eq, Clone)]
pub struct Request {
    pub method: String,
    pub path: String,
    pub uri: String,
}

/// What an answer carries.
#[derive(Debug, PartialEq, Eq, Clone)]
pub enum Body {
    Text(String),
    Bytes(Vec<u8>),
}

/// An answer.
#[derive(Debug, PartialEq, Eq, Clone)]
pub struct Response {
    pub status: u16,
    pub content_type: String,
    pub body: Body,
}

/// A search of the stored auctions.
#[derive(Debug)]
pub struct Find {
    pub filter: Document,
    pub sort: Document,
    pub allow_disk_use: bool,
}

/// What is done about a request: it is answered at once, or by what a search finds.
#[derive(Debug)]
pub enum Answer {
    Reply(Response),
    Find(Find),
}

pub enum BodyView {
    Text(Seq<char>),
    Bytes(Seq<u8>),
}

pub struct ResponseView {
    pub status: u16,
    pub content_type: Seq<char>,
    pub body: BodyView,
}

pub struct FindView {
    pub filter: Seq<Entry>,
    pub sort: Seq<Entry>,
    pub allow_disk_use: bool,
}

pub enum AnswerView {
    Reply(ResponseView),
    Find(FindView),
}

impl View for Body {
    type V = BodyView;

    open spec fn view(&self) -> BodyView {
        match *self {
            Body::Text(text) => BodyView::Text(text@),
            Body::Bytes(bytes) => BodyView::Bytes(bytes@),
        }
    }
}

impl View for Response {
    type V = ResponseView;

    open spec fn view(&self) -> ResponseView {
        ResponseView {
            status: self.status,
            content_type: self.content_type@,
            body: self.body@,
        }
    }
}

impl View for Find {
    type V = FindView;

    open spec fn view(&self) -> FindView {
        FindView {
            filter: document_entries(self.filter),
            sort: document_entries(self.sort),
            allow_disk_use: self.allow_disk_use,
        }
    }
}

impl View for Answer {
    type V = AnswerView;

    open spec fn view(&self) -> AnswerView {
        match *self {
            Answer::Reply(response) => AnswerView::Reply(response@),
            Answer::Find(find) => AnswerView::Find(find@),
        }
    }
}

/// An answer in JSON text.
pub open spec fn json_text(status: u16, text: Seq<char>) -> ResponseView {
    ResponseView { status, content_type: JSON@, body: BodyView::Text(text) }
}

/// A refusal with its reason.
pub open spec fn refusal(status: u16, reason: Seq<char>) -> ResponseView {
    json_text(status, REASON_HEAD@ + reason + REASON_TAIL@)
}

/// The index: what the service is, and the statistics of its updates.
pub open spec fn index_view(statistics: Statistics) -> ResponseView {
    json_text(
        200,
        INDEX_HEAD@ + bool_text(statistics.is_updating) + INDEX_TOTAL@ + decimal_text(
            statistics.total_updates as int,
        ) + INDEX_LAST@ + decimal_text(statistics.last_updated as int) + INDEX_TAIL@,
    )
}

/// The answer where there is nothing to find.
pub fn not_found() -> (response: Response)
    ensures
        response@ == json_text(404, NOT_FOUND_BODY@),
{
    Response {
        status: 404,
        content_type: JSON.to_owned(),
        body: Body::Text(NOT_FOUND_BODY.to_owned()),
    }
}

fn refuse(status: u16, reason: &str) -> (response: Response)
    ensures
        response@ == refusal(status, reason@),
{
    let mut text: String = REASON_HEAD.to_owned();
    text.append(reason);
    text.append(REASON_TAIL);
    Response { status, content_type: JSON.to_owned(), body: Body::Text(text) }
}

/// The answer to a request that is at fault.
pub fn bad_request(reason: &str) -> (response: Response)
    ensures
        response@ == refusal(400, reason@),
{
    refuse(400, reason)
}

/// The answer to a request that the server fails at.
pub fn internal_error(reason: &str) -> (response: Response)
    ensures
        response@ == refusal(500, reason@),
{
    refuse(500, reason)
}

/// The index.
pub fn index(statistics: &Statistics) -> (response: Response)
    ensures
        response@ == index_view(*statistics),
{
    let mut text: String = INDEX_HEAD.to_owned();
    append_bool(&mut text, statistics.is_updating);
    text.append(INDEX_TOTAL);
    append_decimal(&mut text, statistics.total_updates as i64);
    text.append(INDEX_LAST);
    append_decimal(&mut text, statistics.last_updated);
    text.append(INDEX_TAIL);
    Response { status: 200, content_type: JSON.to_owned(), body: Body::Text(text) }
}

/// The entries of the document that a JSON text spells out.
pub uninterp spec fn json_document(text: Seq<char>) -> Option<Seq<Entry>>;

/// The entries of the document that a JSON text spells out, that of an empty object being known.
pub open spec fn spelled_out(text: Seq<char>) -> Option<Seq<Entry>> {
    if text == "{}"@ {
        Some(Seq::empty())
    } else {
        json_document(text)
    }
}

/// `serde_json::from_str` of `serde_json` into a `Document` of `bson`: the document that `text`
/// spells out, or an error where it spells out none. An empty object spells out the empty document;
/// for any other text, which of them it is, and what the document holds, is a function of the text.
/// Nothing is said of the error.
#[verifier::external_body]
pub(crate) fn parse_document(text: &str) -> (parsed: Result<Document, serde_json::Error>)
    ensures
        match parsed {
            Ok(document) => Some(document_entries(document)),
            Err(_) => None::<Seq<Entry>>,
        } == (if text@ == "{}"@ {
            Some(Seq::empty())
        } else {
            json_document(text@)
        }),
{
    serde_json::from_str(text)
}

/// The JSON text, as bytes, of a document with these entries.
pub uninterp spec fn document_json(entries: Seq<Entry>) -> Seq<u8>;

/// `parts` one behind another, with a comma between each two.
pub open spec fn comma_separated(parts: Seq<Seq<u8>>) -> Seq<u8>
    decreases parts.len(),
{
    if parts.len() == 0 {
        Seq::empty()
    } else if parts.len() == 1 {
        parts[0]
    } else {
        comma_separated(parts.drop_last()) + seq![COMMA] + parts.last()
    }
}

/// The JSON array of `parts`.
pub open spec fn json_array(parts: Seq<Seq<u8>>) -> Seq<u8> {
    seq![OPENING_BRACKET] + comma_separated(parts) + seq![CLOSING_BRACKET]
}

/// The JSON text of each of `documents`.
pub open spec fn json_texts(documents: Seq<Document>) -> Seq<Seq<u8>> {
    documents.map_values(|document: Document| document_json(document_entries(document)))
}

/// `serde_json::to_vec` of `serde_json` on documents of `bson`: the JSON array of their texts, in
/// their order and without white space. It does not fail, for every key of a document is a string
/// and every BSON value has a JSON text. The text of one document is a function of what it holds.
#[verifier::external_body]
pub(crate) fn documents_to_json(documents: &Vec<Document>) -> (json: Result<
    Vec<u8>,
    serde_json::Error,
>)
    ensures
        json is Ok,
        json->Ok_0@ == json_array(
            documents@.map_values(
                |document: Document| document_json(document_entries(document)),
            ),
        ),
{
    serde_json::to_vec(documents)
}

/// A name of a query string with its value.
pub type Pair = (Seq<char>, Seq<char>);

/// The names and values of the query string of a URL, given as text.
pub uninterp spec fn url_query_pairs(url: Seq<char>) -> Option<Seq<Pair>>;

/// `Url::parse` and `Url::query_pairs` of `reqwest`: the decoded names and values of the query
/// string, in their order; none where `url` is no absolute URL. The result is a function of the
/// text.
#[verifier::external_body]
pub(crate) fn query_pairs(url: &str) -> (pairs: Option<Vec<(String, String)>>)
    ensures
        url_query_pairs(url@) == match pairs {
            Some(pairs) => Some(pairs_view(pairs@)),
            None => None::<Seq<Pair>>,
        },
{
    let url = Url::parse(url).ok()?;
    Some(url.query_pairs().into_owned().collect())
}

/// The names and values as texts.
pub open spec fn pairs_view(pairs: Seq<(String, String)>) -> Seq<Pair> {
    pairs.map_values(|pair: (String, String)| (pair.0@, pair.1@))
}

/// The last value under `name`, or `default` where there is none.
pub open spec fn last_value(pairs: Seq<Pair>, name: Seq<char>, default: Seq<char>) -> Seq<char>
    decreases pairs.len(),
{
    if pairs.len() == 0 {
        default
    } else if pairs.last().0 == name {
        pairs.last().1
    } else {
        last_value(pairs.drop_last(), name, default)
    }
}

/// The entries of a document, if there is one.
pub open spec fn optional_entries(document: Option<Document>) -> Option<Seq<Entry>> {
    match document {
        Some(document) => Some(document_entries(document)),
        None => None,
    }
}

/// What is done about a query, given what its two documents were parsed into.
pub open spec fn find_answer(
    filter: Option<Seq<Entry>>,
    sort: Option<Seq<Entry>>,
    connected: bool,
) -> AnswerView {
    match filter {
        None => AnswerView::Reply(refusal(400, "Invalid query JSON"@)),
        Some(filter) => match sort {
            None => AnswerView::Reply(refusal(400, "Invalid sort JSON"@)),
            Some(sort) => if connected {
                AnswerView::Find(FindView { filter, sort, allow_disk_use: true })
            } else {
                AnswerView::Reply(refusal(500, "Database isn't connected"@))
            },
        },
    }
}

/// What is done about a query with these names and values.
pub open spec fn query_answer(
    pairs: Seq<Pair>,
    api_key: Seq<char>,
    connected: bool,
) -> AnswerView {
    if last_value(pairs, "key"@, ""@) != api_key {
        AnswerView::Reply(refusal(400, "Not authorized"@))
    } else {
        find_answer(
            spelled_out(last_value(pairs, "query"@, "{}"@)),
            spelled_out(last_value(pairs, "sort"@, "{}"@)),
            connected,
        )
    }
}

/// The URL that a request is for.
pub open spec fn request_url(base_url: Seq<char>, uri: Seq<char>) -> Seq<char> {
    "http://"@ + base_url + uri
}

/// What is done about a request; nothing where it is a query and its URL is none.
pub open spec fn request_answer(
    request: Request,
    config: Config,
    statistics: Statistics,
    connected: bool,
) -> Option<AnswerView> {
    if request.method@ == "GET"@ && request.path@ == "/"@ {
        Some(AnswerView::Reply(index_view(statistics)))
    } else if request.method@ == "GET"@ && request.path@ == "/query"@ {
        match url_query_pairs(request_url(config.base_url@, request.uri@)) {
            Some(pairs) => Some(query_answer(pairs, config.api_key@, connected)),
            None => None,
        }
    } else {
        Some(AnswerView::Reply(json_text(404, NOT_FOUND_BODY@)))
    }
}

/// What is done about a query, given what its two documents were parsed into.
pub fn plan_find(filter: Option<Document>, sort: Option<Document>, connected: bool) -> (answer:
    Answer)
    ensures
        answer@ == find_answer(optional_entries(filter), optional_entries(sort), connected),
{
    match filter {
        None => Answer::Reply(bad_request("Invalid query JSON")),
        Some(filter) => match sort {
            None => Answer::Reply(bad_request("Invalid sort JSON")),
            Some(sort) => if connected {
                Answer::Find(Find { filter, sort, allow_disk_use: true })
            } else {
                Answer::Reply(internal_error("Database isn't connected"))
            },
        },
    }
}

/// What is done about a query with these names and values.
pub fn answer_query(pairs: &Vec<(String, String)>, api_key: &String, connected: bool) -> (answer:
    Answer)
    ensures
        answer@ == query_answer(pairs_view(pairs@), api_key@, connected),
{
    let query_name: String = "query".to_owned();
    let sort_name: String = "sort".to_owned();
    let key_name: String = "key".to_owned();
    let mut query: String = "{}".to_owned();
    let mut sort: String = "{}".to_owned();
    let mut key: String = "".to_owned();
    let ghost view = pairs_view(pairs@);
    proof {
        reveal_strlit("query");
        reveal_strlit("sort");
        reveal_strlit("key");
        assert("query"@.len() == 5 && "sort"@.len() == 4 && "key"@.len() == 3);
        assert(view.take(0) =~= Seq::empty());
    }
    let mut index: usize = 0;
    while index < pairs.len()
        invariant
            index <= pairs.len(),
            view == pairs_view(pairs@),
            query_name@ == "query"@,
            sort_name@ == "sort"@,
            key_name@ == "key"@,
            "query"@ != "sort"@,
            "query"@ != "key"@,
            "sort"@ != "key"@,
            query@ == last_value(view.take(index as int), "query"@, "{}"@),
            sort@ == last_value(view.take(index as int), "sort"@, "{}"@),
            key@ == last_value(view.take(index as int), "key"@, ""@),
        decreases pairs.len() - index,
    {
        let pair = &pairs[index];
        proof {
            assert(view.take(index + 1).drop_last() =~= view.take(index as int));
            assert(view.take(index + 1).last() == (pair.0@, pair.1@));
        }
        if pair.0 == query_name {
            query = pair.1.clone();
        } else if pair.0 == sort_name {
            sort = pair.1.clone();
        } else if pair.0 == key_name {
            key = pair.1.clone();
        }
        index = index + 1;
    }
    assert(view.take(index as int) =~= view);
    if key != *api_key {
        return Answer::Reply(bad_request("Not authorized"));
    }
    let filter: Option<Document> = match parse_document(query.as_str()) {
        Ok(document) => Some(document),
        Err(_) => None,
    };
    let order: Option<Document> = match parse_document(sort.as_str()) {
        Ok(document) => Some(document),
        Err(_) => None,
    };
    plan_find(filter, order, connected)
}

/// What is logged of a request: its method and the first thirty characters of its path.
pub fn log_line(request: &Request) -> (line: String)
    ensures
        line@ == request.method@ + " "@ + request.path@.take(
            if request.path@.len() < 30 {
                request.path@.len() as int
            } else {
                30
            },
        ),
{
    let mut line: String = request.method.clone();
    line.append(" ");
    let start: &str = substring(request.path.as_str(), 0, 30);
    assert(start@ =~= request.path@.take(
        if request.path@.len() < 30 {
            request.path@.len() as int
        } else {
            30
        },
    ));
    line.append(start);
    line
}

/// What is done about a request, when the database is there (`connected`) or not; nothing where the
/// request is a query and its URL is none.
pub fn answer_request(
    request: &Request,
    config: &Config,
    statistics: &Statistics,
    connected: bool,
) -> (answer: Option<Answer>)
    ensures
        match answer {
            Some(answer) => request_answer(*request, *config, *statistics, connected) == Some(
                answer@,
            ),
            None => request_answer(*request, *config, *statistics, connected) is None,
        },
{
    let get: String = "GET".to_owned();
    let index_path: String = "/".to_owned();
    let query_path: String = "/query".to_owned();
    if request.method == get && request.path == index_path {
        Some(Answer::Reply(index(statistics)))
    } else if request.method == get && request.path == query_path {
        let mut url: String = "http://".to_owned();
        url.append(config.base_url.as_str());
        url.append(request.uri.as_str());
        match query_pairs(url.as_str()) {
            Some(pairs) => Some(answer_query(&pairs, &config.api_key, connected)),
            None => None,
        }
    } else {
        Some(Answer::Reply(not_found()))
    }
}

/// The answer where a search failed.
pub fn find_failed() -> (response: Response)
    ensures
        response@ == refusal(500, "Error when querying database"@),
{
    internal_error("Error when querying database")
}

/// The answer that carries what was found, in JSON.
pub fn found(json: Vec<u8>) -> (response: Response)
    ensures
        response@ == (ResponseView {
            status: 200,
            content_type: JSON@,
            body: BodyView::Bytes(json@),
        }),
{
    Response { status: 200, content_type: JSON.to_owned(), body: Body::Bytes(json) }
}

/// The answer to a query whose search gave `results`: the JSON array of their texts.
pub fn answer_results(results: &Vec<Document>) -> (response: Response)
    ensures
        response@ == (ResponseView {
            status: 200,
            content_type: JSON@,
            body: BodyView::Bytes(json_array(json_texts(results@))),
        }),
{
    found(documents_to_json(results).unwrap())
}

/// Where nothing is found, the answer is an empty array; and one more result adds its text at the
/// end, behind a comma where it is not the first.
pub proof fn results_are_listed_in_order(results: Seq<Document>, added: Document)
    ensures
        json_array(json_texts(Seq::empty())) == seq![OPENING_BRACKET, CLOSING_BRACKET],
        comma_separated(json_texts(results.push(added))) == (if results.len() == 0 {
            document_json(document_entries(added))
        } else {
            comma_separated(json_texts(results)) + seq![COMMA] + document_json(
                document_entries(added),
            )
        }),
{
    assert(json_texts(Seq::empty()) =~= Seq::empty());
    assert(json_array(json_texts(Seq::empty())) =~= seq![OPENING_BRACKET, CLOSING_BRACKET]);
    assert(json_texts(results.push(added)).drop_last() =~= json_texts(results));
}

/// A query without the right key is refused as unauthorized, whatever else it says, whether or not
/// the database is there, and whatever the statistics are.
pub proof fn wrong_key_is_refused(
    request: Request,
    config: Config,
    statistics: Statistics,
    connected: bool,
    pairs: Seq<Pair>,
)
    requires
        request.method@ == "GET"@,
        request.path@ == "/query"@,
        url_query_pairs(request_url(config.base_url@, request.uri@)) == Some(pairs),
        last_value(pairs, "key"@, ""@) != config.api_key@,
    ensures
        request_answer(request, config, statistics, connected) == Some(
            AnswerView::Reply(refusal(400, "Not authorized"@)),
        ),
{
    reveal_strlit("/");
    reveal_strlit("/query");
    assert("/"@.len() == 1 && "/query"@.len() == 6);
}

/// A query with the right key that leaves the search and its order open searches for every stored
/// auction, in no order; without a database it is answered that there is none.
pub proof fn bare_query_searches_for_all(pairs: Seq<Pair>, api_key: Seq<char>, connected: bool)
    requires
        last_value(pairs, "key"@, ""@) == api_key,
        last_value(pairs, "query"@, "{}"@) == "{}"@,
        last_value(pairs, "sort"@, "{}"@) == "{}"@,
    ensures
        query_answer(pairs, api_key, connected) == (if connected {
            AnswerView::Find(
                FindView { filter: Seq::empty(), sort: Seq::empty(), allow_disk_use: true },
            )
        } else {
            AnswerView::Reply(refusal(500, "Database isn't connected"@))
        }),
{
}

/// What leaves the search open is not at fault: with the right key, only the order can be.
pub proof fn open_search_leaves_the_order(pairs: Seq<Pair>, api_key: Seq<char>, connected: bool)
    requires
        last_value(pairs, "key"@, ""@) == api_key,
        last_value(pairs, "query"@, "{}"@) == "{}"@,
        spelled_out(last_value(pairs, "sort"@, "{}"@)) is None,
    ensures
        query_answer(pairs, api_key, connected) == AnswerView::Reply(
            refusal(400, "Invalid sort JSON"@),
        ),
{
}

/// The database is searched only for a query with the right key whose two documents are in order,
/// while the database is there; and it is searched for those two documents.
pub proof fn search_is_authorized(
    request: Request,
    config: Config,
    statistics: Statistics,
    connected: bool,
    find: FindView,
)
    requires
        request_answer(request, config, statistics, connected) == Some(AnswerView::Find(find)),
    ensures
        request.method@ == "GET"@,
        request.path@ == "/query"@,
        connected,
        url_query_pairs(request_url(config.base_url@, request.uri@)) is Some,
        ({
            let pairs = url_query_pairs(request_url(config.base_url@, request.uri@))->0;
            &&& last_value(pairs, "key"@, ""@) == config.api_key@
            &&& spelled_out(last_value(pairs, "query"@, "{}"@)) == Some(find.filter)
            &&& spelled_out(last_value(pairs, "sort"@, "{}"@)) == Some(find.sort)
        }),
        find.allow_disk_use,
{
}

/// A request that does not get the index or the query path finds nothing.
pub proof fn other_requests_find_nothing(
    request: Request,
    config: Config,
    statistics: Statistics,
    connected: bool,
)
    requires
        request.method@ != "GET"@ || (request.path@ != "/"@ && request.path@ != "/query"@),
    ensures
        request_answer(request, config, statistics, connected) == Some(
            AnswerView::Reply(json_text(404, NOT_FOUND_BODY@)),
        ),
{
}

/// Every answer that is given at once is JSON text, under one of four statuses.
pub proof fn replies_are_json(
    request: Request,
    config: Config,
    statistics: Statistics,
    connected: bool,
    response: ResponseView,
)
    requires
        request_answer(request, config, statistics, connected) == Some(AnswerView::Reply(response)),
    ensures
        response.content_type == JSON@,
        response.body is Text,
        response.status == 200 || response.status == 400 || response.status == 404
            || response.status == 500,
{
}

/// Of several values under one name the last counts, and a value under one name leaves what counts
/// under another.
pub proof fn last_value_counts(
    pairs: Seq<Pair>,
    added: Pair,
    name: Seq<char>,
    default: Seq<char>,
)
    ensures
        last_value(pairs.push(added), name, default) == (if added.0 == name {
            added.1
        } else {
            last_value(pairs, name, default)
        }),
{
    assert(pairs.push(added).drop_last() =~= pairs);
}

/// A text answer carries its status and its text as they are, as JSON.
pub proof fn answers_carry_their_text(status: u16, text: Seq<char>)
    ensures
        json_text(status, text).status == status,
        json_text(status, text).content_type == "application/json"@,
        json_text(status, text).body == BodyView::Text(text),
{
}

/// A refusal carries its status, and its text is the reason between a fixed beginning and a fixed
/// end, whatever the reason is.
pub proof fn refusals_carry_their_reason(status: u16, reason: Seq<char>)
    ensures
        refusal(status, reason).status == status,
        refusal(status, reason).content_type == "application/json"@,
        refusal(status, reason).body == BodyView::Text(
            "{\"success\":false,\"reason\":\""@ + reason + "\"}"@,
        ),
{
}

/// Refusals for different reasons, or with different statuses, differ.
pub proof fn reasons_are_told_apart(status: u16, reason: Seq<char>, other: u16, why: Seq<char>)
    ensures
        refusal(status, reason) == refusal(other, why) <==> status == other && reason == why,
{
    refusals_carry_their_reason(status, reason);
    refusals_carry_their_reason(other, why);
    let head = "{\"success\":false,\"reason\":\""@;
    let tail = "\"}"@;
    let first = head + reason + tail;
    let second = head + why + tail;
    if first == second {
        let start = head.len() as int;
        assert(first.subrange(start, first.len() - tail.len()) =~= reason);
        assert(second.subrange(start, second.len() - tail.len()) =~= why);
    }
}

/// A request that gets the index is answered with the statistics: the word for whether an update is
/// under way, the number of updates and the time of the last, each in its place.
pub proof fn index_tells_the_statistics(
    request: Request,
    config: Config,
    statistics: Statistics,
    connected: bool,
)
    requires
        request.method@ == "GET"@,
        request.path@ == "/"@,
    ensures
        request_answer(request, config, statistics, connected) == Some(
            AnswerView::Reply(
                ResponseView {
                    status: 200,
                    content_type: "application/json"@,
                    body: BodyView::Text(
                        INDEX_HEAD@ + (if statistics.is_updating {
                            "true"@
                        } else {
                            "false"@
                        }) + INDEX_TOTAL@ + decimal_text(statistics.total_updates as int)
                            + INDEX_LAST@ + decimal_text(statistics.last_updated as int)
                            + INDEX_TAIL@,
                    ),
                },
            ),
        ),
{
}

/// Statistics that differ, be it in whether an update is under way, in the number of updates or in
/// the time of the last, are told by answers that differ.
pub proof fn statistics_are_told_apart(
    request: Request,
    config: Config,
    first: Statistics,
    second: Statistics,
    connected: bool,
)
    requires
        request.method@ == "GET"@,
        request.path@ == "/"@,
        request_answer(request, config, first, connected) == request_answer(
            request,
            config,
            second,
            connected,
        ),
    ensures
        first.is_updating == second.is_updating,
        first.total_updates == second.total_updates,
        first.last_updated == second.last_updated,
{
    index_tells_the_statistics(request, config, first, connected);
    index_tells_the_statistics(request, config, second, connected);
    let one = INDEX_HEAD@ + bool_text(first.is_updating) + INDEX_TOTAL@ + decimal_text(
        first.total_updates as int,
    ) + INDEX_LAST@ + decimal_text(first.last_updated as int) + INDEX_TAIL@;
    let two = INDEX_HEAD@ + bool_text(second.is_updating) + INDEX_TOTAL@ + decimal_text(
        second.total_updates as int,
    ) + INDEX_LAST@ + decimal_text(second.last_updated as int) + INDEX_TAIL@;
    assert(one == two);
    truth_values_are_told_apart(first.is_updating);
    truth_values_are_told_apart(second.is_updating);
    assert(one[INDEX_HEAD@.len() as int] == bool_text(first.is_updating)[0]);
    assert(two[INDEX_HEAD@.len() as int] == bool_text(second.is_updating)[0]);
    assert(first.is_updating == second.is_updating);
    let start = (INDEX_HEAD@ + bool_text(first.is_updating) + INDEX_TOTAL@).len() as int;
    lemma_two_numbers(
        first.total_updates as int,
        first.last_updated as int,
        second.total_updates as int,
        second.last_updated as int,
        one.skip(start),
    );
}

/// What follows the word in the index tells its two numbers.
proof fn lemma_two_numbers(total: int, last: int, total_too: int, last_too: int, text: Seq<char>)
    requires
        text =~= decimal_text(total) + INDEX_LAST@ + decimal_text(last) + INDEX_TAIL@,
        text =~= decimal_text(total_too) + INDEX_LAST@ + decimal_text(last_too) + INDEX_TAIL@,
    ensures
        total == total_too,
        last == last_too,
{
    reveal_strlit("\",\n                        \"last_updated\":\"");
    assert(INDEX_LAST@.len() > 0 && INDEX_LAST@[0] == '"');
    numbers_hold_digits_only(total);
    numbers_hold_digits_only(total_too);
    let length = decimal_text(total).len() as int;
    let other = decimal_text(total_too).len() as int;
    assert(text[length] == '"');
    assert(text[other] == '"');
    if length < other {
        assert(text[length] == decimal_text(total_too)[length]);
    }
    if other < length {
        assert(text[other] == decimal_text(total)[other]);
    }
    assert(text.take(length) =~= decimal_text(total));
    assert(text.take(length) =~= decimal_text(total_too));
    if total != total_too {
        decimal_texts_differ(total, total_too);
    }
    let start = length + INDEX_LAST@.len();
    let end = text.len() - INDEX_TAIL@.len();
    assert(text.subrange(start, end) =~= decimal_text(last));
    assert(text.subrange(start, end) =~= decimal_text(last_too));
    if last != last_too {
        decimal_texts_differ(last, last_too);
    }
}

/// A query with the right key, while the database is there, is a search for exactly the two
/// documents that its texts spell out, whatever the texts are.
pub proof fn good_query_is_searched_for(
    request: Request,
    config: Config,
    statistics: Statistics,
    pairs: Seq<Pair>,
    filter: Seq<Entry>,
    sort: Seq<Entry>,
)
    requires
        request.method@ == "GET"@,
        request.path@ == "/query"@,
        url_query_pairs("http://"@ + config.base_url@ + request.uri@) == Some(pairs),
        last_value(pairs, "key"@, ""@) == config.api_key@,
        ({
            let text = last_value(pairs, "query"@, "{}"@);
            ||| text == "{}"@ && filter == Seq::<Entry>::empty()
            ||| text != "{}"@ && json_document(text) == Some(filter)
        }),
        ({
            let text = last_value(pairs, "sort"@, "{}"@);
            ||| text == "{}"@ && sort == Seq::<Entry>::empty()
            ||| text != "{}"@ && json_document(text) == Some(sort)
        }),
    ensures
        request_answer(request, config, statistics, true) == Some(
            AnswerView::Find(FindView { filter, sort, allow_disk_use: true }),
        ),
        request_answer(request, config, statistics, false) == Some(
            AnswerView::Reply(refusal(500, "Database isn't connected"@)),
        ),
{
    reveal_strlit("/");
    reveal_strlit("/query");
    assert("/"@.len() == 1 && "/query"@.len() == 6);
}

/// Each refusal of a query is deserved, and comes wherever it is: for its key if and only if that is
/// not the right one; with the right key, for its search if and only if that text spells out no
/// document; for its order if and only if only that text spells out none; and for want of a database
/// if and only if nothing else is at fault.
pub proof fn refusals_are_deserved(pairs: Seq<Pair>, api_key: Seq<char>, connected: bool)
    ensures
        ({
            let answer = query_answer(pairs, api_key, connected);
            let query = last_value(pairs, "query"@, "{}"@);
            let sort = last_value(pairs, "sort"@, "{}"@);
            let right_key = last_value(pairs, "key"@, ""@) == api_key;
            let good_query = query == "{}"@ || json_document(query) is Some;
            let good_sort = sort == "{}"@ || json_document(sort) is Some;
            &&& answer == AnswerView::Reply(refusal(400, "Not authorized"@)) <==> !right_key
            &&& answer == AnswerView::Reply(refusal(400, "Invalid query JSON"@)) <==> right_key
                && !good_query
            &&& answer == AnswerView::Reply(refusal(400, "Invalid sort JSON"@)) <==> right_key
                && good_query && !good_sort
            &&& answer == AnswerView::Reply(refusal(500, "Database isn't connected"@))
                <==> right_key && good_query && good_sort && !connected
            &&& answer is Find <==> right_key && good_query && good_sort && connected
        }),
{
    reveal_strlit("Not authorized");
    reveal_strlit("Invalid query JSON");
    reveal_strlit("Invalid sort JSON");
    let key = "Not authorized"@;
    let query = "Invalid query JSON"@;
    let sort = "Invalid sort JSON"@;
    let database = "Database isn't connected"@;
    assert(key.len() == 14 && query.len() == 18 && sort.len() == 17);
    reasons_are_told_apart(400, key, 400, query);
    reasons_are_told_apart(400, key, 400, sort);
    reasons_are_told_apart(400, key, 500, database);
    reasons_are_told_apart(400, query, 400, sort);
    reasons_are_told_apart(400, query, 500, database);
    reasons_are_told_apart(400, sort, 500, database);
}

/// Given what the two texts were parsed into, a search is made if and only if both are documents and
/// the database is there, and it is for those two.
pub proof fn both_documents_are_searched_for(
    filter: Option<Seq<Entry>>,
    sort: Option<Seq<Entry>>,
    connected: bool,
)
    ensures
        filter is Some && sort is Some && connected <==> find_answer(filter, sort, connected)
            is Find,
        filter is Some && sort is Some && connected ==> find_answer(filter, sort, connected)
            == AnswerView::Find(
            FindView { filter: filter->0, sort: sort->0, allow_disk_use: true },
        ),
        filter is None ==> find_answer(filter, sort, connected) == AnswerView::Reply(
            refusal(400, "Invalid query JSON"@),
        ),
        filter is Some && sort is None ==> find_answer(filter, sort, connected)
            == AnswerView::Reply(refusal(400, "Invalid sort JSON"@)),
        filter is Some && sort is Some && !connected ==> find_answer(filter, sort, connected)
            == AnswerView::Reply(refusal(500, "Database isn't connected"@)),
{
}

/// A document that was parsed is told by its entries, and none where there is none.
pub proof fn parsed_documents_are_told_by_their_entries(document: Document)
    ensures
        optional_entries(Some(document)) == Some(document_entries(document)),
        optional_entries(None) is None,
{
}

/// A text spells out what its document holds, and an empty object spells out the empty document.
pub proof fn texts_spell_out_their_document(text: Seq<char>)
    ensures
        spelled_out("{}"@) == Some(Seq::<Entry>::empty()),
        text != "{}"@ ==> spelled_out(text) == json_document(text),
{
}

/// A query whose URL is none is left without an answer, and no other request is.
pub proof fn only_bad_urls_go_unanswered(
    request: Request,
    config: Config,
    statistics: Statistics,
    connected: bool,
)
    ensures
        request_answer(request, config, statistics, connected) is None <==> request.method@
            == "GET"@ && request.path@ == "/query"@ && url_query_pairs(
            "http://"@ + config.base_url@ + request.uri@,
        ) is None,
{
    reveal_strlit("/");
    reveal_strlit("/query");
    assert("/"@.len() == 1 && "/query"@.len() == 6);
}

/// A query is answered by its names and values alone, whatever the statistics are.
pub proof fn queries_are_answered_by_their_pairs(
    request: Request,
    config: Config,
    statistics: Statistics,
    connected: bool,
    pairs: Seq<Pair>,
)
    requires
        request.method@ == "GET"@,
        request.path@ == "/query"@,
        url_query_pairs("http://"@ + config.base_url@ + request.uri@) == Some(pairs),
    ensures
        request_answer(request, config, statistics, connected) == Some(
            query_answer(pairs, config.api_key@, connected),
        ),
{
    reveal_strlit("/");
    reveal_strlit("/query");
    assert("/"@.len() == 1 && "/query"@.len() == 6);
}

/// What counts under a name is the value that stands under it with no other behind, wherever it
/// stands; where the name is not there, it is the default.
pub proof fn last_of_a_name_counts(
    pairs: Seq<Pair>,
    name: Seq<char>,
    default: Seq<char>,
    i: int,
)
    requires
        -1 <= i < pairs.len(),
        i >= 0 ==> pairs[i].0 == name,
        forall|k: int| i < k < pairs.len() ==> (#[trigger] pairs[k]).0 != name,
    ensures
        i >= 0 ==> last_value(pairs, name, default) == pairs[i].1,
        i < 0 ==> last_value(pairs, name, default) == default,
    decreases pairs.len(),
{
    if i < pairs.len() - 1 {
        assert(pairs[pairs.len() - 1].0 != name);
        last_of_a_name_counts(pairs.drop_last(), name, default, i);
    }
}

/// The names and values keep their order and their texts.
pub proof fn pairs_are_told_by_their_texts(pairs: Seq<(String, String)>, i: int)
    requires
        0 <= i < pairs.len(),
    ensures
        pairs_view(pairs).len() == pairs.len(),
        pairs_view(pairs)[i].0 == pairs[i].0@,
        pairs_view(pairs)[i].1 == pairs[i].1@,
{
}

/// The answer to a search is one array: empty where nothing is found, and with one more result the
/// array as it was, but for its closing bracket, then a comma where it was not empty, then the text
/// of the result, then the bracket.
pub proof fn results_are_one_array(results: Seq<Document>, added: Document)
    ensures
        json_array(json_texts(Seq::empty())) == seq![91u8, 93u8],
        results.len() == 0 ==> json_array(json_texts(results.push(added))) == seq![91u8]
            + document_json(document_entries(added)) + seq![93u8],
        results.len() > 0 ==> json_array(json_texts(results.push(added))) == json_array(
            json_texts(results),
        ).drop_last() + seq![44u8] + document_json(document_entries(added)) + seq![93u8],
{
    results_are_listed_in_order(results, added);
    let before = comma_separated(json_texts(results));
    assert(json_array(json_texts(results)).drop_last() =~= seq![91u8] + before);
    assert(json_array(json_texts(results.push(added))) =~= seq![91u8] + comma_separated(
        json_texts(results.push(added)),
    ) + seq![93u8]);
    if results.len() > 0 {
        assert(json_array(json_texts(results.push(added))) =~= json_array(
            json_texts(results),
        ).drop_last() + seq![44u8] + document_json(document_entries(added)) + seq![93u8]);
    }
}

/// A request for anything else is answered, with the status for it, that there is no success.
pub proof fn nothing_found_is_told(
    request: Request,
    config: Config,
    statistics: Statistics,
    connected: bool,
)
    requires
        request.method@ != "GET"@ || (request.path@ != "/"@ && request.path@ != "/query"@),
    ensures
        request_answer(request, config, statistics, connected) == Some(
            AnswerView::Reply(
                ResponseView {
                    status: 404,
                    content_type: "application/json"@,
                    body: BodyView::Text("{\"success\":false}"@),
                },
            ),
        ),
{
}

/// What is told of an answer is what it holds, field by field.
pub proof fn answers_are_told_by_their_fields(response: Response, find: Find)
    ensures
        Answer::Reply(response)@ == AnswerView::Reply(response@),
        response@.status == response.status,
        response@.content_type == response.content_type@,
        response.body matches Body::Text(text) ==> response@.body == BodyView::Text(text@),
        response.body matches Body::Bytes(bytes) ==> response@.body == BodyView::Bytes(bytes@),
        Answer::Find(find)@ == AnswerView::Find(find@),
        find@.filter == document_entries(find.filter),
        find@.sort == document_entries(find.sort),
        find@.allow_disk_use == find.allow_disk_use,
{
}

} // verus!
