//! Web search through the DataForSEO API.
//!
//! The tool builds the body of a search request and reads the answer. The
//! caller sends the one and receives the other.

use crate::json::{JsonNumber, JsonValue};
use crate::text::{join, joined, texts_of};
use vstd::prelude::*;

verus! {

/// Where a search request is posted to.
pub const ENDPOINT: &'static str =
    "https://api.dataforseo.com/v3/serp/google/organic/live/regular";

/// The name the tool is known by.
pub const NAME: &'static str = "GoogleSearch";

/// What the tool is for, in words for whoever picks a tool.
pub const DESCRIPTION: &'static str =
    "A wrapper around Google Search. \n            Useful for when you need to answer questions about current events. \n            Always one of the first options when you need to find information on internet.\n            Input should be a search query.";

/// The status code of an answer that is no error.
pub const STATUS_OK: u64 = 20000;

/// The most results that one answer is read for.
pub const MAX_RESULTS: usize = 30;

/// The depth asked for where none is set.
pub const DEFAULT_DEPTH: u32 = 100;

/// A failed search.
#[derive(Debug, PartialEq, Eq)]
pub enum ToolError {
    /// The input of the tool is no string.
    InvalidInput,
    /// The API answered with an error status; this is its message.
    Api(String),
    /// The answer holds no result with a title.
    NoResults,
}

/// The error without its storage.
pub enum ToolErrorView {
    InvalidInput,
    Api(Seq<char>),
    NoResults,
}

impl View for ToolError {
    type V = ToolErrorView;

    open spec fn view(&self) -> ToolErrorView {
        match self {
            ToolError::InvalidInput => ToolErrorView::InvalidInput,
            ToolError::Api(message) => ToolErrorView::Api(message@),
            ToolError::NoResults => ToolErrorView::NoResults,
        }
    }
}

impl ToolErrorView {
    /// The text shown for the error.
    pub open spec fn message(self) -> Seq<char> {
        match self {
            ToolErrorView::InvalidInput => "Input should be a string"@,
            ToolErrorView::Api(message) => "API error: "@ + message,
            ToolErrorView::NoResults => "No valid results found in the response structure"@,
        }
    }
}

impl ToolError {
    /// The text shown for the error.
    pub fn message(&self) -> (text: String)
        ensures
            text@ == self@.message(),
    {
        match self {
            ToolError::InvalidInput => String::from_str("Input should be a string"),
            ToolError::Api(message) => String::from_str("API error: ").concat(message.as_str()),
            ToolError::NoResults => String::from_str(
                "No valid results found in the response structure",
            ),
        }
    }
}

/// A request to post: where to, under which `Authorization` header, and
/// with which JSON body.
#[derive(Debug, PartialEq, Eq)]
pub struct SearchRequest {
    pub url: String,
    pub authorization: String,
    pub body: JsonValue,
}

/// The search tool: an access token and what to ask for.
#[derive(Debug, PartialEq, Eq)]
pub struct DataForSeo {
    access_token: String,
    location: Option<String>,
    language_code: Option<String>,
    depth: Option<u32>,
}

/// The characters of a text that may be absent.
pub open spec fn text_of(text: Option<String>) -> Option<Seq<char>> {
    match text {
        Some(s) => Some(s@),
        None => None,
    }
}

/// The text, or `fallback` where there is none.
pub open spec fn text_or(text: Option<Seq<char>>, fallback: Seq<char>) -> Seq<char> {
    match text {
        Some(s) => s,
        None => fallback,
    }
}

/// The member `key` of `value` as text, where it is one.
pub open spec fn member_text(value: JsonValue, key: Seq<char>) -> Option<Seq<char>> {
    match value.spec_get(key) {
        Some(member) => member.spec_as_str(),
        None => None,
    }
}

/// The first element of the member `key` of `value`, where that member is
/// an array that is not empty.
pub open spec fn first_of(value: JsonValue, key: Seq<char>) -> Option<JsonValue> {
    match value.spec_get(key) {
        Some(member) => match member.spec_as_array() {
            Some(elements) => if elements.len() > 0 {
                Some(elements[0])
            } else {
                None
            },
            None => None,
        },
        None => None,
    }
}

/// The status code of an answer, where it states one.
pub open spec fn status_code(answer: JsonValue) -> Option<u64> {
    match answer.spec_get("status_code"@) {
        Some(code) => code.spec_as_u64(),
        None => None,
    }
}

/// The items of the first result of the first task of an answer.
pub open spec fn items_of(answer: JsonValue) -> Option<Seq<JsonValue>> {
    match first_of(answer, "tasks"@) {
        Some(task) => match first_of(task, "result"@) {
            Some(result) => match result.spec_get("items"@) {
                Some(items) => items.spec_as_array(),
                None => None,
            },
            None => None,
        },
        None => None,
    }
}

/// How one item with the title `title` is shown.
pub open spec fn shown(title: Seq<char>, item: JsonValue) -> Seq<char> {
    "Title: "@ + title + "\nSnippet: "@ + text_or(member_text(item, "snippet"@), ""@) + "\n"@
}

/// What is shown of `items`: each item that has a title, in order.
pub open spec fn listing(items: Seq<JsonValue>) -> Seq<Seq<char>>
    decreases items.len(),
{
    if items.len() == 0 {
        Seq::empty()
    } else {
        match member_text(items.last(), "title"@) {
            Some(title) => listing(items.drop_last()).push(shown(title, items.last())),
            None => listing(items.drop_last()),
        }
    }
}

/// The first `MAX_RESULTS` entries of the listing of `items`.
pub open spec fn capped_listing(items: Seq<JsonValue>) -> Seq<Seq<char>> {
    if listing(items).len() > MAX_RESULTS {
        listing(items).take(MAX_RESULTS as int)
    } else {
        listing(items)
    }
}

/// What an answer of the API reads as.
///
/// An answer that states a status code other than `STATUS_OK` is an API
/// error with the answer's message. Otherwise the answer reads as the
/// capped listing of its items, entries separated by a line break, and as
/// no results where it has no items or none of them has a title.
pub open spec fn reading(answer: JsonValue) -> Result<Seq<char>, ToolErrorView> {
    if status_code(answer) is Some && status_code(answer)->0 != STATUS_OK {
        Err(
            ToolErrorView::Api(
                text_or(member_text(answer, "status_message"@), "Unknown error"@),
            ),
        )
    } else {
        match items_of(answer) {
            Some(items) => if capped_listing(items).len() > 0 {
                Ok(joined(capped_listing(items), "\n"@))
            } else {
                Err(ToolErrorView::NoResults)
            },
            None => Err(ToolErrorView::NoResults),
        }
    }
}

/// The listing of the first items goes before the listing of all.
pub proof fn lemma_listing_prefix(items: Seq<JsonValue>, n: int)
    requires
        0 <= n <= items.len(),
    ensures
        listing(items.take(n)).len() <= listing(items).len(),
        listing(items.take(n)) == listing(items).take(listing(items.take(n)).len() as int),
    decreases items.len() - n,
{
    if n == items.len() {
        assert(items.take(n) =~= items);
        assert(listing(items).take(listing(items).len() as int) =~= listing(items));
    } else {
        lemma_listing_prefix(items, n + 1);
        let longer = items.take(n + 1);
        assert(longer.drop_last() =~= items.take(n));
        assert(listing(items.take(n)) =~= listing(longer).take(
            listing(items.take(n)).len() as int,
        ));
        assert(listing(items.take(n)) =~= listing(items).take(
            listing(items.take(n)).len() as int,
        ));
    }
}

fn member_str<'a>(value: &'a JsonValue, key: &str) -> (text: Option<&'a str>)
    ensures
        match text {
            Some(s) => member_text(*value, key@) == Some(s@),
            None => member_text(*value, key@) is None,
        },
{
    match value.get(key) {
        Some(member) => member.as_str(),
        None => None,
    }
}

fn first_element<'a>(value: &'a JsonValue, key: &str) -> (first: Option<&'a JsonValue>)
    ensures
        match first {
            Some(element) => first_of(*value, key@) == Some(*element),
            None => first_of(*value, key@) is None,
        },
{
    match value.get(key) {
        Some(member) => match member.as_array() {
            Some(elements) => if elements.len() > 0 {
                Some(&elements[0])
            } else {
                None
            },
            None => None,
        },
        None => None,
    }
}

fn items<'a>(answer: &'a JsonValue) -> (found: Option<&'a Vec<JsonValue>>)
    ensures
        match found {
            Some(items) => items_of(*answer) == Some(items@),
            None => items_of(*answer) is None,
        },
{
    match first_element(answer, "tasks") {
        Some(task) => match first_element(task, "result") {
            Some(result) => match result.get("items") {
                Some(items) => items.as_array(),
                None => None,
            },
            None => None,
        },
        None => None,
    }
}

fn show(title: &str, item: &JsonValue) -> (text: String)
    ensures
        text@ == shown(title@, *item),
{
    let snippet: &str = match member_str(item, "snippet") {
        Some(snippet) => snippet,
        None => "",
    };
    String::from_str("Title: ").concat(title).concat("\nSnippet: ").concat(snippet).concat("\n")
}

fn list(items: &Vec<JsonValue>) -> (entries: Vec<String>)
    ensures
        texts_of(entries@) == capped_listing(items@),
{
    let mut entries: Vec<String> = Vec::new();
    let mut i: usize = 0;
    while i < items.len() && entries.len() < MAX_RESULTS
        invariant
            i <= items.len(),
            entries@.len() <= MAX_RESULTS,
            texts_of(entries@) == listing(items@.take(i as int)),
        decreases items.len() - i,
    {
        proof {
            assert(items@.take(i + 1).drop_last() =~= items@.take(i as int));
        }
        match member_str(&items[i], "title") {
            Some(title) => {
                let ghost before = entries@;
                entries.push(show(title, &items[i]));
                assert(texts_of(entries@) =~= texts_of(before).push(
                    shown(title@, items@[i as int]),
                ));
            },
            None => {},
        }
        i = i + 1;
    }
    proof {
        lemma_listing_prefix(items@, i as int);
        if i == items.len() {
            assert(items@.take(i as int) =~= items@);
        }
    }
    entries
}

/// Reads an answer of the API.
pub fn process_dataforseo_response(res: &JsonValue) -> (read: Result<String, ToolError>)
    ensures
        match reading(*res) {
            Ok(text) => read is Ok && read->Ok_0@ == text,
            Err(error) => read is Err && read->Err_0@ == error,
        },
{
    let code: Option<u64> = match res.get("status_code") {
        Some(code) => code.as_u64(),
        None => None,
    };
    match code {
        Some(code) => {
            if code != STATUS_OK {
                let message: &str = match member_str(res, "status_message") {
                    Some(message) => message,
                    None => "Unknown error",
                };
                return Err(ToolError::Api(String::from_str(message)));
            }
        },
        None => {},
    }
    match items(res) {
        Some(items) => {
            let entries: Vec<String> = list(items);
            if entries.len() > 0 {
                Ok(join(&entries, "\n"))
            } else {
                Err(ToolError::NoResults)
            }
        },
        None => Err(ToolError::NoResults),
    }
}

impl DataForSeo {
    pub closed spec fn spec_access_token(&self) -> Seq<char> {
        self.access_token@
    }

    pub closed spec fn spec_location(&self) -> Option<Seq<char>> {
        text_of(self.location)
    }

    pub closed spec fn spec_language_code(&self) -> Option<Seq<char>> {
        text_of(self.language_code)
    }

    pub closed spec fn spec_depth(&self) -> Option<u32> {
        self.depth
    }

    /// A tool that searches from the United States, in English, a hundred
    /// results deep.
    pub fn new(access_token: String) -> (tool: Self)
        ensures
            tool.spec_access_token() == access_token@,
            tool.spec_location() == Some("United States"@),
            tool.spec_language_code() == Some("en"@),
            tool.spec_depth() == Some(DEFAULT_DEPTH),
    {
        DataForSeo {
            access_token,
            location: Some(String::from_str("United States")),
            language_code: Some(String::from_str("en")),
            depth: Some(DEFAULT_DEPTH),
        }
    }

    pub fn with_location(self, location: &str) -> (tool: Self)
        ensures
            tool.spec_location() == Some(location@),
            tool.spec_access_token() == self.spec_access_token(),
            tool.spec_language_code() == self.spec_language_code(),
            tool.spec_depth() == self.spec_depth(),
    {
        DataForSeo {
            access_token: self.access_token,
            location: Some(String::from_str(location)),
            language_code: self.language_code,
            depth: self.depth,
        }
    }

    pub fn with_language_code(self, language_code: &str) -> (tool: Self)
        ensures
            tool.spec_language_code() == Some(language_code@),
            tool.spec_access_token() == self.spec_access_token(),
            tool.spec_location() == self.spec_location(),
            tool.spec_depth() == self.spec_depth(),
    {
        DataForSeo {
            access_token: self.access_token,
            location: self.location,
            language_code: Some(String::from_str(language_code)),
            depth: self.depth,
        }
    }

    pub fn with_depth(self, depth: u32) -> (tool: Self)
        ensures
            tool.spec_depth() == Some(depth),
            tool.spec_access_token() == self.spec_access_token(),
            tool.spec_location() == self.spec_location(),
            tool.spec_language_code() == self.spec_language_code(),
    {
        DataForSeo {
            access_token: self.access_token,
            location: self.location,
            language_code: self.language_code,
            depth: Some(depth),
        }
    }

    pub fn access_token(&self) -> (token: &str)
        ensures
            token@ == self.spec_access_token(),
    {
        self.access_token.as_str()
    }

    /// The location searched from.
    pub fn location(&self) -> (location: &str)
        ensures
            location@ == text_or(self.spec_location(), "United States"@),
    {
        match &self.location {
            Some(location) => location.as_str(),
            None => "United States",
        }
    }

    /// The language searched in.
    pub fn language_code(&self) -> (language_code: &str)
        ensures
            language_code@ == text_or(self.spec_language_code(), "en"@),
    {
        match &self.language_code {
            Some(language_code) => language_code.as_str(),
            None => "en",
        }
    }

    /// The number of results asked for.
    pub fn depth(&self) -> (depth: u32)
        ensures
            depth == match self.spec_depth() {
                Some(depth) => depth,
                None => DEFAULT_DEPTH,
            },
    {
        match self.depth {
            Some(depth) => depth,
            None => DEFAULT_DEPTH,
        }
    }

    /// The name the tool is known by.
    pub fn name(&self) -> (name: String)
        ensures
            name@ == NAME@,
    {
        String::from_str(NAME)
    }

    /// What the tool is for, in words for whoever picks a tool.
    pub fn description(&self) -> (description: String)
        ensures
            description@ == DESCRIPTION@,
    {
        String::from_str(DESCRIPTION)
    }

    /// Whether `body` is the body of the request that searches for `query`:
    /// an array of one task, which states in this order the language, the
    /// location, that organic results are grouped, the search engine, the
    /// keyword and the depth.
    pub open spec fn is_request_body(&self, body: JsonValue, query: Seq<char>) -> bool {
        &&& body.spec_as_array() is Some
        &&& body.spec_as_array()->0.len() == 1
        &&& body.spec_as_array()->0[0] matches JsonValue::Object(members)
        &&& members@.len() == 6
        &&& members@[0].0@ == "language_code"@
        &&& members@[0].1.spec_as_str() == Some(text_or(self.spec_language_code(), "en"@))
        &&& members@[1].0@ == "location_name"@
        &&& members@[1].1.spec_as_str() == Some(text_or(self.spec_location(), "United States"@))
        &&& members@[2].0@ == "group_organic_results"@
        &&& members@[2].1 == JsonValue::Bool(true)
        &&& members@[3].0@ == "se_domain"@
        &&& members@[3].1.spec_as_str() == Some("google.com"@)
        &&& members@[4].0@ == "keyword"@
        &&& members@[4].1.spec_as_str() == Some(query)
        &&& members@[5].0@ == "depth"@
        &&& members@[5].1.spec_as_u64() == Some(
            match self.spec_depth() {
                Some(depth) => depth as u64,
                None => DEFAULT_DEPTH as u64,
            },
        )
    }

    /// The body of the request that searches for `query`.
    pub fn request_body(&self, query: &str) -> (body: JsonValue)
        ensures
            self.is_request_body(body, query@),
    {
        let mut members: Vec<(String, JsonValue)> = Vec::new();
        members.push(
            (
                String::from_str("language_code"),
                JsonValue::String(String::from_str(self.language_code())),
            ),
        );
        members.push(
            (
                String::from_str("location_name"),
                JsonValue::String(String::from_str(self.location())),
            ),
        );
        members.push((String::from_str("group_organic_results"), JsonValue::Bool(true)));
        members.push(
            (String::from_str("se_domain"), JsonValue::String(String::from_str("google.com"))),
        );
        members.push((String::from_str("keyword"), JsonValue::String(String::from_str(query))));
        let depth: u32 = self.depth();
        members.push(
            (String::from_str("depth"), JsonValue::Number(JsonNumber::PosInt(depth as u64))),
        );
        let mut tasks: Vec<JsonValue> = Vec::new();
        tasks.push(JsonValue::Object(members));
        JsonValue::Array(tasks)
    }

    /// The value of the `Authorization` header of a request.
    pub fn authorization(&self) -> (header: String)
        ensures
            header@ == "Basic "@ + self.spec_access_token(),
    {
        String::from_str("Basic ").concat(self.access_token.as_str())
    }

    /// The request that searches for `query`. Its answer is read by
    /// `process_dataforseo_response`.
    pub fn simple_search(&self, query: &str) -> (request: SearchRequest)
        ensures
            request.url@ == ENDPOINT@,
            request.authorization@ == "Basic "@ + self.spec_access_token(),
            self.is_request_body(request.body, query@),
    {
        SearchRequest {
            url: String::from_str(ENDPOINT),
            authorization: self.authorization(),
            body: self.request_body(query),
        }
    }

    /// The request that a call of the tool with `input` makes: the search
    /// for the string that `input` is, and an error where it is none.
    pub fn run(&self, input: &JsonValue) -> (request: Result<SearchRequest, ToolError>)
        ensures
            match input.spec_as_str() {
                Some(query) => {
                    &&& request is Ok
                    &&& request->Ok_0.url@ == ENDPOINT@
                    &&& request->Ok_0.authorization@ == "Basic "@ + self.spec_access_token()
                    &&& self.is_request_body(request->Ok_0.body, query)
                },
                None => request is Err && request->Err_0 == ToolError::InvalidInput,
            },
    {
        match self.query_of(input) {
            Ok(query) => Ok(self.simple_search(query)),
            Err(error) => Err(error),
        }
    }

    /// The query that the input of a call asks for: the input must be a
    /// string.
    pub fn query_of<'a>(&self, input: &'a JsonValue) -> (query: Result<&'a str, ToolError>)
        ensures
            match input.spec_as_str() {
                Some(text) => query is Ok && query->Ok_0@ == text,
                None => query is Err && query->Err_0 == ToolError::InvalidInput,
            },
    {
        match input.as_str() {
            Some(text) => Ok(text),
            None => Err(ToolError::InvalidInput),
        }
    }
}

} // verus!
