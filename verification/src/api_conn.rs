//! The layout of the remote interface: which request stands for which
//! operation, and when a response counts as a failure.
//!
//! A request is described here and sent elsewhere. URLs are put together by
//! the `url` crate, so that every path segment is escaped as that crate
//! escapes it.

use vstd::prelude::*;
use vstd::string::StrSliceExecFns;
use vstd::string::StringExecFns;
use crate::utils::texts;

verus! {

/// The error of the `url` crate, carried as it comes.
#[verifier::external_type_specification]
#[verifier::external_body]
pub struct ExParseError(url::ParseError);

/// What `url::Url::parse` makes of a text: the serialization of the URL it
/// reads, or `None` where it rejects the text.
pub uninterp spec fn url_parsed(input: Seq<char>) -> Option<Seq<char>>;

/// What comes of appending `segments` to the path of the URL written as
/// `base`, each escaped by the `url` crate's rules for a path segment:
/// the serialization of the longer URL, or `None` where `base` is no URL
/// or a URL that has no path to append to.
pub uninterp spec fn url_extended(base: Seq<char>, segments: Seq<Seq<char>>) -> Option<Seq<char>>;

/// The size of input up to which a URL is put together, as
/// [`input_size`] measures it. The `url` crate keeps its offsets in 32
/// bits. A character takes at most four bytes, escaping makes a byte at
/// most three, and every segment is written after one separator, an empty
/// segment too. So input within this limit stays below 4 GiB.
pub const URL_INPUT_LIMIT: usize = 0x0400_0000;

/// The size of the input to a URL: the characters of `base` and of all
/// `segments` together, and one more for every segment, which stands for
/// the separator written before it.
pub open spec fn input_size(base: Seq<char>, segments: Seq<Seq<char>>) -> nat
    decreases segments.len(),
{
    if segments.len() == 0 {
        base.len()
    } else {
        input_size(base, segments.drop_last()) + segments.last().len() + 1
    }
}

/// Calls `url::Url::parse` and hands out the serialization of the URL it
/// returns. Trusted: the result is what the crate makes of `input`, and
/// the same text always parses the same way.
#[verifier::external_body]
fn parse_url(input: &str) -> (parsed: Result<String, url::ParseError>)
    ensures
        match parsed {
            Ok(text) => url_parsed(input@) == Some(text@),
            Err(_) => url_parsed(input@) is None,
        },
{
    url::Url::parse(input).map(String::from)
}

/// Parses `base` with `url::Url::parse`, appends `segments` with
/// `url::PathSegmentsMut::extend` and hands out the serialization.
/// Trusted: the result depends on the texts alone. A URL without a path
/// (`path_segments_mut` fails) gives `SetHostOnCannotBeABaseUrl`. The
/// input is bounded, in its characters and in the number of its segments,
/// because the crate panics once the serialization outgrows 32-bit
/// offsets, and `extend` writes a separator for every segment.
#[verifier::external_body]
fn extend_url(base: &str, segments: &Vec<String>) -> (extended: Result<String, url::ParseError>)
    requires
        input_size(base@, texts(segments@)) <= URL_INPUT_LIMIT,
    ensures
        match extended {
            Ok(text) => url_extended(base@, texts(segments@)) == Some(text@),
            Err(_) => url_extended(base@, texts(segments@)) is None,
        },
{
    let mut url = url::Url::parse(base)?;
    url.path_segments_mut()
        .map_err(|_| url::ParseError::SetHostOnCannotBeABaseUrl)?
        .extend(segments);
    Ok(url.into())
}

/// Makes `url::ParseError::Overflow`, the `url` crate's error for a URL
/// that is too long for it. Trusted, and nothing is claimed of it: to the
/// verifier it is some error of that crate.
#[verifier::external_body]
fn overflow_error() -> (error: url::ParseError) {
    url::ParseError::Overflow
}

/// Why a remote operation failed.
#[derive(Debug, PartialEq, Eq)]
pub enum ApiError {
    /// The request did not complete. The text is the transport's account.
    Network(String),
    /// The response body was not the document expected. The text is the
    /// decoder's account.
    Json(String),
    /// No URL could be made for the request.
    Url(url::ParseError),
    /// The server answered with a status outside 200..=299. The snippet is
    /// the beginning of the response body, 200 characters at most.
    HttpStatus { status: u16, snippet: String },
}

/// The two request methods the interface uses.
#[derive(Clone, Copy, Debug, PartialEq, Eq, Structural)]
pub enum Method {
    Get,
    Post,
}

/// What a request carries besides its URL.
#[derive(Clone, Copy, Debug, PartialEq, Eq, Structural)]
pub enum Payload {
    /// Nothing.
    Empty,
    /// A JSON object with the one member `size`.
    Size(u64),
    /// A multipart body whose single part, named `file`, holds the bytes
    /// of a chunk as an octet stream.
    Part,
}

/// A request of the remote interface.
#[derive(Clone, Debug, PartialEq, Eq)]
pub struct Request {
    pub method: Method,
    pub url: String,
    pub payload: Payload,
}

/// The mathematical content of a [`Request`].
pub struct RequestView {
    pub method: Method,
    pub url: Seq<char>,
    pub payload: Payload,
}

impl View for Request {
    type V = RequestView;

    open spec fn view(&self) -> RequestView {
        RequestView { method: self.method, url: self.url@, payload: self.payload }
    }
}

/// The text that introduces the API key in a URL.
pub open spec fn key_mark() -> Seq<char> {
    "?t="@
}

/// The text that introduces the write position in a URL.
pub open spec fn position_mark() -> Seq<char> {
    "&pos="@
}

/// The decimal digit `digit`.
pub open spec fn digit_text(digit: nat) -> Seq<char> {
    if digit == 0 {
        "0"@
    } else if digit == 1 {
        "1"@
    } else if digit == 2 {
        "2"@
    } else if digit == 3 {
        "3"@
    } else if digit == 4 {
        "4"@
    } else if digit == 5 {
        "5"@
    } else if digit == 6 {
        "6"@
    } else if digit == 7 {
        "7"@
    } else if digit == 8 {
        "8"@
    } else {
        "9"@
    }
}

/// The decimal numeral of `number`, without sign or leading zeros.
pub open spec fn decimal_text(number: nat) -> Seq<char>
    decreases number,
{
    if number < 10 {
        digit_text(number)
    } else {
        decimal_text(number / 10) + digit_text(number % 10)
    }
}

/// Appends the decimal digit `digit` to `text`.
fn push_digit(text: &mut String, digit: u64)
    requires
        digit < 10,
    ensures
        final(text)@ == old(text)@ + digit_text(digit as nat),
{
    if digit == 0 {
        text.append("0");
    } else if digit == 1 {
        text.append("1");
    } else if digit == 2 {
        text.append("2");
    } else if digit == 3 {
        text.append("3");
    } else if digit == 4 {
        text.append("4");
    } else if digit == 5 {
        text.append("5");
    } else if digit == 6 {
        text.append("6");
    } else if digit == 7 {
        text.append("7");
    } else if digit == 8 {
        text.append("8");
    } else {
        text.append("9");
    }
}

/// The decimal numeral of `number`.
pub fn decimal(number: u64) -> (text: String)
    ensures
        text@ == decimal_text(number as nat),
    decreases number,
{
    if number < 10 {
        let mut text = String::new();
        push_digit(&mut text, number);
        assert(text@ =~= digit_text(number as nat));
        text
    } else {
        let mut text = decimal(number / 10);
        push_digit(&mut text, number % 10);
        text
    }
}

/// True of the status codes that mean success: 200 to 299.
pub open spec fn is_success(status: u16) -> bool {
    200 <= status < 300
}

/// The beginning of a response body that an error carries: its first 200
/// characters, or all of it where it is shorter.
pub open spec fn snippet_of(body: Seq<char>) -> Seq<char> {
    if body.len() <= 200 {
        body
    } else {
        body.take(200)
    }
}

/// Tells a response that succeeded from one that failed: a status from 200
/// to 299 passes; any other is an error that carries the status and the
/// beginning of the body.
pub fn check_status(status: u16, body: &str) -> (checked: Result<(), ApiError>)
    ensures
        is_success(status) ==> checked is Ok,
        !is_success(status) ==> (checked matches Err(ApiError::HttpStatus { status: code, snippet })
            && code == status && snippet@ == snippet_of(body@)),
{
    if 200 <= status && status < 300 {
        return Ok(());
    }
    let len: usize = body.unicode_len();
    let kept: usize = if len <= 200 {
        len
    } else {
        200
    };
    let snippet = String::from_str(body.substring_char(0, kept));
    assert(snippet@ =~= snippet_of(body@));
    Err(ApiError::HttpStatus { status, snippet })
}

/// The seconds after which a request is given up, unless set otherwise.
pub const REQUEST_TIMEOUT_SECS: u64 = 10;

/// The seconds after which an attempt to connect is given up, unless set
/// otherwise.
pub const CONNECT_TIMEOUT_SECS: u64 = 5;

/// The operation segment under which the directory at a path is listed.
pub const LIST_SEGMENT: &'static str = "list";

/// The operation segment under which the bytes of an object are asked
/// for. It is a path of its own, apart from the one that lists a
/// directory.
pub const DOWNLOAD_SEGMENT: &'static str = "download";

/// The first segment of every path that names a file operation.
pub open spec fn files_segment() -> Seq<char> {
    "files"@
}

/// The path segments of the sign-in request.
pub open spec fn auth_segments() -> Seq<Seq<char>> {
    seq!["auth"@]
}

/// The path segments of the request for the key's scopes.
pub open spec fn scopes_segments() -> Seq<Seq<char>> {
    seq!["auth"@, "scopes"@]
}

/// The path segments of a file operation: `files`, the operation's own
/// segment, and the remote path as one segment.
pub open spec fn file_segments(operation: Seq<char>, path: Seq<char>) -> Seq<Seq<char>> {
    seq![files_segment(), operation, path]
}

/// The download has a path of its own: whatever the remote path, the
/// segments of the request for an object's bytes are not those of the
/// request that lists a directory.
pub proof fn law_download_path_is_its_own(path: Seq<char>, other: Seq<char>)
    ensures
        DOWNLOAD_SEGMENT@ != LIST_SEGMENT@,
        file_segments(DOWNLOAD_SEGMENT@, path) != file_segments(LIST_SEGMENT@, other),
{
    reveal_strlit("download");
    reveal_strlit("list");
    assert(DOWNLOAD_SEGMENT@.len() == 8 && LIST_SEGMENT@.len() == 4);
    assert(file_segments(DOWNLOAD_SEGMENT@, path)[1] == DOWNLOAD_SEGMENT@);
    assert(file_segments(LIST_SEGMENT@, other)[1] == LIST_SEGMENT@);
}

/// The URL of a request: the URL that ends in the operation's path, then
/// the API key as the query parameter `t`, then, for a write, the
/// position as the parameter `pos`.
pub open spec fn request_url(
    extended: Seq<char>,
    api_key: Seq<char>,
    position: Option<u64>,
) -> Seq<char> {
    let keyed = extended + key_mark() + api_key;
    match position {
        None => keyed,
        Some(offset) => keyed + position_mark() + decimal_text(offset as nat),
    }
}

/// Makes a request of the URL that the `url` crate arrived at, or an error
/// of its refusal.
pub fn request_from(
    extended: Result<String, url::ParseError>,
    api_key: &str,
    method: Method,
    payload: Payload,
    position: Option<u64>,
) -> (request: Result<Request, ApiError>)
    ensures
        match extended {
            Ok(text) => request matches Ok(made) && made@ == (RequestView {
                method,
                url: request_url(text@, api_key@, position),
                payload,
            }),
            Err(refusal) => request matches Err(ApiError::Url(carried)) && carried == refusal,
        },
{
    match extended {
        Ok(text) => {
            let mut url = text;
            url.append("?t=");
            url.append(api_key);
            match position {
                None => {},
                Some(offset) => {
                    url.append("&pos=");
                    let numeral = decimal(offset);
                    url.append(numeral.as_str());
                },
            }
            Ok(Request { method, url, payload })
        },
        Err(refusal) => Err(ApiError::Url(refusal)),
    }
}

/// Fewer segments make for no larger input.
proof fn lemma_input_size_grows(base: Seq<char>, segments: Seq<Seq<char>>, count: int)
    requires
        0 <= count <= segments.len(),
    ensures
        input_size(base, segments.take(count)) <= input_size(base, segments),
    decreases segments.len(),
{
    if count < segments.len() {
        lemma_input_size_grows(base, segments.drop_last(), count);
        assert(segments.drop_last().take(count) =~= segments.take(count));
    } else {
        assert(segments.take(count) =~= segments);
    }
}

/// True when `base` and `segments` together are within the input limit.
fn within_limit(base: &str, segments: &Vec<String>) -> (within: bool)
    ensures
        within == (input_size(base@, texts(segments@)) <= URL_INPUT_LIMIT),
{
    let ghost all = texts(segments@);
    let base_len: usize = base.unicode_len();
    if base_len > URL_INPUT_LIMIT {
        proof {
            lemma_input_size_grows(base@, all, 0);
            assert(all.take(0) =~= Seq::<Seq<char>>::empty());
        }
        return false;
    }
    let mut total: usize = base_len;
    let mut i: usize = 0;
    assert(all.take(0) =~= Seq::<Seq<char>>::empty());
    while i < segments.len()
        invariant
            i <= segments.len(),
            all == texts(segments@),
            total == input_size(base@, all.take(i as int)),
            total <= URL_INPUT_LIMIT,
        decreases segments.len() - i,
    {
        let len: usize = segments[i].as_str().unicode_len();
        proof {
            assert(all.take(i + 1).drop_last() =~= all.take(i as int));
            assert(all.take(i + 1).last() == segments@[i as int]@);
        }
        if len >= URL_INPUT_LIMIT - total {
            proof {
                lemma_input_size_grows(base@, all, i + 1);
            }
            return false;
        }
        total = total + len + 1;
        i += 1;
    }
    assert(all.take(i as int) =~= all);
    true
}

/// What is needed to make the requests of one remote store: the URL it is
/// reached at, the key that every request carries, and the seconds after
/// which a request and an attempt to connect are given up.
#[derive(Clone, Debug, PartialEq, Eq)]
pub struct ApiClient {
    base: String,
    api_key: String,
    request_timeout: u64,
    connect_timeout: u64,
}

impl ApiClient {
    /// The URL of the store, as the `url` crate writes it.
    pub closed spec fn spec_base(&self) -> Seq<char> {
        self.base@
    }

    /// The API key.
    pub closed spec fn spec_api_key(&self) -> Seq<char> {
        self.api_key@
    }

    /// The seconds after which a request is given up.
    pub closed spec fn spec_request_timeout(&self) -> u64 {
        self.request_timeout
    }

    /// The seconds after which an attempt to connect is given up.
    pub closed spec fn spec_connect_timeout(&self) -> u64 {
        self.connect_timeout
    }

    /// The request for an operation with the path `segments`: none where
    /// the input is over the limit or the `url` crate cannot append to the
    /// store's URL.
    pub open spec fn spec_request(
        &self,
        segments: Seq<Seq<char>>,
        method: Method,
        payload: Payload,
        position: Option<u64>,
    ) -> Option<RequestView> {
        if input_size(self.spec_base(), segments) > URL_INPUT_LIMIT {
            None
        } else {
            match url_extended(self.spec_base(), segments) {
                Some(text) => Some(
                    RequestView {
                        method,
                        url: request_url(text, self.spec_api_key(), position),
                        payload,
                    },
                ),
                None => None,
            }
        }
    }

    /// True when `made` is the request, or the refusal, that
    /// [`Self::spec_request`] calls for.
    pub open spec fn answers(
        &self,
        made: Result<Request, ApiError>,
        segments: Seq<Seq<char>>,
        method: Method,
        payload: Payload,
        position: Option<u64>,
    ) -> bool {
        match made {
            Ok(request) => {
                self.spec_request(segments, method, payload, position) == Some(request@)
            },
            Err(error) => {
                error is Url && self.spec_request(segments, method, payload, position) is None
            },
        }
    }

    /// A client for the store whose URL was parsed to `parsed`, or an
    /// error where the text was no URL. The timeouts are the usual ones.
    pub fn from_parsed(
        parsed: Result<String, url::ParseError>,
        api_key: &str,
    ) -> (client: Result<ApiClient, ApiError>)
        ensures
            match parsed {
                Ok(text) => client matches Ok(made) && made.spec_base() == text@
                    && made.spec_api_key() == api_key@ && made.spec_request_timeout()
                    == REQUEST_TIMEOUT_SECS && made.spec_connect_timeout() == CONNECT_TIMEOUT_SECS,
                Err(refusal) => client matches Err(ApiError::Url(carried)) && carried == refusal,
            },
    {
        match parsed {
            Ok(base) => Ok(
                ApiClient {
                    base,
                    api_key: String::from_str(api_key),
                    request_timeout: REQUEST_TIMEOUT_SECS,
                    connect_timeout: CONNECT_TIMEOUT_SECS,
                },
            ),
            Err(refusal) => Err(ApiError::Url(refusal)),
        }
    }

    /// A client for the store at `base_url` with the key `api_key`, where
    /// `base_url` is a URL to the `url` crate.
    pub fn new(base_url: &str, api_key: &str) -> (client: Result<ApiClient, ApiError>)
        ensures
            match client {
                Ok(made) => url_parsed(base_url@) == Some(made.spec_base()) && made.spec_api_key()
                    == api_key@ && made.spec_request_timeout() == REQUEST_TIMEOUT_SECS
                    && made.spec_connect_timeout() == CONNECT_TIMEOUT_SECS,
                Err(error) => error is Url && url_parsed(base_url@) is None,
            },
    {
        ApiClient::from_parsed(parse_url(base_url), api_key)
    }

    /// The same client with other timeouts.
    pub fn with_timeouts(self, request_secs: u64, connect_secs: u64) -> (client: ApiClient)
        ensures
            client.spec_base() == self.spec_base(),
            client.spec_api_key() == self.spec_api_key(),
            client.spec_request_timeout() == request_secs,
            client.spec_connect_timeout() == connect_secs,
    {
        ApiClient {
            base: self.base,
            api_key: self.api_key,
            request_timeout: request_secs,
            connect_timeout: connect_secs,
        }
    }

    /// The URL of the store, as the `url` crate writes it.
    pub fn base(&self) -> (base: &str)
        ensures
            base@ == self.spec_base(),
    {
        self.base.as_str()
    }

    /// The API key.
    pub fn api_key(&self) -> (key: &str)
        ensures
            key@ == self.spec_api_key(),
    {
        self.api_key.as_str()
    }

    /// The seconds after which a request is given up.
    pub fn request_timeout_secs(&self) -> (secs: u64)
        ensures
            secs == self.spec_request_timeout(),
    {
        self.request_timeout
    }

    /// The seconds after which an attempt to connect is given up.
    pub fn connect_timeout_secs(&self) -> (secs: u64)
        ensures
            secs == self.spec_connect_timeout(),
    {
        self.connect_timeout
    }

    /// The request whose path ends in `segments`.
    fn request(
        &self,
        segments: &Vec<String>,
        method: Method,
        payload: Payload,
        position: Option<u64>,
    ) -> (made: Result<Request, ApiError>)
        ensures
            self.answers(made, texts(segments@), method, payload, position),
    {
        if !within_limit(self.base.as_str(), segments) {
            return Err(ApiError::Url(overflow_error()));
        }
        let extended = extend_url(self.base.as_str(), segments);
        request_from(extended, self.api_key.as_str(), method, payload, position)
    }

    /// The request of a file operation on the remote path `path`.
    fn file_request(
        &self,
        operation: &str,
        path: &str,
        method: Method,
        payload: Payload,
        position: Option<u64>,
    ) -> (made: Result<Request, ApiError>)
        ensures
            self.answers(made, file_segments(operation@, path@), method, payload, position),
    {
        let mut segments: Vec<String> = Vec::new();
        segments.push(String::from_str("files"));
        segments.push(String::from_str(operation));
        segments.push(String::from_str(path));
        assert(texts(segments@) =~= file_segments(operation@, path@));
        self.request(&segments, method, payload, position)
    }

    /// The sign-in request: `GET /auth`.
    pub fn auth(&self) -> (made: Result<Request, ApiError>)
        ensures
            self.answers(made, auth_segments(), Method::Get, Payload::Empty, None),
    {
        let mut segments: Vec<String> = Vec::new();
        segments.push(String::from_str("auth"));
        assert(texts(segments@) =~= auth_segments());
        self.request(&segments, Method::Get, Payload::Empty, None)
    }

    /// The request for the scopes of the key: `GET /auth/scopes`.
    pub fn get_scopes(&self) -> (made: Result<Request, ApiError>)
        ensures
            self.answers(made, scopes_segments(), Method::Get, Payload::Empty, None),
    {
        let mut segments: Vec<String> = Vec::new();
        segments.push(String::from_str("auth"));
        segments.push(String::from_str("scopes"));
        assert(texts(segments@) =~= scopes_segments());
        self.request(&segments, Method::Get, Payload::Empty, None)
    }

    /// The request for the properties of a remote path:
    /// `GET /files/properties/{path}`.
    pub fn get_file_properties(&self, path: &str) -> (made: Result<Request, ApiError>)
        ensures
            self.answers(
                made,
                file_segments("properties"@, path@),
                Method::Get,
                Payload::Empty,
                None,
            ),
    {
        self.file_request("properties", path, Method::Get, Payload::Empty, None)
    }

    /// The request for the entries of a remote directory:
    /// `GET /files/list/{path}`.
    pub fn get_files_list(&self, path: &str) -> (made: Result<Request, ApiError>)
        ensures
            self.answers(
                made,
                file_segments(LIST_SEGMENT@, path@),
                Method::Get,
                Payload::Empty,
                None,
            ),
    {
        self.file_request(LIST_SEGMENT, path, Method::Get, Payload::Empty, None)
    }

    /// The request for the bytes of a remote object:
    /// `GET /files/download/{path}`.
    pub fn get_file(&self, path: &str) -> (made: Result<Request, ApiError>)
        ensures
            self.answers(
                made,
                file_segments(DOWNLOAD_SEGMENT@, path@),
                Method::Get,
                Payload::Empty,
                None,
            ),
    {
        self.file_request(DOWNLOAD_SEGMENT, path, Method::Get, Payload::Empty, None)
    }

    /// The request that asks whether a remote path exists:
    /// `GET /files/exists/{path}`.
    pub fn get_exists(&self, path: &str) -> (made: Result<Request, ApiError>)
        ensures
            self.answers(made, file_segments("exists"@, path@), Method::Get, Payload::Empty, None),
    {
        self.file_request("exists", path, Method::Get, Payload::Empty, None)
    }

    /// The request that creates a remote folder:
    /// `POST /files/folder/{path}`.
    pub fn create_folder(&self, path: &str) -> (made: Result<Request, ApiError>)
        ensures
            self.answers(made, file_segments("folder"@, path@), Method::Post, Payload::Empty, None),
    {
        self.file_request("folder", path, Method::Post, Payload::Empty, None)
    }

    /// The request that declares a remote object of `size` bytes:
    /// `POST /files/initialize/{path}` with the size as its body.
    pub fn initialize_file(&self, path: &str, size: u64) -> (made: Result<Request, ApiError>)
        ensures
            self.answers(
                made,
                file_segments("initialize"@, path@),
                Method::Post,
                Payload::Size(size),
                None,
            ),
    {
        self.file_request("initialize", path, Method::Post, Payload::Size(size), None)
    }

    /// The request that writes a chunk into a remote object from the byte
    /// `offset` on: `POST /files/write/{path}` with `pos` set to `offset`
    /// and the chunk as its body.
    pub fn write_chunk(&self, path: &str, offset: u64) -> (made: Result<Request, ApiError>)
        ensures
            self.answers(
                made,
                file_segments("write"@, path@),
                Method::Post,
                Payload::Part,
                Some(offset),
            ),
    {
        self.file_request("write", path, Method::Post, Payload::Part, Some(offset))
    }
}

} // verus!
