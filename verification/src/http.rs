//! The HTTP side of the server: websocket upgrades and the files of the web interface.
use crate::address::Endpoint;
use crate::digest;
use crate::text;
use hyper::header::HeaderValue;
use vstd::prelude::*;

verus! {

/// Whether a byte of a header value is visible ASCII, a space or a tab.
pub open spec fn is_readable(b: u8) -> bool {
    32 <= b < 127 || b == 9
}

/// A header value as text: each byte as one character, if every byte is readable.
pub open spec fn readable(value: Seq<u8>) -> Option<Seq<char>> {
    if forall|i: int| 0 <= i < value.len() ==> is_readable(#[trigger] value[i]) {
        Some(value.map_values(|b: u8| b as char))
    } else {
        None
    }
}

/// `hyper::header::HeaderValue::to_str`, of the header value made of `value`. The contract
/// claims that the value reads as text exactly if all its bytes are visible ASCII, spaces or
/// tabs, and that the text then has one character for each byte. Bytes that no header value
/// can hold are not readable either, so they give `None` as well.
#[verifier::external_body]
fn header_text(value: &[u8]) -> (text: Option<String>)
    ensures
        match text {
            Some(t) => readable(value@) == Some(t@),
            None => readable(value@) is None,
        },
{
    let value = HeaderValue::from_bytes(value).ok()?;
    value.to_str().ok().map(String::from)
}

/// Whether a header is there and reads `word`, whatever the case of its letters.
pub open spec fn header_is(value: Option<Seq<u8>>, word: Seq<char>) -> bool {
    match value {
        Some(bytes) => match readable(bytes) {
            Some(t) => text::lowercase(t) == word,
            None => false,
        },
        None => false,
    }
}

/// The bytes of a header that may be missing.
pub open spec fn header_bytes(value: Option<Vec<u8>>) -> Option<Seq<u8>> {
    match value {
        Some(bytes) => Some(bytes@),
        None => None,
    }
}

fn header_reads(value: &Option<Vec<u8>>, word: &str) -> (same: bool)
    ensures
        same == header_is(header_bytes(*value), word@),
{
    match value {
        Some(bytes) => match header_text(bytes.as_slice()) {
            Some(t) => {
                assert(t.is_ascii());
                text::lowercase_is(t.as_str(), word)
            },
            None => false,
        },
        None => false,
    }
}

/// What the server reads of a request: three headers as raw bytes, and the path.
#[derive(Debug)]
pub struct Request {
    pub connection: Option<Vec<u8>>,
    pub upgrade: Option<Vec<u8>>,
    pub sec_websocket_key: Option<Vec<u8>>,
    pub path: String,
}

impl Request {
    /// Whether the request asks for a websocket.
    pub open spec fn asks_for_websocket(self) -> bool {
        header_is(header_bytes(self.connection), "upgrade"@) && header_is(
            header_bytes(self.upgrade),
            "websocket"@,
        )
    }

    /// Whether the request asks for a websocket: its `connection` header reads `upgrade` and
    /// its `upgrade` header reads `websocket`, in any letter case.
    pub fn is_upgrade(&self) -> (upgrade: bool)
        ensures
            upgrade == self.asks_for_websocket(),
            upgrade <==> {
                &&& self.connection matches Some(c)
                &&& c@.len() == "upgrade"@.len()
                &&& forall|i: int|
                    0 <= i < c@.len() ==> (#[trigger] c@[i]) as char == "upgrade"@[i] || c@[i] as char
                        == "UPGRADE"@[i]
                &&& self.upgrade matches Some(u)
                &&& u@.len() == "websocket"@.len()
                &&& forall|i: int|
                    0 <= i < u@.len() ==> (#[trigger] u@[i]) as char == "websocket"@[i] || u@[i] as char
                        == "WEBSOCKET"@[i]
            },
    {
        proof {
            an_upgrade_is_spelled_out(*self);
        }
        header_reads(&self.connection, "upgrade") && header_reads(&self.upgrade, "websocket")
    }
}

/// The bytes that a websocket key is hashed with.
pub open spec fn websocket_guid() -> Seq<u8> {
    "258EAFA5-E914-47DA-95CA-C5AB0DC85B11"@.map_values(|c: char| c as u8)
}

/// The longest websocket key that can be hashed together with the fixed bytes.
pub const WEBSOCKET_KEY_LIMIT: u64 = 0x1FFF_FFFF_FFFF_FFDB;

/// The answer to a websocket key: the Base64 text of the SHA-1 digest of the key and the
/// fixed bytes after it.
pub open spec fn accept_key(request_key: Seq<u8>) -> Seq<char> {
    digest::base64_text(digest::sha1_of(request_key + websocket_guid()))
}

/// The Base64 text of a digest, as it stands in a header.
pub fn accept_text(sum: &[u8; 20]) -> (accept: String)
    ensures
        accept@ == digest::base64_text(sum@),
        accept@.len() == 28,
        accept@[27] == '=',
        forall|i: int| 0 <= i < 27 ==> digest::is_base64_digit(#[trigger] accept@[i]),
{
    let accept = digest::base64_encode(sum.as_slice());
    proof {
        digest::base64_of_twenty_bytes(sum@);
    }
    accept
}

/// Derives the `sec-websocket-accept` header of an upgrade from the key of the request.
pub fn derive_accept_key(request_key: &[u8]) -> (key: String)
    requires
        request_key@.len() <= WEBSOCKET_KEY_LIMIT,
    ensures
        key@ == accept_key(request_key@),
        key@ == digest::base64_text(digest::sha1_of(request_key@ + websocket_guid())),
        key@ == digest::base64_text(
            digest::sha1_of(request_key@ + "258EAFA5-E914-47DA-95CA-C5AB0DC85B11"@.map_values(|c: char| c as u8)),
        ),
        digest::sha1_of(request_key@ + websocket_guid()).len() == 20,
        key@.len() == 28,
        key@[27] == '=',
        forall|i: int| 0 <= i < 27 ==> digest::is_base64_digit(#[trigger] key@[i]),
{
    let guid = "258EAFA5-E914-47DA-95CA-C5AB0DC85B11";
    proof {
        reveal_strlit("258EAFA5-E914-47DA-95CA-C5AB0DC85B11");
        vstd::string::is_ascii_spec_bytes(guid);
    }
    let mut message: Vec<u8> = Vec::new();
    message.extend_from_slice(request_key);
    message.extend_from_slice(guid.as_bytes());
    assert(message@ =~= request_key@ + websocket_guid());
    let sum = digest::sha1_digest(message.as_slice());
    accept_text(&sum)
}

/// A response: its status, its headers in order, and its body.
#[derive(Debug)]
pub struct Response {
    pub status: u16,
    pub headers: Vec<(String, String)>,
    pub body: Vec<u8>,
}

/// What a response says.
#[verifier::ext_equal]
pub struct ResponseView {
    pub status: u16,
    pub headers: Seq<(Seq<char>, Seq<char>)>,
    pub body: Seq<u8>,
}

impl View for Response {
    type V = ResponseView;

    open spec fn view(&self) -> ResponseView {
        ResponseView {
            status: self.status,
            headers: self.headers@.map_values(|h: (String, String)| (h.0@, h.1@)),
            body: self.body@,
        }
    }
}

/// The header that names the server; every response starts with it.
pub open spec fn server_header() -> (Seq<char>, Seq<char>) {
    ("server"@, "DTAN"@)
}

/// The answer to a websocket upgrade, with the answer to its key.
pub open spec fn upgrade_response(accept: Seq<char>) -> ResponseView {
    ResponseView {
        status: 101,
        headers: seq![
            server_header(),
            ("connection"@, "upgrade"@),
            ("upgrade"@, "websocket"@),
            ("sec-websocket-accept"@, accept),
        ],
        body: seq![],
    }
}

/// The answer where there is no file to send.
pub open spec fn not_found_response() -> ResponseView {
    ResponseView { status: 404, headers: seq![server_header()], body: seq![] }
}

/// The answer with a file.
pub open spec fn file_response(extension: Option<Seq<char>>, data: Seq<u8>) -> ResponseView {
    ResponseView {
        status: 200,
        headers: seq![server_header(), ("content-type"@, content_type_of(extension))],
        body: data,
    }
}

/// The content type of a file, by its extension.
pub open spec fn content_type_of(extension: Option<Seq<char>>) -> Seq<char> {
    if extension == Some("css"@) {
        "text/css"@
    } else if extension == Some("html"@) {
        "text/html"@
    } else if extension == Some("js"@) {
        "text/javascript"@
    } else {
        "application/octet-stream"@
    }
}

/// The text of an extension that may be missing.
pub open spec fn extension_text(extension: Option<String>) -> Option<Seq<char>> {
    match extension {
        Some(e) => Some(e@),
        None => None,
    }
}

/// `path` without the separators and the `.` components at its end.
pub open spec fn trimmed(path: Seq<char>) -> Seq<char>
    decreases path.len(),
{
    if path.len() > 0 && path.last() == '/' {
        trimmed(path.drop_last())
    } else if path.len() > 1 && path.last() == '.' && path[path.len() - 2] == '/' {
        trimmed(path.drop_last())
    } else {
        path
    }
}

/// The last index of `c` in `s`, or -1.
pub open spec fn last_index(s: Seq<char>, c: char) -> int
    decreases s.len(),
{
    if s.len() == 0 {
        -1
    } else if s.last() == c {
        s.len() - 1
    } else {
        last_index(s.drop_last(), c)
    }
}

/// The last component of `path`, if it is the name of a file: it is not empty, and it is not
/// `.` or `..`.
pub open spec fn file_name_of(path: Seq<char>) -> Option<Seq<char>> {
    let name = trimmed(path).skip(last_index(trimmed(path), '/') + 1);
    if name.len() == 0 || name == seq!['.'] || name == seq!['.', '.'] {
        None
    } else {
        Some(name)
    }
}

/// The extension of a file: what follows the last dot of its name, unless that is its first
/// character.
pub open spec fn extension_of(path: Seq<char>) -> Option<Seq<char>> {
    match file_name_of(path) {
        Some(name) => if last_index(name, '.') > 0 {
            Some(name.skip(last_index(name, '.') + 1))
        } else {
            None
        },
        None => None,
    }
}

/// The last index of `c` in `chars` from `start` on and before `end`, plus one, or `start`.
fn after_last(chars: &Vec<char>, start: usize, end: usize, c: char) -> (after: usize)
    requires
        start <= end <= chars@.len(),
    ensures
        start <= after <= end,
        after == start + last_index(chars@.subrange(start as int, end as int), c) + 1,
{
    let mut i: usize = end;
    while i > start
        invariant
            start <= i <= end <= chars@.len(),
            last_index(chars@.subrange(start as int, end as int), c) == last_index(
                chars@.subrange(start as int, i as int),
                c,
            ),
        decreases i,
    {
        if chars[i - 1] == c {
            return i;
        }
        assert(chars@.subrange(start as int, i as int).drop_last() =~= chars@.subrange(start as int, i - 1));
        i -= 1;
    }
    i
}

/// A part of `text`, from the character at `start` up to the one at `end`.
fn part(text: &str, start: usize, end: usize) -> (out: String)
    requires
        start <= end <= text@.len(),
    ensures
        out@ == text@.subrange(start as int, end as int),
{
    text.substring_char(start, end).to_owned()
}

/// The extension of a file, by its path: what follows the last dot of the last component,
/// unless the name has no other dot than one at its start.
pub fn file_extension(path: &str) -> (extension: Option<String>)
    ensures
        extension_text(extension) == extension_of(path@),
        match extension {
            Some(e) => extension_of(path@) == Some(e@),
            None => extension_of(path@) is None,
        },
{
    let chars = text::chars_of(path);
    let mut end: usize = chars.len();
    assert(path@.subrange(0, end as int) =~= path@);
    while end > 0 && (chars[end - 1] == '/' || (end > 1 && chars[end - 1] == '.' && chars[end - 2] == '/'))
        invariant
            chars@ == path@,
            end <= chars@.len(),
            trimmed(path@) == trimmed(path@.subrange(0, end as int)),
        decreases end,
    {
        assert(path@.subrange(0, end as int).drop_last() =~= path@.subrange(0, end - 1));
        end -= 1;
    }
    let ghost rest = path@.subrange(0, end as int);
    assert(trimmed(path@) == rest);
    let start: usize = after_last(&chars, 0, end, '/');
    let ghost name = rest.skip(last_index(rest, '/') + 1);
    assert(name =~= path@.subrange(start as int, end as int));
    let dot = end - start == 1 && chars[start] == '.';
    let dots = end - start == 2 && chars[start] == '.' && chars[start + 1] == '.';
    proof {
        assert(dot ==> name =~= seq!['.']);
        assert(dots ==> name =~= seq!['.', '.']);
        if name == seq!['.'] {
            assert(name[0] == '.');
        }
        if name == seq!['.', '.'] {
            assert(name[0] == '.' && name[1] == '.');
        }
    }
    if start == end || dot || dots {
        return None;
    }
    let after: usize = after_last(&chars, start, end, '.');
    if after > start + 1 {
        assert(name.skip(last_index(name, '.') + 1) =~= path@.subrange(after as int, end as int));
        Some(part(path, after, end))
    } else {
        None
    }
}

/// The content type of a file, by its extension.
pub fn content_type(extension: &Option<String>) -> (name: &'static str)
    ensures
        name@ == content_type_of(extension_text(*extension)),
        extension matches Some(e) && e@ == "css"@ ==> name@ == "text/css"@,
        extension matches Some(e) && e@ == "html"@ ==> name@ == "text/html"@,
        extension matches Some(e) && e@ == "js"@ ==> name@ == "text/javascript"@,
        extension matches Some(e) && e@ != "css"@ && e@ != "html"@ && e@ != "js"@ ==> name@
            == "application/octet-stream"@,
        extension is None ==> name@ == "application/octet-stream"@,
{
    proof {
        extensions_are_distinct();
    }
    match extension {
        Some(e) => {
            if text::same(e.as_str(), "css") {
                "text/css"
            } else if text::same(e.as_str(), "html") {
                "text/html"
            } else if text::same(e.as_str(), "js") {
                "text/javascript"
            } else {
                "application/octet-stream"
            }
        },
        None => "application/octet-stream",
    }
}

fn header(name: &str, value: &str) -> (h: (String, String))
    ensures
        h.0@ == name@,
        h.1@ == value@,
{
    (name.to_owned(), value.to_owned())
}

/// The path of a file below the directory of the web interface, for the path of a request:
/// what follows its first character, or `index.html` for the root.
pub open spec fn file_path(path: Seq<char>) -> Seq<char> {
    if path == "/"@ {
        "index.html"@
    } else {
        path.skip(1)
    }
}

/// The path of a file below a directory. A path that starts with a separator stands for
/// itself.
pub open spec fn joined(dir: Seq<char>, path: Seq<char>) -> Seq<char> {
    if path.len() > 0 && path[0] == '/' {
        path
    } else if dir.len() == 0 || dir.last() == '/' {
        dir + path
    } else {
        dir + "/"@ + path
    }
}

/// The path of a file below a directory.
pub fn file_below(dir: &str, path: &str) -> (file: String)
    ensures
        file@ == joined(dir@, path@),
        path@.len() > 0 && path@[0] == '/' ==> file@ == path@,
        !(path@.len() > 0 && path@[0] == '/') && (dir@.len() == 0 || dir@.last() == '/') ==> file@ == dir@ + path@,
        !(path@.len() > 0 && path@[0] == '/') && dir@.len() > 0 && dir@.last() != '/' ==> file@ == dir@ + "/"@ + path@,
{
    let dir_len: usize = dir.unicode_len();
    if path.unicode_len() > 0 && path.get_char(0) == '/' {
        return path.to_owned();
    }
    let mut file: String = dir.to_owned();
    if dir_len > 0 && dir.get_char(dir_len - 1) != '/' {
        file.append("/");
    }
    file.append(path);
    file
}

/// What the server does about a request.
#[derive(Debug)]
pub enum Reply {
    /// Send the response and serve a websocket to the remote side on the same connection.
    Upgrade { response: Response, remote: Endpoint },
    /// Look a file up, and answer by what is there.
    Serve { file: String },
}

/// What was found at the path of a file.
#[derive(Debug)]
pub enum Lookup {
    /// Nothing is there.
    Missing,
    /// Something is there that could not be read.
    Unreadable,
    /// A file, with its contents.
    Found(Vec<u8>),
}

/// The answer to what was found at the path of a file.
pub open spec fn lookup_response(path: Seq<char>, found: Lookup) -> ResponseView {
    match found {
        Lookup::Missing => not_found_response(),
        Lookup::Unreadable => not_found_response(),
        Lookup::Found(data) => file_response(extension_of(path), data@),
    }
}

/// Serves one connection: upgrades it to a websocket or sends files of the web interface.
#[derive(Debug)]
pub struct HttpServer {
    /// The remote side of the connection.
    pub remote: Endpoint,
    /// The directory of the web interface.
    pub ui_dir: String,
}

impl HttpServer {
    pub fn new(remote: Endpoint, ui_dir: String) -> (server: Self)
        ensures
            server.remote == remote,
            server.ui_dir == ui_dir,
    {
        HttpServer { remote, ui_dir }
    }

    /// Whether `call` has an answer to the request: an upgrade needs a key, and any other
    /// request a path that starts with an ASCII character.
    pub open spec fn answers(req: Request) -> bool {
        if req.asks_for_websocket() {
            req.sec_websocket_key matches Some(key) && key@.len() <= WEBSOCKET_KEY_LIMIT
        } else {
            req.path@.len() > 0 && (req.path@[0] as u32) < 128
        }
    }

    /// Decides about a request: a websocket upgrade is answered at once, and for any other
    /// request the file that its path names is to be looked up.
    pub fn call(&self, req: &Request) -> (reply: Reply)
        requires
            Self::answers(*req),
        ensures
            req.asks_for_websocket() ==> {
                &&& reply matches Reply::Upgrade { response, remote }
                &&& response@ == upgrade_response(accept_key(req.sec_websocket_key->0@))
                &&& remote == self.remote
                &&& response.status == 101
                &&& response.body@.len() == 0
                &&& response.headers@.len() == 4
                &&& response.headers@[0].0@ == "server"@ && response.headers@[0].1@ == "DTAN"@
                &&& response.headers@[1].0@ == "connection"@ && response.headers@[1].1@ == "upgrade"@
                &&& response.headers@[2].0@ == "upgrade"@ && response.headers@[2].1@ == "websocket"@
                &&& response.headers@[3].0@ == "sec-websocket-accept"@
                &&& response.headers@[3].1@ == digest::base64_text(
                    digest::sha1_of(
                        req.sec_websocket_key->0@ + "258EAFA5-E914-47DA-95CA-C5AB0DC85B11"@.map_values(
                            |c: char| c as u8,
                        ),
                    ),
                )
                &&& response.headers@[3].1@ == digest::base64_text(
                    digest::sha1_of(req.sec_websocket_key->0@ + websocket_guid()),
                )
            },
            !req.asks_for_websocket() ==> {
                &&& reply matches Reply::Serve { file }
                &&& file@ == joined(self.ui_dir@, file_path(req.path@))
            },
            !req.asks_for_websocket() && req.path@ == "/"@ ==> {
                &&& reply matches Reply::Serve { file }
                &&& file@ == joined(self.ui_dir@, "index.html"@)
            },
            !req.asks_for_websocket() && req.path@ != "/"@ ==> {
                &&& reply matches Reply::Serve { file }
                &&& file@ == joined(self.ui_dir@, req.path@.subrange(1, req.path@.len() as int))
            },
    {
        if req.is_upgrade() {
            if let Some(key) = &req.sec_websocket_key {
                let accept = derive_accept_key(key.as_slice());
                let response = Self::upgrade(accept.as_str());
                return Reply::Upgrade { response, remote: self.remote };
            }
        }
        let path = if text::same(req.path.as_str(), "/") {
            "index.html".to_owned()
        } else {
            let len: usize = req.path.as_str().unicode_len();
            req.path.as_str().substring_char(1, len).to_owned()
        };
        assert(path@ =~= file_path(req.path@));
        Reply::Serve { file: file_below(self.ui_dir.as_str(), path.as_str()) }
    }

    /// Answers a websocket upgrade, with the answer to its key.
    pub fn upgrade(accept: &str) -> (response: Response)
        ensures
            response@ == upgrade_response(accept@),
            ({
                &&& response.status == 101
                &&& response.body@.len() == 0
                &&& response.headers@.len() == 4
                &&& response.headers@[0].0@ == "server"@ && response.headers@[0].1@ == "DTAN"@
                &&& response.headers@[1].0@ == "connection"@ && response.headers@[1].1@ == "upgrade"@
                &&& response.headers@[2].0@ == "upgrade"@ && response.headers@[2].1@ == "websocket"@
                &&& response.headers@[3].0@ == "sec-websocket-accept"@
                &&& response.headers@[3].1@ == accept@
            }),
    {
        let mut headers: Vec<(String, String)> = Vec::new();
        headers.push(header("server", "DTAN"));
        headers.push(header("connection", "upgrade"));
        headers.push(header("upgrade", "websocket"));
        headers.push(header("sec-websocket-accept", accept));
        let response = Response { status: 101, headers, body: Vec::new() };
        assert(response@ =~= upgrade_response(accept@));
        response
    }

    /// Answers a request for a file by its path and by what was found there.
    pub fn respond(path: &str, found: Lookup) -> (response: Response)
        ensures
            response@ == lookup_response(path@, found),
            response.headers@.len() > 0,
            response.headers@[0].0@ == "server"@,
            response.headers@[0].1@ == "DTAN"@,
            found matches Lookup::Found(data) ==> {
                &&& response.status == 200
                &&& response.body@ == data@
                &&& response.headers@.len() == 2
                &&& response.headers@[1].0@ == "content-type"@
                &&& response.headers@[1].1@ == (if extension_of(path@) == Some("css"@) {
                    "text/css"@
                } else if extension_of(path@) == Some("html"@) {
                    "text/html"@
                } else if extension_of(path@) == Some("js"@) {
                    "text/javascript"@
                } else {
                    "application/octet-stream"@
                })
            },
            !(found is Found) ==> response.status == 404 && response.body@.len() == 0 && response.headers@.len() == 1,
    {
        let mut headers: Vec<(String, String)> = Vec::new();
        headers.push(header("server", "DTAN"));
        match found {
            Lookup::Found(data) => {
                let extension = file_extension(path);
                headers.push(header("content-type", content_type(&extension)));
                let response = Response { status: 200, headers, body: data };
                assert(response@ =~= file_response(extension_of(path@), data@));
                response
            },
            _ => {
                let response = Response { status: 404, headers, body: Vec::new() };
                assert(response@ =~= not_found_response());
                response
            },
        }
    }
}

proof fn extensions_are_distinct()
    ensures
        "css"@ != "html"@,
        "css"@ != "js"@,
        "html"@ != "js"@,
{
    reveal_strlit("css");
    reveal_strlit("html");
    reveal_strlit("js");
    assert("css"@.len() == 3 && "html"@.len() == 4 && "js"@.len() == 2);
}

/// A header reads a word of lower-case letters exactly if each of its bytes is the letter at
/// its place or that letter's capital.
pub proof fn a_word_in_either_case(bytes: Seq<u8>, word: Seq<char>, capitals: Seq<char>)
    requires
        word.len() == capitals.len(),
        forall|i: int| 0 <= i < word.len() ==> 'a' <= #[trigger] word[i] <= 'z',
        forall|i: int| 0 <= i < word.len() ==> #[trigger] capitals[i] as int + 32 == word[i] as int,
    ensures
        header_is(Some(bytes), word) <==> bytes.len() == word.len() && forall|i: int|
            0 <= i < bytes.len() ==> (#[trigger] bytes[i]) as char == word[i] || bytes[i] as char == capitals[i],
{
    let chars = bytes.map_values(|b: u8| b as char);
    let lower = text::lowercase(chars);
    if header_is(Some(bytes), word) {
        assert(lower == word);
        assert forall|i: int| 0 <= i < bytes.len() implies (#[trigger] bytes[i]) as char == word[i] || bytes[i] as char
            == capitals[i] by {
            assert(lower[i] == text::ascii_lower(chars[i]));
            assert(capitals[i] as int + 32 == word[i] as int);
        }
    }
    if bytes.len() == word.len() && forall|i: int|
        0 <= i < bytes.len() ==> (#[trigger] bytes[i]) as char == word[i] || bytes[i] as char == capitals[i] {
        assert forall|i: int| 0 <= i < bytes.len() implies is_readable(#[trigger] bytes[i]) && lower[i] == word[i] by {
            assert('a' <= word[i] <= 'z');
            assert(capitals[i] as int + 32 == word[i] as int);
        }
        assert(lower =~= word);
    }
}

/// A request asks for a websocket exactly if its two headers spell `upgrade` and `websocket`,
/// each letter in either case.
pub proof fn an_upgrade_is_spelled_out(req: Request)
    ensures
        req.asks_for_websocket() <==> {
            &&& req.connection matches Some(c)
            &&& c@.len() == "upgrade"@.len()
            &&& forall|i: int|
                0 <= i < c@.len() ==> (#[trigger] c@[i]) as char == "upgrade"@[i] || c@[i] as char == "UPGRADE"@[i]
            &&& req.upgrade matches Some(u)
            &&& u@.len() == "websocket"@.len()
            &&& forall|i: int|
                0 <= i < u@.len() ==> (#[trigger] u@[i]) as char == "websocket"@[i] || u@[i] as char
                    == "WEBSOCKET"@[i]
        },
{
    reveal_strlit("upgrade");
    reveal_strlit("UPGRADE");
    reveal_strlit("websocket");
    reveal_strlit("WEBSOCKET");
    if let Some(c) = req.connection {
        a_word_in_either_case(c@, "upgrade"@, "UPGRADE"@);
    }
    if let Some(u) = req.upgrade {
        a_word_in_either_case(u@, "websocket"@, "WEBSOCKET"@);
    }
}

/// Every request has an answer but an upgrade without a key, or with one too long to be hashed
/// together with the 36 fixed bytes, and another request whose path is empty or starts with a
/// character that is not ASCII.
pub proof fn requests_have_answers(req: Request)
    ensures
        req.asks_for_websocket() ==> (HttpServer::answers(req) <==> (req.sec_websocket_key matches Some(key)
            && key@.len() + 36 < 0x2000_0000_0000_0000)),
        !req.asks_for_websocket() ==> (HttpServer::answers(req) <==> req.path@.len() > 0 && (req.path@[0] as u32) < 128),
        websocket_guid().len() == 36,
        digest::SHA1_INPUT_LIMIT == 0x2000_0000_0000_0000,
{
    reveal_strlit("258EAFA5-E914-47DA-95CA-C5AB0DC85B11");
}

/// A websocket key is hashed as it is, with the fixed bytes after it and nothing between.
pub proof fn a_key_is_hashed_as_it_is(request_key: Seq<u8>)
    ensures
        accept_key(request_key) == digest::base64_text(
            digest::sha1_of(request_key + "258EAFA5-E914-47DA-95CA-C5AB0DC85B11"@.map_values(|c: char| c as u8)),
        ),
        upgrade_response(accept_key(request_key)).headers[3] == (
            "sec-websocket-accept"@,
            digest::base64_text(
                digest::sha1_of(request_key + "258EAFA5-E914-47DA-95CA-C5AB0DC85B11"@.map_values(|c: char| c as u8)),
            ),
        ),
{
}

/// A file that was found is sent whole: the body is its contents, whatever its path and its
/// length. So two answers to the same path are the same exactly if the contents are.
pub proof fn a_file_is_sent_whole(path: Seq<char>, data: Vec<u8>, other: Vec<u8>)
    ensures
        lookup_response(path, Lookup::Found(data)).body == data@,
        lookup_response(path, Lookup::Found(data)).status == 200,
        lookup_response(path, Lookup::Found(data)) == lookup_response(path, Lookup::Found(other)) <==> data@ == other@,
{
    let x = lookup_response(path, Lookup::Found(data));
    let y = lookup_response(path, Lookup::Found(other));
    if x == y {
        assert(x.body == y.body);
    }
}

/// Where there is nothing to send, the answer says so and has no body and no content type.
pub proof fn nothing_is_sent_of_nothing(path: Seq<char>)
    ensures
        lookup_response(path, Lookup::Missing).status == 404,
        lookup_response(path, Lookup::Missing).body.len() == 0,
        lookup_response(path, Lookup::Missing).headers == seq![("server"@, "DTAN"@)],
        lookup_response(path, Lookup::Unreadable) == lookup_response(path, Lookup::Missing),
{
}

/// A path that does not start with a separator is looked up below the directory: the
/// directory stands first, the path last, and between them one separator if the directory is
/// not empty and has none at its end.
pub proof fn a_path_is_looked_up_below_the_directory(dir: Seq<char>, path: Seq<char>)
    requires
        path.len() == 0 || path[0] != '/',
    ensures
        ({
            let file = joined(dir, path);
            let gap: int = if dir.len() > 0 && dir.last() != '/' {
                1
            } else {
                0
            };
            &&& file.len() == dir.len() + gap + path.len()
            &&& file.subrange(0, dir.len() as int) == dir
            &&& file.subrange(dir.len() + gap, file.len() as int) == path
            &&& gap == 1 ==> file[dir.len() as int] == '/'
        }),
{
    reveal_strlit("/");
    let file = joined(dir, path);
    let gap: int = if dir.len() > 0 && dir.last() != '/' {
        1
    } else {
        0
    };
    assert(file.subrange(0, dir.len() as int) =~= dir);
    assert(file.subrange(dir.len() + gap, file.len() as int) =~= path);
}

/// What follows the first character of a path is looked up, whatever that character is.
pub proof fn a_path_is_looked_up_without_its_first_character(first: char, rest: Seq<char>)
    requires
        first != '/' || rest.len() > 0,
    ensures
        file_path(seq![first] + rest) == rest,
{
    reveal_strlit("/");
    let path = seq![first] + rest;
    assert(path[0] == first);
    if path == "/"@ {
        assert(path.len() == 1);
    }
    assert(path.skip(1) =~= rest);
}

/// The root of the site is the page `index.html`.
pub proof fn root_is_the_index_page()
    ensures
        file_path("/"@) == file_path("/index.html"@),
{
    reveal_strlit("/");
    reveal_strlit("/index.html");
    reveal_strlit("index.html");
    assert("/index.html"@.len() != "/"@.len());
    assert("/index.html"@.skip(1) =~= "index.html"@);
}

/// Every response names the server in its first header, and its status is that of an upgrade,
/// of a file or of nothing found.
pub proof fn every_response_names_the_server(accept: Seq<char>, path: Seq<char>, found: Lookup)
    ensures
        upgrade_response(accept).headers[0] == server_header(),
        upgrade_response(accept).status == 101,
        lookup_response(path, found).headers.len() > 0,
        lookup_response(path, found).headers[0] == server_header(),
        lookup_response(path, found).status == 200 || lookup_response(path, found).status == 404,
        lookup_response(path, found).status == 200 <==> found is Found,
{
}

/// Whether two headers are the same but for the case of their letters.
pub open spec fn same_but_for_case(a: Option<Vec<u8>>, b: Option<Vec<u8>>) -> bool {
    match (header_bytes(a), header_bytes(b)) {
        (Some(x), Some(y)) => match (readable(x), readable(y)) {
            (Some(s), Some(t)) => text::lowercase(s) == text::lowercase(t),
            (None, None) => true,
            _ => false,
        },
        (None, None) => true,
        _ => false,
    }
}

/// The case of the letters of its headers does not matter to an upgrade.
pub proof fn letter_case_does_not_matter(a: Request, b: Request)
    requires
        same_but_for_case(a.connection, b.connection),
        same_but_for_case(a.upgrade, b.upgrade),
    ensures
        a.asks_for_websocket() == b.asks_for_websocket(),
{
}

proof fn last_index_in_range(s: Seq<char>, c: char)
    ensures
        -1 <= last_index(s, c) < s.len(),
    decreases s.len(),
{
    if s.len() > 0 {
        last_index_in_range(s.drop_last(), c);
    }
}

proof fn last_index_at(s: Seq<char>, c: char, k: int)
    requires
        0 <= k < s.len(),
        s[k] == c,
        forall|i: int| k < i < s.len() ==> #[trigger] s[i] != c,
    ensures
        last_index(s, c) == k,
    decreases s.len(),
{
    if k < s.len() - 1 {
        assert(s[s.len() - 1] != c);
        last_index_at(s.drop_last(), c, k);
    }
}

proof fn last_index_missing(s: Seq<char>, c: char)
    requires
        forall|i: int| 0 <= i < s.len() ==> #[trigger] s[i] != c,
    ensures
        last_index(s, c) == -1,
    decreases s.len(),
{
    if s.len() > 0 {
        assert(s[s.len() - 1] != c);
        last_index_missing(s.drop_last(), c);
    }
}

proof fn name_below(dir: Seq<char>, name: Seq<char>)
    requires
        dir.len() == 0 || dir.last() == '/',
        name.len() > 0,
        forall|i: int| 0 <= i < name.len() ==> #[trigger] name[i] != '/',
        name != seq!['.'],
    ensures
        trimmed(dir + name) == dir + name,
        (dir + name).skip(last_index(dir + name, '/') + 1) == name,
{
    let path = dir + name;
    assert(path.last() == name[name.len() - 1]);
    if path.len() > 1 && path.last() == '.' && path[path.len() - 2] == '/' {
        if name.len() > 1 {
            assert(path[path.len() - 2] == name[name.len() - 2]);
        } else {
            assert(name =~= seq!['.']);
        }
    }
    if dir.len() == 0 {
        assert(path =~= name);
        last_index_missing(path, '/');
    } else {
        assert forall|i: int| dir.len() - 1 < i < path.len() implies #[trigger] path[i] != '/' by {
            assert(path[i] == name[i - dir.len()]);
        }
        last_index_at(path, '/', dir.len() - 1);
    }
    assert(path.skip(dir.len() as int) =~= name);
}

/// The extension of a file, in whatever directory, is what follows the last dot of its name,
/// if something stands before that dot.
pub proof fn the_extension_follows_the_last_dot(dir: Seq<char>, stem: Seq<char>, extension: Seq<char>)
    requires
        dir.len() == 0 || dir.last() == '/',
        stem.len() > 0,
        forall|i: int| 0 <= i < stem.len() ==> #[trigger] stem[i] != '/',
        forall|i: int| 0 <= i < extension.len() ==> #[trigger] extension[i] != '/' && extension[i] != '.',
        stem != seq!['.'] || extension.len() > 0,
    ensures
        extension_of(dir + (stem + seq!['.'] + extension)) == Some(extension),
{
    let name = stem + seq!['.'] + extension;
    assert forall|i: int| 0 <= i < name.len() implies #[trigger] name[i] != '/' by {
        if i < stem.len() {
            assert(name[i] == stem[i]);
        } else if i > stem.len() {
            assert(name[i] == extension[i - stem.len() - 1]);
        }
    }
    assert forall|i: int| stem.len() < i < name.len() implies #[trigger] name[i] != '.' by {
        assert(name[i] == extension[i - stem.len() - 1]);
    }
    assert(name.len() >= 2);
    if name == seq!['.', '.'] {
        assert(stem =~= seq!['.']) by {
            assert(name[0] == stem[0]);
        }
    }
    name_below(dir, name);
    last_index_at(name, '.', stem.len() as int);
    assert(name.skip(stem.len() as int + 1) =~= extension);
}

/// A name without a dot past its first character has no extension, and neither has `..`.
pub proof fn other_names_have_no_extension(dir: Seq<char>, name: Seq<char>)
    requires
        dir.len() == 0 || dir.last() == '/',
        name.len() > 0,
        name != seq!['.'],
        forall|i: int| 0 <= i < name.len() ==> #[trigger] name[i] != '/',
        (forall|i: int| 1 <= i < name.len() ==> #[trigger] name[i] != '.') || name == seq!['.', '.'],
    ensures
        extension_of(dir + name) is None,
{
    name_below(dir, name);
    if name != seq!['.', '.'] {
        if name[0] == '.' {
            last_index_at(name, '.', 0);
        } else {
            last_index_missing(name, '.');
        }
    }
}

/// Separators and `.` components at the end of a path do not count, and without a name there
/// is no extension.
pub proof fn the_end_of_a_path_does_not_count(path: Seq<char>)
    ensures
        extension_of(path.push('/')) == extension_of(path),
        extension_of(path.push('/').push('.')) == extension_of(path),
        extension_of(seq![]) is None,
        extension_of(seq!['.']) is None,
{
    let one = path.push('/');
    let two = one.push('.');
    assert(one.drop_last() =~= path);
    assert(two.drop_last() =~= one);
    assert(two[two.len() - 2] == '/');
    let dot = seq!['.'];
    assert(dot.drop_last() =~= Seq::<char>::empty());
    assert(dot.skip(0) =~= dot);
    assert(last_index(dot, '/') == last_index(dot.drop_last(), '/'));
}

proof fn last_separator_after_directory(dir: Seq<char>, path: Seq<char>)
    requires
        dir.len() > 0,
        dir.last() == '/',
    ensures
        last_index(dir + path, '/') == dir.len() + last_index(path, '/'),
    decreases path.len(),
{
    if path.len() == 0 {
        assert(dir + path =~= dir);
    } else {
        assert((dir + path).drop_last() =~= dir + path.drop_last());
        last_separator_after_directory(dir, path.drop_last());
    }
}

proof fn trimmed_after_directory(dir: Seq<char>, path: Seq<char>)
    requires
        dir.len() > 0,
        dir.last() == '/',
        trimmed(path).len() > 0,
        trimmed(path) != seq!['.'],
    ensures
        trimmed(dir + path) == dir + trimmed(path),
    decreases path.len(),
{
    let whole = dir + path;
    assert(path.len() > 0);
    assert(whole.last() == path.last());
    assert(whole.drop_last() =~= dir + path.drop_last());
    if path.last() == '/' {
        trimmed_after_directory(dir, path.drop_last());
    } else if path.len() > 1 && path.last() == '.' && path[path.len() - 2] == '/' {
        assert(whole[whole.len() - 2] == '/');
        trimmed_after_directory(dir, path.drop_last());
    } else if path.len() > 1 {
        assert(whole[whole.len() - 2] == path[path.len() - 2]);
    } else if path.last() == '.' {
        assert(path =~= seq!['.']);
    }
}

proof fn extension_after_directory(dir: Seq<char>, path: Seq<char>)
    requires
        dir.len() > 0,
        dir.last() == '/',
        file_name_of(path) is Some,
    ensures
        file_name_of(dir + path) == file_name_of(path),
{
    let rest = trimmed(path);
    last_index_in_range(rest, '/');
    if rest == seq!['.'] {
        assert(last_index(rest.drop_last(), '/') == -1);
        assert(rest.skip(0) =~= rest);
    }
    if rest.len() == 0 {
        assert(rest.skip(0).len() == 0);
    }
    trimmed_after_directory(dir, path);
    last_separator_after_directory(dir, rest);
    let k = last_index(rest, '/') + 1;
    assert((dir + rest).skip(dir.len() + k) =~= rest.skip(k));
}

/// The name and the extension of a file below a directory are those of its path below the
/// directory, if that names a file.
pub proof fn extension_below_a_directory(dir: Seq<char>, path: Seq<char>)
    requires
        file_name_of(path) is Some,
    ensures
        file_name_of(joined(dir, path)) == file_name_of(path),
        extension_of(joined(dir, path)) == extension_of(path),
{
    reveal_strlit("/");
    if path.len() > 0 && path[0] == '/' {
    } else if dir.len() == 0 {
        assert(dir + path =~= path);
    } else if dir.last() == '/' {
        extension_after_directory(dir, path);
    } else {
        extension_after_directory(dir + "/"@, path);
    }
}

} // verus!
