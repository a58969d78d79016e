//! The network library: URL encoding, the configuration of requests and
//! servers, and the processing of requests, responses and headers.

use vstd::prelude::*;

use crate::definitions::moonwave::{split_on, split_on_exec};
use crate::process::{opt_text, pairs_view};
use crate::text::{
    ascii_upper, chars_eq_str, chars_to_string, find_char, find_char_exec, join, str_chars,
    string_from_utf8_lossy, to_ascii_upper, trim, trim_chars, spec_utf8_lossy, sub_chars, views,
};
use vstd::utf8::{decode_utf8, encode_utf8, valid_utf8};

verus! {

// ---------------------------------------------------------------------
// URL encoding

/// Whether a byte is left as it is by percent-encoding: an ASCII letter or
/// digit, `-`, `.`, `_` or `~`.
pub open spec fn is_unreserved(b: u8) -> bool {
    (48 <= b <= 57) || (65 <= b <= 90) || (97 <= b <= 122) || b == 45 || b == 46 || b == 95
        || b == 126
}

/// The uppercase hexadecimal digit of a number below 16.
pub open spec fn hex_upper(n: int) -> char {
    if n < 10 {
        (48 + n) as char
    } else {
        (55 + n) as char
    }
}

/// One byte percent-encoded: an unreserved byte as it is, any other as `%`
/// and two uppercase hexadecimal digits.
pub open spec fn encode_byte(c: u8) -> Seq<char> {
    if is_unreserved(c) {
        seq![c as char]
    } else {
        seq!['%', hex_upper(c as int / 16), hex_upper(c as int % 16)]
    }
}

/// Bytes percent-encoded, byte by byte.
pub open spec fn percent_encode(b: Seq<u8>) -> Seq<char>
    decreases b.len(),
{
    if b.len() == 0 {
        seq![]
    } else {
        percent_encode(b.drop_last()) + encode_byte(b.last())
    }
}

/// The value of a hexadecimal digit, in either case.
pub open spec fn hex_value(b: u8) -> Option<u8> {
    if 48 <= b <= 57 {
        Some((b - 48) as u8)
    } else if 65 <= b <= 70 {
        Some((b - 55) as u8)
    } else if 97 <= b <= 102 {
        Some((b - 87) as u8)
    } else {
        None
    }
}

/// Bytes percent-decoded: `%` and two hexadecimal digits become the byte
/// they write; any other byte, a lone `%` among them, stays.
pub open spec fn percent_decode(b: Seq<u8>) -> Seq<u8>
    decreases b.len(),
{
    if b.len() == 0 {
        seq![]
    } else if b[0] == 37 && b.len() >= 3 && hex_value(b[1]) is Some && hex_value(b[2]) is Some {
        seq![(hex_value(b[1]).unwrap() * 16 + hex_value(b[2]).unwrap()) as u8] + percent_decode(
            b.skip(3),
        )
    } else {
        seq![b[0]] + percent_decode(b.skip(1))
    }
}

/// The text that `std` displays for the error of reading bytes that are not
/// UTF-8.
pub uninterp spec fn spec_utf8_error_text(data: Seq<u8>) -> Seq<char>;

/// Percent-encodes bytes.
///
/// Trusted: calls `urlencoding::encode_binary`, whose documentation says
/// that it percent-encodes every byte except alphanumerics and `-`, `_`, `.`,
/// `~`; its source writes the two digits in uppercase.
#[verifier::external_body]
fn url_encode_binary(data: &[u8]) -> (r: String)
    ensures
        r@ == percent_encode(data@),
{
    urlencoding::encode_binary(data).into_owned()
}

/// Percent-encodes the UTF-8 bytes of a text.
///
/// Trusted: calls `urlencoding::encode`, which encodes the bytes of the text
/// as `encode_binary` does.
#[verifier::external_body]
fn url_encode_str(data: &str) -> (r: String)
    ensures
        r@ == percent_encode(encode_utf8(data@)),
{
    urlencoding::encode(data).into_owned()
}

/// Percent-decodes bytes.
///
/// Trusted: calls `urlencoding::decode_binary`; its source turns `%` and two
/// hexadecimal digits of either case into a byte and keeps every other
/// byte, a `%` that no two digits follow among them.
#[verifier::external_body]
fn url_decode_binary(data: &[u8]) -> (r: Vec<u8>)
    ensures
        r@ == percent_decode(data@),
{
    urlencoding::decode_binary(data).into_owned()
}

/// Percent-decodes text, reading the result as UTF-8.
///
/// Trusted: calls `urlencoding::decode`, which decodes the bytes of the
/// text as `decode_binary` does and then reads them with
/// `String::from_utf8`, failing where they are not UTF-8; the error is
/// turned into the text that it displays, named by `spec_utf8_error_text`.
#[verifier::external_body]
fn url_decode_str(data: &str) -> (r: Result<String, String>)
    ensures
        match r {
            Ok(s) => valid_utf8(percent_decode(encode_utf8(data@))) && s@ == decode_utf8(
                percent_decode(encode_utf8(data@)),
            ),
            Err(m) => !valid_utf8(percent_decode(encode_utf8(data@))) && m@
                == spec_utf8_error_text(percent_decode(encode_utf8(data@))),
        },
{
    match urlencoding::decode(data) {
        Ok(s) => Ok(s.into_owned()),
        Err(e) => Err(format!("{}", e)),
    }
}

/// Text, or bytes that need not be text.
#[derive(Debug)]
pub enum TextOrBytes {
    Text(String),
    Bytes(Vec<u8>),
}

/// Errors of URL encoding and decoding.
#[derive(Debug)]
pub enum UrlError {
    /// The input should be UTF-8 text and is not.
    NotUtf8,
    /// The decoded bytes are not UTF-8; the value is the message.
    InvalidEncoding(String),
}

/// Percent-encodes a string: its bytes when `as_binary` is set, else its
/// text, which must then be UTF-8.
pub fn url_encode(data: &[u8], as_binary: bool) -> (r: Result<String, UrlError>)
    ensures
        match r {
            Ok(s) => (as_binary || valid_utf8(data@)) && s@ == percent_encode(data@),
            Err(e) => !as_binary && !valid_utf8(data@) && e is NotUtf8,
        },
{
    if as_binary {
        Ok(url_encode_binary(data))
    } else {
        match crate::text::string_from_utf8(vstd::slice::slice_to_vec(data)) {
            Some(s) => {
                proof {
                    vstd::utf8::decode_utf8_encode_utf8(data@);
                }
                Ok(url_encode_str(s.as_str()))
            },
            None => Err(UrlError::NotUtf8),
        }
    }
}

/// Percent-decodes a string: to bytes when `as_binary` is set, else to text,
/// which the input and the decoded bytes must both be.
pub fn url_decode(data: &[u8], as_binary: bool) -> (r: Result<TextOrBytes, UrlError>)
    ensures
        as_binary ==> (r matches Ok(TextOrBytes::Bytes(b)) && b@ == percent_decode(data@)),
        !as_binary ==> match r {
            Ok(TextOrBytes::Text(s)) => valid_utf8(data@) && valid_utf8(percent_decode(data@))
                && s@ == decode_utf8(percent_decode(data@)),
            Ok(TextOrBytes::Bytes(_)) => false,
            Err(UrlError::NotUtf8) => !valid_utf8(data@),
            Err(UrlError::InvalidEncoding(m)) => valid_utf8(data@) && !valid_utf8(
                percent_decode(data@),
            ) && m@ == "Encountered invalid encoding - "@ + spec_utf8_error_text(
                percent_decode(data@),
            ),
        },
{
    if as_binary {
        Ok(TextOrBytes::Bytes(url_decode_binary(data)))
    } else {
        match crate::text::string_from_utf8(vstd::slice::slice_to_vec(data)) {
            Some(s) => {
                proof {
                    vstd::utf8::decode_utf8_encode_utf8(data@);
                }
                match url_decode_str(s.as_str()) {
                    Ok(t) => Ok(TextOrBytes::Text(t)),
                    Err(e) => {
                        let mut m = "Encountered invalid encoding - ".to_string();
                        m.append(e.as_str());
                        Err(UrlError::InvalidEncoding(m))
                    },
                }
            },
            None => Err(UrlError::NotUtf8),
        }
    }
}

/// The bytes of ASCII characters.
pub open spec fn ascii_bytes(cs: Seq<char>) -> Seq<u8> {
    cs.map_values(|c: char| c as u8)
}

proof fn lemma_encode_front(b: Seq<u8>)
    requires
        b.len() > 0,
    ensures
        percent_encode(b) == encode_byte(b[0]) + percent_encode(b.skip(1)),
    decreases b.len(),
{
    if b.len() == 1 {
        assert(b.drop_last() =~= Seq::<u8>::empty());
        assert(b.skip(1) =~= Seq::<u8>::empty());
        assert(percent_encode(b.drop_last()) =~= Seq::<char>::empty());
        assert(b.last() == b[0]);
        assert(percent_encode(b) =~= encode_byte(b[0]));
        assert(encode_byte(b[0]) + percent_encode(b.skip(1)) =~= encode_byte(b[0]));
    } else {
        let d = b.drop_last();
        lemma_encode_front(d);
        assert(d.skip(1) =~= b.skip(1).drop_last());
        assert(b.skip(1).last() == b.last());
        assert(percent_encode(b) =~= encode_byte(b[0]) + (percent_encode(d.skip(1)) + encode_byte(
            b.last(),
        )));
    }
}

proof fn lemma_hex_upper(n: int)
    requires
        0 <= n < 16,
    ensures
        '\0' <= hex_upper(n) <= '\u{7f}',
        hex_value(hex_upper(n) as u8) == Some(n as u8),
{
    if n < 10 {
        assert(((48 + n) as char) as u8 == 48 + n);
    } else {
        assert(((55 + n) as char) as u8 == 55 + n);
    }
}

proof fn lemma_encode_ascii(b: Seq<u8>)
    ensures
        vstd::utf8::is_ascii_chars(percent_encode(b)),
    decreases b.len(),
{
    if b.len() > 0 {
        lemma_encode_ascii(b.drop_last());
        let c = b.last();
        lemma_hex_upper(c as int / 16);
        lemma_hex_upper(c as int % 16);
        let e = encode_byte(c);
        assert(vstd::utf8::is_ascii_chars(e));
        let p = percent_encode(b.drop_last());
        assert forall|i: int| 0 <= i < percent_encode(b).len() implies '\0' <= #[trigger] percent_encode(b)[i] <= '\u{7f}' by {
            if i < p.len() {
                assert(percent_encode(b)[i] == p[i]);
            } else {
                assert(percent_encode(b)[i] == e[i - p.len()]);
            }
        }
    }
}

proof fn lemma_decode_encoded(b: Seq<u8>)
    ensures
        percent_decode(ascii_bytes(percent_encode(b))) == b,
    decreases b.len(),
{
    if b.len() == 0 {
        assert(ascii_bytes(percent_encode(b)) =~= seq![]);
    } else {
        let c = b[0];
        let rest = b.skip(1);
        lemma_encode_front(b);
        lemma_decode_encoded(rest);
        let e = encode_byte(c);
        let tail = ascii_bytes(percent_encode(rest));
        let all = ascii_bytes(percent_encode(b));
        assert(all =~= ascii_bytes(e) + tail);
        if is_unreserved(c) {
            assert((c as char) as u8 == c);
            assert(all[0] == c);
            assert(all.skip(1) =~= tail);
            assert(percent_decode(all) =~= seq![c] + rest);
        } else {
            lemma_hex_upper(c as int / 16);
            lemma_hex_upper(c as int % 16);
            assert(all[0] == 37u8);
            assert(all[1] == hex_upper(c as int / 16) as u8);
            assert(all[2] == hex_upper(c as int % 16) as u8);
            assert(all.skip(3) =~= tail);
            assert((c as int / 16) * 16 + c as int % 16 == c);
            assert(percent_decode(all) =~= seq![c] + rest);
        }
        assert(seq![c] + rest =~= b);
    }
}

/// Decoding what encoding gave gives the input back: percent-decoding the
/// bytes of the percent-encoding of any bytes yields those bytes, and
/// decoding the encoding of a text, read as UTF-8, yields that text.
pub proof fn lemma_url_roundtrip(data: Seq<u8>, text: Seq<char>)
    ensures
        percent_decode(encode_utf8(percent_encode(data))) == data,
        valid_utf8(percent_decode(encode_utf8(percent_encode(encode_utf8(text))))),
        decode_utf8(percent_decode(encode_utf8(percent_encode(encode_utf8(text))))) == text,
{
    assert forall|b: Seq<u8>| #[trigger] percent_decode(encode_utf8(percent_encode(b))) == b by {
        let cs = percent_encode(b);
        lemma_encode_ascii(b);
        vstd::utf8::is_ascii_chars_encode_utf8(cs);
        assert(encode_utf8(cs) =~= ascii_bytes(cs));
        lemma_decode_encoded(b);
    }
    let t = encode_utf8(text);
    assert(percent_decode(encode_utf8(percent_encode(t))) == t);
    vstd::utf8::encode_utf8_valid_utf8(text);
    vstd::utf8::encode_utf8_decode_utf8(text);
}

// ---------------------------------------------------------------------
// Request configuration

/// A request method.
#[derive(Debug, Clone, Copy, PartialEq, Eq, Structural)]
pub enum HttpMethod {
    Get,
    Post,
    Put,
    Delete,
    Head,
    Options,
    Patch,
}

/// The method that a name names, in uppercase after trimming, if any.
pub open spec fn spec_method(name: Seq<char>) -> Option<HttpMethod> {
    let m = ascii_upper(trim(name));
    if m == "GET"@ {
        Some(HttpMethod::Get)
    } else if m == "POST"@ {
        Some(HttpMethod::Post)
    } else if m == "PUT"@ {
        Some(HttpMethod::Put)
    } else if m == "DELETE"@ {
        Some(HttpMethod::Delete)
    } else if m == "HEAD"@ {
        Some(HttpMethod::Head)
    } else if m == "OPTIONS"@ {
        Some(HttpMethod::Options)
    } else if m == "PATCH"@ {
        Some(HttpMethod::Patch)
    } else {
        None
    }
}

/// The message for a method name that names no method.
pub open spec fn invalid_method_message(name: Seq<char>) -> Seq<char> {
    "Invalid request config method '"@ + ascii_upper(trim(name)) + "'"@
}

/// The method that a name names, ignoring surrounding whitespace and ASCII
/// case, or the message for a name that names none.
pub fn parse_method(name: &str) -> (r: Result<HttpMethod, String>)
    ensures
        match r {
            Ok(m) => spec_method(name@) == Some(m),
            Err(e) => spec_method(name@) is None && e@ == invalid_method_message(name@),
        },
{
    let t = trim_chars(str_chars(name).as_slice());
    let m = to_ascii_upper(t.as_slice());
    let c = m.as_slice();
    if chars_eq_str(c, "GET") {
        Ok(HttpMethod::Get)
    } else if chars_eq_str(c, "POST") {
        Ok(HttpMethod::Post)
    } else if chars_eq_str(c, "PUT") {
        Ok(HttpMethod::Put)
    } else if chars_eq_str(c, "DELETE") {
        Ok(HttpMethod::Delete)
    } else if chars_eq_str(c, "HEAD") {
        Ok(HttpMethod::Head)
    } else if chars_eq_str(c, "OPTIONS") {
        Ok(HttpMethod::Options)
    } else if chars_eq_str(c, "PATCH") {
        Ok(HttpMethod::Patch)
    } else {
        let mut e = "Invalid request config method '".to_string();
        e.append(chars_to_string(c).as_str());
        e.append("'");
        Err(e)
    }
}

/// A value of a `query` or `headers` table.
#[derive(Debug)]
pub enum MapValue {
    /// A string.
    Str(String),
    /// An array of strings.
    List(Vec<String>),
    /// Anything else.
    Other,
}

/// What the `options` field of a request table holds.
#[derive(Debug)]
pub enum OptionsInput {
    Nil,
    /// A table, with what reading its `decompress` field as an optional
    /// boolean gave: `None` when the field is neither nil nor a boolean.
    Table(Option<Option<bool>>),
    /// Any other value, by its type name.
    Other(String),
}

/// The fields of a request table, each as read with the type that the
/// configuration wants: `None` where the field does not convert (it is nil
/// or of another type). A table's pairs are `None` where a key or value
/// does not convert to text.
#[derive(Debug)]
pub struct RequestTable {
    pub url: Option<Vec<u8>>,
    pub method: Option<Vec<u8>>,
    pub query: Option<Vec<Option<(String, MapValue)>>>,
    pub headers: Option<Vec<Option<(String, MapValue)>>>,
    pub body: Option<Vec<u8>>,
    pub options: OptionsInput,
}

/// The argument of `net.request`.
#[derive(Debug)]
pub enum RequestInput {
    /// A URL to get.
    Url(Vec<u8>),
    /// A table that configures the request.
    Table(RequestTable),
    /// Any other value, by its type name.
    Other(String),
}

/// Options of a request.
#[derive(Debug, Clone, Copy, PartialEq, Eq, Structural)]
pub struct RequestConfigOptions {
    /// Whether a compressed response body is decompressed.
    pub decompress: bool,
}

/// A request to send.
#[derive(Debug)]
pub struct RequestConfig {
    pub url: String,
    pub method: HttpMethod,
    pub query: Vec<(String, Vec<String>)>,
    pub headers: Vec<(String, Vec<String>)>,
    pub body: Option<Vec<u8>>,
    pub options: RequestConfigOptions,
}

/// Errors when reading a request configuration.
#[derive(Debug)]
pub enum RequestConfigError {
    /// The value is of a type that does not convert; the values are the
    /// target type and the message.
    NotConvertible { to: String, message: String },
    /// A key or value of a table does not convert to text.
    Conversion,
    /// A value is wrong; the value is the message.
    Runtime(String),
}

/// The mathematical value of a request configuration error.
pub ghost enum ConfigErrorView {
    NotConvertible { to: Seq<char>, message: Seq<char> },
    Conversion,
    Runtime(Seq<char>),
}

impl RequestConfigError {
    /// The mathematical value of the error.
    pub open spec fn view(&self) -> ConfigErrorView {
        match self {
            RequestConfigError::NotConvertible { to, message } => ConfigErrorView::NotConvertible {
                to: to@,
                message: message@,
            },
            RequestConfigError::Conversion => ConfigErrorView::Conversion,
            RequestConfigError::Runtime(m) => ConfigErrorView::Runtime(m@),
        }
    }
}

/// A map from text to lists of texts, held as pairs.
pub type MultiMap = Seq<(Seq<char>, Seq<Seq<char>>)>;

/// The texts of a list of strings.
pub open spec fn list_texts(v: Seq<String>) -> Seq<Seq<char>> {
    v.map_values(|s: String| s@)
}

/// The values of a map held as pairs of strings and lists.
pub open spec fn multimap_view(m: Seq<(String, Vec<String>)>) -> MultiMap {
    m.map_values(|p: (String, Vec<String>)| (p.0@, list_texts(p.1@)))
}

/// The index of the first pair with key `k`.
pub open spec fn map_key_index(m: MultiMap, k: Seq<char>) -> Option<int>
    decreases m.len(),
{
    if m.len() == 0 {
        None
    } else {
        match map_key_index(m.drop_last(), k) {
            Some(i) => Some(i),
            None => if m.last().0 == k {
                Some(m.len() - 1)
            } else {
                None
            },
        }
    }
}

/// A map after setting `k` to `v`: an existing key keeps its place.
pub open spec fn map_insert(m: MultiMap, k: Seq<char>, v: Seq<Seq<char>>) -> MultiMap {
    match map_key_index(m, k) {
        Some(i) => m.update(i, (k, v)),
        None => m.push((k, v)),
    }
}

/// The message for a value of a `query` or `headers` table that is neither
/// a string nor a list of strings.
pub open spec fn map_value_message(origin: Seq<char>) -> Seq<char> {
    "Value for '"@ + origin + "' must be a string or array of strings"@
}

/// The map that the pairs of a `query` or `headers` table give: a string
/// value is a list of one.
pub open spec fn spec_table_map(ps: Seq<Option<(String, MapValue)>>, origin: Seq<char>) -> Result<
    MultiMap,
    ConfigErrorView,
>
    decreases ps.len(),
{
    if ps.len() == 0 {
        Ok(seq![])
    } else {
        match spec_table_map(ps.drop_last(), origin) {
            Err(e) => Err(e),
            Ok(m) => match ps.last() {
                None => Err(ConfigErrorView::Conversion),
                Some(p) => match p.1 {
                    MapValue::Str(s) => Ok(map_insert(m, p.0@, seq![s@])),
                    MapValue::List(l) => Ok(map_insert(m, p.0@, list_texts(l@))),
                    MapValue::Other => Err(ConfigErrorView::Runtime(map_value_message(origin))),
                },
            },
        }
    }
}

/// The request options that the `options` field gives.
pub open spec fn spec_request_options(o: OptionsInput) -> Result<
    RequestConfigOptions,
    ConfigErrorView,
> {
    match o {
        OptionsInput::Nil => Ok(RequestConfigOptions { decompress: true }),
        OptionsInput::Table(Some(d)) => Ok(
            RequestConfigOptions {
                decompress: match d {
                    Some(b) => b,
                    None => true,
                },
            },
        ),
        OptionsInput::Table(None) => Err(
            ConfigErrorView::Runtime(
                "Invalid option value for 'decompress' in request config options"@,
            ),
        ),
        OptionsInput::Other(t) => Err(
            ConfigErrorView::NotConvertible {
                to: "RequestConfigOptions"@,
                message: "Invalid request config options - expected table or nil, got "@ + t@,
            },
        ),
    }
}

/// The mathematical value of a request.
pub ghost struct RequestView {
    pub url: Seq<char>,
    pub method: HttpMethod,
    pub query: MultiMap,
    pub headers: MultiMap,
    pub body: Option<Seq<u8>>,
    pub options: RequestConfigOptions,
}

impl RequestConfig {
    /// The mathematical value of the request.
    pub open spec fn view(&self) -> RequestView {
        RequestView {
            url: self.url@,
            method: self.method,
            query: multimap_view(self.query@),
            headers: multimap_view(self.headers@),
            body: match self.body {
                Some(b) => Some(b@),
                None => None,
            },
            options: self.options,
        }
    }
}

/// The request that a table configures: the url, which must be there; the
/// method, `GET` when missing; the query and the headers; the body; then
/// the method checked and the options read, the first error reported.
pub open spec fn spec_request_table(t: RequestTable) -> Result<RequestView, ConfigErrorView> {
    match t.url {
        None => Err(ConfigErrorView::Runtime("Missing 'url' in request config"@)),
        Some(u) => {
            let method_name = match t.method {
                Some(m) => ascii_upper(trim(spec_utf8_lossy(m@))),
                None => "GET"@,
            };
            match (match t.query {
                Some(q) => spec_table_map(q@, "query"@),
                None => Ok(seq![]),
            }) {
                Err(e) => Err(e),
                Ok(query) => match (match t.headers {
                    Some(h) => spec_table_map(h@, "headers"@),
                    None => Ok(seq![]),
                }) {
                    Err(e) => Err(e),
                    Ok(headers) => match spec_method(method_name) {
                        None => Err(ConfigErrorView::Runtime(invalid_method_message(method_name))),
                        Some(method) => match spec_request_options(t.options) {
                            Err(e) => Err(e),
                            Ok(options) => Ok(
                                RequestView {
                                    url: spec_utf8_lossy(u@),
                                    method,
                                    query,
                                    headers,
                                    body: match t.body {
                                        Some(b) => Some(b@),
                                        None => None,
                                    },
                                    options,
                                },
                            ),
                        },
                    },
                },
            }
        },
    }
}

/// The request that the argument of `net.request` configures: a string is a
/// `GET` request to that URL with nothing else set.
pub open spec fn spec_request_config(v: RequestInput) -> Result<RequestView, ConfigErrorView> {
    match v {
        RequestInput::Url(u) => Ok(
            RequestView {
                url: spec_utf8_lossy(u@),
                method: HttpMethod::Get,
                query: seq![],
                headers: seq![],
                body: None,
                options: RequestConfigOptions { decompress: true },
            },
        ),
        RequestInput::Table(t) => spec_request_table(t),
        RequestInput::Other(n) => Err(
            ConfigErrorView::NotConvertible {
                to: "RequestConfig"@,
                message: "Invalid request config - expected string or table, got "@ + n@,
            },
        ),
    }
}

/// Finding a key scans the pairs in order.
proof fn lemma_map_key_index(m: MultiMap, k: Seq<char>)
    ensures
        match map_key_index(m, k) {
            Some(i) => 0 <= i < m.len() && m[i].0 == k && forall|j: int| 0 <= j < i ==> m[j].0 != k,
            None => forall|j: int| 0 <= j < m.len() ==> m[j].0 != k,
        },
    decreases m.len(),
{
    if m.len() > 0 {
        let d = m.drop_last();
        lemma_map_key_index(d, k);
        assert forall|j: int| 0 <= j < d.len() implies d[j] == m[j] by {}
    }
}

/// Copies a list of strings.
fn copy_strings(v: &Vec<String>) -> (r: Vec<String>)
    ensures
        list_texts(r@) == list_texts(v@),
{
    let mut r: Vec<String> = Vec::new();
    let mut i: usize = 0;
    while i < v.len()
        invariant
            i <= v@.len(),
            list_texts(r@) == list_texts(v@.take(i as int)),
        decreases v@.len() - i,
    {
        let ghost before = r@;
        let c = v[i].clone();
        r.push(c);
        assert(list_texts(r@) =~= list_texts(before).push(c@));
        assert(list_texts(v@.take(i + 1)) =~= list_texts(v@.take(i as int)).push(v@[i as int]@));
        i = i + 1;
    }
    assert(v@.take(i as int) =~= v@);
    r
}

/// Sets a key of a map held as pairs.
fn map_insert_exec(m: &mut Vec<(String, Vec<String>)>, k: String, v: Vec<String>)
    ensures
        multimap_view(final(m)@) == map_insert(multimap_view(old(m)@), k@, list_texts(v@)),
{
    let mut i: usize = 0;
    while i < m.len()
        invariant
            i <= m@.len(),
            m@ == old(m)@,
            forall|j: int| 0 <= j < i ==> multimap_view(m@)[j].0 != k@,
        decreases m@.len() - i,
    {
        assert(multimap_view(m@)[i as int].0 == m@[i as int].0@);
        if crate::text::chars_eq(
            str_chars(m[i].0.as_str()).as_slice(),
            str_chars(k.as_str()).as_slice(),
        ) {
            let ghost before = m@;
            proof {
                lemma_map_key_index(multimap_view(before), k@);
                assert(multimap_view(before)[i as int].0 == k@);
            }
            assert(map_key_index(multimap_view(before), k@) == Some(i as int));
            let ghost vv = list_texts(v@);
            m.set(i, (k, v));
            assert(multimap_view(m@) =~= multimap_view(before).update(i as int, (k@, vv)));
            return;
        }
        i = i + 1;
    }
    proof {
        lemma_map_key_index(multimap_view(m@), k@);
    }
    let ghost before = m@;
    let ghost vv = list_texts(v@);
    let ghost kk = k@;
    m.push((k, v));
    assert(multimap_view(m@) =~= multimap_view(before).push((kk, vv)));
}

/// The map that the pairs of a `query` or `headers` table give.
pub fn table_to_hash_map(pairs: &Vec<Option<(String, MapValue)>>, origin: &str) -> (r: Result<
    Vec<(String, Vec<String>)>,
    RequestConfigError,
>)
    ensures
        match r {
            Ok(m) => spec_table_map(pairs@, origin@) == Ok::<MultiMap, ConfigErrorView>(
                multimap_view(m@),
            ),
            Err(e) => spec_table_map(pairs@, origin@) == Err::<MultiMap, ConfigErrorView>(
                e.view(),
            ),
        },
{
    let mut m: Vec<(String, Vec<String>)> = Vec::new();
    assert(multimap_view(m@) =~= seq![]);
    let mut i: usize = 0;
    while i < pairs.len()
        invariant
            i <= pairs@.len(),
            spec_table_map(pairs@.take(i as int), origin@) == Ok::<MultiMap, ConfigErrorView>(
                multimap_view(m@),
            ),
        decreases pairs@.len() - i,
    {
        let ghost t = pairs@.take(i + 1);
        assert(t.drop_last() =~= pairs@.take(i as int));
        assert(t.last() == pairs@[i as int]);
        match &pairs[i] {
            None => {
                proof {
                    lemma_table_map_err_prefix(pairs@, origin@, i + 1);
                }
                return Err(RequestConfigError::Conversion);
            },
            Some(p) => match &p.1 {
                MapValue::Str(s) => {
                    let mut one: Vec<String> = Vec::new();
                    one.push(s.clone());
                    assert(list_texts(one@) =~= seq![s@]);
                    map_insert_exec(&mut m, p.0.clone(), one);
                },
                MapValue::List(l) => {
                    map_insert_exec(&mut m, p.0.clone(), copy_strings(l));
                },
                MapValue::Other => {
                    proof {
                        lemma_table_map_err_prefix(pairs@, origin@, i + 1);
                    }
                    let mut e = "Value for '".to_string();
                    e.append(origin);
                    e.append("' must be a string or array of strings");
                    return Err(RequestConfigError::Runtime(e));
                },
            },
        }
        i = i + 1;
    }
    assert(pairs@.take(i as int) =~= pairs@);
    Ok(m)
}

/// Once a prefix of the pairs fails, all of them fail with that error.
proof fn lemma_table_map_err_prefix(ps: Seq<Option<(String, MapValue)>>, origin: Seq<char>, n: int)
    requires
        0 <= n <= ps.len(),
        spec_table_map(ps.take(n), origin) is Err,
    ensures
        spec_table_map(ps, origin) == spec_table_map(ps.take(n), origin),
    decreases ps.len() - n,
{
    if n < ps.len() {
        assert(ps.take(n + 1).drop_last() =~= ps.take(n));
        lemma_table_map_err_prefix(ps, origin, n + 1);
    } else {
        assert(ps.take(n) =~= ps);
    }
}

impl RequestConfigOptions {
    /// The options that the `options` field of a request table gives: nil
    /// gives the defaults, which decompress.
    pub fn from_lua(value: &OptionsInput) -> (r: Result<Self, RequestConfigError>)
        ensures
            match r {
                Ok(o) => spec_request_options(*value) == Ok::<
                    RequestConfigOptions,
                    ConfigErrorView,
                >(o),
                Err(e) => spec_request_options(*value) == Err::<
                    RequestConfigOptions,
                    ConfigErrorView,
                >(e.view()),
            },
    {
        match value {
            OptionsInput::Nil => Ok(RequestConfigOptions { decompress: true }),
            OptionsInput::Table(Some(d)) => Ok(
                RequestConfigOptions {
                    decompress: match d {
                        Some(b) => *b,
                        None => true,
                    },
                },
            ),
            OptionsInput::Table(None) => Err(
                RequestConfigError::Runtime(
                    "Invalid option value for 'decompress' in request config options".to_string(),
                ),
            ),
            OptionsInput::Other(t) => {
                let mut m = "Invalid request config options - expected table or nil, got ".to_string();
                m.append(t.as_str());
                Err(
                    RequestConfigError::NotConvertible {
                        to: "RequestConfigOptions".to_string(),
                        message: m,
                    },
                )
            },
        }
    }
}

impl RequestConfig {
    /// The request that the argument of `net.request` configures.
    pub fn from_lua(value: &RequestInput) -> (r: Result<Self, RequestConfigError>)
        ensures
            match r {
                Ok(c) => spec_request_config(*value) == Ok::<RequestView, ConfigErrorView>(
                    c.view(),
                ),
                Err(e) => spec_request_config(*value) == Err::<RequestView, ConfigErrorView>(
                    e.view(),
                ),
            },
    {
        match value {
            RequestInput::Url(u) => {
                let r = RequestConfig {
                    url: string_from_utf8_lossy(u.as_slice()),
                    method: HttpMethod::Get,
                    query: Vec::new(),
                    headers: Vec::new(),
                    body: None,
                    options: RequestConfigOptions { decompress: true },
                };
                assert(multimap_view(r.query@) =~= seq![]);
                assert(multimap_view(r.headers@) =~= seq![]);
                Ok(r)
            },
            RequestInput::Other(n) => {
                let mut m = "Invalid request config - expected string or table, got ".to_string();
                m.append(n.as_str());
                Err(RequestConfigError::NotConvertible { to: "RequestConfig".to_string(), message: m })
            },
            RequestInput::Table(t) => {
                let url = match &t.url {
                    None => {
                        return Err(
                            RequestConfigError::Runtime("Missing 'url' in request config".to_string()),
                        );
                    },
                    Some(u) => string_from_utf8_lossy(u.as_slice()),
                };
                let method_name: Vec<char> = match &t.method {
                    Some(m) => {
                        let l = string_from_utf8_lossy(m.as_slice());
                        to_ascii_upper(trim_chars(str_chars(l.as_str()).as_slice()).as_slice())
                    },
                    None => str_chars("GET"),
                };
                let query = match &t.query {
                    Some(q) => match table_to_hash_map(q, "query") {
                        Ok(m) => m,
                        Err(e) => {
                            return Err(e);
                        },
                    },
                    None => {
                        let m: Vec<(String, Vec<String>)> = Vec::new();
                        assert(multimap_view(m@) =~= seq![]);
                        m
                    },
                };
                let headers = match &t.headers {
                    Some(h) => match table_to_hash_map(h, "headers") {
                        Ok(m) => m,
                        Err(e) => {
                            return Err(e);
                        },
                    },
                    None => {
                        let m: Vec<(String, Vec<String>)> = Vec::new();
                        assert(multimap_view(m@) =~= seq![]);
                        m
                    },
                };
                let body = match &t.body {
                    Some(b) => Some(b.clone()),
                    None => None,
                };
                let method = match parse_method(chars_to_string(method_name.as_slice()).as_str()) {
                    Ok(m) => m,
                    Err(e) => {
                        return Err(RequestConfigError::Runtime(e));
                    },
                };
                let options = match RequestConfigOptions::from_lua(&t.options) {
                    Ok(o) => o,
                    Err(e) => {
                        return Err(e);
                    },
                };
                Ok(RequestConfig { url, method, query, headers, body, options })
            },
        }
    }
}

/// Whether a status code means success: 200 to 299.
pub open spec fn spec_response_ok(status: u16) -> bool {
    200 <= status < 300
}

/// Whether a response's status code means success.
pub fn response_ok(status: u16) -> (r: bool)
    ensures
        r == spec_response_ok(status),
{
    200 <= status && status < 300
}

/// The canonical reason phrase of a status code, such as `Not Found` for
/// 404, if the code has one.
pub uninterp spec fn spec_canonical_reason(status: u16) -> Option<Seq<char>>;

/// The canonical reason phrase of a status code.
///
/// Trusted: makes an `http::StatusCode` with `from_u16`, which refuses
/// codes outside 100 to 999, and reads its `canonical_reason` from the
/// crate's fixed table of registered codes (named by
/// `spec_canonical_reason`); a refused code has no reason.
#[verifier::external_body]
fn canonical_reason(status: u16) -> (r: Option<String>)
    ensures
        opt_text(r) == spec_canonical_reason(status),
        !(100 <= status <= 999) ==> r is None,
{
    match http::StatusCode::from_u16(status) {
        Ok(code) => code.canonical_reason().map(|reason| reason.to_string()),
        Err(_) => None,
    }
}

/// The status fields of a response table.
#[derive(Debug)]
pub struct ResponseStatus {
    /// Whether the status code means success.
    pub ok: bool,
    pub status_code: u16,
    /// The canonical reason phrase of the status code, if it has one.
    pub status_message: Option<String>,
}

/// The status fields of a response table for a status code: whether it
/// means success, the code, and its canonical reason phrase.
pub fn response_status(status: u16) -> (r: ResponseStatus)
    ensures
        r.ok == spec_response_ok(status),
        r.status_code == status,
        opt_text(r.status_message) == spec_canonical_reason(status),
        !(100 <= status <= 999) ==> r.status_message is None,
{
    ResponseStatus {
        ok: response_ok(status),
        status_code: status,
        status_message: canonical_reason(status),
    }
}


// ---------------------------------------------------------------------
// Serving

/// A key-value pair of a query string: the text before and after the first
/// `=`, if there is one.
pub open spec fn query_pair(piece: Seq<char>) -> Option<(Seq<char>, Seq<char>)> {
    match find_char(piece, '=') {
        Some(i) => Some((piece.take(i), piece.skip(i + 1))),
        None => None,
    }
}

/// The pairs of the pieces of a query string, pieces without `=` left out.
pub open spec fn query_pairs(pieces: Seq<Seq<char>>) -> Seq<(Seq<char>, Seq<char>)>
    decreases pieces.len(),
{
    if pieces.len() == 0 {
        seq![]
    } else {
        query_pairs(pieces.drop_last()) + match query_pair(pieces.last()) {
            Some(p) => seq![p],
            None => seq![],
        }
    }
}

/// The key-value pairs of a query string: its pieces between `&`, each
/// split at its first `=`.
pub open spec fn spec_parse_query(q: Seq<char>) -> Seq<(Seq<char>, Seq<char>)> {
    query_pairs(split_on(q, '&'))
}

/// The key-value pairs of a query string, in order.
pub fn parse_query(query: &str) -> (r: Vec<(String, String)>)
    ensures
        pairs_view(r@) == spec_parse_query(query@),
{
    let pieces = split_on_exec(str_chars(query).as_slice(), '&');
    let mut r: Vec<(String, String)> = Vec::new();
    let mut i: usize = 0;
    assert(pairs_view(r@) =~= seq![]);
    while i < pieces.len()
        invariant
            i <= pieces@.len(),
            views(pieces@) == split_on(query@, '&'),
            pairs_view(r@) == query_pairs(views(pieces@).take(i as int)),
        decreases pieces@.len() - i,
    {
        let ghost t = views(pieces@).take(i + 1);
        assert(t.drop_last() =~= views(pieces@).take(i as int));
        assert(t.last() == pieces@[i as int]@);
        let piece = pieces[i].as_slice();
        let ghost before = r@;
        match find_char_exec(piece, '=') {
            Some(k) => {
                let key = chars_to_string(sub_chars(piece, 0, k).as_slice());
                let n = piece.len();
                let value = chars_to_string(sub_chars(piece, k + 1, n).as_slice());
                proof {
                    assert(piece@.subrange(0, k as int) =~= piece@.take(k as int));
                    assert(piece@.subrange(k + 1, n as int) =~= piece@.skip(k + 1));
                }
                r.push((key, value));
                assert(pairs_view(r@) =~= pairs_view(before).push((piece@.take(k as int), piece@.skip(k + 1))));
            },
            None => {},
        }
        i = i + 1;
    }
    assert(views(pieces@).take(i as int) =~= views(pieces@));
    r
}

/// Whether a text holds a character.
pub open spec fn has_char(s: Seq<char>, c: char) -> bool {
    exists|i: int| 0 <= i < s.len() && s[i] == c
}

/// A query of one piece `key=value` gives exactly that pair, split at the
/// first `=`, whatever the value (an empty one too); a query without `=`
/// gives no pair.
pub proof fn lemma_query_single_piece(key: Seq<char>, value: Seq<char>)
    ensures
        !has_char(key, '=') && !has_char(key, '&') && !has_char(value, '&') ==> spec_parse_query(
            key + "="@ + value,
        ) == seq![(key, value)],
        !has_char(key, '=') && !has_char(key, '&') ==> spec_parse_query(key) == Seq::<
            (Seq<char>, Seq<char>),
        >::empty(),
{
    reveal_strlit("=");
    let q = key + "="@ + value;
    let k = key.len() as int;
    if !has_char(key, '=') && !has_char(key, '&') && !has_char(value, '&') {
        crate::text::lemma_find_char(q, '&');
        assert forall|i: int| 0 <= i < q.len() implies q[i] != '&' by {
            if i < k {
                assert(q[i] == key[i]);
            } else if i > k {
                assert(q[i] == value[i - k - 1]);
            }
        }
        assert(split_on(q, '&') == seq![q]);
        crate::text::lemma_find_char(q, '=');
        assert(q[k] == '=');
        assert forall|i: int| 0 <= i < k implies q[i] != '=' by {
            assert(q[i] == key[i]);
        }
        assert(find_char(q, '=') == Some(k));
        assert(q.take(k) =~= key);
        assert(q.skip(k + 1) =~= value);
        let ps = seq![q];
        assert(ps.drop_last() =~= Seq::<Seq<char>>::empty());
        assert(query_pairs(Seq::<Seq<char>>::empty()) == Seq::<(Seq<char>, Seq<char>)>::empty());
        assert(ps.last() == q);
        assert(query_pair(q) == Some((key, value)));
        assert(query_pairs(ps) =~= seq![(key, value)]);
    }
    if !has_char(key, '=') && !has_char(key, '&') {
        crate::text::lemma_find_char(key, '&');
        crate::text::lemma_find_char(key, '=');
        assert(split_on(key, '&') == seq![key]);
        let ps = seq![key];
        assert(ps.drop_last() =~= Seq::<Seq<char>>::empty());
        assert(query_pairs(Seq::<Seq<char>>::empty()) == Seq::<(Seq<char>, Seq<char>)>::empty());
        assert(ps.last() == key);
        assert(query_pair(key) is None);
        assert(query_pairs(ps) =~= Seq::<(Seq<char>, Seq<char>)>::empty());
    }
}

/// Splitting at a character around which two texts were joined splits each
/// of them.
proof fn lemma_split_on_joined(a: Seq<char>, b: Seq<char>, c: char)
    ensures
        split_on(a + seq![c] + b, c) == split_on(a, c) + split_on(b, c),
    decreases a.len(),
{
    let s = a + seq![c] + b;
    crate::text::lemma_find_char(a, c);
    crate::text::lemma_find_char(s, c);
    match find_char(a, c) {
        Some(i) => {
            assert(s[i] == c);
            assert forall|k: int| 0 <= k < i implies s[k] != c by {
                assert(s[k] == a[k]);
            }
            assert(find_char(s, c) == Some(i));
            assert(s.take(i) =~= a.take(i));
            assert(s.skip(i + 1) =~= a.skip(i + 1) + seq![c] + b);
            lemma_split_on_joined(a.skip(i + 1), b, c);
            assert(split_on(s, c) =~= seq![a.take(i)] + (split_on(a.skip(i + 1), c) + split_on(b, c)));
        },
        None => {
            let n = a.len() as int;
            assert(s[n] == c);
            assert forall|k: int| 0 <= k < n implies s[k] != c by {
                assert(s[k] == a[k]);
            }
            assert(find_char(s, c) == Some(n));
            assert(s.take(n) =~= a);
            assert(s.skip(n + 1) =~= b);
            assert(split_on(s, c) =~= seq![a] + split_on(b, c));
        },
    }
}

/// The pairs of two runs of pieces are the pairs of the first run, then
/// those of the second.
proof fn lemma_query_pairs_joined(x: Seq<Seq<char>>, y: Seq<Seq<char>>)
    ensures
        query_pairs(x + y) == query_pairs(x) + query_pairs(y),
    decreases y.len(),
{
    if y.len() == 0 {
        assert(x + y =~= x);
        assert(query_pairs(x) + query_pairs(y) =~= query_pairs(x));
    } else {
        let xy = x + y;
        assert(xy.drop_last() =~= x + y.drop_last());
        assert(xy.last() == y.last());
        lemma_query_pairs_joined(x, y.drop_last());
        let tail = match query_pair(y.last()) {
            Some(p) => seq![p],
            None => Seq::<(Seq<char>, Seq<char>)>::empty(),
        };
        assert(query_pairs(xy) == query_pairs(x + y.drop_last()) + tail);
        assert(query_pairs(y) == query_pairs(y.drop_last()) + tail);
        assert(query_pairs(xy) =~= query_pairs(x) + query_pairs(y));
    }
}

/// The pairs of two queries joined by `&` are the pairs of the first, then
/// those of the second: each piece between `&` gives its own pairs, in
/// order.
pub proof fn lemma_query_joined(a: Seq<char>, b: Seq<char>)
    ensures
        spec_parse_query(a + "&"@ + b) == spec_parse_query(a) + spec_parse_query(b),
{
    reveal_strlit("&");
    assert("&"@ =~= seq!['&']);
    lemma_split_on_joined(a, b, '&');
    lemma_query_pairs_joined(split_on(a, '&'), split_on(b, '&'));
}

/// Headers grouped by name, in the order in which each name first comes,
/// the values of a name in their order.
pub open spec fn group_headers(h: Seq<(Seq<char>, Seq<char>)>) -> MultiMap
    decreases h.len(),
{
    if h.len() == 0 {
        seq![]
    } else {
        let m = group_headers(h.drop_last());
        let n = h.last().0;
        let v = h.last().1;
        match map_key_index(m, n) {
            Some(i) => m.update(i, (n, m[i].1.push(v))),
            None => m.push((n, seq![v])),
        }
    }
}

/// Whether a header is about the encoding or length of the content.
pub open spec fn is_content_header(name: Seq<char>) -> bool {
    name == "content-encoding"@ || name == "content-length"@
}

/// Grouped headers without the content headers.
pub open spec fn without_content_headers(m: MultiMap) -> MultiMap
    decreases m.len(),
{
    if m.len() == 0 {
        seq![]
    } else {
        without_content_headers(m.drop_last()) + if is_content_header(m.last().0) {
            seq![]
        } else {
            seq![m.last()]
        }
    }
}

/// The headers of a response as a script sees them: grouped by name, and,
/// when the body was decompressed, without the content headers.
pub open spec fn spec_header_table(h: Seq<(Seq<char>, Seq<char>)>, remove_content_headers: bool) -> MultiMap {
    if remove_content_headers {
        without_content_headers(group_headers(h))
    } else {
        group_headers(h)
    }
}

/// Groups the headers of a response by name; `remove_content_headers`
/// drops the content encoding and length.
pub fn header_map_to_table(headers: &Vec<(String, String)>, remove_content_headers: bool) -> (r: Vec<
    (String, Vec<String>),
>)
    ensures
        multimap_view(r@) == spec_header_table(pairs_view(headers@), remove_content_headers),
{
    let mut m: Vec<(String, Vec<String>)> = Vec::new();
    assert(multimap_view(m@) =~= seq![]);
    let mut i: usize = 0;
    while i < headers.len()
        invariant
            i <= headers@.len(),
            multimap_view(m@) == group_headers(pairs_view(headers@).take(i as int)),
        decreases headers@.len() - i,
    {
        let ghost t = pairs_view(headers@).take(i + 1);
        assert(t.drop_last() =~= pairs_view(headers@).take(i as int));
        assert(t.last() == (headers@[i as int].0@, headers@[i as int].1@));
        let name = &headers[i].0;
        let value = &headers[i].1;
        let mut j: usize = 0;
        let mut found = false;
        while j < m.len()
            invariant_except_break
                !found,
            invariant
                j <= m@.len(),
                forall|k: int| 0 <= k < j ==> multimap_view(m@)[k].0 != name@,
            ensures
                found ==> j < m@.len() && multimap_view(m@)[j as int].0 == name@,
                !found ==> j == m@.len(),
            decreases m@.len() - j,
        {
            assert(multimap_view(m@)[j as int].0 == m@[j as int].0@);
            if crate::text::chars_eq(
                str_chars(m[j].0.as_str()).as_slice(),
                str_chars(name.as_str()).as_slice(),
            ) {
                found = true;
                break;
            }
            j = j + 1;
        }
        let ghost before = multimap_view(m@);
        proof {
            lemma_map_key_index(before, name@);
        }
        if found {
            assert(map_key_index(before, name@) == Some(j as int));
            let mut vals = copy_strings(&m[j].1);
            let ghost old_vals = list_texts(vals@);
            vals.push(value.clone());
            assert(list_texts(vals@) =~= old_vals.push(value@));
            let key = m[j].0.clone();
            m.set(j, (key, vals));
            assert(multimap_view(m@) =~= before.update(j as int, (name@, before[j as int].1.push(value@))));
        } else {
            assert(map_key_index(before, name@) is None);
            let mut vals: Vec<String> = Vec::new();
            vals.push(value.clone());
            assert(list_texts(vals@) =~= seq![value@]);
            m.push((name.clone(), vals));
            assert(multimap_view(m@) =~= before.push((name@, seq![value@])));
        }
        i = i + 1;
    }
    assert(pairs_view(headers@).take(i as int) =~= pairs_view(headers@));
    if !remove_content_headers {
        return m;
    }
    let mut r: Vec<(String, Vec<String>)> = Vec::new();
    assert(multimap_view(r@) =~= seq![]);
    let mut k: usize = 0;
    while k < m.len()
        invariant
            k <= m@.len(),
            multimap_view(r@) == without_content_headers(multimap_view(m@).take(k as int)),
        decreases m@.len() - k,
    {
        let ghost t = multimap_view(m@).take(k + 1);
        assert(t.drop_last() =~= multimap_view(m@).take(k as int));
        assert(t.last() == (m@[k as int].0@, list_texts(m@[k as int].1@)));
        let n = str_chars(m[k].0.as_str());
        let ghost before = multimap_view(r@);
        if !(chars_eq_str(n.as_slice(), "content-encoding") || chars_eq_str(
            n.as_slice(),
            "content-length",
        )) {
            r.push((m[k].0.clone(), copy_strings(&m[k].1)));
            assert(multimap_view(r@) =~= before.push(t.last()));
        } else {
            assert(before + seq![] =~= before);
        }
        k = k + 1;
    }
    assert(multimap_view(m@).take(k as int) =~= multimap_view(m@));
    r
}

/// An incoming request as a handler sees it.
#[derive(Debug)]
pub struct ProcessedRequest {
    pub method: String,
    pub path: String,
    pub query: Vec<(String, String)>,
    pub headers: Vec<(String, Vec<u8>)>,
    pub body: Vec<u8>,
}

/// The path of a request: `/` when empty.
pub open spec fn spec_request_path(p: Seq<char>) -> Seq<char> {
    if p.len() == 0 {
        "/"@
    } else {
        p
    }
}

/// The headers of a request with a name for each value: a value without a
/// name of its own belongs to the name before it (the empty name if none).
pub open spec fn carry_names(h: Seq<(Option<String>, Vec<u8>)>, last: Seq<char>) -> Seq<
    (Seq<char>, Seq<u8>),
>
    decreases h.len(),
{
    if h.len() == 0 {
        seq![]
    } else {
        let name = match h[0].0 {
            Some(n) => n@,
            None => last,
        };
        seq![(name, h[0].1@)] + carry_names(h.skip(1), name)
    }
}

/// The path of a request is kept as it is unless it is empty, which is the
/// root `/`.
pub proof fn lemma_request_path(p: Seq<char>)
    ensures
        p.len() > 0 ==> spec_request_path(p) == p,
        p.len() == 0 ==> spec_request_path(p) == "/"@,
{
}

/// Each header value keeps its bytes and its place; a value with a name of
/// its own keeps that name, and a value without one takes the name of the
/// value before it (the name given for the start, for the first).
pub proof fn lemma_carry_names(h: Seq<(Option<String>, Vec<u8>)>, last: Seq<char>)
    ensures
        carry_names(h, last).len() == h.len(),
        forall|i: int| 0 <= i < h.len() ==> (#[trigger] carry_names(h, last)[i]).1 == h[i].1@,
        forall|i: int|
            0 <= i < h.len() ==> (h[i].0 matches Some(n) ==> (#[trigger] carry_names(h, last)[i]).0
                == n@),
        forall|i: int|
            0 <= i < h.len() ==> (h[i].0 is None ==> (#[trigger] carry_names(h, last)[i]).0 == (
            if i == 0 {
                last
            } else {
                carry_names(h, last)[i - 1].0
            })),
    decreases h.len(),
{
    if h.len() > 0 {
        let name = match h[0].0 {
            Some(n) => n@,
            None => last,
        };
        let rest = carry_names(h.skip(1), name);
        lemma_carry_names(h.skip(1), name);
        let c = carry_names(h, last);
        assert(c == seq![(name, h[0].1@)] + rest);
        assert forall|i: int| 1 <= i < h.len() implies #[trigger] c[i] == rest[i - 1] && h.skip(
            1,
        )[i - 1] == h[i] by {}
        assert forall|i: int| 0 <= i < h.len() implies (#[trigger] c[i]).1 == h[i].1@ by {
            if i > 0 {
                assert(c[i] == rest[i - 1]);
            }
        }
        assert forall|i: int|
            0 <= i < h.len() implies (h[i].0 matches Some(n) ==> (#[trigger] c[i]).0 == n@) by {
            if i > 0 {
                assert(c[i] == rest[i - 1]);
            }
        }
        assert forall|i: int|
            0 <= i < h.len() implies (h[i].0 is None ==> (#[trigger] c[i]).0 == (if i == 0 {
                last
            } else {
                c[i - 1].0
            })) by {
            if i == 1 {
                assert(c[1] == rest[0]);
                assert(c[0].0 == name);
            } else if i > 1 {
                assert(c[i] == rest[i - 1]);
                assert(c[i - 1] == rest[i - 2]);
            }
        }
    }
}

/// The values of a list of name-bytes pairs.
pub open spec fn byte_pairs_view(s: Seq<(String, Vec<u8>)>) -> Seq<(Seq<char>, Seq<u8>)> {
    s.map_values(|p: (String, Vec<u8>)| (p.0@, p.1@))
}

impl ProcessedRequest {
    /// An incoming request processed for its handler: the method in
    /// uppercase, `/` for an empty path, the query string split into pairs,
    /// and each header value with its name.
    pub fn new(
        method: &str,
        path: &str,
        query: &str,
        headers: Vec<(Option<String>, Vec<u8>)>,
        body: Vec<u8>,
    ) -> (r: Self)
        ensures
            r.method@ == ascii_upper(method@),
            r.path@ == spec_request_path(path@),
            pairs_view(r.query@) == spec_parse_query(query@),
            byte_pairs_view(r.headers@) == carry_names(headers@, seq![]),
            r.body@ == body@,
    {
        let m = chars_to_string(to_ascii_upper(str_chars(method).as_slice()).as_slice());
        let p = if str_chars(path).len() == 0 {
            "/".to_string()
        } else {
            path.to_string()
        };
        let q = parse_query(query);
        let mut hs: Vec<(String, Vec<u8>)> = Vec::new();
        let mut name = String::new();
        let mut i: usize = 0;
        assert(headers@.skip(0) =~= headers@);
        assert(byte_pairs_view(hs@) =~= seq![]);
        while i < headers.len()
            invariant
                i <= headers@.len(),
                byte_pairs_view(hs@) + carry_names(headers@.skip(i as int), name@) == carry_names(
                    headers@,
                    seq![],
                ),
            decreases headers@.len() - i,
        {
            let ghost rest = headers@.skip(i as int);
            assert(rest.skip(1) =~= headers@.skip(i + 1));
            assert(rest[0] == headers@[i as int]);
            match &headers[i].0 {
                Some(n) => {
                    name = n.clone();
                },
                None => {},
            }
            let ghost before = byte_pairs_view(hs@);
            hs.push((name.clone(), headers[i].1.clone()));
            assert(byte_pairs_view(hs@) =~= before.push((name@, headers@[i as int].1@)));
            assert(byte_pairs_view(hs@) + carry_names(headers@.skip(i + 1), name@) =~= before
                + carry_names(rest, if headers@[i as int].0 is Some { name@ } else { name@ }));
            i = i + 1;
        }
        assert(headers@.skip(i as int) =~= seq![]);
        assert(byte_pairs_view(hs@) + seq![] =~= byte_pairs_view(hs@));
        ProcessedRequest { method: m, path: p, query: q, headers: hs, body }
    }
}

/// What a request handler returned.
#[derive(Debug)]
pub enum ResponseInput {
    /// A string: a plain text response.
    Text(Vec<u8>),
    /// A table, with its `status` and `body` fields.
    Table { status: Option<u16>, body: Option<Vec<u8>> },
    /// Any other value, by its type name.
    Other(String),
}

/// A response to send, apart from the headers of a table response.
#[derive(Debug)]
pub struct ResponseParts {
    pub status: u16,
    /// The content type to set, if any.
    pub content_type: Option<String>,
    pub body: Vec<u8>,
}

/// The response that a handler's value gives, or the type name of a value
/// that gives none: text is sent with status 200 as `text/plain`, a table
/// with its status (200 when missing) and its body (empty when missing).
pub fn response_parts(value: ResponseInput) -> (r: Result<ResponseParts, String>)
    ensures
        match value {
            ResponseInput::Text(b) => r matches Ok(p) && p.status == 200 && opt_text(p.content_type)
                == Some("text/plain"@) && p.body@ == b@,
            ResponseInput::Table { status, body } => r matches Ok(p) && p.status == (match status {
                Some(s) => s,
                None => 200,
            }) && p.content_type is None && p.body@ == (match body {
                Some(b) => b@,
                None => seq![],
            }),
            ResponseInput::Other(n) => r matches Err(t) && t@ == n@,
        },
{
    match value {
        ResponseInput::Text(b) => Ok(
            ResponseParts { status: 200, content_type: Some("text/plain".to_string()), body: b },
        ),
        ResponseInput::Table { status, body } => Ok(
            ResponseParts {
                status: match status {
                    Some(s) => s,
                    None => 200,
                },
                content_type: None,
                body: match body {
                    Some(b) => b,
                    None => Vec::new(),
                },
            },
        ),
        ResponseInput::Other(n) => Err(n),
    }
}

/// The configuration argument of `net.serve`.
#[derive(Debug)]
pub enum ServeConfigInput {
    /// A function that handles requests.
    Function,
    /// A table, with whether it has a `handleRequest` and a
    /// `handleWebSocket` function, and its `address`.
    Table { has_request: bool, has_web_socket: bool, address: Option<Vec<u8>> },
    /// Any other value, by its type name.
    Other(String),
}

/// How requests are handled.
#[derive(Debug, Clone, Copy, PartialEq, Eq, Structural)]
pub enum RequestHandler {
    /// By the function that was given.
    Given,
    /// By answering `426 Upgrade Required`: only web sockets are served.
    UpgradeRequired,
}

/// A server configuration.
#[derive(Debug)]
pub struct ServeConfig {
    pub handle_request: RequestHandler,
    pub handle_web_socket: bool,
    pub address: Option<Vec<u8>>,
}

/// A server configuration that cannot be used: the type name of the value,
/// and the message if there is one.
#[derive(Debug)]
pub struct ServeConfigError {
    pub value_kind: String,
    pub message: Option<String>,
}

impl ServeConfig {
    /// Reads the configuration argument of `net.serve`: a function handles
    /// requests; a table needs a request or a web socket handler, and
    /// without a request handler the server answers that an upgrade is
    /// required.
    pub fn from_lua(value: ServeConfigInput) -> (r: Result<Self, ServeConfigError>)
        ensures
            match value {
                ServeConfigInput::Function => r matches Ok(c) && c.handle_request
                    == RequestHandler::Given && !c.handle_web_socket && c.address is None,
                ServeConfigInput::Table { has_request, has_web_socket, address } => if has_request
                    || has_web_socket {
                    r matches Ok(c) && c.handle_request == (if has_request {
                        RequestHandler::Given
                    } else {
                        RequestHandler::UpgradeRequired
                    }) && c.handle_web_socket == has_web_socket && c.address == address
                } else {
                    r matches Err(e) && e.value_kind@ == "table"@ && opt_text(e.message) == Some(
                        "Missing handleRequest and / or handleWebSocket"@,
                    )
                },
                ServeConfigInput::Other(n) => r matches Err(e) && e.value_kind@ == n@
                    && e.message is None,
            },
    {
        match value {
            ServeConfigInput::Function => Ok(
                ServeConfig {
                    handle_request: RequestHandler::Given,
                    handle_web_socket: false,
                    address: None,
                },
            ),
            ServeConfigInput::Table { has_request, has_web_socket, address } => {
                if has_request || has_web_socket {
                    Ok(
                        ServeConfig {
                            handle_request: if has_request {
                                RequestHandler::Given
                            } else {
                                RequestHandler::UpgradeRequired
                            },
                            handle_web_socket: has_web_socket,
                            address,
                        },
                    )
                } else {
                    Err(
                        ServeConfigError {
                            value_kind: "table".to_string(),
                            message: Some(
                                "Missing handleRequest and / or handleWebSocket".to_string(),
                            ),
                        },
                    )
                }
            },
            ServeConfigInput::Other(n) => Err(ServeConfigError { value_kind: n, message: None }),
        }
    }
}

/// Where an incoming request goes.
#[derive(Debug, Clone, Copy, PartialEq, Eq, Structural)]
pub enum Route {
    WebSocket,
    Request,
}

/// Where an incoming request goes: an upgrade request to the web socket
/// handler when there is one, anything else to the request handler.
pub fn route_request(has_web_socket_handler: bool, is_upgrade_request: bool) -> (r: Route)
    ensures
        r == (if has_web_socket_handler && is_upgrade_request {
            Route::WebSocket
        } else {
            Route::Request
        }),
{
    if has_web_socket_handler && is_upgrade_request {
        Route::WebSocket
    } else {
        Route::Request
    }
}

/// The registry keys under which the handlers of the `count`-th server are
/// kept: one for requests and, if there is a web socket handler, one for
/// web sockets.
pub fn serve_keys(count: u64, has_web_socket: bool) -> (r: (String, Option<String>))
    ensures
        r.0@ == "__net_serve_request_"@ + crate::formatting::decimal(count as nat),
        match r.1 {
            Some(k) => has_web_socket && k@ == "__net_serve_websocket_"@
                + crate::formatting::decimal(count as nat),
            None => !has_web_socket,
        },
{
    let digits = crate::formatting::decimal_exec(count);
    let mut request = "__net_serve_request_".to_string();
    crate::text::append_chars(&mut request, digits.as_slice());
    let websocket = if has_web_socket {
        let mut k = "__net_serve_websocket_".to_string();
        crate::text::append_chars(&mut k, digits.as_slice());
        Some(k)
    } else {
        None
    };
    (request, websocket)
}

/// What stopping a server gives: nothing if the stop signal was delivered,
/// else the message that the server was already stopped.
pub fn stop_result(delivered: bool) -> (r: Result<(), String>)
    ensures
        delivered <==> r is Ok,
        r matches Err(m) ==> m@ == "Server already stopped"@,
{
    if delivered {
        Ok(())
    } else {
        Err("Server already stopped".to_string())
    }
}

// ---------------------------------------------------------------------
// User agent

/// The address of the project's repository.
pub open spec fn repository() -> Seq<char> {
    "https://github.com/filiptibell/lune"@
}

/// Text with every leading copy of a prefix removed, as
/// `str::trim_start_matches` with a non-empty string pattern.
pub open spec fn trim_start_matches(s: Seq<char>, p: Seq<char>) -> Seq<char>
    decreases s.len(),
{
    if p.len() > 0 && p.is_prefix_of(s) {
        trim_start_matches(s.skip(p.len() as int), p)
    } else {
        s
    }
}

/// The user agent for a repository address: its owner and name after
/// `https://github.com/`, joined with `-`, and `-cli`.
pub open spec fn spec_user_agent(repo: Seq<char>) -> Option<Seq<char>> {
    let rest = trim_start_matches(repo, "https://github.com/"@);
    match find_char(rest, '/') {
        Some(i) => Some(rest.take(i) + "-"@ + rest.skip(i + 1) + "-cli"@),
        None => None,
    }
}

/// The user agent for a repository address, if it names an owner and a
/// repository.
pub fn user_agent_for(repo: &str) -> (r: Option<String>)
    ensures
        match r {
            Some(s) => spec_user_agent(repo@) == Some(s@),
            None => spec_user_agent(repo@) is None,
        },
{
    let prefix = str_chars("https://github.com/");
    proof {
        reveal_strlit("https://github.com/");
    }
    let mut rest = str_chars(repo);
    while crate::text::starts_with_chars(rest.as_slice(), "https://github.com/")
        invariant
            prefix@ == "https://github.com/"@,
            prefix@.len() == 19,
            trim_start_matches(rest@, prefix@) == trim_start_matches(repo@, prefix@),
        decreases rest@.len(),
    {
        let n = rest.len();
        let ghost old_rest = rest@;
        rest = sub_chars(rest.as_slice(), prefix.len(), n);
        assert(rest@ =~= old_rest.skip(prefix@.len() as int));
    }
    assert(trim_start_matches(rest@, prefix@) == rest@);
    match find_char_exec(rest.as_slice(), '/') {
        Some(i) => {
            let n = rest.len();
            let mut s = chars_to_string(sub_chars(rest.as_slice(), 0, i).as_slice());
            s.append("-");
            s.append(chars_to_string(sub_chars(rest.as_slice(), i + 1, n).as_slice()).as_str());
            s.append("-cli");
            assert(rest@.subrange(0, i as int) =~= rest@.take(i as int));
            assert(rest@.subrange(i + 1, n as int) =~= rest@.skip(i + 1));
            Some(s)
        },
        None => None,
    }
}

/// The user agent that requests carry: `filiptibell-lune-cli`.
pub fn create_user_agent_header() -> (r: String)
    ensures
        spec_user_agent(repository()) == Some(r@),
{
    proof {
        reveal_strlit("https://github.com/filiptibell/lune");
        reveal_strlit("https://github.com/");
        assert("https://github.com/"@.is_prefix_of(repository()));
        assert(repository().skip(19) =~= "filiptibell/lune"@) by {
            reveal_strlit("filiptibell/lune");
        }
    }
    match user_agent_for("https://github.com/filiptibell/lune") {
        Some(s) => s,
        None => {
            proof {
                reveal_strlit("filiptibell/lune");
                assert("filiptibell/lune"@[11] == '/');
                crate::text::lemma_find_char("filiptibell/lune"@, '/');
                assert(!"https://github.com/"@.is_prefix_of("filiptibell/lune"@));
                assert(trim_start_matches("filiptibell/lune"@, "https://github.com/"@)
                    == "filiptibell/lune"@);
                assert(trim_start_matches(repository(), "https://github.com/"@)
                    == "filiptibell/lune"@);
            }
            String::new()
        },
    }
}

} // verus!
