//! The parts of HTTP that routing reads and writes: URLs, header names and
//! values, and header maps, as the `http` crate has them.

use vstd::prelude::*;
use vstd::utf8::*;

use crate::text::{lowered, strip_left, strip_right, stripping_leaves_the_rest};

verus! {

/// `http::HeaderMap`: a multimap from header names to values.
#[verifier::external_type_specification]
#[verifier::external_body]
#[verifier::reject_recursive_types(T)]
pub struct ExHeaderMap<T>(http::HeaderMap<T>);

/// `http::HeaderValue`: one header value.
#[verifier::external_type_specification]
#[verifier::external_body]
pub struct ExHeaderValue(http::HeaderValue);

/// One header value: its bytes, and whether it is marked as sensitive.
pub struct HeaderField {
    pub bytes: Seq<u8>,
    pub sensitive: bool,
}

/// What a header map holds: under each lower-case name its values in order.
pub uninterp spec fn header_fields(
    headers: http::HeaderMap<http::HeaderValue>,
) -> Map<Seq<char>, Seq<HeaderField>>;

/// The authority of a URL.
#[derive(Debug, Clone)]
pub struct AuthorityParts {
    /// The authority as written.
    pub text: String,
    /// The host, with the brackets of an IP literal.
    pub host: String,
    /// The port, where one is written and fits.
    pub port: Option<u16>,
}

/// The components of a URL.
#[derive(Debug, Clone)]
pub struct UriParts {
    /// The scheme; absent from a relative reference.
    pub scheme: Option<String>,
    /// The authority; absent from a relative reference.
    pub authority: Option<AuthorityParts>,
    /// Path and query as written.
    pub path_and_query: Option<String>,
    /// The path.
    pub path: String,
    /// The query, without its question mark.
    pub query: Option<String>,
}

/// The content of an [`AuthorityParts`].
pub struct AuthorityView {
    pub text: Seq<char>,
    pub host: Seq<char>,
    pub port: Option<u16>,
}

/// The content of a [`UriParts`].
pub struct UriView {
    pub scheme: Option<Seq<char>>,
    pub authority: Option<AuthorityView>,
    pub path_and_query: Option<Seq<char>>,
    pub path: Seq<char>,
    pub query: Option<Seq<char>>,
}

/// The text in an optional string.
pub open spec fn opt_text(text: Option<String>) -> Option<Seq<char>> {
    match text {
        Some(found) => Some(found@),
        None => None,
    }
}

impl View for AuthorityParts {
    type V = AuthorityView;

    open spec fn view(&self) -> AuthorityView {
        AuthorityView { text: self.text@, host: self.host@, port: self.port }
    }
}

impl View for UriParts {
    type V = UriView;

    open spec fn view(&self) -> UriView {
        UriView {
            scheme: opt_text(self.scheme),
            authority: match self.authority {
                Some(authority) => Some(authority@),
                None => None,
            },
            path_and_query: opt_text(self.path_and_query),
            path: self.path@,
            query: opt_text(self.query),
        }
    }
}

/// What parsing a text as an `http::Uri` gives: its components, or the text of
/// the error.
pub uninterp spec fn parsed_uri(text: Seq<char>) -> Result<UriView, Seq<char>>;

/// The outcome of a URL parse, by content.
pub open spec fn uri_outcome(parsed: Result<UriParts, String>) -> Result<UriView, Seq<char>> {
    match parsed {
        Ok(parts) => Ok(parts@),
        Err(message) => Err(message@),
    }
}

/// A copy of a URL's components.
pub fn copy_uri(uri: &UriParts) -> (r: UriParts)
    ensures
        r@ == uri@,
{
    UriParts {
        scheme: copy_text(&uri.scheme),
        authority: match &uri.authority {
            Some(authority) => Some(
                AuthorityParts {
                    text: authority.text.clone(),
                    host: authority.host.clone(),
                    port: authority.port,
                },
            ),
            None => None,
        },
        path_and_query: copy_text(&uri.path_and_query),
        path: uri.path.clone(),
        query: copy_text(&uri.query),
    }
}

/// A copy of an optional text.
pub fn copy_text(text: &Option<String>) -> (r: Option<String>)
    ensures
        opt_text(r) == opt_text(*text),
{
    match text {
        Some(found) => Some(found.clone()),
        None => None,
    }
}

/// The request target of a URL: its path and query, or the root.
pub open spec fn request_target(uri: UriView) -> Seq<char> {
    match uri.path_and_query {
        Some(text) => text,
        None => "/"@,
    }
}

/// A host without the brackets of an IP literal.
pub open spec fn bare_host(host: Seq<char>) -> Seq<char> {
    strip_right(strip_left(host, '['), ']')
}

/// The request target of a URL: its path and query, or the root.
pub fn target_text(parsed: &UriParts) -> (r: String)
    ensures
        r@ == request_target(parsed@),
{
    match &parsed.path_and_query {
        Some(text) => text.clone(),
        None => "/".to_owned(),
    }
}

/// Whether `c` may stand in a header name.
pub open spec fn is_token_char(c: char) -> bool {
    ||| 'a' <= c <= 'z'
    ||| 'A' <= c <= 'Z'
    ||| '0' <= c <= '9'
    ||| c == '!' || c == '#' || c == '$' || c == '%' || c == '&' || c == '\''
    ||| c == '*' || c == '+' || c == '-' || c == '.' || c == '^' || c == '_'
    ||| c == '`' || c == '|' || c == '~'
}

/// Whether `name` is a valid header name.
pub open spec fn is_header_name(name: Seq<char>) -> bool {
    &&& 0 < name.len() <= 65_535
    &&& forall|i: int| 0 <= i < name.len() ==> is_token_char(#[trigger] name[i])
}

/// Whether `value` is accepted as a header value: no control character but the
/// tab stands in it.
pub open spec fn is_header_value(value: Seq<char>) -> bool {
    forall|i: int|
        0 <= i < value.len() ==> {
            let c = #[trigger] value[i];
            c == '\t' || (' ' <= c && c != '\u{7f}')
        }
}

/// Whether `byte` is visible ASCII, a blank or a tab.
pub open spec fn is_visible(byte: u8) -> bool {
    32 <= byte < 127 || byte == 9
}

/// The text of a header value that is visible ASCII throughout.
pub open spec fn visible_text(bytes: Seq<u8>) -> Option<Seq<char>> {
    if forall|i: int| 0 <= i < bytes.len() ==> is_visible(#[trigger] bytes[i]) {
        Some(Seq::new(bytes.len(), |i: int| bytes[i] as char))
    } else {
        None
    }
}

/// The text of the first value under `name`, where there is one and it is
/// visible ASCII.
pub open spec fn header_text(
    fields: Map<Seq<char>, Seq<HeaderField>>,
    name: Seq<char>,
) -> Option<Seq<char>> {
    if fields.contains_key(lowered(name)) {
        visible_text(fields[lowered(name)][0].bytes)
    } else {
        None
    }
}

/// The content of a header map that holds nothing.
pub open spec fn no_fields() -> Map<Seq<char>, Seq<HeaderField>> {
    Map::empty()
}

/// `fields` with `value` as the only value under `name`.
pub open spec fn with_header(
    fields: Map<Seq<char>, Seq<HeaderField>>,
    name: Seq<char>,
    value: Seq<char>,
    sensitive: bool,
) -> Map<Seq<char>, Seq<HeaderField>> {
    fields.insert(lowered(name), seq![HeaderField { bytes: encode_utf8(value), sensitive }])
}

/// `str::parse::<http::Uri>`, with `Uri::scheme_str`, `Uri::authority`,
/// `Authority::host`, `Authority::port_u16`, `Uri::path_and_query`, `Uri::path`
/// and `Uri::query` of the result. The outcome is named.
#[verifier::external_body]
pub(crate) fn parse_uri(text: &str) -> (r: Result<UriParts, String>)
    ensures
        uri_outcome(r) == parsed_uri(text@),
{
    match text.parse::<http::Uri>() {
        Ok(uri) => Ok(UriParts {
            scheme: uri.scheme_str().map(str::to_owned),
            authority: uri.authority().map(|found| AuthorityParts {
                text: found.as_str().to_owned(),
                host: found.host().to_owned(),
                port: found.port_u16(),
            }),
            path_and_query: uri.path_and_query().map(|found| found.as_str().to_owned()),
            path: uri.path().to_owned(),
            query: uri.query().map(str::to_owned),
        }),
        Err(error) => Err(error.to_string()),
    }
}

/// `http::HeaderName::from_bytes`: accepts up to 65535 token characters and
/// makes the name lower case.
#[verifier::external_body]
pub(crate) fn header_name(name: &str) -> (r: Result<String, String>)
    ensures
        r is Ok <==> is_header_name(name@),
        r matches Ok(accepted) ==> accepted@ == lowered(name@),
        r matches Err(message) ==> message@ == "invalid HTTP header name"@,
{
    match http::HeaderName::from_bytes(name.as_bytes()) {
        Ok(accepted) => Ok(accepted.as_str().to_owned()),
        Err(error) => Err(error.to_string()),
    }
}

/// `http::HeaderValue::from_str`: refuses control characters other than the
/// tab, and nothing else.
#[verifier::external_body]
pub(crate) fn check_header_value(value: &str) -> (r: Result<(), String>)
    ensures
        r is Ok <==> is_header_value(value@),
        r matches Err(message) ==> message@ == "failed to parse header value"@,
{
    match http::HeaderValue::from_str(value) {
        Ok(_accepted) => Ok(()),
        Err(error) => Err(error.to_string()),
    }
}

/// `http::HeaderMap::new`: an empty header map.
#[verifier::external_body]
pub(crate) fn new_headers() -> (r: http::HeaderMap<http::HeaderValue>)
    ensures
        header_fields(r) == no_fields(),
{
    http::HeaderMap::new()
}

/// `http::HeaderMap::insert`, with `HeaderValue::set_sensitive` on the value
/// first: the value replaces every value under the name. A map with far fewer
/// names than the limit of 24576 does not outgrow it.
#[verifier::external_body]
pub(crate) fn insert_header(
    headers: &mut http::HeaderMap<http::HeaderValue>,
    name: &str,
    value: &str,
    sensitive: bool,
)
    requires
        is_header_name(name@),
        is_header_value(value@),
        header_fields(*old(headers)).dom().finite(),
        header_fields(*old(headers)).len() < 3_000,
    ensures
        header_fields(*final(headers)) == with_header(
            header_fields(*old(headers)),
            name@,
            value@,
            sensitive,
        ),
{
    let key = http::HeaderName::from_bytes(name.as_bytes()).unwrap();
    let mut field = http::HeaderValue::from_str(value).unwrap();
    field.set_sensitive(sensitive);
    headers.insert(key, field);
}

/// `http::HeaderMap::get` and `http::HeaderValue::to_str`: the first value
/// under the name, as text where it is visible ASCII.
#[verifier::external_body]
pub(crate) fn header_value_text(
    headers: &http::HeaderMap<http::HeaderValue>,
    name: &str,
) -> (r: Option<String>)
    requires
        is_header_name(name@),
    ensures
        opt_text(r) == header_text(header_fields(*headers), name@),
{
    match headers.get(name) {
        Some(value) => value.to_str().ok().map(str::to_owned),
        None => None,
    }
}

/// Whether the first value under the header `name` is visible ASCII and reads
/// `text`.
pub open spec fn carries_header(
    fields: Map<Seq<char>, Seq<HeaderField>>,
    name: Seq<char>,
    text: Seq<char>,
) -> bool {
    &&& fields.contains_key(lowered(name))
    &&& fields[lowered(name)][0].bytes.len() == text.len()
    &&& forall|i: int|
        0 <= i < text.len() ==> fields[lowered(name)][0].bytes[i] as char == (#[trigger] text[i])
            && (' ' <= text[i] <= '~' || text[i] == '\t')
}

/// A header is read by its first value, under its name in lower case: a value of
/// visible ASCII is read character for character, however long it is; any other
/// value, and a name without one, is not read at all.
pub proof fn a_header_is_read_whole(
    fields: Map<Seq<char>, Seq<HeaderField>>,
    name: Seq<char>,
    text: Seq<char>,
)
    ensures
        !fields.contains_key(lowered(name)) ==> header_text(fields, name) is None,
        fields.contains_key(lowered(name)) && fields[lowered(name)][0].bytes.len() == text.len()
            && (forall|i: int|
            0 <= i < text.len() ==> fields[lowered(name)][0].bytes[i] as char == (
            #[trigger] text[i]) && (' ' <= text[i] <= '~' || text[i] == '\t')) ==> header_text(
            fields,
            name,
        ) == Some(text),
        fields.contains_key(lowered(name)) && (exists|i: int|
            0 <= i < fields[lowered(name)][0].bytes.len() && !(32 <= (
            #[trigger] fields[lowered(name)][0].bytes[i]) <= 126 || fields[lowered(
                name,
            )][0].bytes[i] == 9)) ==> header_text(fields, name) is None,
{
    let bytes = fields[lowered(name)][0].bytes;
    if bytes.len() == text.len() && (forall|i: int|
        0 <= i < text.len() ==> bytes[i] as char == (#[trigger] text[i]) && (' ' <= text[i] <= '~'
            || text[i] == '\t')) {
        assert forall|i: int| 0 <= i < bytes.len() implies is_visible(#[trigger] bytes[i]) by {
            let c = text[i];
        }
        assert(Seq::new(bytes.len(), |i: int| bytes[i] as char) =~= text);
    }
}

/// A header that is set is read back under its name in any case, and leaves the
/// others as they are.
pub proof fn a_header_that_is_set_reads_back(
    fields: Map<Seq<char>, Seq<HeaderField>>,
    name: Seq<char>,
    value: Seq<char>,
    sensitive: bool,
    other: Seq<char>,
)
    requires
        forall|i: int| 0 <= i < value.len() ==> ' ' <= (#[trigger] value[i]) <= '~',
    ensures
        ({
            let after = with_header(fields, name, value, sensitive);
            &&& header_text(after, name) == Some(value)
            &&& after.contains_key(lowered(name))
            &&& after[lowered(name)].len() == 1
            &&& after[lowered(name)][0].sensitive == sensitive
            &&& lowered(other) == lowered(name) ==> header_text(after, other) == Some(value)
            &&& lowered(other) != lowered(name) ==> header_text(after, other) == header_text(
                fields,
                other,
            )
        }),
{
    let bytes = encode_utf8(value);
    assert(is_ascii_chars(value));
    is_ascii_chars_encode_utf8(value);
    assert forall|i: int| 0 <= i < bytes.len() implies is_visible(#[trigger] bytes[i]) by {
        assert(' ' <= value[i] <= '~');
        assert(value[i] as u8 == bytes[i]);
    }
    assert(visible_text(bytes)->Some_0 =~= value) by {
        assert forall|i: int| 0 <= i < value.len() implies visible_text(bytes)->Some_0[i]
            == value[i] by {
            assert(' ' <= value[i] <= '~');
            assert(value[i] as u8 == bytes[i]);
        }
    }
}

/// Header names are made of visible ASCII without the delimiters, 1 to 65535
/// characters long; header values hold no control character but the tab.
pub proof fn header_names_and_values_are_checked(name: Seq<char>, value: Seq<char>)
    ensures
        is_header_name(name) <==> 1 <= name.len() < 65_536 && forall|i: int|
            0 <= i < name.len() ==> '!' <= (#[trigger] name[i]) <= '~' && !seq![
                '"',
                '(',
                ')',
                ',',
                '/',
                ':',
                ';',
                '<',
                '=',
                '>',
                '?',
                '@',
                '[',
                '\\',
                ']',
                '{',
                '}',
            ].contains(name[i]),
        is_header_value(value) <==> forall|i: int|
            0 <= i < value.len() ==> (#[trigger] value[i]) == '\u{9}' || (value[i] > '\u{1f}'
                && value[i] != '\u{7f}'),
{
    let delimiters = seq![
        '"',
        '(',
        ')',
        ',',
        '/',
        ':',
        ';',
        '<',
        '=',
        '>',
        '?',
        '@',
        '[',
        '\\',
        ']',
        '{',
        '}',
    ];
    assert forall|c: char| #[trigger] is_token_char(c) == ('!' <= c <= '~'
        && !delimiters.contains(c)) by {
        if '!' <= c <= '~' && !is_token_char(c) {
            let at: int = if c == '"' {
                0
            } else if c == '(' {
                1
            } else if c == ')' {
                2
            } else if c == ',' {
                3
            } else if c == '/' {
                4
            } else if c == ':' {
                5
            } else if c == ';' {
                6
            } else if c == '<' {
                7
            } else if c == '=' {
                8
            } else if c == '>' {
                9
            } else if c == '?' {
                10
            } else if c == '@' {
                11
            } else if c == '[' {
                12
            } else if c == '\\' {
                13
            } else if c == ']' {
                14
            } else if c == '{' {
                15
            } else {
                16
            };
            assert(delimiters[at] == c);
        }
    }
    if is_header_name(name) {
        assert forall|i: int| 0 <= i < name.len() implies '!' <= (#[trigger] name[i]) <= '~'
            && !delimiters.contains(name[i]) by {
            assert(is_token_char(name[i]));
        }
    }
}

/// A host is taken out of its brackets, and one without brackets stays as it is.
pub proof fn brackets_are_taken_off_a_host(host: Seq<char>)
    requires
        host.len() > 0,
        host[0] != '[',
        host.last() != ']',
    ensures
        bare_host(host) == host,
        bare_host(seq!['['] + host + seq![']']) == host,
{
    let ones = Seq::new(1, |i: int| '[');
    let tail = Seq::new(1, |i: int| ']');
    assert(ones =~= seq!['[']);
    assert(tail =~= seq![']']);
    stripping_leaves_the_rest(host + seq![']'], '[', 1);
    stripping_leaves_the_rest(host, ']', 1);
    assert(seq!['['] + host + seq![']'] =~= ones + (host + seq![']']));
    assert((host + seq![']'])[0] == host[0]);
}

/// The request target is the path and query as written, and the root where
/// there is none; copies of a URL's components are the same.
pub proof fn the_request_target_is_as_written(
    uri: UriParts,
    r: String,
    copied: UriParts,
    text: Option<String>,
    same: Option<String>,
)
    requires
        call_ensures(target_text, (&uri,), r),
        call_ensures(copy_uri, (&uri,), copied),
        call_ensures(copy_text, (&text,), same),
    ensures
        uri.path_and_query matches Some(target) ==> r@ == target@ && request_target(uri@) == target@,
        uri.path_and_query is None ==> r@ == "/"@ && request_target(uri@) == "/"@,
        copied.path@ == uri.path@,
        copied.scheme is Some == uri.scheme is Some,
        uri.scheme is Some ==> copied.scheme->Some_0@ == uri.scheme->Some_0@,
        copied.query is Some == uri.query is Some,
        uri.query is Some ==> copied.query->Some_0@ == uri.query->Some_0@,
        copied.path_and_query is Some == uri.path_and_query is Some,
        uri.path_and_query is Some ==> copied.path_and_query->Some_0@ == uri.path_and_query->Some_0@,
        copied.authority is Some == uri.authority is Some,
        uri.authority is Some ==> {
            &&& copied.authority->Some_0.text@ == uri.authority->Some_0.text@
            &&& copied.authority->Some_0.host@ == uri.authority->Some_0.host@
            &&& copied.authority->Some_0.port == uri.authority->Some_0.port
        },
        same is Some == text is Some,
        text is Some ==> same->Some_0@ == text->Some_0@,
{
    let a = copied@;
    let b = uri@;
    assert(a.scheme == b.scheme && a.query == b.query && a.path_and_query == b.path_and_query
        && a.authority == b.authority && a.path == b.path);
    assert(opt_text(same) == opt_text(text));
    if uri.authority is Some {
        assert(a.authority == Some(uri.authority->Some_0@));
        assert(copied.authority->Some_0@ == uri.authority->Some_0@);
    }
}

} // verus!
