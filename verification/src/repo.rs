//! Repository content and code-search requests: the raw-content URL of a
//! file, inline image previews, and repository-scoped code search.

use crate::text::{after_last, ascii_lower, before_first, contains_str, lowercase_extension, occurs_in, prefix_before, push_char, str_equal};
use base64::Engine;
use url::Url;
use vstd::prelude::*;
use vstd::string::{StringExecFns, StringSliceAdditionalSpecFns};
use vstd::utf8::encode_utf8;

verus! {

/// GitHub's REST API root.
pub const REST_URL: &'static str = "https://api.github.com";

/// Images above this many bytes are not decoded in the app.
pub const MAX_INLINE_IMAGE_BYTES: u64 = 5_000_000;

// ---------------------------------------------------------------------------
// application/x-www-form-urlencoded
// ---------------------------------------------------------------------------

/// Bytes the form-urlencoded serializer leaves as they are.
pub open spec fn form_unchanged(b: u8) -> bool {
    b == 42 || b == 45 || b == 46 || (48 <= b && b <= 57) || (65 <= b && b <= 90) || b == 95 || (97
        <= b && b <= 122)
}

/// An upper-case hexadecimal digit.
pub open spec fn hex_upper(v: u8) -> char {
    if v < 10 {
        (48 + v) as char
    } else {
        (55 + v) as char
    }
}

/// The serialization of one byte: unchanged, `+` for a space, `%XX` otherwise.
pub open spec fn form_encode_byte(b: u8) -> Seq<char> {
    if form_unchanged(b) {
        seq![b as char]
    } else if b == 32 {
        seq!['+']
    } else {
        seq!['%', hex_upper(b / 16), hex_upper(b % 16)]
    }
}

/// The application/x-www-form-urlencoded byte serializer.
pub open spec fn form_urlencoded(bytes: Seq<u8>) -> Seq<char>
    decreases bytes.len(),
{
    if bytes.len() == 0 {
        Seq::empty()
    } else {
        form_urlencoded(bytes.drop_last()) + form_encode_byte(bytes.last())
    }
}

/// `form_urlencoded::byte_serialize`, collected into a string: each byte
/// that is alphanumeric or one of `*-._` is kept, a space becomes `+`, and any
/// other byte becomes `%` and two upper-case hexadecimal digits.
#[verifier::external_body]
fn form_urlencode(bytes: &[u8]) -> (res: String)
    ensures
        res@ == form_urlencoded(bytes@),
{
    url::form_urlencoded::byte_serialize(bytes).collect::<String>()
}

/// A path's bytes with every segment form-urlencoded and the `/` separators
/// kept.
pub open spec fn encoded_path(bytes: Seq<u8>) -> Seq<char>
    decreases bytes.len(),
{
    if bytes.len() == 0 {
        Seq::empty()
    } else {
        encoded_path(bytes.drop_last()) + if bytes.last() == 47 {
            seq!['/']
        } else {
            form_encode_byte(bytes.last())
        }
    }
}

/// Encodes a repository path for a contents URL: each `/`-separated segment
/// is form-urlencoded and the segments are joined with `/` again.
pub fn encode_content_path(path: &str) -> (res: String)
    ensures
        res@ == encoded_path(path.spec_bytes()),
{
    let bytes = path.as_bytes();
    let n = bytes.len();
    let mut out = String::new();
    let mut segment: Vec<u8> = Vec::new();
    let mut i: usize = 0;
    while i < n
        invariant
            n == bytes@.len(),
            i <= n,
            out@ + form_urlencoded(segment@) == encoded_path(bytes@.subrange(0, i as int)),
        decreases n - i,
    {
        let b = bytes[i];
        let ghost before_out = out@;
        let ghost before_seg = segment@;
        assert(bytes@.subrange(0, i + 1).drop_last() =~= bytes@.subrange(0, i as int));
        if b == 47 {
            let encoded = form_urlencode(segment.as_slice());
            out.append(encoded.as_str());
            out.append("/");
            segment = Vec::new();
            proof {
                reveal_strlit("/");
                assert("/"@ =~= seq!['/']);
                assert(form_urlencoded(segment@) =~= Seq::<char>::empty());
                assert(out@ + form_urlencoded(segment@) =~= before_out + form_urlencoded(before_seg)
                    + seq!['/']);
            }
        } else {
            segment.push(b);
            proof {
                assert(segment@.drop_last() =~= before_seg);
                assert(out@ + form_urlencoded(segment@) =~= before_out + form_urlencoded(before_seg)
                    + form_encode_byte(b));
            }
        }
        i = i + 1;
    }
    let encoded = form_urlencode(segment.as_slice());
    out.append(encoded.as_str());
    assert(bytes@.subrange(0, n as int) =~= bytes@);
    out
}

/// The git reference a blob expression names: the text before its first
/// `:`, or `HEAD` when it has none.
pub open spec fn content_ref_spec(expression: Seq<char>) -> Seq<char> {
    match before_first(expression, ':') {
        Some(r) => r,
        None => "HEAD"@,
    }
}

/// The git reference of a blob expression such as `main:src/lib.rs`.
pub fn content_ref(expression: &str) -> (res: &str)
    ensures
        res@ == content_ref_spec(expression@),
{
    match prefix_before(expression, ':') {
        Some(r) => r,
        None => "HEAD",
    }
}

/// The raw-content URL of a file:
/// `{REST}/repos/{owner}/{name}/contents/{encoded path}?ref={encoded ref}`.
pub open spec fn content_url_spec(
    owner: Seq<char>,
    name: Seq<char>,
    expression: Seq<char>,
    path_bytes: Seq<u8>,
) -> Seq<char> {
    "https://api.github.com/repos/"@ + owner + "/"@ + name + "/contents/"@ + encoded_path(path_bytes)
        + "?ref="@ + form_urlencoded(encode_utf8(content_ref_spec(expression)))
}

/// The raw-content URL for a file of a repository at the reference that the
/// blob expression names.
pub fn content_request_url(owner: &str, name: &str, expression: &str, path: &str) -> (res: String)
    ensures
        res@ == content_url_spec(owner@, name@, expression@, path.spec_bytes()),
{
    let reference = content_ref(expression);
    let encoded_ref = form_urlencode(reference.as_bytes());
    let encoded_path = encode_content_path(path);
    let mut url = String::from_str("https://api.github.com/repos/");
    url.append(owner);
    url.append("/");
    url.append(name);
    url.append("/contents/");
    url.append(encoded_path.as_str());
    url.append("?ref=");
    url.append(encoded_ref.as_str());
    assert(url@ =~= content_url_spec(owner@, name@, expression@, path.spec_bytes()));
    url
}

/// Whether a repository overview asks a second time for its README, as
/// `HEAD:README` without extension: exactly when the first query, for
/// `HEAD:README.md`, found no README object.
pub fn readme_fallback_needed(readme_found: bool) -> (res: bool)
    ensures
        res == !readme_found,
{
    !readme_found
}

// ---------------------------------------------------------------------------
// Inline image previews
// ---------------------------------------------------------------------------

/// The MIME type of a previewable image extension.
pub open spec fn image_mime_spec(extension: Seq<char>) -> Option<Seq<char>> {
    if extension == "png"@ {
        Some("image/png"@)
    } else if extension == "jpg"@ || extension == "jpeg"@ {
        Some("image/jpeg"@)
    } else if extension == "svg"@ {
        Some("image/svg+xml"@)
    } else if extension == "webp"@ {
        Some("image/webp"@)
    } else {
        None
    }
}

/// A file's extension: the text after its last `.` (all of it when there is
/// none), lower-cased.
pub open spec fn extension_spec(path: Seq<char>) -> Seq<char> {
    ascii_lower(after_last(path, '.'))
}

/// The MIME type under which a file is previewed as an image, if any.
pub fn image_mime_type(path: &str) -> (res: Option<&'static str>)
    ensures
        match res {
            Some(m) => image_mime_spec(extension_spec(path@)) == Some(m@),
            None => image_mime_spec(extension_spec(path@)) is None,
        },
{
    let extension = lowercase_extension(path);
    let e = extension.as_str();
    if str_equal(e, "png") {
        Some("image/png")
    } else if str_equal(e, "jpg") || str_equal(e, "jpeg") {
        Some("image/jpeg")
    } else if str_equal(e, "svg") {
        Some("image/svg+xml")
    } else if str_equal(e, "webp") {
        Some("image/webp")
    } else {
        None
    }
}

/// Whether a file's bytes are fetched for an inline preview: it must be a
/// previewable raster image (not SVG) of at most `MAX_INLINE_IMAGE_BYTES`
/// bytes by its reported size (a missing size counts as 0).
pub fn should_fetch_image_bytes(path: &str, byte_size: Option<u64>) -> (res: bool)
    ensures
        res == (image_mime_spec(extension_spec(path@)) is Some && extension_spec(path@) != "svg"@
            && match byte_size {
            Some(s) => s <= MAX_INLINE_IMAGE_BYTES,
            None => true,
        }),
{
    let mime = image_mime_type(path);
    let extension = lowercase_extension(path);
    let size = match byte_size {
        Some(s) => s,
        None => 0,
    };
    !(mime.is_none() || str_equal(extension.as_str(), "svg") || size > MAX_INLINE_IMAGE_BYTES)
}

/// A base64 digit of the standard alphabet.
pub open spec fn base64_symbol(v: int) -> char {
    if v < 26 {
        (65 + v) as char
    } else if v < 52 {
        (97 + v - 26) as char
    } else if v < 62 {
        (48 + v - 52) as char
    } else if v == 62 {
        '+'
    } else {
        '/'
    }
}

/// Standard base64 with padding (RFC 4648, section 4).
pub open spec fn base64_standard(b: Seq<u8>) -> Seq<char>
    decreases b.len(),
{
    if b.len() == 0 {
        Seq::empty()
    } else {
        let b0 = b[0] as int;
        let b1 = if b.len() > 1 { b[1] as int } else { 0 };
        let b2 = if b.len() > 2 { b[2] as int } else { 0 };
        if b.len() == 1 {
            seq![base64_symbol(b0 / 4), base64_symbol((b0 % 4) * 16), '=', '=']
        } else if b.len() == 2 {
            seq![
                base64_symbol(b0 / 4),
                base64_symbol((b0 % 4) * 16 + b1 / 16),
                base64_symbol((b1 % 16) * 4),
                '=',
            ]
        } else {
            seq![
                base64_symbol(b0 / 4),
                base64_symbol((b0 % 4) * 16 + b1 / 16),
                base64_symbol((b1 % 16) * 4 + b2 / 64),
                base64_symbol(b2 % 64),
            ] + base64_standard(b.skip(3))
        }
    }
}

/// `base64::engine::general_purpose::STANDARD.encode`: standard alphabet,
/// with padding.
#[verifier::external_body]
fn encode_base64(bytes: &[u8]) -> (res: String)
    ensures
        res@ == base64_standard(bytes@),
{
    base64::engine::general_purpose::STANDARD.encode(bytes)
}

/// The base64 text embedded for an image preview; `None` when the image is
/// larger than `MAX_INLINE_IMAGE_BYTES`.
pub fn inline_image_content(bytes: &[u8]) -> (res: Option<String>)
    ensures
        bytes@.len() > MAX_INLINE_IMAGE_BYTES ==> res is None,
        bytes@.len() <= MAX_INLINE_IMAGE_BYTES ==> (res matches Some(t) && t@ == base64_standard(bytes@)),
{
    if bytes.len() as u64 > MAX_INLINE_IMAGE_BYTES {
        None
    } else {
        Some(encode_base64(bytes))
    }
}

// ---------------------------------------------------------------------------
// Repository code search
// ---------------------------------------------------------------------------

/// A code search request scoped to one repository.
pub struct CodeSearchRequest {
    pub query: String,
    pub page: u32,
    pub per_page: u32,
}

/// The qualifier that scopes a search to a repository.
pub open spec fn repository_qualifier(owner: Seq<char>, name: Seq<char>) -> Seq<char> {
    "repo:"@ + owner + "/"@ + name
}

/// The query sent: the user's query, with the repository qualifier appended
/// after a space unless the query already contains it.
pub open spec fn scoped_query(query: Seq<char>, owner: Seq<char>, name: Seq<char>) -> Seq<char> {
    let qualifier = repository_qualifier(owner, name);
    if occurs_in(query, qualifier) {
        query
    } else {
        query + " "@ + qualifier
    }
}

/// Scopes a code search to a repository, with the page at least 1 and the
/// page size within 1..=100.
pub fn plan_code_search(owner: &str, name: &str, query: &str, page: u32, per_page: u32) -> (res:
    CodeSearchRequest)
    ensures
        res.query@ == scoped_query(query@, owner@, name@),
        res.page == if page < 1 {
            1
        } else {
            page
        },
        res.per_page == if per_page < 1 {
            1
        } else if per_page > 100 {
            100
        } else {
            per_page
        },
{
    let mut qualifier = String::from_str("repo:");
    qualifier.append(owner);
    qualifier.append("/");
    qualifier.append(name);
    assert(qualifier@ =~= repository_qualifier(owner@, name@));
    let effective = if contains_str(query, qualifier.as_str()) {
        String::from_str(query)
    } else {
        let mut q = String::from_str(query);
        q.append(" ");
        q.append(qualifier.as_str());
        assert(q@ =~= query@ + " "@ + qualifier@);
        q
    };
    let bounded_page = if page < 1 {
        1
    } else {
        page
    };
    let bounded_per_page = if per_page < 1 {
        1
    } else if per_page > 100 {
        100
    } else {
        per_page
    };
    CodeSearchRequest { query: effective, page: bounded_page, per_page: bounded_per_page }
}

/// The decimal digits of a number, as `Display` writes them.
pub open spec fn decimal_digits(n: nat) -> Seq<char>
    decreases n,
{
    if n < 10 {
        seq![(48 + n) as char]
    } else {
        decimal_digits(n / 10).push((48 + n % 10) as char)
    }
}

/// Writes a number in decimal.
pub fn decimal_text(n: u32) -> (res: String)
    ensures
        res@ == decimal_digits(n as nat),
    decreases n,
{
    let digit = ((n % 10) as u8 + 48) as char;
    if n < 10 {
        let mut s = String::new();
        push_char(&mut s, digit);
        assert(s@ =~= seq![(48 + n) as char]);
        s
    } else {
        let mut s = decimal_text(n / 10);
        push_char(&mut s, digit);
        s
    }
}

/// The URL that `Url::parse_with_params` builds from a base URL and query
/// pairs; `None` when the base does not parse.
pub uninterp spec fn url_with_params(base: Seq<char>, params: Seq<(Seq<char>, Seq<char>)>) -> Option<Seq<char>>;

/// Name/value pairs by their characters.
pub open spec fn pair_views(params: Seq<(String, String)>) -> Seq<(Seq<char>, Seq<char>)> {
    Seq::new(params.len(), |i: int| (params[i].0@, params[i].1@))
}

/// `Url::parse_with_params`, with the URL handed back in its serialized form
/// and a parse error as its message.
#[verifier::external_body]
fn parse_url_with_params(base: &str, params: &Vec<(String, String)>) -> (res: Result<String, String>)
    ensures
        match res {
            Ok(u) => url_with_params(base@, pair_views(params@)) == Some(u@),
            Err(_) => url_with_params(base@, pair_views(params@)) is None,
        },
{
    match Url::parse_with_params(base, params.iter()) {
        Ok(url) => Ok(url.to_string()),
        Err(error) => Err(error.to_string()),
    }
}

/// The code-search endpoint.
pub const SEARCH_CODE_URL: &'static str = "https://api.github.com/search/code";

/// The query pairs of a code search: `q`, `page`, `per_page`.
pub open spec fn search_params(request: CodeSearchRequest) -> Seq<(Seq<char>, Seq<char>)> {
    seq![
        ("q"@, request.query@),
        ("page"@, decimal_digits(request.page as nat)),
        ("per_page"@, decimal_digits(request.per_page as nat)),
    ]
}

/// The URL of a code search request.
pub fn code_search_url(request: &CodeSearchRequest) -> (res: Result<String, String>)
    ensures
        match res {
            Ok(u) => url_with_params(SEARCH_CODE_URL@, search_params(*request)) == Some(u@),
            Err(_) => url_with_params(SEARCH_CODE_URL@, search_params(*request)) is None,
        },
{
    let mut params: Vec<(String, String)> = Vec::new();
    params.push((String::from_str("q"), request.query.clone()));
    params.push((String::from_str("page"), decimal_text(request.page)));
    params.push((String::from_str("per_page"), decimal_text(request.per_page)));
    assert(pair_views(params@) =~= search_params(*request));
    parse_url_with_params(SEARCH_CODE_URL, &params)
}

/// The number a run of decimal digit characters spells.
pub open spec fn digits_value(s: Seq<char>) -> int
    decreases s.len(),
{
    if s.len() == 0 {
        0
    } else {
        digits_value(s.drop_last()) * 10 + (s.last() as int - 48)
    }
}

/// Every character is a decimal digit.
pub open spec fn all_decimal_digits(s: Seq<char>) -> bool {
    forall|i: int| 0 <= i < s.len() ==> '0' <= #[trigger] s[i] && s[i] <= '9'
}

proof fn lemma_decimal_digits_read_back(n: nat)
    ensures
        digits_value(decimal_digits(n)) == n,
        all_decimal_digits(decimal_digits(n)),
        decimal_digits(n).len() > 0,
    decreases n,
{
    if n < 10 {
        assert(((48 + n) as char) as int == 48 + n);
        let d = decimal_digits(n);
        assert(d.drop_last() =~= Seq::<char>::empty());
        assert(digits_value(d.drop_last()) == 0);
        assert(d.last() == (48 + n) as char);
        assert(digits_value(d) == digits_value(d.drop_last()) * 10 + (d.last() as int - 48));
    } else {
        lemma_decimal_digits_read_back(n / 10);
        let d = decimal_digits(n);
        assert(d.drop_last() == decimal_digits(n / 10));
        assert(d.last() == (48 + n % 10) as char);
        assert(((48 + n % 10) as char) as int == 48 + n % 10);
        assert((n / 10) * 10 + n % 10 == n) by (nonlinear_arith);
        assert(digits_value(d) == digits_value(d.drop_last()) * 10 + (d.last() as int - 48));
        assert(digits_value(d.drop_last()) == n / 10);
        assert(digits_value(d) == (n / 10) * 10 + n % 10);
        assert forall|i: int| 0 <= i < d.len() implies '0' <= #[trigger] d[i] && d[i] <= '9' by {
            if i < d.len() - 1 {
                assert(d[i] == decimal_digits(n / 10)[i]);
            }
        }
    }
}

/// A code search asks for exactly the request: its pairs are the query, then
/// the page and the page size, each written as decimal digits that read back
/// as the request's number. Requests for different pages, or different page
/// sizes, never share their parameters.
pub proof fn code_search_asks_for_the_requested_page(request: CodeSearchRequest, other: CodeSearchRequest)
    ensures
        search_params(request).len() == 3,
        search_params(request)[0] == ("q"@, request.query@),
        search_params(request)[1].0 == "page"@,
        all_decimal_digits(search_params(request)[1].1),
        digits_value(search_params(request)[1].1) == request.page,
        search_params(request)[2].0 == "per_page"@,
        all_decimal_digits(search_params(request)[2].1),
        digits_value(search_params(request)[2].1) == request.per_page,
        request.page != other.page || request.per_page != other.per_page ==> search_params(request)
            != search_params(other),
{
    lemma_decimal_digits_read_back(request.page as nat);
    lemma_decimal_digits_read_back(request.per_page as nat);
    lemma_decimal_digits_read_back(other.page as nat);
    lemma_decimal_digits_read_back(other.per_page as nat);
    if request.page != other.page || request.per_page != other.per_page {
        if search_params(request) == search_params(other) {
            assert(search_params(request)[1] == search_params(other)[1]);
            assert(search_params(request)[2] == search_params(other)[2]);
        }
    }
}

} // verus!
