use vstd::prelude::*;

use crate::store::StoreError;
use crate::text::{
    count_leading,
    find_char,
    index_of,
    leading,
    parse_u64,
    parse_u64_spec,
    same_text,
    split_chars,
    split_on,
    strings_view,
};

verus! {

/// A request as the host hands it over.
pub struct HttpRequest {
    pub method: String,
    pub url: String,
    pub headers: Vec<(String, String)>,
    pub body: Vec<u8>,
}

/// A response; `upgrade` asks the host to replay the request on the write path.
pub struct HttpResponse {
    pub status_code: u16,
    pub headers: Vec<(String, String)>,
    pub body: Vec<u8>,
    pub upgrade: Option<bool>,
}

pub open spec fn pairs_view(h: Seq<(String, String)>) -> Seq<(Seq<char>, Seq<char>)> {
    h.map_values(|p: (String, String)| (p.0@, p.1@))
}

/// The headers that every response carries.
pub open spec fn cors_headers_spec() -> Seq<(Seq<char>, Seq<char>)> {
    seq![
        ("Content-Type"@, "application/json; charset=utf-8"@),
        ("Access-Control-Allow-Origin"@, "*"@),
        ("Access-Control-Allow-Methods"@, "GET,POST,PUT,DELETE,OPTIONS"@),
        ("Access-Control-Allow-Headers"@, "Content-Type,Authorization"@),
    ]
}

fn text(s: &str) -> (r: String)
    ensures
        r@ == s@,
{
    s.to_owned()
}

/// The content type and the CORS headers.
pub fn cors_headers() -> (r: Vec<(String, String)>)
    ensures
        pairs_view(r@) == cors_headers_spec(),
{
    let mut h: Vec<(String, String)> = Vec::new();
    h.push((text("Content-Type"), text("application/json; charset=utf-8")));
    h.push((text("Access-Control-Allow-Origin"), text("*")));
    h.push((text("Access-Control-Allow-Methods"), text("GET,POST,PUT,DELETE,OPTIONS")));
    h.push((text("Access-Control-Allow-Headers"), text("Content-Type,Authorization")));
    assert(pairs_view(h@) =~= cors_headers_spec());
    h
}

/// A response with status `status_code` and the JSON text `body`.
pub fn json_response(status_code: u16, body: Vec<u8>) -> (r: HttpResponse)
    ensures
        r.status_code == status_code,
        pairs_view(r.headers@) == cors_headers_spec(),
        r.body@ == body@,
        r.upgrade is None,
{
    HttpResponse { status_code, headers: cors_headers(), body, upgrade: None }
}

/// An empty 204 response.
pub fn no_content() -> (r: HttpResponse)
    ensures
        r.status_code == 204,
        pairs_view(r.headers@) == cors_headers_spec(),
        r.body@.len() == 0,
        r.upgrade is None,
{
    json_response(204, Vec::new())
}

/// An empty 204 response that asks for the request on the write path.
pub fn upgrade_response() -> (r: HttpResponse)
    ensures
        r.status_code == 204,
        pairs_view(r.headers@) == cors_headers_spec(),
        r.body@.len() == 0,
        r.upgrade == Some(true),
{
    HttpResponse { status_code: 204, headers: cors_headers(), body: Vec::new(), upgrade: Some(true) }
}

/// The status that reports a refused operation.
pub fn error_status(e: StoreError) -> (r: u16)
    ensures
        r == match e {
            StoreError::NotFound | StoreError::CommentNotFound => 404u16,
            StoreError::Forbidden => 403u16,
            _ => 400u16,
        },
{
    match e {
        StoreError::NotFound | StoreError::CommentNotFound => 404,
        StoreError::Forbidden => 403,
        _ => 400,
    }
}

/// The path of a URL: what stands before the first `?`.
pub open spec fn path_of(u: Seq<char>) -> Seq<char> {
    u.subrange(0, index_of(u, '?'))
}

/// The query of a URL: what stands after the first `?`, empty when there is none.
pub open spec fn query_of(u: Seq<char>) -> Seq<char> {
    let q = index_of(u, '?');
    u.subrange(if q < u.len() { q + 1 } else { u.len() as int }, u.len() as int)
}

/// The segments of a URL's path, leading slashes left out.
pub open spec fn segments_of(u: Seq<char>) -> Seq<Seq<char>> {
    let p = path_of(u);
    split_on(p.subrange(leading(p, '/'), p.len() as int), '/')
}

/// A `key=value` piece split at its first `=`.
pub open spec fn key_value(kv: Seq<char>) -> (Seq<char>, Seq<char>) {
    let e = index_of(kv, '=');
    (kv.subrange(0, e), kv.subrange(e + 1, kv.len() as int))
}

/// The key-value pairs of the pieces that hold a `=`, in order.
pub open spec fn pairs_of(pieces: Seq<Seq<char>>) -> Seq<(Seq<char>, Seq<char>)>
    decreases pieces.len(),
{
    if pieces.len() == 0 {
        Seq::empty()
    } else {
        let r = pairs_of(pieces.drop_last());
        if index_of(pieces.last(), '=') < pieces.last().len() {
            r.push(key_value(pieces.last()))
        } else {
            r
        }
    }
}

/// The key-value pairs of a URL's query.
pub open spec fn query_pairs(u: Seq<char>) -> Seq<(Seq<char>, Seq<char>)> {
    pairs_of(split_on(query_of(u), '&'))
}

/// The value of the last pair with key `key`: a later pair overrides an earlier one.
pub open spec fn lookup(pairs: Seq<(Seq<char>, Seq<char>)>, key: Seq<char>) -> Option<Seq<char>>
    decreases pairs.len(),
{
    if pairs.len() == 0 {
        None
    } else if pairs.last().0 == key {
        Some(pairs.last().1)
    } else {
        lookup(pairs.drop_last(), key)
    }
}

/// The number that query parameter `key` gives, or `default` when it is
/// missing or not a number that fits in a `usize`.
pub open spec fn query_number(u: Seq<char>, key: Seq<char>, default: usize) -> usize {
    match lookup(query_pairs(u), key) {
        Some(v) => match parse_u64_spec(v) {
            Some(x) => if x <= usize::MAX {
                x as usize
            } else {
                default
            },
            None => default,
        },
        None => default,
    }
}

/// The segments of the path of `url`.
pub fn path_segments(url: &str) -> (r: Vec<String>)
    ensures
        strings_view(r@) == segments_of(url@),
{
    let q = find_char(url, '?');
    let path = url.substring_char(0, q);
    let t = count_leading(path, '/');
    let trimmed = path.substring_char(t, path.unicode_len());
    split_chars(trimmed, '/')
}

/// The key-value pairs of the query of `url`, in order.
pub fn parse_qs(url: &str) -> (r: Vec<(String, String)>)
    ensures
        pairs_view(r@) == query_pairs(url@),
{
    let n = url.unicode_len();
    let q = find_char(url, '?');
    let from = if q < n { q + 1 } else { n };
    let query = url.substring_char(from, n);
    let pieces = split_chars(query, '&');
    let mut out: Vec<(String, String)> = Vec::new();
    let mut i: usize = 0;
    while i < pieces.len()
        invariant
            i <= pieces@.len(),
            strings_view(pieces@) == split_on(query_of(url@), '&'),
            pairs_view(out@) == pairs_of(strings_view(pieces@).subrange(0, i as int)),
        decreases pieces@.len() - i,
    {
        let ghost sv = strings_view(pieces@);
        assert(sv.subrange(0, i + 1).drop_last() =~= sv.subrange(0, i as int));
        assert(sv.subrange(0, i + 1).last() == pieces@[i as int]@);
        let kv = pieces[i].as_str();
        let len = kv.unicode_len();
        let e = find_char(kv, '=');
        if e < len {
            let k = kv.substring_char(0, e).to_owned();
            let v = kv.substring_char(e + 1, len).to_owned();
            let ghost before = out@;
            out.push((k, v));
            assert(pairs_view(out@) =~= pairs_view(before).push(key_value(kv@)));
        }
        i = i + 1;
    }
    assert(strings_view(pieces@).subrange(0, i as int) =~= strings_view(pieces@));
    out
}

/// The value of the last query parameter of `url` named `key`.
pub fn query_value(url: &str, key: &str) -> (r: Option<String>)
    ensures
        match r {
            Some(v) => lookup(query_pairs(url@), key@) == Some(v@),
            None => lookup(query_pairs(url@), key@) is None,
        },
{
    let pairs = parse_qs(url);
    let mut found: Option<String> = None;
    let mut i: usize = 0;
    while i < pairs.len()
        invariant
            i <= pairs@.len(),
            match found {
                Some(v) => lookup(pairs_view(pairs@).subrange(0, i as int), key@) == Some(v@),
                None => lookup(pairs_view(pairs@).subrange(0, i as int), key@) is None,
            },
        decreases pairs@.len() - i,
    {
        let ghost pv = pairs_view(pairs@);
        assert(pv.subrange(0, i + 1).drop_last() =~= pv.subrange(0, i as int));
        assert(pv.subrange(0, i + 1).last() == (pairs@[i as int].0@, pairs@[i as int].1@));
        if same_text(pairs[i].0.as_str(), key) {
            found = Some(pairs[i].1.clone());
        }
        i = i + 1;
    }
    assert(pairs_view(pairs@).subrange(0, i as int) =~= pairs_view(pairs@));
    found
}

/// The number that query parameter `key` of `url` gives, or `default`.
pub fn query_usize(url: &str, key: &str, default: usize) -> (r: usize)
    ensures
        r == query_number(url@, key@, default),
{
    match query_value(url, key) {
        Some(v) => match parse_u64(v.as_str()) {
            Some(x) => if x <= usize::MAX as u64 {
                x as usize
            } else {
                default
            },
            None => default,
        },
        None => default,
    }
}

/// What the read path does with a request.
#[derive(Clone, Copy, Debug, PartialEq, Eq)]
pub enum ReadRoute {
    /// A CORS preflight: an empty 204.
    Preflight,
    /// A slice of the posts as a JSON array.
    ListPosts { offset: usize, limit: usize },
    /// One post as JSON, or 404.
    GetPost { id: u64 },
    /// A post id that is not a number: 400.
    BadPostId,
    /// A mutating request: replay it on the write path.
    Upgrade,
    NotFound,
}

/// What the write path does with a request.
#[derive(Clone, Copy, Debug, PartialEq, Eq)]
pub enum WriteRoute {
    CreatePost,
    EditPost { id: u64 },
    DeletePost { id: u64 },
    AddComment { post_id: u64 },
    EditComment { post_id: u64, comment_id: u64 },
    RemoveComment { post_id: u64, comment_id: u64 },
    /// A post id that is not a number: 400.
    BadPostId,
    /// A post or comment id that is not a number: 400.
    BadIds,
    /// No route for this method and path: 405.
    NotAllowed,
}

/// The status of the read path's response to `route`; `found` says whether
/// the post that `GetPost` asks for exists.
pub fn read_status(route: ReadRoute, found: bool) -> (r: u16)
    ensures
        r == match route {
            ReadRoute::Preflight | ReadRoute::Upgrade => 204u16,
            ReadRoute::ListPosts { .. } => 200u16,
            ReadRoute::GetPost { .. } => if found {
                200u16
            } else {
                404u16
            },
            ReadRoute::BadPostId => 400u16,
            ReadRoute::NotFound => 404u16,
        },
{
    match route {
        ReadRoute::Preflight | ReadRoute::Upgrade => 204,
        ReadRoute::ListPosts { .. } => 200,
        ReadRoute::GetPost { .. } => if found {
            200
        } else {
            404
        },
        ReadRoute::BadPostId => 400,
        ReadRoute::NotFound => 404,
    }
}

pub open spec fn is_mutating(method: Seq<char>) -> bool {
    method == "POST"@ || method == "PUT"@ || method == "DELETE"@
}

/// The segments are `api/posts` followed by `rest`.
pub open spec fn under_posts(seg: Seq<Seq<char>>, n: int) -> bool {
    seg.len() == n && seg[0] == "api"@ && seg[1] == "posts"@
}

pub open spec fn read_route_spec(method: Seq<char>, url: Seq<char>) -> ReadRoute {
    let seg = segments_of(url);
    if method == "OPTIONS"@ {
        ReadRoute::Preflight
    } else if method == "GET"@ && under_posts(seg, 2) {
        ReadRoute::ListPosts {
            offset: query_number(url, "offset"@, 0),
            limit: query_number(url, "limit"@, 50),
        }
    } else if method == "GET"@ && under_posts(seg, 3) {
        match parse_u64_spec(seg[2]) {
            Some(id) => ReadRoute::GetPost { id },
            None => ReadRoute::BadPostId,
        }
    } else if is_mutating(method) && seg[0] == "api"@ {
        ReadRoute::Upgrade
    } else {
        ReadRoute::NotFound
    }
}

pub open spec fn write_route_spec(method: Seq<char>, url: Seq<char>) -> WriteRoute {
    let seg = segments_of(url);
    if method == "POST"@ && under_posts(seg, 2) {
        WriteRoute::CreatePost
    } else if (method == "PUT"@ || method == "DELETE"@) && under_posts(seg, 3) {
        match parse_u64_spec(seg[2]) {
            Some(id) => if method == "PUT"@ {
                WriteRoute::EditPost { id }
            } else {
                WriteRoute::DeletePost { id }
            },
            None => WriteRoute::BadPostId,
        }
    } else if method == "POST"@ && under_posts(seg, 4) && seg[3] == "comments"@ {
        match parse_u64_spec(seg[2]) {
            Some(post_id) => WriteRoute::AddComment { post_id },
            None => WriteRoute::BadPostId,
        }
    } else if (method == "PUT"@ || method == "DELETE"@) && under_posts(seg, 5) && seg[3]
        == "comments"@ {
        match (parse_u64_spec(seg[2]), parse_u64_spec(seg[4])) {
            (Some(post_id), Some(comment_id)) => if method == "PUT"@ {
                WriteRoute::EditComment { post_id, comment_id }
            } else {
                WriteRoute::RemoveComment { post_id, comment_id }
            },
            _ => WriteRoute::BadIds,
        }
    } else {
        WriteRoute::NotAllowed
    }
}

fn is_under_posts(seg: &Vec<String>, n: usize) -> (r: bool)
    requires
        n >= 2,
    ensures
        r == under_posts(strings_view(seg@), n as int),
{
    if seg.len() != n {
        return false;
    }
    assert(strings_view(seg@)[0] == seg@[0]@);
    assert(strings_view(seg@)[1] == seg@[1]@);
    same_text(seg[0].as_str(), "api") && same_text(seg[1].as_str(), "posts")
}

/// How the read path handles `method` on `url`.
pub fn read_route(method: &str, url: &str) -> (r: ReadRoute)
    ensures
        r == read_route_spec(method@, url@),
{
    let seg = path_segments(url);
    proof {
        crate::text::lemma_split_nonempty(
            path_of(url@).subrange(leading(path_of(url@), '/'), path_of(url@).len() as int),
            '/',
        );
    }
    let ghost sv = strings_view(seg@);
    if same_text(method, "OPTIONS") {
        return ReadRoute::Preflight;
    }
    let get = same_text(method, "GET");
    if get && is_under_posts(&seg, 2) {
        return ReadRoute::ListPosts {
            offset: query_usize(url, "offset", 0),
            limit: query_usize(url, "limit", 50),
        };
    }
    if get && is_under_posts(&seg, 3) {
        assert(sv[2] == seg@[2]@);
        return match parse_u64(seg[2].as_str()) {
            Some(id) => ReadRoute::GetPost { id },
            None => ReadRoute::BadPostId,
        };
    }
    let mutating = same_text(method, "POST") || same_text(method, "PUT") || same_text(
        method,
        "DELETE",
    );
    assert(sv[0] == seg@[0]@);
    if mutating && same_text(seg[0].as_str(), "api") {
        return ReadRoute::Upgrade;
    }
    ReadRoute::NotFound
}

/// How the write path handles `method` on `url`.
pub fn write_route(method: &str, url: &str) -> (r: WriteRoute)
    ensures
        r == write_route_spec(method@, url@),
{
    let seg = path_segments(url);
    let ghost sv = strings_view(seg@);
    let post = same_text(method, "POST");
    let put = same_text(method, "PUT");
    let delete = same_text(method, "DELETE");
    if post && is_under_posts(&seg, 2) {
        return WriteRoute::CreatePost;
    }
    if (put || delete) && is_under_posts(&seg, 3) {
        assert(sv[2] == seg@[2]@);
        return match parse_u64(seg[2].as_str()) {
            Some(id) => if put {
                WriteRoute::EditPost { id }
            } else {
                WriteRoute::DeletePost { id }
            },
            None => WriteRoute::BadPostId,
        };
    }
    if post && is_under_posts(&seg, 4) {
        assert(sv[2] == seg@[2]@);
        assert(sv[3] == seg@[3]@);
        if same_text(seg[3].as_str(), "comments") {
            return match parse_u64(seg[2].as_str()) {
                Some(post_id) => WriteRoute::AddComment { post_id },
                None => WriteRoute::BadPostId,
            };
        }
    }
    if (put || delete) && is_under_posts(&seg, 5) {
        assert(sv[2] == seg@[2]@);
        assert(sv[3] == seg@[3]@);
        assert(sv[4] == seg@[4]@);
        if same_text(seg[3].as_str(), "comments") {
            return match (parse_u64(seg[2].as_str()), parse_u64(seg[4].as_str())) {
                (Some(post_id), Some(comment_id)) => if put {
                    WriteRoute::EditComment { post_id, comment_id }
                } else {
                    WriteRoute::RemoveComment { post_id, comment_id }
                },
                _ => WriteRoute::BadIds,
            };
        }
    }
    WriteRoute::NotAllowed
}

} // verus!
