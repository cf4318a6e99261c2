use blog_icp_backend::http::{
    cors_headers, error_status, json_response, no_content, parse_qs, path_segments, query_usize,
    query_value, read_route, read_status, upgrade_response, write_route, ReadRoute, WriteRoute,
};
use blog_icp_backend::store::StoreError;
use blog_icp_backend::text::{parse_u64, split_chars};

#[test]
fn cors_headers_exact() {
    let h = cors_headers();
    assert_eq!(h.len(), 4);
    assert_eq!(h[0], ("Content-Type".to_string(), "application/json; charset=utf-8".to_string()));
    assert_eq!(h[1], ("Access-Control-Allow-Origin".to_string(), "*".to_string()));
    assert_eq!(h[2].1, "GET,POST,PUT,DELETE,OPTIONS");
    assert_eq!(h[3].1, "Content-Type,Authorization");
}

#[test]
fn responses() {
    let r = no_content();
    assert_eq!(r.status_code, 204);
    assert!(r.body.is_empty());
    assert_eq!(r.upgrade, None);
    let u = upgrade_response();
    assert_eq!(u.status_code, 204);
    assert_eq!(u.upgrade, Some(true));
    let j = json_response(200, b"[]".to_vec());
    assert_eq!(j.status_code, 200);
    assert_eq!(j.body, b"[]".to_vec());
    assert_eq!(j.headers.len(), 4);
}

#[test]
fn error_statuses() {
    assert_eq!(error_status(StoreError::NotFound), 404);
    assert_eq!(error_status(StoreError::CommentNotFound), 404);
    assert_eq!(error_status(StoreError::Forbidden), 403);
    assert_eq!(error_status(StoreError::TooManyTags), 400);
}

#[test]
fn segments_of_paths() {
    assert_eq!(path_segments("/api/posts"), vec!["api", "posts"]);
    assert_eq!(path_segments("//api/posts/3?x=1"), vec!["api", "posts", "3"]);
    assert_eq!(path_segments("/api/posts/"), vec!["api", "posts", ""]);
    assert_eq!(path_segments(""), vec![""]);
    assert_eq!(path_segments("?a=b"), vec![""]);
    assert_eq!(split_chars("a&&b", '&'), vec!["a", "", "b"]);
}

#[test]
fn query_string_pairs() {
    let q = parse_qs("/api/posts?offset=2&limit=5&flag&k=v=w");
    assert_eq!(
        q,
        vec![
            ("offset".to_string(), "2".to_string()),
            ("limit".to_string(), "5".to_string()),
            ("k".to_string(), "v=w".to_string()),
        ]
    );
    assert!(parse_qs("/api/posts").is_empty());
    assert_eq!(query_value("/p?a=1&a=2", "a"), Some("2".to_string()));
    assert_eq!(query_value("/p?a=1", "b"), None);
    assert_eq!(query_usize("/p?limit=7", "limit", 50), 7);
    assert_eq!(query_usize("/p?limit=x", "limit", 50), 50);
    assert_eq!(query_usize("/p", "offset", 0), 0);
}

#[test]
fn decimal_parsing() {
    assert_eq!(parse_u64("0"), Some(0));
    assert_eq!(parse_u64("42"), Some(42));
    assert_eq!(parse_u64("+7"), Some(7));
    assert_eq!(parse_u64("18446744073709551615"), Some(u64::MAX));
    assert_eq!(parse_u64("18446744073709551616"), None);
    assert_eq!(parse_u64(""), None);
    assert_eq!(parse_u64("+"), None);
    assert_eq!(parse_u64("-1"), None);
    assert_eq!(parse_u64("1a"), None);
    assert_eq!(parse_u64("99999999999999999999x"), None);
}

#[test]
fn read_routes() {
    assert_eq!(read_route("OPTIONS", "/anything"), ReadRoute::Preflight);
    assert_eq!(read_route("GET", "/api/posts"), ReadRoute::ListPosts { offset: 0, limit: 50 });
    assert_eq!(
        read_route("GET", "/api/posts?offset=3&limit=4"),
        ReadRoute::ListPosts { offset: 3, limit: 4 }
    );
    assert_eq!(read_route("GET", "/api/posts/12"), ReadRoute::GetPost { id: 12 });
    assert_eq!(read_route("GET", "/api/posts/abc"), ReadRoute::BadPostId);
    assert_eq!(read_route("POST", "/api/posts"), ReadRoute::Upgrade);
    assert_eq!(read_route("DELETE", "/api/anything/else"), ReadRoute::Upgrade);
    assert_eq!(read_route("PUT", "/other"), ReadRoute::NotFound);
    assert_eq!(read_route("GET", "/api/other"), ReadRoute::NotFound);
}

#[test]
fn write_routes() {
    assert_eq!(write_route("POST", "/api/posts"), WriteRoute::CreatePost);
    assert_eq!(write_route("PUT", "/api/posts/4"), WriteRoute::EditPost { id: 4 });
    assert_eq!(write_route("DELETE", "/api/posts/4"), WriteRoute::DeletePost { id: 4 });
    assert_eq!(write_route("DELETE", "/api/posts/x"), WriteRoute::BadPostId);
    assert_eq!(
        write_route("POST", "/api/posts/2/comments"),
        WriteRoute::AddComment { post_id: 2 }
    );
    assert_eq!(
        write_route("PUT", "/api/posts/2/comments/9"),
        WriteRoute::EditComment { post_id: 2, comment_id: 9 }
    );
    assert_eq!(
        write_route("DELETE", "/api/posts/2/comments/9"),
        WriteRoute::RemoveComment { post_id: 2, comment_id: 9 }
    );
    assert_eq!(write_route("DELETE", "/api/posts/2/comments/z"), WriteRoute::BadIds);
    assert_eq!(write_route("GET", "/api/posts"), WriteRoute::NotAllowed);
    assert_eq!(write_route("POST", "/api/posts/2/replies"), WriteRoute::NotAllowed);
}

#[test]
fn read_statuses() {
    assert_eq!(read_status(ReadRoute::Preflight, false), 204);
    assert_eq!(read_status(ReadRoute::Upgrade, false), 204);
    assert_eq!(read_status(ReadRoute::ListPosts { offset: 0, limit: 50 }, true), 200);
    assert_eq!(read_status(ReadRoute::GetPost { id: 1 }, true), 200);
    assert_eq!(read_status(ReadRoute::GetPost { id: 1 }, false), 404);
    assert_eq!(read_status(ReadRoute::BadPostId, false), 400);
    assert_eq!(read_status(ReadRoute::NotFound, true), 404);
}
