use vstd::prelude::*;
use vstd::utf8::encode_utf8;

use crate::blog::{Blog, BlogView, Comment, CommentView, comment_ids, comment_index, edited_comment, updated};
use crate::config::{Config, ConfigView};
use crate::identity::{Identity, is_owner};
use crate::lookup::{first_index, lemma_first_index, lemma_first_index_at};

verus! {

/// Why an operation on posts or comments was refused.
#[derive(Clone, Copy, Debug, PartialEq, Eq)]
pub enum StoreError {
    TitleTooLong,
    ContentTooLong,
    TooManyTags,
    InvalidTags,
    NotFound,
    CommentNotFound,
    Forbidden,
}

/// The operation in which an error arose; it picks the wording of the message.
#[derive(Clone, Copy, Debug, PartialEq, Eq)]
pub enum Operation {
    CreatePost,
    EditPost,
    DeletePost,
    AddComment,
    EditComment,
    RemoveComment,
}

/// The message that reports `e` in operation `op`.
pub open spec fn message_text(e: StoreError, op: Operation) -> Seq<char> {
    match e {
        StoreError::TitleTooLong => "Title is too long!"@,
        StoreError::ContentTooLong => "Content is too long!"@,
        StoreError::TooManyTags => "Too many tags!"@,
        StoreError::InvalidTags => "Tags are not valid!"@,
        StoreError::NotFound => "Blog not found"@,
        StoreError::CommentNotFound => "Comment not found"@,
        StoreError::Forbidden => match op {
            Operation::DeletePost => "You can only delete your own posts."@,
            Operation::EditComment | Operation::AddComment => "You can only edit your own comments."@,
            Operation::RemoveComment => "You can only delete your own comments."@,
            _ => "You can only edit your own posts."@,
        },
    }
}

impl StoreError {
    /// A human-readable account of the refusal, worded for operation `op`.
    pub fn message(&self, op: Operation) -> (r: String)
        ensures
            r@ == message_text(*self, op),
    {
        let m = match *self {
            StoreError::TitleTooLong => "Title is too long!",
            StoreError::ContentTooLong => "Content is too long!",
            StoreError::TooManyTags => "Too many tags!",
            StoreError::InvalidTags => "Tags are not valid!",
            StoreError::NotFound => "Blog not found",
            StoreError::CommentNotFound => "Comment not found",
            StoreError::Forbidden => match op {
                Operation::DeletePost => "You can only delete your own posts.",
                Operation::EditComment | Operation::AddComment => "You can only edit your own comments.",
                Operation::RemoveComment => "You can only delete your own comments.",
                _ => "You can only edit your own posts.",
            },
        };
        m.to_owned()
    }
}

/// The whole content store: the configuration, the posts in the order they
/// were created, and the two id counters.
pub struct Store {
    pub config: Config,
    pub posts: Vec<Blog>,
    pub next_post_id: u64,
    pub next_comment_id: u64,
}

/// The mathematical value of a `Store`.
pub struct StoreView {
    pub config: ConfigView,
    pub posts: Seq<BlogView>,
    pub next_post_id: u64,
    pub next_comment_id: u64,
}

pub open spec fn posts_view(ps: Seq<Blog>) -> Seq<BlogView> {
    ps.map_values(|b: Blog| b@)
}

impl View for Store {
    type V = StoreView;

    open spec fn view(&self) -> StoreView {
        StoreView {
            config: self.config@,
            posts: posts_view(self.posts@),
            next_post_id: self.next_post_id,
            next_comment_id: self.next_comment_id,
        }
    }
}

pub open spec fn post_ids(ps: Seq<BlogView>) -> Seq<u64> {
    ps.map_values(|b: BlogView| b.id)
}

/// The position of the post with id `id`, or -1.
pub open spec fn post_index(ps: Seq<BlogView>, id: u64) -> int {
    first_index(post_ids(ps), id)
}

/// The length of a string in bytes of UTF-8.
pub open spec fn byte_len(s: Seq<char>) -> nat {
    encode_utf8(s).len()
}

/// Every tag of `tags` is on the whitelist of `cfg`.
pub open spec fn tags_allowed(cfg: ConfigView, tags: Seq<Seq<char>>) -> bool {
    forall|i: int| 0 <= i < tags.len() ==> cfg.tags.contains(#[trigger] tags[i])
}

/// The first check that the given fields of a post fail, in the order title,
/// content, tag count, whitelist; `None` when they pass them all.
pub open spec fn fields_error(
    cfg: ConfigView,
    title: Option<Seq<char>>,
    content: Option<Seq<char>>,
    tags: Option<Seq<Seq<char>>>,
) -> Option<StoreError> {
    if title is Some && byte_len(title->0) > cfg.max_title_len {
        Some(StoreError::TitleTooLong)
    } else if content is Some && byte_len(content->0) > cfg.max_content_len {
        Some(StoreError::ContentTooLong)
    } else if tags is Some && tags->0.len() > cfg.max_tags_count {
        Some(StoreError::TooManyTags)
    } else if tags is Some && !tags_allowed(cfg, tags->0) {
        Some(StoreError::InvalidTags)
    } else {
        None
    }
}

/// Post ids increase along the list and stay below the post counter; within
/// a post, comment ids increase and stay below the comment counter.
pub open spec fn wf_view(s: StoreView) -> bool {
    &&& forall|a: int, b: int|
        0 <= a < b < s.posts.len() ==> #[trigger] s.posts[a].id < #[trigger] s.posts[b].id
    &&& forall|a: int| 0 <= a < s.posts.len() ==> #[trigger] s.posts[a].id < s.next_post_id
    &&& forall|p: int, a: int, b: int|
        0 <= p < s.posts.len() && 0 <= a < b < s.posts[p].comments.len()
            ==> #[trigger] s.posts[p].comments[a].id < #[trigger] s.posts[p].comments[b].id
    &&& forall|p: int, a: int|
        0 <= p < s.posts.len() && 0 <= a < s.posts[p].comments.len()
            ==> #[trigger] s.posts[p].comments[a].id < s.next_comment_id
}

pub open spec fn blog_result_view(r: Result<Blog, StoreError>) -> Result<BlogView, StoreError> {
    match r {
        Ok(b) => Ok(b@),
        Err(e) => Err(e),
    }
}

pub open spec fn comment_result_view(r: Result<Comment, StoreError>) -> Result<
    CommentView,
    StoreError,
> {
    match r {
        Ok(c) => Ok(c@),
        Err(e) => Err(e),
    }
}

/// Creating a post: the fields are checked against the configuration; a post
/// that passes gets the next post id, the time `now` and no comments.
pub open spec fn create_post_spec(
    s: StoreView,
    caller: Seq<u8>,
    title: Seq<char>,
    content: Seq<char>,
    tags: Seq<Seq<char>>,
    now: u64,
) -> (StoreView, Result<BlogView, StoreError>) {
    match fields_error(s.config, Some(title), Some(content), Some(tags)) {
        Some(e) => (s, Err(e)),
        None => {
            let post = BlogView {
                id: s.next_post_id,
                owner: caller,
                title,
                date: now,
                content,
                tags,
                comments: Seq::empty(),
            };
            (
                StoreView {
                    posts: s.posts.push(post),
                    next_post_id: (s.next_post_id + 1) as u64,
                    ..s
                },
                Ok(post),
            )
        },
    }
}

/// Editing a post: only its owner may, and the given fields must pass the
/// checks of creation; either all of them are applied or none.
pub open spec fn edit_post_spec(
    s: StoreView,
    caller: Seq<u8>,
    id: u64,
    title: Option<Seq<char>>,
    content: Option<Seq<char>>,
    tags: Option<Seq<Seq<char>>>,
) -> (StoreView, Result<BlogView, StoreError>) {
    let k = post_index(s.posts, id);
    if k < 0 {
        (s, Err(StoreError::NotFound))
    } else if s.posts[k].owner != caller {
        (s, Err(StoreError::Forbidden))
    } else {
        match fields_error(s.config, title, content, tags) {
            Some(e) => (s, Err(e)),
            None => {
                let post = updated(s.posts[k], title, content, tags);
                (StoreView { posts: s.posts.update(k, post), ..s }, Ok(post))
            },
        }
    }
}

/// Deleting a post, with its comments: only its owner may.
pub open spec fn delete_post_spec(s: StoreView, caller: Seq<u8>, id: u64) -> (
    StoreView,
    Result<(), StoreError>,
) {
    let k = post_index(s.posts, id);
    if k < 0 {
        (s, Err(StoreError::NotFound))
    } else if s.posts[k].owner != caller {
        (s, Err(StoreError::Forbidden))
    } else {
        (StoreView { posts: s.posts.remove(k), ..s }, Ok(()))
    }
}

/// Commenting on a post: the comment gets the next comment id and the time
/// `now`, and goes after the post's other comments.
pub open spec fn add_comment_spec(
    s: StoreView,
    caller: Seq<u8>,
    post_id: u64,
    content: Seq<char>,
    now: u64,
) -> (StoreView, Result<CommentView, StoreError>) {
    let k = post_index(s.posts, post_id);
    if k < 0 {
        (s, Err(StoreError::NotFound))
    } else {
        let c = CommentView { id: s.next_comment_id, owner: caller, content, date: now };
        let post = BlogView { comments: s.posts[k].comments.push(c), ..s.posts[k] };
        (
            StoreView {
                posts: s.posts.update(k, post),
                next_comment_id: (s.next_comment_id + 1) as u64,
                ..s
            },
            Ok(c),
        )
    }
}

/// Editing a comment: only its owner may; the content is replaced and the
/// date set to `now`.
pub open spec fn edit_comment_spec(
    s: StoreView,
    caller: Seq<u8>,
    post_id: u64,
    comment_id: u64,
    content: Seq<char>,
    now: u64,
) -> (StoreView, Result<CommentView, StoreError>) {
    let k = post_index(s.posts, post_id);
    if k < 0 {
        (s, Err(StoreError::NotFound))
    } else {
        let j = comment_index(s.posts[k], comment_id);
        if j < 0 {
            (s, Err(StoreError::CommentNotFound))
        } else if s.posts[k].comments[j].owner != caller {
            (s, Err(StoreError::Forbidden))
        } else {
            let c = edited_comment(s.posts[k].comments[j], content, now);
            let post = BlogView { comments: s.posts[k].comments.update(j, c), ..s.posts[k] };
            (StoreView { posts: s.posts.update(k, post), ..s }, Ok(c))
        }
    }
}

/// Removing a comment: only its owner may.
pub open spec fn remove_comment_spec(s: StoreView, caller: Seq<u8>, post_id: u64, comment_id: u64) -> (
    StoreView,
    Result<(), StoreError>,
) {
    let k = post_index(s.posts, post_id);
    if k < 0 {
        (s, Err(StoreError::NotFound))
    } else {
        let j = comment_index(s.posts[k], comment_id);
        if j < 0 {
            (s, Err(StoreError::CommentNotFound))
        } else if s.posts[k].comments[j].owner != caller {
            (s, Err(StoreError::Forbidden))
        } else {
            let post = BlogView { comments: s.posts[k].comments.remove(j), ..s.posts[k] };
            (StoreView { posts: s.posts.update(k, post), ..s }, Ok(()))
        }
    }
}

/// The post with id `id`, if there is one.
pub open spec fn get_post_spec(s: StoreView, id: u64) -> Option<BlogView> {
    let k = post_index(s.posts, id);
    if k < 0 {
        None
    } else {
        Some(s.posts[k])
    }
}

/// Replacing a post by one with the same id and well-ordered comments keeps
/// the store well formed.
proof fn lemma_wf_update_post(s: StoreView, k: int, p: BlogView, next_comment_id: u64)
    requires
        wf_view(s),
        0 <= k < s.posts.len(),
        p.id == s.posts[k].id,
        s.next_comment_id <= next_comment_id,
        forall|a: int, b: int|
            0 <= a < b < p.comments.len() ==> #[trigger] p.comments[a].id < #[trigger] p.comments[b].id,
        forall|a: int| 0 <= a < p.comments.len() ==> #[trigger] p.comments[a].id < next_comment_id,
    ensures
        wf_view(StoreView { posts: s.posts.update(k, p), next_comment_id, ..s }),
{
    let s1 = StoreView { posts: s.posts.update(k, p), next_comment_id, ..s };
    assert forall|a: int| 0 <= a < s1.posts.len() implies #[trigger] s1.posts[a].id
        < s1.next_post_id by {
        assert(s1.posts[a].id == s.posts[a].id);
    }
    assert forall|a: int, b: int| 0 <= a < b < s1.posts.len() implies #[trigger] s1.posts[a].id
        < #[trigger] s1.posts[b].id by {
        assert(s1.posts[a].id == s.posts[a].id);
        assert(s1.posts[b].id == s.posts[b].id);
    }
    assert forall|q: int, a: int, b: int|
        0 <= q < s1.posts.len() && 0 <= a < b < s1.posts[q].comments.len() implies #[trigger] s1.posts[q].comments[a].id
        < #[trigger] s1.posts[q].comments[b].id by {
        if q != k {
            assert(s1.posts[q] == s.posts[q]);
        }
    }
    assert forall|q: int, a: int|
        0 <= q < s1.posts.len() && 0 <= a < s1.posts[q].comments.len() implies #[trigger] s1.posts[q].comments[a].id
        < s1.next_comment_id by {
        if q != k {
            assert(s1.posts[q] == s.posts[q]);
        }
    }
}

/// Removing a post keeps the store well formed.
proof fn lemma_wf_remove_post(s: StoreView, k: int)
    requires
        wf_view(s),
        0 <= k < s.posts.len(),
    ensures
        wf_view(StoreView { posts: s.posts.remove(k), ..s }),
{
    let s1 = StoreView { posts: s.posts.remove(k), ..s };
    assert forall|a: int| 0 <= a < s1.posts.len() implies s1.posts[a] == s.posts[if a < k {
        a
    } else {
        a + 1
    }] by {}
    assert forall|a: int| 0 <= a < s1.posts.len() implies #[trigger] s1.posts[a].id
        < s1.next_post_id by {
        assert(s1.posts[a] == s.posts[if a < k { a } else { a + 1 }]);
    }
    assert forall|a: int, b: int| 0 <= a < b < s1.posts.len() implies #[trigger] s1.posts[a].id
        < #[trigger] s1.posts[b].id by {
        assert(s1.posts[a] == s.posts[if a < k { a } else { a + 1 }]);
        assert(s1.posts[b] == s.posts[if b < k { b } else { b + 1 }]);
    }
    assert forall|q: int, a: int, b: int|
        0 <= q < s1.posts.len() && 0 <= a < b < s1.posts[q].comments.len() implies #[trigger] s1.posts[q].comments[a].id
        < #[trigger] s1.posts[q].comments[b].id by {
        assert(s1.posts[q] == s.posts[if q < k { q } else { q + 1 }]);
    }
    assert forall|q: int, a: int|
        0 <= q < s1.posts.len() && 0 <= a < s1.posts[q].comments.len() implies #[trigger] s1.posts[q].comments[a].id
        < s1.next_comment_id by {
        assert(s1.posts[q] == s.posts[if q < k { q } else { q + 1 }]);
    }
}

/// Whether `s` fits within `max` bytes of UTF-8.
pub fn fits(s: &String, max: usize) -> (r: bool)
    ensures
        r == (byte_len(s@) <= max),
{
    s.as_str().as_bytes().len() <= max
}

/// Whether every tag of `tags` is on the whitelist of `cfg`.
pub fn tags_whitelisted(cfg: &Config, tags: &Vec<String>) -> (r: bool)
    ensures
        r == tags_allowed(cfg@, tags.deep_view()),
{
    let mut i: usize = 0;
    while i < tags.len()
        invariant
            i <= tags@.len(),
            forall|j: int| 0 <= j < i ==> cfg@.tags.contains(#[trigger] tags.deep_view()[j]),
        decreases tags@.len() - i,
    {
        if !crate::config::contains_str(&cfg.tags, &tags[i]) {
            assert(!cfg@.tags.contains(tags.deep_view()[i as int]));
            return false;
        }
        i = i + 1;
    }
    true
}

/// The first check that the given fields of a post fail, if any.
pub fn check_fields(
    cfg: &Config,
    title: Option<&String>,
    content: Option<&String>,
    tags: Option<&Vec<String>>,
) -> (r: Option<StoreError>)
    ensures
        r == fields_error(
            cfg@,
            match title {
                Some(t) => Some(t@),
                None => None,
            },
            match content {
                Some(c) => Some(c@),
                None => None,
            },
            match tags {
                Some(ts) => Some(ts.deep_view()),
                None => None,
            },
        ),
{
    if let Some(t) = title {
        if !fits(t, cfg.max_title_len as usize) {
            return Some(StoreError::TitleTooLong);
        }
    }
    if let Some(c) = content {
        if !fits(c, cfg.max_content_len as usize) {
            return Some(StoreError::ContentTooLong);
        }
    }
    if let Some(ts) = tags {
        if ts.len() > cfg.max_tags_count as usize {
            return Some(StoreError::TooManyTags);
        }
        if !tags_whitelisted(cfg, ts) {
            return Some(StoreError::InvalidTags);
        }
    }
    None
}

impl Store {
    pub open spec fn wf(&self) -> bool {
        wf_view(self@)
    }

    /// An empty store under `config`, with both counters at zero.
    pub fn new(config: Config) -> (r: Store)
        ensures
            r.wf(),
            r@ == (StoreView {
                config: config@,
                posts: Seq::empty(),
                next_post_id: 0,
                next_comment_id: 0,
            }),
    {
        let r = Store { config, posts: Vec::new(), next_post_id: 0, next_comment_id: 0 };
        assert(posts_view(r.posts@) =~= Seq::<BlogView>::empty());
        r
    }

    /// A copy of the configuration.
    pub fn get_config(&self) -> (r: Config)
        ensures
            r@ == self@.config,
    {
        Config {
            max_tags_count: self.config.max_tags_count,
            max_content_len: self.config.max_content_len,
            max_title_len: self.config.max_title_len,
            tags: crate::blog::copy_strings(&self.config.tags),
        }
    }

    /// Overwrites the configuration, without validating it; existing posts
    /// are left as they are.
    pub fn replace_config(&mut self, config: Config)
        requires
            old(self).wf(),
        ensures
            final(self).wf(),
            final(self)@ == (StoreView { config: config@, ..old(self)@ }),
    {
        self.config = config;
    }

    /// The position of the post with id `id`.
    pub fn find_post(&self, id: u64) -> (r: Option<usize>)
        ensures
            post_index(self@.posts, id) == -1 <==> r is None,
            r matches Some(k) ==> k as int == post_index(self@.posts, id),
    {
        proof {
            lemma_first_index(post_ids(self@.posts), id);
        }
        let mut i: usize = 0;
        while i < self.posts.len()
            invariant
                i <= self.posts@.len(),
                forall|j: int| 0 <= j < i ==> post_ids(self@.posts)[j] != id,
            decreases self.posts@.len() - i,
        {
            assert(post_ids(self@.posts)[i as int] == self.posts@[i as int].id);
            if self.posts[i].id == id {
                proof {
                    lemma_first_index_at(post_ids(self@.posts), id, i as int);
                }
                return Some(i);
            }
            i = i + 1;
        }
        None
    }

    /// Creates a post owned by `caller`, dated `now`.
    pub fn create_post(
        &mut self,
        caller: Identity,
        title: String,
        content: String,
        tags: Vec<String>,
        now: u64,
    ) -> (r: Result<Blog, StoreError>)
        requires
            old(self).wf(),
            old(self).next_post_id < u64::MAX,
        ensures
            final(self).wf(),
            (final(self)@, blog_result_view(r)) == create_post_spec(
                old(self)@,
                caller@,
                title@,
                content@,
                tags.deep_view(),
                now,
            ),
            r is Ok <==> {
                &&& byte_len(title@) <= old(self)@.config.max_title_len
                &&& byte_len(content@) <= old(self)@.config.max_content_len
                &&& tags@.len() <= old(self)@.config.max_tags_count
                &&& tags_allowed(old(self)@.config, tags.deep_view())
            },
            byte_len(title@) > old(self)@.config.max_title_len ==> r == Err::<Blog, StoreError>(
                StoreError::TitleTooLong,
            ) && final(self)@ == old(self)@,
            byte_len(title@) <= old(self)@.config.max_title_len && byte_len(content@)
                > old(self)@.config.max_content_len ==> r == Err::<Blog, StoreError>(
                StoreError::ContentTooLong,
            ) && final(self)@ == old(self)@,
            byte_len(title@) <= old(self)@.config.max_title_len && byte_len(content@)
                <= old(self)@.config.max_content_len && tags@.len()
                > old(self)@.config.max_tags_count ==> r == Err::<Blog, StoreError>(
                StoreError::TooManyTags,
            ) && final(self)@ == old(self)@,
            byte_len(title@) <= old(self)@.config.max_title_len && byte_len(content@)
                <= old(self)@.config.max_content_len && tags@.len()
                <= old(self)@.config.max_tags_count && !tags_allowed(
                old(self)@.config,
                tags.deep_view(),
            ) ==> r == Err::<Blog, StoreError>(StoreError::InvalidTags) && final(self)@ == old(
                self,
            )@,
            r matches Ok(b) ==> {
                &&& b.id == old(self).next_post_id
                &&& final(self).next_post_id == b.id + 1
                &&& forall|k: int|
                    0 <= k < old(self)@.posts.len() ==> #[trigger] old(self)@.posts[k].id < b.id
                &&& get_post_spec(final(self)@, b.id) == Some(b@)
                &&& b@.title == title@ && b@.content == content@
                &&& b@.tags == tags.deep_view() && b@.comments.len() == 0
            },
    {
        if let Some(e) = check_fields(&self.config, Some(&title), Some(&content), Some(&tags)) {
            return Err(e);
        }
        let id = self.next_post_id;
        self.next_post_id = id + 1;
        let b = Blog::new(id, caller, title, content, tags, now);
        let out = b.duplicate();
        let ghost bv = b@;
        self.posts.push(b);
        assert(posts_view(self.posts@) =~= posts_view(old(self).posts@).push(bv));
        proof {
            let s0 = old(self)@;
            let s1 = self@;
            assert forall|a: int| 0 <= a < s1.posts.len() implies #[trigger] s1.posts[a].id
                < s1.next_post_id by {
                if a < s0.posts.len() {
                    assert(s1.posts[a] == s0.posts[a]);
                }
            }
            assert forall|a: int, b: int| 0 <= a < b < s1.posts.len() implies #[trigger] s1.posts[a].id
                < #[trigger] s1.posts[b].id by {
                assert(s1.posts[a] == s0.posts[a]);
                if b < s0.posts.len() {
                    assert(s1.posts[b] == s0.posts[b]);
                }
            }
            assert forall|p: int, a: int, b: int|
                0 <= p < s1.posts.len() && 0 <= a < b < s1.posts[p].comments.len() implies #[trigger] s1.posts[p].comments[a].id
                < #[trigger] s1.posts[p].comments[b].id by {
                assert(s1.posts[p] == s0.posts[p]);
            }
            assert forall|p: int, a: int|
                0 <= p < s1.posts.len() && 0 <= a < s1.posts[p].comments.len() implies #[trigger] s1.posts[p].comments[a].id
                < s1.next_comment_id by {
                assert(s1.posts[p] == s0.posts[p]);
            }
            let ids = post_ids(s1.posts);
            let n = s0.posts.len() as int;
            assert forall|a: int| 0 <= a < n implies ids[a] != id by {
                assert(ids[a] == s0.posts[a].id);
            }
            lemma_first_index_at(ids, id, n);
        }
        Ok(out)
    }

    /// Edits the post with id `id` on behalf of `caller`.
    pub fn edit_post(
        &mut self,
        caller: &Identity,
        id: u64,
        new_title: Option<String>,
        new_content: Option<String>,
        new_tags: Option<Vec<String>>,
    ) -> (r: Result<Blog, StoreError>)
        requires
            old(self).wf(),
        ensures
            final(self).wf(),
            (final(self)@, blog_result_view(r)) == edit_post_spec(
                old(self)@,
                caller@,
                id,
                crate::blog::opt_str_view(new_title),
                crate::blog::opt_str_view(new_content),
                crate::blog::opt_tags_view(new_tags),
            ),
    {
        let k = match self.find_post(id) {
            None => {
                return Err(StoreError::NotFound);
            },
            Some(k) => k,
        };
        proof {
            lemma_first_index(post_ids(self@.posts), id);
        }
        assert(self@.posts[k as int] == self.posts@[k as int]@);
        if !is_owner(caller, &self.posts[k].owner) {
            return Err(StoreError::Forbidden);
        }
        if let Some(e) = check_fields(
            &self.config,
            new_title.as_ref(),
            new_content.as_ref(),
            new_tags.as_ref(),
        ) {
            return Err(e);
        }
        let ghost s0 = self@;
        self.posts[k].apply_update(new_title, new_content, new_tags);
        let ghost p = self.posts@[k as int]@;
        assert(posts_view(self.posts@) =~= s0.posts.update(k as int, p));
        proof {
            lemma_wf_update_post(s0, k as int, p, s0.next_comment_id);
            assert(self@ == StoreView { posts: s0.posts.update(k as int, p), ..s0 });
        }
        Ok(self.posts[k].duplicate())
    }

    /// Deletes the post with id `id`, and its comments, on behalf of `caller`.
    pub fn delete_post(&mut self, caller: &Identity, id: u64) -> (r: Result<(), StoreError>)
        requires
            old(self).wf(),
        ensures
            final(self).wf(),
            (final(self)@, r) == delete_post_spec(old(self)@, caller@, id),
    {
        let k = match self.find_post(id) {
            None => {
                return Err(StoreError::NotFound);
            },
            Some(k) => k,
        };
        proof {
            lemma_first_index(post_ids(self@.posts), id);
        }
        assert(self@.posts[k as int] == self.posts@[k as int]@);
        if !is_owner(caller, &self.posts[k].owner) {
            return Err(StoreError::Forbidden);
        }
        let ghost s0 = self@;
        self.posts.remove(k);
        assert(posts_view(self.posts@) =~= s0.posts.remove(k as int));
        proof {
            lemma_wf_remove_post(s0, k as int);
        }
        Ok(())
    }

    /// Appends a comment by `caller`, dated `now`, to the post with id `post_id`.
    pub fn add_comment(&mut self, caller: Identity, post_id: u64, content: String, now: u64) -> (r:
        Result<Comment, StoreError>)
        requires
            old(self).wf(),
            old(self).next_comment_id < u64::MAX,
        ensures
            final(self).wf(),
            (final(self)@, comment_result_view(r)) == add_comment_spec(
                old(self)@,
                caller@,
                post_id,
                content@,
                now,
            ),
    {
        let k = match self.find_post(post_id) {
            None => {
                return Err(StoreError::NotFound);
            },
            Some(k) => k,
        };
        proof {
            lemma_first_index(post_ids(self@.posts), post_id);
        }
        let ghost s0 = self@;
        assert(s0.posts[k as int] == self.posts@[k as int]@);
        let id = self.next_comment_id;
        self.next_comment_id = id + 1;
        let c = Comment::new(id, caller, content, now);
        let out = c.duplicate();
        self.posts[k].add_comment(c);
        let ghost p = self.posts@[k as int]@;
        assert(posts_view(self.posts@) =~= s0.posts.update(k as int, p));
        proof {
            let old_p = s0.posts[k as int];
            assert forall|a: int, b: int| 0 <= a < b < p.comments.len() implies #[trigger] p.comments[a].id
                < #[trigger] p.comments[b].id by {
                assert(p.comments[a] == old_p.comments[a]);
                if b < old_p.comments.len() {
                    assert(p.comments[b] == old_p.comments[b]);
                }
            }
            assert forall|a: int| 0 <= a < p.comments.len() implies #[trigger] p.comments[a].id
                < self.next_comment_id by {
                if a < old_p.comments.len() {
                    assert(p.comments[a] == old_p.comments[a]);
                }
            }
            lemma_wf_update_post(s0, k as int, p, self.next_comment_id);
        }
        Ok(out)
    }

    /// Replaces the content of a comment of the post with id `post_id` on
    /// behalf of `caller`, and dates it `now`.
    pub fn edit_comment(
        &mut self,
        caller: &Identity,
        post_id: u64,
        comment_id: u64,
        new_content: String,
        now: u64,
    ) -> (r: Result<Comment, StoreError>)
        requires
            old(self).wf(),
        ensures
            final(self).wf(),
            (final(self)@, comment_result_view(r)) == edit_comment_spec(
                old(self)@,
                caller@,
                post_id,
                comment_id,
                new_content@,
                now,
            ),
            r matches Ok(c) ==> {
                &&& get_post_spec(final(self)@, post_id) is Some
                &&& comment_index(get_post_spec(final(self)@, post_id)->0, comment_id) >= 0
                &&& get_post_spec(final(self)@, post_id)->0.comments[comment_index(
                    get_post_spec(final(self)@, post_id)->0,
                    comment_id,
                )] == c@
            },
    {
        let k = match self.find_post(post_id) {
            None => {
                return Err(StoreError::NotFound);
            },
            Some(k) => k,
        };
        proof {
            lemma_first_index(post_ids(self@.posts), post_id);
        }
        let ghost s0 = self@;
        assert(s0.posts[k as int] == self.posts@[k as int]@);
        let j = match self.posts[k].find_comment(comment_id) {
            None => {
                return Err(StoreError::CommentNotFound);
            },
            Some(j) => j,
        };
        proof {
            lemma_first_index(comment_ids(s0.posts[k as int].comments), comment_id);
            assert(comment_ids(s0.posts[k as int].comments).len() == s0.posts[k as int].comments.len());
        }
        assert(s0.posts[k as int].comments[j as int] == self.posts@[k as int].comments@[j as int]@);
        if !is_owner(caller, &self.posts[k].comments[j].owner) {
            return Err(StoreError::Forbidden);
        }
        let r = self.posts[k].edit_comment(comment_id, new_content, now);
        let ghost p = self.posts@[k as int]@;
        assert(posts_view(self.posts@) =~= s0.posts.update(k as int, p));
        proof {
            let old_p = s0.posts[k as int];
            assert forall|a: int| 0 <= a < p.comments.len() implies #[trigger] p.comments[a].id
                == old_p.comments[a].id by {}
            lemma_wf_update_post(s0, k as int, p, s0.next_comment_id);
            assert(self@ == StoreView { posts: s0.posts.update(k as int, p), ..s0 });
            crate::laws::lemma_comment_edit_visible(
                s0,
                caller@,
                post_id,
                comment_id,
                new_content@,
                now,
            );
        }
        r
    }

    /// Removes a comment of the post with id `post_id` on behalf of `caller`.
    pub fn remove_comment(&mut self, caller: &Identity, post_id: u64, comment_id: u64) -> (r:
        Result<(), StoreError>)
        requires
            old(self).wf(),
        ensures
            final(self).wf(),
            (final(self)@, r) == remove_comment_spec(old(self)@, caller@, post_id, comment_id),
            r is Ok ==> get_post_spec(final(self)@, post_id) is Some && comment_index(
                get_post_spec(final(self)@, post_id)->0,
                comment_id,
            ) == -1,
    {
        let k = match self.find_post(post_id) {
            None => {
                return Err(StoreError::NotFound);
            },
            Some(k) => k,
        };
        proof {
            lemma_first_index(post_ids(self@.posts), post_id);
        }
        let ghost s0 = self@;
        assert(s0.posts[k as int] == self.posts@[k as int]@);
        let j = match self.posts[k].find_comment(comment_id) {
            None => {
                return Err(StoreError::CommentNotFound);
            },
            Some(j) => j,
        };
        proof {
            lemma_first_index(comment_ids(s0.posts[k as int].comments), comment_id);
            assert(comment_ids(s0.posts[k as int].comments).len() == s0.posts[k as int].comments.len());
        }
        assert(s0.posts[k as int].comments[j as int] == self.posts@[k as int].comments@[j as int]@);
        if !is_owner(caller, &self.posts[k].comments[j].owner) {
            return Err(StoreError::Forbidden);
        }
        self.posts[k].remove_comment(comment_id);
        let ghost p = self.posts@[k as int]@;
        assert(posts_view(self.posts@) =~= s0.posts.update(k as int, p));
        proof {
            let old_p = s0.posts[k as int];
            let ji = j as int;
            assert forall|a: int| 0 <= a < p.comments.len() implies #[trigger] p.comments[a]
                == old_p.comments[if a < ji { a } else { a + 1 }] by {}
            assert forall|a: int, b: int| 0 <= a < b < p.comments.len() implies #[trigger] p.comments[a].id
                < #[trigger] p.comments[b].id by {
                assert(p.comments[a] == old_p.comments[if a < ji { a } else { a + 1 }]);
                assert(p.comments[b] == old_p.comments[if b < ji { b } else { b + 1 }]);
            }
            assert forall|a: int| 0 <= a < p.comments.len() implies #[trigger] p.comments[a].id
                < s0.next_comment_id by {
                assert(p.comments[a] == old_p.comments[if a < ji { a } else { a + 1 }]);
            }
            lemma_wf_update_post(s0, k as int, p, s0.next_comment_id);
            assert(self@ == StoreView { posts: s0.posts.update(k as int, p), ..s0 });
            crate::laws::lemma_comment_remove_visible(s0, caller@, post_id, comment_id);
        }
        Ok(())
    }

    /// A copy of the post with id `id`, if there is one.
    pub fn get_post(&self, id: u64) -> (r: Option<Blog>)
        ensures
            match r {
                Some(b) => get_post_spec(self@, id) == Some(b@),
                None => get_post_spec(self@, id) is None,
            },
    {
        match self.find_post(id) {
            None => None,
            Some(k) => {
                proof {
                    lemma_first_index(post_ids(self@.posts), id);
                }
                Some(self.posts[k].duplicate())
            },
        }
    }

    /// A copy of the posts from position `offset`, at most `limit` of them.
    pub fn list_posts_range(&self, offset: usize, limit: usize) -> (r: Vec<Blog>)
        ensures
            posts_view(r@) == self@.posts.subrange(
                if offset < self@.posts.len() { offset as int } else { self@.posts.len() as int },
                if offset < self@.posts.len() && limit < self@.posts.len() - offset {
                    offset + limit
                } else {
                    self@.posts.len() as int
                },
            ),
    {
        let n = self.posts.len();
        let start = if offset < n { offset } else { n };
        let end = if offset < n && limit < n - offset { offset + limit } else { n };
        let mut out: Vec<Blog> = Vec::new();
        let mut i: usize = start;
        while i < end
            invariant
                start <= i <= end <= n,
                n == self.posts@.len(),
                posts_view(out@) == self@.posts.subrange(start as int, i as int),
            decreases end - i,
        {
            let b = self.posts[i].duplicate();
            let ghost before = out@;
            out.push(b);
            assert(posts_view(out@) =~= posts_view(before).push(b@));
            i = i + 1;
            assert(posts_view(out@) =~= self@.posts.subrange(start as int, i as int));
        }
        out
    }

    /// A copy of every post, in the order they were created.
    pub fn list_posts(&self) -> (r: Vec<Blog>)
        ensures
            posts_view(r@) == self@.posts,
    {
        let r = self.list_posts_range(0, self.posts.len());
        assert(self@.posts.subrange(0, self@.posts.len() as int) =~= self@.posts);
        r
    }
}

} // verus!
