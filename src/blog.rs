use vstd::prelude::*;

use crate::identity::Identity;
use crate::lookup::{first_index, lemma_first_index, lemma_first_index_at};
use crate::store::StoreError;

verus! {

/// A comment on a post.
#[derive(Clone, Debug, PartialEq, Eq)]
pub struct Comment {
    pub id: u64,
    pub owner: Identity,
    pub content: String,
    pub date: u64,
}

/// The mathematical value of a `Comment`.
pub struct CommentView {
    pub id: u64,
    pub owner: Seq<u8>,
    pub content: Seq<char>,
    pub date: u64,
}

impl View for Comment {
    type V = CommentView;

    open spec fn view(&self) -> CommentView {
        CommentView { id: self.id, owner: self.owner@, content: self.content@, date: self.date }
    }
}

/// A post with its comments, in the order they were added.
#[derive(Clone, Debug, PartialEq, Eq)]
pub struct Blog {
    pub id: u64,
    pub owner: Identity,
    pub title: String,
    pub date: u64,
    pub content: String,
    pub tags: Vec<String>,
    pub comments: Vec<Comment>,
}

/// The mathematical value of a `Blog`.
pub struct BlogView {
    pub id: u64,
    pub owner: Seq<u8>,
    pub title: Seq<char>,
    pub date: u64,
    pub content: Seq<char>,
    pub tags: Seq<Seq<char>>,
    pub comments: Seq<CommentView>,
}

pub open spec fn comments_view(cs: Seq<Comment>) -> Seq<CommentView> {
    cs.map_values(|c: Comment| c@)
}

impl View for Blog {
    type V = BlogView;

    open spec fn view(&self) -> BlogView {
        BlogView {
            id: self.id,
            owner: self.owner@,
            title: self.title@,
            date: self.date,
            content: self.content@,
            tags: self.tags.deep_view(),
            comments: comments_view(self.comments@),
        }
    }
}

pub open spec fn comment_ids(cs: Seq<CommentView>) -> Seq<u64> {
    cs.map_values(|c: CommentView| c.id)
}

/// The position of the first comment of `b` with id `id`, or -1.
pub open spec fn comment_index(b: BlogView, id: u64) -> int {
    first_index(comment_ids(b.comments), id)
}

/// A comment with new content, stamped with `now`.
pub open spec fn edited_comment(c: CommentView, content: Seq<char>, now: u64) -> CommentView {
    CommentView { content, date: now, ..c }
}

pub open spec fn opt_str_view(o: Option<String>) -> Option<Seq<char>> {
    match o {
        Some(s) => Some(s@),
        None => None,
    }
}

pub open spec fn opt_tags_view(o: Option<Vec<String>>) -> Option<Seq<Seq<char>>> {
    match o {
        Some(v) => Some(v.deep_view()),
        None => None,
    }
}

/// A post with each field that is given replaced.
pub open spec fn updated(
    b: BlogView,
    title: Option<Seq<char>>,
    content: Option<Seq<char>>,
    tags: Option<Seq<Seq<char>>>,
) -> BlogView {
    BlogView {
        title: match title {
            Some(t) => t,
            None => b.title,
        },
        content: match content {
            Some(c) => c,
            None => b.content,
        },
        tags: match tags {
            Some(ts) => ts,
            None => b.tags,
        },
        ..b
    }
}

/// A copy of `v`, string by string.
pub fn copy_strings(v: &Vec<String>) -> (r: Vec<String>)
    ensures
        r.deep_view() == v.deep_view(),
{
    let mut out: Vec<String> = Vec::new();
    let mut i: usize = 0;
    while i < v.len()
        invariant
            i <= v@.len(),
            out.deep_view() == v.deep_view().subrange(0, i as int),
        decreases v@.len() - i,
    {
        let ghost before = out.deep_view();
        out.push(v[i].clone());
        assert(out.deep_view() =~= before.push(v.deep_view()[i as int]));
        i = i + 1;
        assert(out.deep_view() =~= v.deep_view().subrange(0, i as int));
    }
    assert(v.deep_view().subrange(0, i as int) =~= v.deep_view());
    out
}

impl Comment {
    pub fn new(id: u64, owner: Identity, content: String, date: u64) -> (r: Comment)
        ensures
            r@ == (CommentView { id, owner: owner@, content: content@, date }),
    {
        Comment { id, owner, content, date }
    }

    /// A copy with the same value.
    pub fn duplicate(&self) -> (r: Comment)
        ensures
            r@ == self@,
    {
        Comment {
            id: self.id,
            owner: self.owner.duplicate(),
            content: self.content.clone(),
            date: self.date,
        }
    }
}

impl Blog {
    /// A new post with no comments.
    pub fn new(
        id: u64,
        owner: Identity,
        title: String,
        content: String,
        tags: Vec<String>,
        date: u64,
    ) -> (r: Blog)
        ensures
            r@ == (BlogView {
                id,
                owner: owner@,
                title: title@,
                date,
                content: content@,
                tags: tags.deep_view(),
                comments: Seq::empty(),
            }),
    {
        let r = Blog { id, owner, title, date, content, tags, comments: Vec::new() };
        assert(comments_view(r.comments@) =~= Seq::<CommentView>::empty());
        r
    }

    /// A copy with the same value, comments included.
    pub fn duplicate(&self) -> (r: Blog)
        ensures
            r@ == self@,
    {
        let mut comments: Vec<Comment> = Vec::new();
        let mut i: usize = 0;
        while i < self.comments.len()
            invariant
                i <= self.comments@.len(),
                comments_view(comments@) == comments_view(self.comments@).subrange(0, i as int),
            decreases self.comments@.len() - i,
        {
            let c = self.comments[i].duplicate();
            let ghost before = comments@;
            comments.push(c);
            assert(comments_view(comments@) =~= comments_view(before).push(c@));
            i = i + 1;
            assert(comments_view(comments@) =~= comments_view(self.comments@).subrange(
                0,
                i as int,
            ));
        }
        assert(comments_view(self.comments@).subrange(0, i as int) =~= comments_view(
            self.comments@,
        ));
        Blog {
            id: self.id,
            owner: self.owner.duplicate(),
            title: self.title.clone(),
            date: self.date,
            content: self.content.clone(),
            tags: copy_strings(&self.tags),
            comments,
        }
    }

    /// Replaces each of title, content and tags that is given.
    pub fn apply_update(
        &mut self,
        new_title: Option<String>,
        new_content: Option<String>,
        new_tags: Option<Vec<String>>,
    )
        ensures
            final(self)@ == updated(
                old(self)@,
                opt_str_view(new_title),
                opt_str_view(new_content),
                opt_tags_view(new_tags),
            ),
    {
        if let Some(t) = new_title {
            self.title = t;
        }
        if let Some(c) = new_content {
            self.content = c;
        }
        if let Some(ts) = new_tags {
            self.tags = ts;
        }
    }

    /// Appends `comment` to the post's comments.
    pub fn add_comment(&mut self, comment: Comment)
        ensures
            final(self)@ == (BlogView {
                comments: old(self)@.comments.push(comment@),
                ..old(self)@
            }),
    {
        self.comments.push(comment);
        assert(comments_view(self.comments@) =~= comments_view(old(self).comments@).push(
            comment@,
        ));
    }

    /// The position of the first comment with id `comment_id`.
    pub fn find_comment(&self, comment_id: u64) -> (r: Option<usize>)
        ensures
            comment_index(self@, comment_id) == -1 <==> r is None,
            r matches Some(k) ==> k as int == comment_index(self@, comment_id),
    {
        proof {
            lemma_first_index(comment_ids(self@.comments), comment_id);
        }
        let mut i: usize = 0;
        while i < self.comments.len()
            invariant
                i <= self.comments@.len(),
                forall|j: int| 0 <= j < i ==> comment_ids(self@.comments)[j] != comment_id,
            decreases self.comments@.len() - i,
        {
            assert(comment_ids(self@.comments)[i as int] == self.comments@[i as int].id);
            if self.comments[i].id == comment_id {
                proof {
                    lemma_first_index_at(comment_ids(self@.comments), comment_id, i as int);
                }
                return Some(i);
            }
            i = i + 1;
        }
        None
    }

    /// Replaces the content of the comment with id `comment_id` and stamps
    /// it with `now`; fails when the post has no such comment.
    pub fn edit_comment(&mut self, comment_id: u64, new_content: String, now: u64) -> (r: Result<
        Comment,
        StoreError,
    >)
        ensures
            comment_index(old(self)@, comment_id) == -1 ==> r == Err::<Comment, StoreError>(
                StoreError::CommentNotFound,
            ) && final(self)@ == old(self)@,
            comment_index(old(self)@, comment_id) >= 0 ==> {
                let k = comment_index(old(self)@, comment_id);
                let c = edited_comment(old(self)@.comments[k], new_content@, now);
                &&& r matches Ok(rc) && rc@ == c
                &&& final(self)@ == (BlogView {
                    comments: old(self)@.comments.update(k, c),
                    ..old(self)@
                })
            },
    {
        match self.find_comment(comment_id) {
            None => Err(StoreError::CommentNotFound),
            Some(k) => {
                proof {
                    lemma_first_index(comment_ids(self@.comments), comment_id);
                    assert(comment_ids(self@.comments).len() == self.comments@.len());
                }
                self.comments[k].content = new_content;
                self.comments[k].date = now;
                assert(comments_view(self.comments@) =~= comments_view(old(self).comments@).update(
                    k as int,
                    edited_comment(old(self)@.comments[k as int], new_content@, now),
                ));
                Ok(self.comments[k].duplicate())
            },
        }
    }

    /// Removes the comment with id `comment_id`; returns whether there was one.
    pub fn remove_comment(&mut self, comment_id: u64) -> (r: bool)
        ensures
            r == (comment_index(old(self)@, comment_id) >= 0),
            !r ==> final(self)@ == old(self)@,
            r ==> final(self)@ == (BlogView {
                comments: old(self)@.comments.remove(comment_index(old(self)@, comment_id)),
                ..old(self)@
            }),
    {
        match self.find_comment(comment_id) {
            None => false,
            Some(k) => {
                proof {
                    lemma_first_index(comment_ids(self@.comments), comment_id);
                    assert(comment_ids(self@.comments).len() == self.comments@.len());
                }
                self.comments.remove(k);
                assert(comments_view(self.comments@) =~= comments_view(old(self).comments@).remove(
                    k as int,
                ));
                true
            },
        }
    }
}

} // verus!
