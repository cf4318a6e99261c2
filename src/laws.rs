use vstd::prelude::*;

use crate::blog::{BlogView, comment_ids, comment_index};
use crate::config::ConfigView;
use crate::lookup::{lemma_first_index, lemma_first_index_at};
use crate::store::{
    StoreError,
    StoreView,
    add_comment_spec,
    byte_len,
    create_post_spec,
    delete_post_spec,
    edit_comment_spec,
    edit_post_spec,
    get_post_spec,
    post_ids,
    post_index,
    remove_comment_spec,
    tags_allowed,
    wf_view,
};

verus! {

/// One call on the store, with its arguments as values.
pub enum Action {
    CreatePost {
        caller: Seq<u8>,
        title: Seq<char>,
        content: Seq<char>,
        tags: Seq<Seq<char>>,
        now: u64,
    },
    EditPost {
        caller: Seq<u8>,
        id: u64,
        title: Option<Seq<char>>,
        content: Option<Seq<char>>,
        tags: Option<Seq<Seq<char>>>,
    },
    DeletePost { caller: Seq<u8>, id: u64 },
    AddComment { caller: Seq<u8>, post_id: u64, content: Seq<char>, now: u64 },
    EditComment {
        caller: Seq<u8>,
        post_id: u64,
        comment_id: u64,
        content: Seq<char>,
        now: u64,
    },
    RemoveComment { caller: Seq<u8>, post_id: u64, comment_id: u64 },
    SetConfig { config: ConfigView },
}

/// The store after one call.
pub open spec fn step(s: StoreView, a: Action) -> StoreView {
    match a {
        Action::CreatePost { caller, title, content, tags, now } => create_post_spec(
            s,
            caller,
            title,
            content,
            tags,
            now,
        ).0,
        Action::EditPost { caller, id, title, content, tags } => edit_post_spec(
            s,
            caller,
            id,
            title,
            content,
            tags,
        ).0,
        Action::DeletePost { caller, id } => delete_post_spec(s, caller, id).0,
        Action::AddComment { caller, post_id, content, now } => add_comment_spec(
            s,
            caller,
            post_id,
            content,
            now,
        ).0,
        Action::EditComment { caller, post_id, comment_id, content, now } => edit_comment_spec(
            s,
            caller,
            post_id,
            comment_id,
            content,
            now,
        ).0,
        Action::RemoveComment { caller, post_id, comment_id } => remove_comment_spec(
            s,
            caller,
            post_id,
            comment_id,
        ).0,
        Action::SetConfig { config } => StoreView { config, ..s },
    }
}

/// The store after a sequence of calls.
pub open spec fn run(s: StoreView, acts: Seq<Action>) -> StoreView
    decreases acts.len(),
{
    if acts.len() == 0 {
        s
    } else {
        step(run(s, acts.drop_last()), acts.last())
    }
}

/// The id that call `i` of `acts` issued to a new post, if it created one.
pub open spec fn issued_id(s: StoreView, acts: Seq<Action>, i: int) -> Option<u64> {
    match acts[i] {
        Action::CreatePost { caller, title, content, tags, now } => match create_post_spec(
            run(s, acts.take(i)),
            caller,
            title,
            content,
            tags,
            now,
        ).1 {
            Ok(p) => Some(p.id),
            Err(_) => None,
        },
        _ => None,
    }
}

/// The post counter stays below its largest value before every call.
pub open spec fn post_counter_in_range(s: StoreView, acts: Seq<Action>) -> bool {
    forall|k: int| 0 <= k < acts.len() ==> #[trigger] run(s, acts.take(k)).next_post_id < u64::MAX
}

proof fn lemma_run_take_step(s: StoreView, acts: Seq<Action>, j: int)
    requires
        0 <= j < acts.len(),
    ensures
        run(s, acts.take(j + 1)) == step(run(s, acts.take(j)), acts[j]),
{
    assert(acts.take(j + 1).drop_last() =~= acts.take(j));
}

proof fn lemma_step_post_counter(s: StoreView, a: Action)
    requires
        s.next_post_id < u64::MAX,
    ensures
        step(s, a).next_post_id == s.next_post_id || step(s, a).next_post_id == s.next_post_id
            + 1,
{
}

proof fn lemma_post_counter_monotone(s: StoreView, acts: Seq<Action>, i: int, j: int)
    requires
        0 <= i <= j <= acts.len(),
        post_counter_in_range(s, acts),
    ensures
        run(s, acts.take(i)).next_post_id <= run(s, acts.take(j)).next_post_id,
    decreases j - i,
{
    if i < j {
        lemma_post_counter_monotone(s, acts, i, j - 1);
        lemma_run_take_step(s, acts, j - 1);
        assert(run(s, acts.take(j - 1)).next_post_id < u64::MAX);
        lemma_step_post_counter(run(s, acts.take(j - 1)), acts[j - 1]);
    }
}

/// Over any sequence of calls, deletes included, the ids that successive
/// post creations issue strictly increase, so none is issued twice.
pub proof fn lemma_post_ids_increase(s: StoreView, acts: Seq<Action>, i: int, j: int)
    requires
        0 <= i < j < acts.len(),
        post_counter_in_range(s, acts),
        issued_id(s, acts, i) is Some,
        issued_id(s, acts, j) is Some,
    ensures
        issued_id(s, acts, i)->0 < issued_id(s, acts, j)->0,
{
    lemma_run_take_step(s, acts, i);
    assert(run(s, acts.take(i)).next_post_id < u64::MAX);
    lemma_post_counter_monotone(s, acts, i + 1, j);
}

/// A new post's id is above the id of every post already in the store.
pub proof fn lemma_created_id_fresh(
    s: StoreView,
    caller: Seq<u8>,
    title: Seq<char>,
    content: Seq<char>,
    tags: Seq<Seq<char>>,
    now: u64,
)
    requires
        wf_view(s),
        create_post_spec(s, caller, title, content, tags, now).1 is Ok,
    ensures
        forall|k: int|
            0 <= k < s.posts.len() ==> #[trigger] s.posts[k].id < create_post_spec(
                s,
                caller,
                title,
                content,
                tags,
                now,
            ).1->Ok_0.id,
{
}

/// An edit of a post or of a comment is an edit action.
pub open spec fn is_edit(a: Action) -> bool {
    a is EditPost || a is EditComment
}

proof fn lemma_edit_step(t: StoreView, a: Action)
    requires
        is_edit(a),
    ensures
        step(t, a).posts.len() == t.posts.len(),
        forall|k: int|
            0 <= k < t.posts.len() ==> {
                &&& #[trigger] step(t, a).posts[k].id == t.posts[k].id
                &&& step(t, a).posts[k].owner == t.posts[k].owner
                &&& step(t, a).posts[k].date == t.posts[k].date
            },
{
    match a {
        Action::EditPost { caller, id, title, content, tags } => {
            lemma_first_index(post_ids(t.posts), id);
        },
        Action::EditComment { caller, post_id, comment_id, content, now } => {
            lemma_first_index(post_ids(t.posts), post_id);
        },
        _ => {},
    }
}

/// Edits keep every post in place with its id, owner and date.
pub proof fn lemma_edits_keep_owner_and_date(s: StoreView, acts: Seq<Action>)
    requires
        forall|k: int| 0 <= k < acts.len() ==> is_edit(#[trigger] acts[k]),
    ensures
        run(s, acts).posts.len() == s.posts.len(),
        forall|k: int|
            0 <= k < s.posts.len() ==> {
                &&& #[trigger] run(s, acts).posts[k].id == s.posts[k].id
                &&& run(s, acts).posts[k].owner == s.posts[k].owner
                &&& run(s, acts).posts[k].date == s.posts[k].date
            },
    decreases acts.len(),
{
    if acts.len() > 0 {
        let rest = acts.drop_last();
        assert forall|k: int| 0 <= k < rest.len() implies is_edit(#[trigger] rest[k]) by {
            assert(rest[k] == acts[k]);
        }
        lemma_edits_keep_owner_and_date(s, rest);
        lemma_edit_step(run(s, rest), acts.last());
    }
}

/// A caller who does not own a post can neither edit nor delete it, and the
/// store stays as it was.
pub proof fn lemma_non_owner_forbidden(
    s: StoreView,
    caller: Seq<u8>,
    id: u64,
    title: Option<Seq<char>>,
    content: Option<Seq<char>>,
    tags: Option<Seq<Seq<char>>>,
)
    requires
        get_post_spec(s, id) is Some,
        get_post_spec(s, id)->0.owner != caller,
    ensures
        edit_post_spec(s, caller, id, title, content, tags) == (s, Err::<BlogView, StoreError>(
            StoreError::Forbidden,
        )),
        delete_post_spec(s, caller, id) == (s, Err::<(), StoreError>(StoreError::Forbidden)),
{
}

/// A new post is accepted exactly when its title and content fit their
/// limits, it has no more tags than allowed and each tag is whitelisted; a
/// length equal to its limit is accepted.
pub proof fn lemma_create_validation(
    s: StoreView,
    caller: Seq<u8>,
    title: Seq<char>,
    content: Seq<char>,
    tags: Seq<Seq<char>>,
    now: u64,
)
    ensures
        create_post_spec(s, caller, title, content, tags, now).1 is Ok <==> {
            &&& byte_len(title) <= s.config.max_title_len
            &&& byte_len(content) <= s.config.max_content_len
            &&& tags.len() <= s.config.max_tags_count
            &&& tags_allowed(s.config, tags)
        },
{
}

/// The owner's edit of a post is accepted exactly when each given field
/// passes the same checks as at creation.
pub proof fn lemma_edit_validation(
    s: StoreView,
    caller: Seq<u8>,
    id: u64,
    title: Option<Seq<char>>,
    content: Option<Seq<char>>,
    tags: Option<Seq<Seq<char>>>,
)
    requires
        get_post_spec(s, id) is Some,
        get_post_spec(s, id)->0.owner == caller,
    ensures
        edit_post_spec(s, caller, id, title, content, tags).1 is Ok <==> {
            &&& title is Some ==> byte_len(title->0) <= s.config.max_title_len
            &&& content is Some ==> byte_len(content->0) <= s.config.max_content_len
            &&& tags is Some ==> tags->0.len() <= s.config.max_tags_count
            &&& tags is Some ==> tags_allowed(s.config, tags->0)
        },
{
}

/// A caller who does not own a comment can neither edit nor remove it, and
/// the store stays as it was.
pub proof fn lemma_comment_non_owner_forbidden(
    s: StoreView,
    caller: Seq<u8>,
    post_id: u64,
    comment_id: u64,
    content: Seq<char>,
    now: u64,
)
    requires
        get_post_spec(s, post_id) is Some,
        comment_index(get_post_spec(s, post_id)->0, comment_id) >= 0,
        get_post_spec(s, post_id)->0.comments[comment_index(
            get_post_spec(s, post_id)->0,
            comment_id,
        )].owner != caller,
    ensures
        edit_comment_spec(s, caller, post_id, comment_id, content, now) == (s, Err::<
            crate::blog::CommentView,
            StoreError,
        >(StoreError::Forbidden)),
        remove_comment_spec(s, caller, post_id, comment_id) == (s, Err::<(), StoreError>(
            StoreError::Forbidden,
        )),
{
}

/// The owner's edit of a comment succeeds, and reading the post afterwards
/// shows the comment with the new content.
pub proof fn lemma_comment_edit_visible(
    s: StoreView,
    caller: Seq<u8>,
    post_id: u64,
    comment_id: u64,
    content: Seq<char>,
    now: u64,
)
    requires
        get_post_spec(s, post_id) is Some,
        comment_index(get_post_spec(s, post_id)->0, comment_id) >= 0,
        get_post_spec(s, post_id)->0.comments[comment_index(
            get_post_spec(s, post_id)->0,
            comment_id,
        )].owner == caller,
    ensures
        ({
            let s1 = edit_comment_spec(s, caller, post_id, comment_id, content, now).0;
            &&& edit_comment_spec(s, caller, post_id, comment_id, content, now).1 is Ok
            &&& get_post_spec(s1, post_id) is Some
            &&& comment_index(get_post_spec(s1, post_id)->0, comment_id) >= 0
            &&& get_post_spec(s1, post_id)->0.comments[comment_index(
                get_post_spec(s1, post_id)->0,
                comment_id,
            )].content == content
            &&& get_post_spec(s1, post_id)->0.comments[comment_index(
                get_post_spec(s1, post_id)->0,
                comment_id,
            )] == edit_comment_spec(s, caller, post_id, comment_id, content, now).1->Ok_0
        }),
{
    let k = post_index(s.posts, post_id);
    let p = s.posts[k];
    let j = comment_index(p, comment_id);
    let s1 = edit_comment_spec(s, caller, post_id, comment_id, content, now).0;
    lemma_first_index(post_ids(s.posts), post_id);
    lemma_first_index(comment_ids(p.comments), comment_id);
    assert(post_ids(s1.posts) =~= post_ids(s.posts));
    let after = s1.posts[k];
    assert(comment_ids(after.comments) =~= comment_ids(p.comments));
}

/// The owner's removal of a comment succeeds, and reading the post
/// afterwards no longer shows a comment with that id.
pub proof fn lemma_comment_remove_visible(
    s: StoreView,
    caller: Seq<u8>,
    post_id: u64,
    comment_id: u64,
)
    requires
        wf_view(s),
        get_post_spec(s, post_id) is Some,
        comment_index(get_post_spec(s, post_id)->0, comment_id) >= 0,
        get_post_spec(s, post_id)->0.comments[comment_index(
            get_post_spec(s, post_id)->0,
            comment_id,
        )].owner == caller,
    ensures
        ({
            let s1 = remove_comment_spec(s, caller, post_id, comment_id).0;
            &&& remove_comment_spec(s, caller, post_id, comment_id).1 is Ok
            &&& get_post_spec(s1, post_id) is Some
            &&& comment_index(get_post_spec(s1, post_id)->0, comment_id) == -1
        }),
{
    let k = post_index(s.posts, post_id);
    let p = s.posts[k];
    let j = comment_index(p, comment_id);
    let s1 = remove_comment_spec(s, caller, post_id, comment_id).0;
    lemma_first_index(post_ids(s.posts), post_id);
    lemma_first_index(comment_ids(p.comments), comment_id);
    assert(post_ids(s1.posts) =~= post_ids(s.posts));
    let after = s1.posts[k];
    let ids1 = comment_ids(after.comments);
    assert(p.comments[j].id == comment_id);
    assert forall|a: int| 0 <= a < ids1.len() implies ids1[a] != comment_id by {
        if a < j {
            assert(after.comments[a] == p.comments[a]);
            assert(p.comments[a].id < p.comments[j].id);
        } else {
            assert(after.comments[a] == p.comments[a + 1]);
            assert(p.comments[j].id < p.comments[a + 1].id);
        }
    }
    lemma_first_index(ids1, comment_id);
}

/// Creating a post and then reading it back by its id gives the same title,
/// content and tags, and no comments.
pub proof fn lemma_create_then_get(
    s: StoreView,
    caller: Seq<u8>,
    title: Seq<char>,
    content: Seq<char>,
    tags: Seq<Seq<char>>,
    now: u64,
)
    requires
        wf_view(s),
        create_post_spec(s, caller, title, content, tags, now).1 is Ok,
    ensures
        ({
            let (s1, r) = create_post_spec(s, caller, title, content, tags, now);
            let got = get_post_spec(s1, r->Ok_0.id);
            &&& got is Some
            &&& got->0.title == title
            &&& got->0.content == content
            &&& got->0.tags == tags
            &&& got->0.comments.len() == 0
        }),
{
    let (s1, r) = create_post_spec(s, caller, title, content, tags, now);
    let id = r->Ok_0.id;
    let ids = post_ids(s1.posts);
    let n = s.posts.len() as int;
    assert forall|a: int| 0 <= a < n implies ids[a] != id by {
        assert(ids[a] == s.posts[a].id);
    }
    lemma_first_index_at(ids, id, n);
}

} // verus!
