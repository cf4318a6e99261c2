use vstd::prelude::*;

use crate::blog::{Blog, Comment, opt_str_view, opt_tags_view};
use crate::identity::Identity;
use crate::store::{
    Operation,
    Store,
    StoreError,
    add_comment_spec,
    create_post_spec,
    delete_post_spec,
    edit_comment_spec,
    edit_post_spec,
    remove_comment_spec,
};

verus! {

/// A mutating operation with its decoded arguments.
pub enum Command {
    CreatePost { title: String, content: String, tags: Vec<String> },
    EditPost {
        id: u64,
        title: Option<String>,
        content: Option<String>,
        tags: Option<Vec<String>>,
    },
    DeletePost { id: u64 },
    AddComment { post_id: u64, content: String },
    EditComment { post_id: u64, comment_id: u64, content: String },
    RemoveComment { post_id: u64, comment_id: u64 },
}

impl Command {
    /// Which operation the command performs.
    pub fn operation(&self) -> (r: Operation)
        ensures
            r == match *self {
                Command::CreatePost { .. } => Operation::CreatePost,
                Command::EditPost { .. } => Operation::EditPost,
                Command::DeletePost { .. } => Operation::DeletePost,
                Command::AddComment { .. } => Operation::AddComment,
                Command::EditComment { .. } => Operation::EditComment,
                Command::RemoveComment { .. } => Operation::RemoveComment,
            },
    {
        match self {
            Command::CreatePost { .. } => Operation::CreatePost,
            Command::EditPost { .. } => Operation::EditPost,
            Command::DeletePost { .. } => Operation::DeletePost,
            Command::AddComment { .. } => Operation::AddComment,
            Command::EditComment { .. } => Operation::EditComment,
            Command::RemoveComment { .. } => Operation::RemoveComment,
        }
    }
}

/// What a mutating operation produced.
pub enum WriteOutcome {
    PostCreated(Blog),
    PostUpdated(Blog),
    CommentCreated(Comment),
    CommentUpdated(Comment),
    Deleted,
    Failed(StoreError),
}

/// The status that reports an outcome: 201 for a creation, 200 for an edit,
/// 204 for a deletion, and the error's own status for a failure.
pub fn outcome_status(o: &WriteOutcome) -> (r: u16)
    ensures
        r == match o {
            WriteOutcome::PostCreated(_) | WriteOutcome::CommentCreated(_) => 201u16,
            WriteOutcome::PostUpdated(_) | WriteOutcome::CommentUpdated(_) => 200u16,
            WriteOutcome::Deleted => 204u16,
            WriteOutcome::Failed(e) => match e {
                StoreError::NotFound | StoreError::CommentNotFound => 404u16,
                StoreError::Forbidden => 403u16,
                _ => 400u16,
            },
        },
{
    match o {
        WriteOutcome::PostCreated(_) | WriteOutcome::CommentCreated(_) => 201,
        WriteOutcome::PostUpdated(_) | WriteOutcome::CommentUpdated(_) => 200,
        WriteOutcome::Deleted => 204,
        WriteOutcome::Failed(e) => crate::http::error_status(*e),
    }
}

impl Store {
    /// Runs `cmd` on behalf of `caller` at time `now`.
    pub fn execute(&mut self, caller: Identity, cmd: Command, now: u64) -> (o: WriteOutcome)
        requires
            old(self).wf(),
            cmd is CreatePost ==> old(self).next_post_id < u64::MAX,
            cmd is AddComment ==> old(self).next_comment_id < u64::MAX,
        ensures
            final(self).wf(),
            match cmd {
                Command::CreatePost { title, content, tags } => {
                    let (s1, r) = create_post_spec(
                        old(self)@,
                        caller@,
                        title@,
                        content@,
                        tags.deep_view(),
                        now,
                    );
                    &&& final(self)@ == s1
                    &&& match r {
                        Ok(b) => o matches WriteOutcome::PostCreated(x) && x@ == b,
                        Err(e) => o matches WriteOutcome::Failed(x) && x == e,
                    }
                },
                Command::EditPost { id, title, content, tags } => {
                    let (s1, r) = edit_post_spec(
                        old(self)@,
                        caller@,
                        id,
                        opt_str_view(title),
                        opt_str_view(content),
                        opt_tags_view(tags),
                    );
                    &&& final(self)@ == s1
                    &&& match r {
                        Ok(b) => o matches WriteOutcome::PostUpdated(x) && x@ == b,
                        Err(e) => o matches WriteOutcome::Failed(x) && x == e,
                    }
                },
                Command::DeletePost { id } => {
                    let (s1, r) = delete_post_spec(old(self)@, caller@, id);
                    &&& final(self)@ == s1
                    &&& match r {
                        Ok(_) => o is Deleted,
                        Err(e) => o matches WriteOutcome::Failed(x) && x == e,
                    }
                },
                Command::AddComment { post_id, content } => {
                    let (s1, r) = add_comment_spec(old(self)@, caller@, post_id, content@, now);
                    &&& final(self)@ == s1
                    &&& match r {
                        Ok(c) => o matches WriteOutcome::CommentCreated(x) && x@ == c,
                        Err(e) => o matches WriteOutcome::Failed(x) && x == e,
                    }
                },
                Command::EditComment { post_id, comment_id, content } => {
                    let (s1, r) = edit_comment_spec(
                        old(self)@,
                        caller@,
                        post_id,
                        comment_id,
                        content@,
                        now,
                    );
                    &&& final(self)@ == s1
                    &&& match r {
                        Ok(c) => o matches WriteOutcome::CommentUpdated(x) && x@ == c,
                        Err(e) => o matches WriteOutcome::Failed(x) && x == e,
                    }
                },
                Command::RemoveComment { post_id, comment_id } => {
                    let (s1, r) = remove_comment_spec(old(self)@, caller@, post_id, comment_id);
                    &&& final(self)@ == s1
                    &&& match r {
                        Ok(_) => o is Deleted,
                        Err(e) => o matches WriteOutcome::Failed(x) && x == e,
                    }
                },
            },
    {
        match cmd {
            Command::CreatePost { title, content, tags } => {
                match self.create_post(caller, title, content, tags, now) {
                    Ok(b) => WriteOutcome::PostCreated(b),
                    Err(e) => WriteOutcome::Failed(e),
                }
            },
            Command::EditPost { id, title, content, tags } => {
                match self.edit_post(&caller, id, title, content, tags) {
                    Ok(b) => WriteOutcome::PostUpdated(b),
                    Err(e) => WriteOutcome::Failed(e),
                }
            },
            Command::DeletePost { id } => match self.delete_post(&caller, id) {
                Ok(()) => WriteOutcome::Deleted,
                Err(e) => WriteOutcome::Failed(e),
            },
            Command::AddComment { post_id, content } => {
                match self.add_comment(caller, post_id, content, now) {
                    Ok(c) => WriteOutcome::CommentCreated(c),
                    Err(e) => WriteOutcome::Failed(e),
                }
            },
            Command::EditComment { post_id, comment_id, content } => {
                match self.edit_comment(&caller, post_id, comment_id, content, now) {
                    Ok(c) => WriteOutcome::CommentUpdated(c),
                    Err(e) => WriteOutcome::Failed(e),
                }
            },
            Command::RemoveComment { post_id, comment_id } => {
                match self.remove_comment(&caller, post_id, comment_id) {
                    Ok(()) => WriteOutcome::Deleted,
                    Err(e) => WriteOutcome::Failed(e),
                }
            },
        }
    }
}

} // verus!
