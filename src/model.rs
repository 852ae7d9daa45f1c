use vstd::prelude::*;

use crate::identity::Identity;

verus! {

/// A registered user's profile.
pub struct User {
    pub user_id: Identity,
    pub username: String,
    pub full_name: Option<String>,
    pub email: Option<String>,
    pub bio: Option<String>,
    pub profile_pic: Option<String>,
    pub location: Option<String>,
    pub website: Option<String>,
    pub is_admin: bool,
    pub created_at: u64,
    pub last_active: u64,
}

/// Optional profile fields, as given on creation or update.
pub struct Profile {
    pub full_name: Option<String>,
    pub email: Option<String>,
    pub bio: Option<String>,
    pub profile_pic: Option<String>,
    pub location: Option<String>,
    pub website: Option<String>,
}

/// Counts over the user table.
#[derive(Clone, Copy, Debug, PartialEq, Eq, Structural)]
pub struct AdminStats {
    pub total_users: u64,
    pub total_admins: u64,
    pub recent_registrations: u64,
}

/// A post; it is never removed, only marked deleted.
pub struct Post {
    pub post_id: u64,
    pub author_id: Identity,
    pub content: String,
    pub created_at: u64,
    pub updated_at: Option<u64>,
    pub likes: u64,
    pub comments_count: u64,
    pub shares_count: u64,
    pub hashtags: Vec<String>,
    pub mentions: Vec<Identity>,
    pub media_urls: Vec<String>,
    pub is_deleted: bool,
}

/// A comment on a post; it is never removed, only marked deleted.
pub struct Comment {
    pub comment_id: u64,
    pub post_id: u64,
    pub author_id: Identity,
    pub content: String,
    pub created_at: u64,
    pub updated_at: Option<u64>,
    pub likes: u64,
    pub is_deleted: bool,
}

/// A directed follow edge.
pub struct Follow {
    pub follower_id: Identity,
    pub following_id: Identity,
}

/// A user's engagement with one post or comment (a like or a share).
pub struct Engagement {
    pub user_id: Identity,
    pub item_id: u64,
}

/// Counts over the post table.
#[derive(Clone, Copy, Debug, PartialEq, Eq, Structural)]
pub struct PostStats {
    pub total_posts: u64,
    pub recent_posts: u64,
    pub total_likes: u64,
}

/// The broad class of a failure.
#[derive(Clone, Copy, Debug, PartialEq, Eq, Structural)]
pub enum ErrorKind {
    Validation,
    NotFound,
    Forbidden,
    Conflict,
    AlreadyDeleted,
}

/// Why an operation on the store was refused.
#[derive(Clone, Copy, Debug, PartialEq, Eq, Structural)]
pub enum StoreError {
    UserNotRegistered,
    EmptyContent,
    ContentTooLong,
    UserNotFound,
    PostNotFound,
    PostDeleted,
    CommentNotFound,
    CommentDeleted,
    Forbidden,
    AlreadyDeleted,
    UserAlreadyExists,
    AlreadyLiked,
    NotLiked,
    SelfFollow,
    AlreadyFollowing,
    NotFollowing,
    TargetNotFound,
    CannotDemotePredefinedAdmin,
}

pub open spec fn kind_of(e: StoreError) -> ErrorKind {
    match e {
        StoreError::EmptyContent | StoreError::ContentTooLong => ErrorKind::Validation,
        StoreError::UserNotRegistered | StoreError::UserNotFound | StoreError::PostNotFound
        | StoreError::PostDeleted | StoreError::CommentNotFound | StoreError::CommentDeleted
        | StoreError::NotLiked | StoreError::NotFollowing
        | StoreError::TargetNotFound => ErrorKind::NotFound,
        StoreError::Forbidden => ErrorKind::Forbidden,
        StoreError::UserAlreadyExists | StoreError::AlreadyLiked | StoreError::SelfFollow
        | StoreError::AlreadyFollowing
        | StoreError::CannotDemotePredefinedAdmin => ErrorKind::Conflict,
        StoreError::AlreadyDeleted => ErrorKind::AlreadyDeleted,
    }
}

impl StoreError {
    /// The class of this error.
    pub fn kind(&self) -> (r: ErrorKind)
        ensures
            r == kind_of(*self),
    {
        match self {
            StoreError::EmptyContent | StoreError::ContentTooLong => ErrorKind::Validation,
            StoreError::UserNotRegistered | StoreError::UserNotFound | StoreError::PostNotFound
            | StoreError::PostDeleted | StoreError::CommentNotFound | StoreError::CommentDeleted
            | StoreError::NotLiked | StoreError::NotFollowing
            | StoreError::TargetNotFound => ErrorKind::NotFound,
            StoreError::Forbidden => ErrorKind::Forbidden,
            StoreError::UserAlreadyExists | StoreError::AlreadyLiked | StoreError::SelfFollow
            | StoreError::AlreadyFollowing
            | StoreError::CannotDemotePredefinedAdmin => ErrorKind::Conflict,
            StoreError::AlreadyDeleted => ErrorKind::AlreadyDeleted,
        }
    }
}

/// Monotonic counters for post and comment ids; the first id handed out is 1.
pub struct IdGenerator {
    pub post_counter: u64,
    pub comment_counter: u64,
}

impl IdGenerator {
    pub fn new() -> (r: IdGenerator)
        ensures
            r.post_counter == 0,
            r.comment_counter == 0,
    {
        IdGenerator { post_counter: 0, comment_counter: 0 }
    }

    /// Hands out the next post id.
    pub fn next_post_id(&mut self) -> (r: u64)
        requires
            old(self).post_counter < u64::MAX,
        ensures
            r == old(self).post_counter + 1,
            final(self).post_counter == r,
            final(self).comment_counter == old(self).comment_counter,
    {
        self.post_counter = self.post_counter + 1;
        self.post_counter
    }

    /// Hands out the next comment id.
    pub fn next_comment_id(&mut self) -> (r: u64)
        requires
            old(self).comment_counter < u64::MAX,
        ensures
            r == old(self).comment_counter + 1,
            final(self).comment_counter == r,
            final(self).post_counter == old(self).post_counter,
    {
        self.comment_counter = self.comment_counter + 1;
        self.comment_counter
    }
}

} // verus!
