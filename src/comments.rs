use vstd::prelude::*;

use crate::identity::Identity;
use crate::model::{Comment, Post, StoreError};
use crate::post_ops::{post_exists, post_of, sat_inc, touch};
use crate::posts::{content_error, validate_content, MAX_POST_CHARS};
use crate::store::SocialStore;
use crate::text::trim_of;

verus! {

/// The longest comment, in characters.
pub const MAX_COMMENT_CHARS: usize = 500;

/// The number of live comments on post `pid`.
pub open spec fn live_comments(cs: Seq<Comment>, pid: u64) -> nat
    decreases cs.len(),
{
    if cs.len() == 0 {
        0
    } else {
        live_comments(cs.drop_last(), pid) + if cs.last().post_id == pid && !cs.last().is_deleted {
            1nat
        } else {
            0nat
        }
    }
}

/// Every post's comment counter equals the number of its live comments.
pub open spec fn comment_counts_consistent(s: SocialStore) -> bool {
    forall|i: int|
        0 <= i < s.posts@.len() ==> (#[trigger] s.posts@[i]).comments_count == live_comments(
            s.comments@,
            (i + 1) as u64,
        )
}

/// The ids of the live comments on post `pid`, oldest first.
pub open spec fn comments_on(cs: Seq<Comment>, pid: u64) -> Seq<u64>
    decreases cs.len(),
{
    if cs.len() == 0 {
        Seq::empty()
    } else {
        let rest = comments_on(cs.drop_last(), pid);
        if cs.last().post_id == pid && !cs.last().is_deleted {
            rest.push(cs.last().comment_id)
        } else {
            rest
        }
    }
}

/// `id` names a comment of the store.
pub open spec fn comment_exists(s: SocialStore, id: u64) -> bool {
    1 <= id <= s.comments@.len()
}

/// The comment with id `id` (meaningful where it exists).
pub open spec fn comment_of(s: SocialStore, id: u64) -> Comment {
    s.comments@[id - 1]
}

/// The two tables agree on every comment's post and deletion flag.
pub open spec fn same_shape(a: Seq<Comment>, b: Seq<Comment>) -> bool {
    &&& a.len() == b.len()
    &&& forall|i: int|
        0 <= i < a.len() ==> (#[trigger] a[i]).post_id == b[i].post_id && a[i].is_deleted == b[i].is_deleted
}

pub proof fn lemma_live_comments_shape(a: Seq<Comment>, b: Seq<Comment>, pid: u64)
    requires
        same_shape(a, b),
    ensures
        live_comments(a, pid) == live_comments(b, pid),
    decreases a.len(),
{
    if a.len() > 0 {
        lemma_live_comments_shape(a.drop_last(), b.drop_last(), pid);
    }
}

pub proof fn lemma_no_comments_beyond(cs: Seq<Comment>, pid: u64)
    requires
        forall|i: int| 0 <= i < cs.len() ==> (#[trigger] cs[i]).post_id < pid,
    ensures
        live_comments(cs, pid) == 0,
    decreases cs.len(),
{
    if cs.len() > 0 {
        lemma_no_comments_beyond(cs.drop_last(), pid);
    }
}

pub proof fn lemma_live_comments_bound(cs: Seq<Comment>, pid: u64)
    ensures
        live_comments(cs, pid) <= cs.len(),
    decreases cs.len(),
{
    if cs.len() > 0 {
        lemma_live_comments_bound(cs.drop_last(), pid);
    }
}

pub proof fn lemma_live_comments_push(cs: Seq<Comment>, c: Comment, pid: u64)
    ensures
        live_comments(cs.push(c), pid) == live_comments(cs, pid) + if c.post_id == pid
            && !c.is_deleted {
            1nat
        } else {
            0nat
        },
{
    assert(cs.push(c).drop_last() =~= cs);
}

pub proof fn lemma_live_comments_delete(cs: Seq<Comment>, k: int, d: Comment, pid: u64)
    requires
        0 <= k < cs.len(),
        !cs[k].is_deleted,
        d.is_deleted,
        d.post_id == cs[k].post_id,
    ensures
        live_comments(cs.update(k, d), pid) + if cs[k].post_id == pid {
            1nat
        } else {
            0nat
        } == live_comments(cs, pid),
    decreases cs.len(),
{
    if k == cs.len() - 1 {
        assert(cs.update(k, d).drop_last() =~= cs.drop_last());
    } else {
        lemma_live_comments_delete(cs.drop_last(), k, d, pid);
        assert(cs.update(k, d).drop_last() =~= cs.drop_last().update(k, d));
    }
}

impl SocialStore {
    /// Replaces the text of post `id`; only its author or an admin may.
    pub fn update_post(&mut self, caller: &Identity, id: u64, new_content: String, now: u64) -> (r:
        Result<(), StoreError>)
        requires
            old(self).wf(),
            old(self).clock <= now,
        ensures
            final(self).wf(),
            r is Err ==> *final(self) == *old(self),
            content_error(new_content@, MAX_POST_CHARS as nat) is Some ==> r == Err::<(), StoreError>(
                content_error(new_content@, MAX_POST_CHARS as nat).unwrap(),
            ),
            content_error(new_content@, MAX_POST_CHARS as nat) is None ==> {
                if !post_exists(*old(self), id) {
                    r == Err::<(), StoreError>(StoreError::PostNotFound)
                } else if post_of(*old(self), id).author_id@ != caller@ && !old(self).admin(caller@) {
                    r == Err::<(), StoreError>(StoreError::Forbidden)
                } else if post_of(*old(self), id).is_deleted {
                    r == Err::<(), StoreError>(StoreError::AlreadyDeleted)
                } else {
                    &&& r is Ok
                    &&& final(self).posts@ == old(self).posts@.update(
                        id - 1,
                        Post {
                            content: final(self).posts@[id - 1].content,
                            updated_at: Some(now),
                            ..post_of(*old(self), id)
                        },
                    )
                    &&& final(self).posts@[id - 1].content@ == trim_of(new_content@)
                    &&& final(self).same_but_posts_spec(old(self))
                    &&& final(self).clock == now
                }
            },
    {
        let text = match validate_content(new_content.as_str(), MAX_POST_CHARS) {
            Ok(t) => t,
            Err(e) => return Err(e),
        };
        if id == 0 || id > self.posts.len() as u64 {
            return Err(StoreError::PostNotFound);
        }
        let k = (id - 1) as usize;
        if !self.posts[k].author_id.same_as(caller) && !self.is_admin(caller) {
            return Err(StoreError::Forbidden);
        }
        if self.posts[k].is_deleted {
            return Err(StoreError::AlreadyDeleted);
        }
        self.posts[k].content = text;
        self.posts[k].updated_at = Some(now);
        self.clock = now;
        Ok(())
    }

    /// Only the post table and the clock differ.
    pub open spec fn same_but_posts_spec(&self, s: &SocialStore) -> bool {
        &&& self.users == s.users
        &&& self.comments == s.comments
        &&& self.follows == s.follows
        &&& self.post_likes == s.post_likes
        &&& self.comment_likes == s.comment_likes
        &&& self.shares == s.shares
        &&& self.predefined_admins == s.predefined_admins
        &&& self.promoted_admins == s.promoted_admins
        &&& self.ids == s.ids
    }

    /// Marks post `id` deleted. With `author_only`, the caller must be the
    /// author or an admin; without it the caller has been checked already.
    fn soft_delete_post(&mut self, caller: &Identity, id: u64, author_only: bool) -> (r: Result<(), StoreError>)
        requires
            old(self).wf(),
        ensures
            final(self).wf(),
            r is Err ==> *final(self) == *old(self),
            if !post_exists(*old(self), id) {
                r == Err::<(), StoreError>(StoreError::PostNotFound)
            } else if author_only && post_of(*old(self), id).author_id@ != caller@ && !old(self).admin(caller@) {
                r == Err::<(), StoreError>(StoreError::Forbidden)
            } else if post_of(*old(self), id).is_deleted {
                r == Err::<(), StoreError>(StoreError::AlreadyDeleted)
            } else {
                &&& r is Ok
                &&& final(self).posts@ == old(self).posts@.update(
                    id - 1,
                    Post { is_deleted: true, ..post_of(*old(self), id) },
                )
                &&& final(self).same_but_posts_spec(old(self))
                &&& final(self).clock == old(self).clock
            },
    {
        if id == 0 || id > self.posts.len() as u64 {
            return Err(StoreError::PostNotFound);
        }
        let k = (id - 1) as usize;
        if author_only && !self.posts[k].author_id.same_as(caller) && !self.is_admin(caller) {
            return Err(StoreError::Forbidden);
        }
        if self.posts[k].is_deleted {
            return Err(StoreError::AlreadyDeleted);
        }
        self.posts[k].is_deleted = true;
        assert(self.posts@ =~= old(self).posts@.update(
            id - 1,
            Post { is_deleted: true, ..post_of(*old(self), id) },
        ));
        Ok(())
    }

    /// Marks post `id` deleted; only its author or an admin may.
    pub fn delete_post(&mut self, caller: &Identity, id: u64) -> (r: Result<(), StoreError>)
        requires
            old(self).wf(),
        ensures
            final(self).wf(),
            r is Err ==> *final(self) == *old(self),
            if !post_exists(*old(self), id) {
                r == Err::<(), StoreError>(StoreError::PostNotFound)
            } else if post_of(*old(self), id).author_id@ != caller@ && !old(self).admin(caller@) {
                r == Err::<(), StoreError>(StoreError::Forbidden)
            } else if post_of(*old(self), id).is_deleted {
                r == Err::<(), StoreError>(StoreError::AlreadyDeleted)
            } else {
                &&& r is Ok
                &&& final(self).posts@ == old(self).posts@.update(
                    id - 1,
                    Post { is_deleted: true, ..post_of(*old(self), id) },
                )
                &&& final(self).same_but_posts_spec(old(self))
                &&& final(self).clock == old(self).clock
            },
    {
        self.soft_delete_post(caller, id, true)
    }

    /// Marks post `id` deleted on behalf of an admin.
    pub fn admin_delete_post(&mut self, caller: &Identity, id: u64) -> (r: Result<(), StoreError>)
        requires
            old(self).wf(),
        ensures
            final(self).wf(),
            r is Err ==> *final(self) == *old(self),
            if !old(self).admin(caller@) {
                r == Err::<(), StoreError>(StoreError::Forbidden)
            } else if !post_exists(*old(self), id) {
                r == Err::<(), StoreError>(StoreError::PostNotFound)
            } else if post_of(*old(self), id).is_deleted {
                r == Err::<(), StoreError>(StoreError::AlreadyDeleted)
            } else {
                &&& r is Ok
                &&& final(self).posts@ == old(self).posts@.update(
                    id - 1,
                    Post { is_deleted: true, ..post_of(*old(self), id) },
                )
                &&& final(self).same_but_posts_spec(old(self))
                &&& final(self).clock == old(self).clock
            },
    {
        if let Err(e) = self.require_admin(caller) {
            return Err(e);
        }
        self.soft_delete_post(caller, id, false)
    }

    /// Adds a comment by `caller` on post `post_id` and counts it on the post.
    pub fn create_comment(&mut self, caller: &Identity, post_id: u64, content: String, now: u64) -> (r:
        Result<u64, StoreError>)
        requires
            old(self).wf(),
            old(self).clock <= now,
            old(self).ids.comment_counter < u64::MAX,
        ensures
            final(self).wf(),
            r is Err ==> *final(self) == *old(self),
            if !old(self).has_user(caller@) {
                r == Err::<u64, StoreError>(StoreError::UserNotRegistered)
            } else if content_error(content@, MAX_COMMENT_CHARS as nat) is Some {
                r == Err::<u64, StoreError>(content_error(content@, MAX_COMMENT_CHARS as nat).unwrap())
            } else if !post_exists(*old(self), post_id) {
                r == Err::<u64, StoreError>(StoreError::PostNotFound)
            } else if post_of(*old(self), post_id).is_deleted {
                r == Err::<u64, StoreError>(StoreError::PostDeleted)
            } else {
                let c = final(self).comments@.last();
                &&& r == Ok::<u64, StoreError>((old(self).comments@.len() + 1) as u64)
                &&& final(self).comments@.len() == old(self).comments@.len() + 1
                &&& final(self).comments@.drop_last() == old(self).comments@
                &&& c.comment_id == r.unwrap()
                &&& c.post_id == post_id
                &&& c.author_id@ == caller@
                &&& c.content@ == trim_of(content@)
                &&& c.created_at == now
                &&& c.updated_at.is_none()
                &&& c.likes == 0
                &&& !c.is_deleted
                &&& final(self).posts@ == old(self).posts@.update(
                    post_id - 1,
                    Post {
                        comments_count: sat_inc(post_of(*old(self), post_id).comments_count),
                        ..post_of(*old(self), post_id)
                    },
                )
                &&& final(self).users@ == touch(old(self).users@, caller@, now)
                &&& final(self).follows == old(self).follows
                &&& final(self).post_likes == old(self).post_likes
                &&& final(self).comment_likes == old(self).comment_likes
                &&& final(self).shares == old(self).shares
                &&& final(self).predefined_admins == old(self).predefined_admins
                &&& final(self).promoted_admins == old(self).promoted_admins
                &&& final(self).ids.comment_counter == old(self).ids.comment_counter + 1
                &&& final(self).ids.post_counter == old(self).ids.post_counter
                &&& final(self).clock == now
            },
    {
        if !self.user_exists(caller) {
            return Err(StoreError::UserNotRegistered);
        }
        let text = match validate_content(content.as_str(), MAX_COMMENT_CHARS) {
            Ok(t) => t,
            Err(e) => return Err(e),
        };
        if post_id == 0 || post_id > self.posts.len() as u64 {
            return Err(StoreError::PostNotFound);
        }
        let k = (post_id - 1) as usize;
        if self.posts[k].is_deleted {
            return Err(StoreError::PostDeleted);
        }
        let comment_id = self.ids.next_comment_id();
        let comment = Comment {
            comment_id,
            post_id,
            author_id: caller.copy(),
            content: text,
            created_at: now,
            updated_at: None,
            likes: 0,
            is_deleted: false,
        };
        let ghost before = self.comments@;
        self.comments.push(comment);
        assert(self.comments@.drop_last() =~= old(self).comments@);
        if self.posts[k].comments_count < u64::MAX {
            self.posts[k].comments_count = self.posts[k].comments_count + 1;
        }
        assert(self.posts@ =~= old(self).posts@.update(
            post_id - 1,
            Post {
                comments_count: sat_inc(post_of(*old(self), post_id).comments_count),
                ..post_of(*old(self), post_id)
            },
        ));
        self.clock = now;
        proof {
            if comment_counts_consistent(*old(self)) {
                assert forall|i: int| 0 <= i < self.posts@.len() implies (
                #[trigger] self.posts@[i]).comments_count == live_comments(
                    self.comments@,
                    (i + 1) as u64,
                ) by {
                    lemma_live_comments_push(before, self.comments@.last(), (i + 1) as u64);
                    assert(before.push(self.comments@.last()) =~= self.comments@);
                    lemma_live_comments_bound(before, (i + 1) as u64);
                    assert(old(self).posts@[i].comments_count == live_comments(before, (i + 1) as u64));
                }
            }
        }
        proof {
            if crate::comment_ops::comment_likes_consistent(*old(self)) {
                assert forall|i: int| 0 <= i < self.comments@.len() implies (#[trigger] self.comments@[i]).likes
                    == crate::posts::count_for(self.comment_likes@, (i + 1) as u64) by {
                    if i == self.comments@.len() - 1 {
                        crate::posts::lemma_count_beyond(self.comment_likes@, (i + 1) as u64);
                    } else {
                        assert(old(self).comments@[i] == self.comments@[i]);
                    }
                }
            }
        }
        self.touch_user(caller, now);
        Ok(comment_id)
    }
}

} // verus!
