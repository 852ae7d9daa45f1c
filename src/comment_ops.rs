use vstd::prelude::*;

use crate::comments::{lemma_live_comments_shape, same_shape, 
    comment_counts_consistent, comment_exists, comment_of, comments_on, lemma_live_comments_delete,
    live_comments, MAX_COMMENT_CHARS,
};
use crate::identity::Identity;
use crate::model::{Comment, Engagement, Post, StoreError};
use crate::post_ops::{post_exists, post_of, sat_dec, sat_inc};
use crate::posts::{count_for, lemma_count_beyond, lemma_count_bound, lemma_count_push, lemma_count_remove, content_error, engaged, find_engagement, validate_content};
use crate::store::SocialStore;
use crate::text::trim_of;

verus! {

/// Only the comment table and the clock differ.
pub open spec fn same_but_comments(t: SocialStore, s: SocialStore) -> bool {
    &&& t.users == s.users
    &&& t.posts == s.posts
    &&& t.follows == s.follows
    &&& t.post_likes == s.post_likes
    &&& t.comment_likes == s.comment_likes
    &&& t.shares == s.shares
    &&& t.predefined_admins == s.predefined_admins
    &&& t.promoted_admins == s.promoted_admins
    &&& t.ids == s.ids
}

/// Every comment's like counter equals the number of likes recorded for it.
pub open spec fn comment_likes_consistent(s: SocialStore) -> bool {
    forall|i: int|
        0 <= i < s.comments@.len() ==> (#[trigger] s.comments@[i]).likes == count_for(
            s.comment_likes@,
            (i + 1) as u64,
        )
}

impl SocialStore {
    /// Editing comments without moving or deleting any keeps the comment
    /// counters of the posts right.
    proof fn lemma_comment_edit_keeps_counts(&self, s: SocialStore)
        requires
            crate::comments::comment_counts_consistent(s),
            same_shape(s.comments@, self.comments@),
            self.posts == s.posts,
        ensures
            crate::comments::comment_counts_consistent(*self),
    {
        assert forall|i: int| 0 <= i < self.posts@.len() implies (#[trigger] self.posts@[i]).comments_count
            == live_comments(self.comments@, (i + 1) as u64) by {
            lemma_live_comments_shape(s.comments@, self.comments@, (i + 1) as u64);
            assert(s.posts@[i].comments_count == live_comments(s.comments@, (i + 1) as u64));
        }
    }

    /// The ids of the live comments on post `post_id`, oldest first.
    pub fn get_post_comments(&self, post_id: u64) -> (r: Vec<u64>)
        ensures
            r@ == comments_on(self.comments@, post_id),
    {
        let mut out: Vec<u64> = Vec::new();
        let mut i: usize = 0;
        while i < self.comments.len()
            invariant
                0 <= i <= self.comments@.len(),
                out@ == comments_on(self.comments@.take(i as int), post_id),
            decreases self.comments@.len() - i,
        {
            assert(self.comments@.take(i + 1).drop_last() =~= self.comments@.take(i as int));
            if self.comments[i].post_id == post_id && !self.comments[i].is_deleted {
                out.push(self.comments[i].comment_id);
            }
            i = i + 1;
        }
        assert(self.comments@.take(self.comments@.len() as int) =~= self.comments@);
        out
    }

    /// The comment with id `id`, unless it is missing or deleted.
    pub fn get_comment(&self, id: u64) -> (r: Option<&Comment>)
        requires
            self.wf(),
        ensures
            r.is_some() == (comment_exists(*self, id) && !comment_of(*self, id).is_deleted),
            r.is_some() ==> *r.unwrap() == comment_of(*self, id),
    {
        if id == 0 || id > self.comments.len() as u64 {
            return None;
        }
        let c = &self.comments[(id - 1) as usize];
        if c.is_deleted {
            None
        } else {
            Some(c)
        }
    }

    /// Replaces the text of comment `id`; only its author or an admin may.
    pub fn update_comment(&mut self, caller: &Identity, id: u64, new_content: String, now: u64) -> (r:
        Result<(), StoreError>)
        requires
            old(self).wf(),
            old(self).clock <= now,
        ensures
            final(self).wf(),
            r is Err ==> *final(self) == *old(self),
            if content_error(new_content@, MAX_COMMENT_CHARS as nat) is Some {
                r == Err::<(), StoreError>(content_error(new_content@, MAX_COMMENT_CHARS as nat).unwrap())
            } else if !comment_exists(*old(self), id) {
                r == Err::<(), StoreError>(StoreError::CommentNotFound)
            } else if comment_of(*old(self), id).author_id@ != caller@ && !old(self).admin(caller@) {
                r == Err::<(), StoreError>(StoreError::Forbidden)
            } else if comment_of(*old(self), id).is_deleted {
                r == Err::<(), StoreError>(StoreError::AlreadyDeleted)
            } else {
                &&& r is Ok
                &&& final(self).comments@ == old(self).comments@.update(
                    id - 1,
                    Comment {
                        content: final(self).comments@[id - 1].content,
                        updated_at: Some(now),
                        ..comment_of(*old(self), id)
                    },
                )
                &&& final(self).comments@[id - 1].content@ == trim_of(new_content@)
                &&& same_but_comments(*final(self), *old(self))
                &&& final(self).clock == now
            },
    {
        let text = match validate_content(new_content.as_str(), MAX_COMMENT_CHARS) {
            Ok(t) => t,
            Err(e) => return Err(e),
        };
        if id == 0 || id > self.comments.len() as u64 {
            return Err(StoreError::CommentNotFound);
        }
        let k = (id - 1) as usize;
        if !self.comments[k].author_id.same_as(caller) && !self.is_admin(caller) {
            return Err(StoreError::Forbidden);
        }
        if self.comments[k].is_deleted {
            return Err(StoreError::AlreadyDeleted);
        }
        self.comments[k].content = text;
        self.comments[k].updated_at = Some(now);
        self.clock = now;
        proof {
            self.lemma_comment_edit_keeps_counts(*old(self));
        }
        Ok(())
    }

    /// Marks comment `id` deleted and takes it off its post's counter; only
    /// its author or an admin may.
    pub fn delete_comment(&mut self, caller: &Identity, id: u64) -> (r: Result<(), StoreError>)
        requires
            old(self).wf(),
        ensures
            final(self).wf(),
            r is Err ==> *final(self) == *old(self),
            if !comment_exists(*old(self), id) {
                r == Err::<(), StoreError>(StoreError::CommentNotFound)
            } else if comment_of(*old(self), id).author_id@ != caller@ && !old(self).admin(caller@) {
                r == Err::<(), StoreError>(StoreError::Forbidden)
            } else if comment_of(*old(self), id).is_deleted {
                r == Err::<(), StoreError>(StoreError::AlreadyDeleted)
            } else {
                let pid = comment_of(*old(self), id).post_id;
                &&& r is Ok
                &&& final(self).comments@ == old(self).comments@.update(
                    id - 1,
                    Comment { is_deleted: true, ..comment_of(*old(self), id) },
                )
                &&& final(self).posts@ == old(self).posts@.update(
                    pid - 1,
                    Post { comments_count: sat_dec(post_of(*old(self), pid).comments_count), ..post_of(*old(self), pid) },
                )
                &&& final(self).users == old(self).users
                &&& final(self).follows == old(self).follows
                &&& final(self).post_likes == old(self).post_likes
                &&& final(self).comment_likes == old(self).comment_likes
                &&& final(self).shares == old(self).shares
                &&& final(self).predefined_admins == old(self).predefined_admins
                &&& final(self).promoted_admins == old(self).promoted_admins
                &&& final(self).ids == old(self).ids
                &&& final(self).clock == old(self).clock
            },
    {
        if id == 0 || id > self.comments.len() as u64 {
            return Err(StoreError::CommentNotFound);
        }
        let k = (id - 1) as usize;
        if !self.comments[k].author_id.same_as(caller) && !self.is_admin(caller) {
            return Err(StoreError::Forbidden);
        }
        if self.comments[k].is_deleted {
            return Err(StoreError::AlreadyDeleted);
        }
        let pid = self.comments[k].post_id;
        assert(1 <= old(self).comments@[k as int].post_id <= old(self).posts@.len());
        self.comments[k].is_deleted = true;
        assert(self.comments@ =~= old(self).comments@.update(
            id - 1,
            Comment { is_deleted: true, ..comment_of(*old(self), id) },
        ));
        if pid >= 1 && pid <= self.posts.len() as u64 {
            let j = (pid - 1) as usize;
            if self.posts[j].comments_count > 0 {
                self.posts[j].comments_count = self.posts[j].comments_count - 1;
            }
        }
        assert(self.posts@ =~= old(self).posts@.update(
            pid - 1,
            Post { comments_count: sat_dec(post_of(*old(self), pid).comments_count), ..post_of(*old(self), pid) },
        ));
        proof {
            if comment_counts_consistent(*old(self)) {
                assert forall|i: int| 0 <= i < self.posts@.len() implies (
                #[trigger] self.posts@[i]).comments_count == live_comments(
                    self.comments@,
                    (i + 1) as u64,
                ) by {
                    lemma_live_comments_delete(
                        old(self).comments@,
                        k as int,
                        self.comments@[k as int],
                        (i + 1) as u64,
                    );
                    assert(old(self).posts@[i].comments_count == live_comments(
                        old(self).comments@,
                        (i + 1) as u64,
                    ));
                }
            }
        }
        Ok(())
    }

    /// Records that `caller` likes comment `id` and counts the like.
    pub fn like_comment(&mut self, caller: &Identity, id: u64) -> (r: Result<(), StoreError>)
        requires
            old(self).wf(),
        ensures
            final(self).wf(),
            r is Err ==> *final(self) == *old(self),
            if !old(self).has_user(caller@) {
                r == Err::<(), StoreError>(StoreError::UserNotRegistered)
            } else if !comment_exists(*old(self), id) {
                r == Err::<(), StoreError>(StoreError::CommentNotFound)
            } else if comment_of(*old(self), id).is_deleted {
                r == Err::<(), StoreError>(StoreError::CommentDeleted)
            } else if engaged(old(self).comment_likes@, caller@, id) {
                r == Err::<(), StoreError>(StoreError::AlreadyLiked)
            } else {
                &&& r is Ok
                &&& final(self).comment_likes@.drop_last() == old(self).comment_likes@
                &&& final(self).comment_likes@.len() == old(self).comment_likes@.len() + 1
                &&& final(self).comment_likes@.last().user_id@ == caller@
                &&& final(self).comment_likes@.last().item_id == id
                &&& final(self).comments@ == old(self).comments@.update(
                    id - 1,
                    Comment { likes: sat_inc(comment_of(*old(self), id).likes), ..comment_of(*old(self), id) },
                )
                &&& final(self).users == old(self).users
                &&& final(self).posts == old(self).posts
                &&& final(self).follows == old(self).follows
                &&& final(self).post_likes == old(self).post_likes
                &&& final(self).shares == old(self).shares
                &&& final(self).predefined_admins == old(self).predefined_admins
                &&& final(self).promoted_admins == old(self).promoted_admins
                &&& final(self).ids == old(self).ids
                &&& final(self).clock == old(self).clock
            },
    {
        if !self.user_exists(caller) {
            return Err(StoreError::UserNotRegistered);
        }
        if id == 0 || id > self.comments.len() as u64 {
            return Err(StoreError::CommentNotFound);
        }
        let k = (id - 1) as usize;
        if self.comments[k].is_deleted {
            return Err(StoreError::CommentDeleted);
        }
        if find_engagement(&self.comment_likes, caller, id).is_some() {
            return Err(StoreError::AlreadyLiked);
        }
        self.comment_likes.push(Engagement { user_id: caller.copy(), item_id: id });
        assert(self.comment_likes@.drop_last() =~= old(self).comment_likes@);
        // the table's length fits a usize, so the old count was below the ceiling
        let recorded: usize = self.comment_likes.len();
        proof {
            assert(old(self).comment_likes@.len() < recorded);
            if comment_likes_consistent(*old(self)) {
                lemma_count_bound(old(self).comment_likes@, id);
                assert(old(self).comments@[k as int].likes <= old(self).comment_likes@.len());
            }
        }
        if self.comments[k].likes < u64::MAX {
            self.comments[k].likes = self.comments[k].likes + 1;
        }
        assert(self.comments@ =~= old(self).comments@.update(
            id - 1,
            Comment { likes: sat_inc(comment_of(*old(self), id).likes), ..comment_of(*old(self), id) },
        ));
        proof {
            self.lemma_comment_edit_keeps_counts(*old(self));
            if comment_likes_consistent(*old(self)) {
                assert(self.comment_likes@ == old(self).comment_likes@.push(self.comment_likes@.last()));
                assert forall|i: int| 0 <= i < self.comments@.len() implies (#[trigger] self.comments@[i]).likes
                    == count_for(self.comment_likes@, (i + 1) as u64) by {
                    lemma_count_push(old(self).comment_likes@, self.comment_likes@.last(), (i + 1) as u64);
                    assert(old(self).comments@[i].likes == count_for(old(self).comment_likes@, (i + 1) as u64));
                }
            }
        }
        Ok(())
    }

    /// Withdraws the like of `caller` on comment `id`.
    pub fn unlike_comment(&mut self, caller: &Identity, id: u64) -> (r: Result<(), StoreError>)
        requires
            old(self).wf(),
        ensures
            final(self).wf(),
            r is Err ==> *final(self) == *old(self),
            if !old(self).has_user(caller@) {
                r == Err::<(), StoreError>(StoreError::UserNotRegistered)
            } else if !engaged(old(self).comment_likes@, caller@, id) {
                r == Err::<(), StoreError>(StoreError::NotLiked)
            } else {
                &&& r is Ok
                &&& !engaged(final(self).comment_likes@, caller@, id)
                &&& exists|k: int|
                    0 <= k < old(self).comment_likes@.len() && old(self).comment_likes@[k].user_id@
                        == caller@ && old(self).comment_likes@[k].item_id == id
                        && final(self).comment_likes@ == old(self).comment_likes@.remove(k)
                &&& final(self).comments@ == if comment_exists(*old(self), id) {
                    old(self).comments@.update(
                        id - 1,
                        Comment { likes: sat_dec(comment_of(*old(self), id).likes), ..comment_of(*old(self), id) },
                    )
                } else {
                    old(self).comments@
                }
                &&& final(self).users == old(self).users
                &&& final(self).posts == old(self).posts
                &&& final(self).follows == old(self).follows
                &&& final(self).post_likes == old(self).post_likes
                &&& final(self).shares == old(self).shares
                &&& final(self).predefined_admins == old(self).predefined_admins
                &&& final(self).promoted_admins == old(self).promoted_admins
                &&& final(self).ids == old(self).ids
                &&& final(self).clock == old(self).clock
            },
    {
        if !self.user_exists(caller) {
            return Err(StoreError::UserNotRegistered);
        }
        let j = match find_engagement(&self.comment_likes, caller, id) {
            Some(j) => j,
            None => return Err(StoreError::NotLiked),
        };
        self.comment_likes.remove(j);
        proof {
            if comment_likes_consistent(*old(self)) {
                lemma_count_remove(old(self).comment_likes@, j as int, id);
                assert(1 <= id <= old(self).comments@.len());
                assert(old(self).comments@[id - 1].likes == count_for(old(self).comment_likes@, id));
            }
        }
        assert forall|m: int| 0 <= m < self.comment_likes@.len() implies !((
        #[trigger] self.comment_likes@[m]).user_id@ == caller@ && self.comment_likes@[m].item_id
            == id) by {
            if m < j {
                assert(old(self).comment_likes@[m] == self.comment_likes@[m]);
            } else {
                assert(old(self).comment_likes@[m + 1] == self.comment_likes@[m]);
            }
        }
        if id >= 1 && id <= self.comments.len() as u64 {
            let k = (id - 1) as usize;
            if self.comments[k].likes > 0 {
                self.comments[k].likes = self.comments[k].likes - 1;
            }
            assert(self.comments@ =~= old(self).comments@.update(
                id - 1,
                Comment { likes: sat_dec(comment_of(*old(self), id).likes), ..comment_of(*old(self), id) },
            ));
        }
        proof {
            self.lemma_comment_edit_keeps_counts(*old(self));
            if comment_likes_consistent(*old(self)) {
                assert forall|i: int| 0 <= i < self.comments@.len() implies (#[trigger] self.comments@[i]).likes
                    == count_for(self.comment_likes@, (i + 1) as u64) by {
                    lemma_count_remove(old(self).comment_likes@, j as int, (i + 1) as u64);
                    assert(old(self).comments@[i].likes == count_for(old(self).comment_likes@, (i + 1) as u64));
                }
            }
        }
        Ok(())
    }

    /// Records that `caller` shared post `id` and counts the share; sharing
    /// a post again changes nothing.
    pub fn share_post(&mut self, caller: &Identity, id: u64) -> (r: Result<(), StoreError>)
        requires
            old(self).wf(),
        ensures
            final(self).wf(),
            r is Err ==> *final(self) == *old(self),
            if !old(self).has_user(caller@) {
                r == Err::<(), StoreError>(StoreError::UserNotRegistered)
            } else if !post_exists(*old(self), id) {
                r == Err::<(), StoreError>(StoreError::PostNotFound)
            } else if post_of(*old(self), id).is_deleted {
                r == Err::<(), StoreError>(StoreError::PostDeleted)
            } else if engaged(old(self).shares@, caller@, id) {
                r is Ok && *final(self) == *old(self)
            } else {
                &&& r is Ok
                &&& final(self).shares@.drop_last() == old(self).shares@
                &&& final(self).shares@.len() == old(self).shares@.len() + 1
                &&& final(self).shares@.last().user_id@ == caller@
                &&& final(self).shares@.last().item_id == id
                &&& final(self).posts@ == old(self).posts@.update(
                    id - 1,
                    Post { shares_count: (post_of(*old(self), id).shares_count + 1) as u64, ..post_of(*old(self), id) },
                )
                &&& final(self).users == old(self).users
                &&& final(self).comments == old(self).comments
                &&& final(self).follows == old(self).follows
                &&& final(self).post_likes == old(self).post_likes
                &&& final(self).comment_likes == old(self).comment_likes
                &&& final(self).predefined_admins == old(self).predefined_admins
                &&& final(self).promoted_admins == old(self).promoted_admins
                &&& final(self).ids == old(self).ids
                &&& final(self).clock == old(self).clock
            },
    {
        if !self.user_exists(caller) {
            return Err(StoreError::UserNotRegistered);
        }
        if id == 0 || id > self.posts.len() as u64 {
            return Err(StoreError::PostNotFound);
        }
        let k = (id - 1) as usize;
        if self.posts[k].is_deleted {
            return Err(StoreError::PostDeleted);
        }
        if find_engagement(&self.shares, caller, id).is_some() {
            return Ok(());
        }
        self.shares.push(Engagement { user_id: caller.copy(), item_id: id });
        assert(self.shares@.drop_last() =~= old(self).shares@);
        // the table's length fits a usize, so the old count was below the ceiling
        let recorded: usize = self.shares.len();
        proof {
            assert(old(self).shares@.len() < recorded);
            lemma_count_bound(old(self).shares@, id);
            assert(old(self).posts@[k as int].shares_count == count_for(old(self).shares@, id));
        }
        self.posts[k].shares_count = self.posts[k].shares_count + 1;
        assert(self.posts@ =~= old(self).posts@.update(
            id - 1,
            Post { shares_count: (post_of(*old(self), id).shares_count + 1) as u64, ..post_of(*old(self), id) },
        ));
        proof {
            assert(self.shares@ == old(self).shares@.push(self.shares@.last()));
            assert forall|i: int| 0 <= i < self.posts@.len() implies (#[trigger] self.posts@[i]).shares_count
                == count_for(self.shares@, (i + 1) as u64) by {
                lemma_count_push(old(self).shares@, self.shares@.last(), (i + 1) as u64);
                assert(old(self).posts@[i].shares_count == count_for(old(self).shares@, (i + 1) as u64));
            }
        }
        Ok(())
    }
}

} // verus!
