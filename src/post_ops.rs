use vstd::prelude::*;

use crate::identity::Identity;
use crate::model::{Engagement, Post, StoreError, User};
use crate::posts::{
    MAX_POST_CHARS, content_error, engaged, ids_of, mentions_in, select_newest, validate_content,
    find_engagement, newest_first,
};
use crate::store::SocialStore;
use crate::posts::{count_for, lemma_count_beyond, lemma_count_bound, lemma_count_push, lemma_count_remove};
use crate::comments::{comment_counts_consistent, lemma_no_comments_beyond, live_comments};
use crate::text::{trim_of, words_of};

verus! {

/// `x + 1`, held at the largest `u64`.
pub open spec fn sat_inc(x: u64) -> u64 {
    if x < u64::MAX {
        (x + 1) as u64
    } else {
        x
    }
}

/// `x - 1`, held at zero.
pub open spec fn sat_dec(x: u64) -> u64 {
    if x > 0 {
        (x - 1) as u64
    } else {
        0
    }
}

/// The user table after `id`'s activity time is set to `now`.
pub open spec fn touch(users: Seq<User>, id: Seq<u8>, now: u64) -> Seq<User> {
    users.map_values(|u: User| if u.user_id@ == id { User { last_active: now, ..u } } else { u })
}

/// `id` names a post of the store.
pub open spec fn post_exists(s: SocialStore, id: u64) -> bool {
    1 <= id <= s.posts@.len()
}

/// The post with id `id` (meaningful where it exists).
pub open spec fn post_of(s: SocialStore, id: u64) -> Post {
    s.posts@[id - 1]
}

/// Posts newly made by `create_post`.
pub open spec fn new_post(
    p: Post,
    id: u64,
    author: Seq<u8>,
    content: Seq<char>,
    hashtags: Seq<String>,
    media_urls: Seq<String>,
    mentions: Seq<Seq<u8>>,
    now: u64,
) -> bool {
    &&& p.post_id == id
    &&& p.author_id@ == author
    &&& p.content@ == content
    &&& p.created_at == now
    &&& p.updated_at.is_none()
    &&& p.likes == 0
    &&& p.comments_count == 0
    &&& p.shares_count == 0
    &&& p.hashtags@ == hashtags
    &&& p.media_urls@ == media_urls
    &&& ids_of(p.mentions@) == mentions
    &&& !p.is_deleted
}

/// What `create_post` does.
pub open spec fn create_post_effect(
    s: SocialStore,
    t: SocialStore,
    caller: Seq<u8>,
    content: Seq<char>,
    hashtags: Seq<String>,
    media_urls: Seq<String>,
    now: u64,
    r: Result<u64, StoreError>,
) -> bool {
    if !s.has_user(caller) {
        r == Err::<u64, StoreError>(StoreError::UserNotRegistered) && t == s
    } else if content_error(content, MAX_POST_CHARS as nat) is Some {
        r == Err::<u64, StoreError>(content_error(content, MAX_POST_CHARS as nat).unwrap()) && t == s
    } else {
        &&& r == Ok::<u64, StoreError>((s.posts@.len() + 1) as u64)
        &&& t.posts@.len() == s.posts@.len() + 1
        &&& t.posts@.drop_last() == s.posts@
        &&& new_post(
            t.posts@.last(),
            (s.posts@.len() + 1) as u64,
            caller,
            trim_of(content),
            hashtags,
            media_urls,
            mentions_in(words_of(content), s.users@),
            now,
        )
        &&& t.users@ == touch(s.users@, caller, now)
        &&& t.comments == s.comments
        &&& t.follows == s.follows
        &&& t.post_likes == s.post_likes
        &&& t.comment_likes == s.comment_likes
        &&& t.shares == s.shares
        &&& t.predefined_admins == s.predefined_admins
        &&& t.promoted_admins == s.promoted_admins
        &&& t.ids.post_counter == s.ids.post_counter + 1
        &&& t.ids.comment_counter == s.ids.comment_counter
        &&& t.clock == now
    }
}

/// What `like_post` does.
pub open spec fn like_post_effect(
    s: SocialStore,
    t: SocialStore,
    caller: Seq<u8>,
    id: u64,
    r: Result<(), StoreError>,
) -> bool {
    if !s.has_user(caller) {
        r == Err::<(), StoreError>(StoreError::UserNotRegistered) && t == s
    } else if !post_exists(s, id) {
        r == Err::<(), StoreError>(StoreError::PostNotFound) && t == s
    } else if post_of(s, id).is_deleted {
        r == Err::<(), StoreError>(StoreError::PostDeleted) && t == s
    } else if engaged(s.post_likes@, caller, id) {
        r == Err::<(), StoreError>(StoreError::AlreadyLiked) && t == s
    } else {
        &&& r is Ok
        &&& t.post_likes@.len() == s.post_likes@.len() + 1
        &&& t.post_likes@.drop_last() == s.post_likes@
        &&& t.post_likes@.last().user_id@ == caller
        &&& t.post_likes@.last().item_id == id
        &&& t.posts@ == s.posts@.update(
            id - 1,
            Post { likes: sat_inc(post_of(s, id).likes), ..post_of(s, id) },
        )
        &&& t.users == s.users
        &&& t.comments == s.comments
        &&& t.follows == s.follows
        &&& t.comment_likes == s.comment_likes
        &&& t.shares == s.shares
        &&& t.predefined_admins == s.predefined_admins
        &&& t.promoted_admins == s.promoted_admins
        &&& t.ids == s.ids
        &&& t.clock == s.clock
    }
}

/// What `unlike_post` does.
pub open spec fn unlike_post_effect(
    s: SocialStore,
    t: SocialStore,
    caller: Seq<u8>,
    id: u64,
    r: Result<(), StoreError>,
) -> bool {
    if !s.has_user(caller) {
        r == Err::<(), StoreError>(StoreError::UserNotRegistered) && t == s
    } else if !engaged(s.post_likes@, caller, id) {
        r == Err::<(), StoreError>(StoreError::NotLiked) && t == s
    } else {
        &&& r is Ok
        &&& exists|k: int|
            0 <= k < s.post_likes@.len() && s.post_likes@[k].user_id@ == caller
                && s.post_likes@[k].item_id == id && t.post_likes@ == s.post_likes@.remove(k)
        &&& t.posts@ == if post_exists(s, id) {
            s.posts@.update(id - 1, Post { likes: sat_dec(post_of(s, id).likes), ..post_of(s, id) })
        } else {
            s.posts@
        }
        &&& t.users == s.users
        &&& t.comments == s.comments
        &&& t.follows == s.follows
        &&& t.comment_likes == s.comment_likes
        &&& t.shares == s.shares
        &&& t.predefined_admins == s.predefined_admins
        &&& t.promoted_admins == s.promoted_admins
        &&& t.ids == s.ids
        &&& t.clock == s.clock
    }
}

/// Every post's like counter equals the number of likes recorded for it.
pub open spec fn likes_consistent(s: SocialStore) -> bool {
    forall|i: int|
        0 <= i < s.posts@.len() ==> (#[trigger] s.posts@[i]).likes == count_for(s.post_likes@, (i + 1) as u64)
}

/// Every post's share counter equals the number of users who shared it.
pub open spec fn shares_consistent(s: SocialStore) -> bool {
    forall|i: int|
        0 <= i < s.posts@.len() ==> (#[trigger] s.posts@[i]).shares_count == count_for(s.shares@, (i + 1) as u64)
}

/// The flags of the posts that are not deleted.
pub open spec fn live_mask(posts: Seq<Post>) -> Seq<bool> {
    Seq::new(posts.len(), |i: int| !posts[i].is_deleted)
}

/// The flags of the live posts written by `author`.
pub open spec fn author_mask(posts: Seq<Post>, author: Seq<u8>) -> Seq<bool> {
    Seq::new(posts.len(), |i: int| !posts[i].is_deleted && posts[i].author_id@ == author)
}

/// The items that `user` engaged with, in record order.
pub open spec fn items_of(records: Seq<Engagement>, user: Seq<u8>) -> Seq<u64>
    decreases records.len(),
{
    if records.len() == 0 {
        Seq::empty()
    } else {
        let rest = items_of(records.drop_last(), user);
        if records.last().user_id@ == user {
            rest.push(records.last().item_id)
        } else {
            rest
        }
    }
}

impl SocialStore {
    /// Sets the activity time of `id`, if registered, to `now`.
    pub fn touch_user(&mut self, id: &Identity, now: u64)
        requires
            old(self).wf(),
            old(self).clock <= now,
        ensures
            final(self).users@ == touch(old(self).users@, id@, now),
            final(self).same_but_users(old(self)),
            final(self).clock == old(self).clock,
            final(self).wf(),
    {
        match self.find_user(id) {
            Some(i) => {
                self.users[i].last_active = now;
                assert forall|j: int| 0 <= j < self.users@.len() && j != i implies (
                #[trigger] old(self).users@[j]).user_id@ != id@ by {
                    if j < i {
                        assert(old(self).users@[j].user_id@ != old(self).users@[i as int].user_id@);
                    } else {
                        assert(old(self).users@[i as int].user_id@ != old(self).users@[j].user_id@);
                    }
                }
            },
            None => {},
        }
        assert(self.users@ =~= touch(old(self).users@, id@, now));
    }

    /// Publishes a post by `caller`.
    pub fn create_post(
        &mut self,
        caller: &Identity,
        content: String,
        hashtags: Vec<String>,
        media_urls: Vec<String>,
        now: u64,
    ) -> (r: Result<u64, StoreError>)
        requires
            old(self).wf(),
            old(self).clock <= now,
            old(self).ids.post_counter < u64::MAX,
        ensures
            final(self).wf(),
            create_post_effect(*old(self), *final(self), caller@, content@, hashtags@, media_urls@, now, r),
    {
        if !self.user_exists(caller) {
            return Err(StoreError::UserNotRegistered);
        }
        let text = match validate_content(content.as_str(), MAX_POST_CHARS) {
            Ok(t) => t,
            Err(e) => return Err(e),
        };
        let mentions = self.extract_mentions(content.as_str());
        let post_id = self.ids.next_post_id();
        let post = Post {
            post_id,
            author_id: caller.copy(),
            content: text,
            created_at: now,
            updated_at: None,
            likes: 0,
            comments_count: 0,
            shares_count: 0,
            hashtags,
            mentions,
            media_urls,
            is_deleted: false,
        };
        self.posts.push(post);
        self.clock = now;
        assert(self.posts@.drop_last() =~= old(self).posts@);
        proof {
            if comment_counts_consistent(*old(self)) {
                assert forall|i: int| 0 <= i < self.posts@.len() implies (
                #[trigger] self.posts@[i]).comments_count == live_comments(
                    self.comments@,
                    (i + 1) as u64,
                ) by {
                    if i == self.posts@.len() - 1 {
                        lemma_no_comments_beyond(self.comments@, (i + 1) as u64);
                    } else {
                        assert(old(self).posts@[i] == self.posts@[i]);
                    }
                }
            }
            if likes_consistent(*old(self)) {
                assert forall|i: int| 0 <= i < self.posts@.len() implies (#[trigger] self.posts@[i]).likes
                    == count_for(self.post_likes@, (i + 1) as u64) by {
                    if i == self.posts@.len() - 1 {
                        lemma_count_beyond(self.post_likes@, (i + 1) as u64);
                    } else {
                        assert(old(self).posts@[i] == self.posts@[i]);
                    }
                }
            }
            assert forall|i: int| 0 <= i < self.posts@.len() implies (#[trigger] self.posts@[i]).shares_count
                == count_for(self.shares@, (i + 1) as u64) by {
                if i == self.posts@.len() - 1 {
                    lemma_count_beyond(self.shares@, (i + 1) as u64);
                } else {
                    assert(old(self).posts@[i] == self.posts@[i]);
                }
            }
        }
        self.touch_user(caller, now);
        Ok(post_id)
    }

    /// The post with id `id`, unless it is missing or deleted.
    pub fn get_post(&self, id: u64) -> (r: Option<&Post>)
        requires
            self.wf(),
        ensures
            r.is_some() == (post_exists(*self, id) && !post_of(*self, id).is_deleted),
            r.is_some() ==> *r.unwrap() == post_of(*self, id),
    {
        if id == 0 || id > self.posts.len() as u64 {
            return None;
        }
        let p = &self.posts[(id - 1) as usize];
        if p.is_deleted {
            None
        } else {
            Some(p)
        }
    }

    /// The post with id `id`, deleted or not.
    pub fn post_by_id(&self, id: u64) -> (r: Option<&Post>)
        requires
            self.wf(),
        ensures
            r.is_some() == post_exists(*self, id),
            r.is_some() ==> *r.unwrap() == post_of(*self, id),
    {
        if id == 0 || id > self.posts.len() as u64 {
            None
        } else {
            Some(&self.posts[(id - 1) as usize])
        }
    }

    /// The ids of all live posts, newest first.
    pub fn get_all_posts(&self) -> (r: Vec<u64>)
        ensures
            r@ == select_newest(self.posts@, live_mask(self.posts@)),
    {
        let mut keep: Vec<bool> = Vec::new();
        let mut i: usize = 0;
        while i < self.posts.len()
            invariant
                0 <= i <= self.posts@.len(),
                keep@ =~= live_mask(self.posts@).take(i as int),
            decreases self.posts@.len() - i,
        {
            keep.push(!self.posts[i].is_deleted);
            i = i + 1;
        }
        assert(keep@ =~= live_mask(self.posts@));
        newest_first(&self.posts, &keep)
    }

    /// The ids of the live posts of `author`, newest first.
    pub fn get_user_posts(&self, author: &Identity) -> (r: Vec<u64>)
        ensures
            r@ == select_newest(self.posts@, author_mask(self.posts@, author@)),
    {
        let mut keep: Vec<bool> = Vec::new();
        let mut i: usize = 0;
        while i < self.posts.len()
            invariant
                0 <= i <= self.posts@.len(),
                keep@ =~= author_mask(self.posts@, author@).take(i as int),
            decreases self.posts@.len() - i,
        {
            keep.push(!self.posts[i].is_deleted && self.posts[i].author_id.same_as(author));
            i = i + 1;
        }
        assert(keep@ =~= author_mask(self.posts@, author@));
        newest_first(&self.posts, &keep)
    }

    /// Records that `caller` likes post `id` and counts the like.
    pub fn like_post(&mut self, caller: &Identity, id: u64) -> (r: Result<(), StoreError>)
        requires
            old(self).wf(),
        ensures
            final(self).wf(),
            like_post_effect(*old(self), *final(self), caller@, id, r),
    {
        if !self.user_exists(caller) {
            return Err(StoreError::UserNotRegistered);
        }
        if id == 0 || id > self.posts.len() as u64 {
            return Err(StoreError::PostNotFound);
        }
        let k = (id - 1) as usize;
        if self.posts[k].is_deleted {
            return Err(StoreError::PostDeleted);
        }
        if find_engagement(&self.post_likes, caller, id).is_some() {
            return Err(StoreError::AlreadyLiked);
        }
        self.post_likes.push(Engagement { user_id: caller.copy(), item_id: id });
        assert(self.post_likes@.drop_last() =~= old(self).post_likes@);
        // the table's length fits a usize, so the old count was below the ceiling
        let recorded: usize = self.post_likes.len();
        proof {
            assert(old(self).post_likes@.len() < recorded);
            if likes_consistent(*old(self)) {
                lemma_count_bound(old(self).post_likes@, id);
                assert(old(self).posts@[k as int].likes <= old(self).post_likes@.len());
            }
        }
        if self.posts[k].likes < u64::MAX {
            self.posts[k].likes = self.posts[k].likes + 1;
        }
        assert(self.posts@ =~= old(self).posts@.update(
            id - 1,
            Post { likes: sat_inc(post_of(*old(self), id).likes), ..post_of(*old(self), id) },
        ));
        proof {
            if likes_consistent(*old(self)) {
                assert(self.post_likes@ == old(self).post_likes@.push(self.post_likes@.last()));
                assert forall|i: int| 0 <= i < self.posts@.len() implies (#[trigger] self.posts@[i]).likes
                    == count_for(self.post_likes@, (i + 1) as u64) by {
                    lemma_count_push(old(self).post_likes@, self.post_likes@.last(), (i + 1) as u64);
                    assert(old(self).posts@[i].likes == count_for(old(self).post_likes@, (i + 1) as u64));
                }
            }
        }
        Ok(())
    }

    /// Withdraws the like of `caller` on post `id`.
    pub fn unlike_post(&mut self, caller: &Identity, id: u64) -> (r: Result<(), StoreError>)
        requires
            old(self).wf(),
        ensures
            final(self).wf(),
            unlike_post_effect(*old(self), *final(self), caller@, id, r),
    {
        if !self.user_exists(caller) {
            return Err(StoreError::UserNotRegistered);
        }
        let j = match find_engagement(&self.post_likes, caller, id) {
            Some(j) => j,
            None => return Err(StoreError::NotLiked),
        };
        self.post_likes.remove(j);
        proof {
            if likes_consistent(*old(self)) {
                lemma_count_remove(old(self).post_likes@, j as int, id);
                assert(1 <= id <= old(self).posts@.len());
                assert(old(self).posts@[id - 1].likes == count_for(old(self).post_likes@, id));
            }
        }
        if id >= 1 && id <= self.posts.len() as u64 {
            let k = (id - 1) as usize;
            if self.posts[k].likes > 0 {
                self.posts[k].likes = self.posts[k].likes - 1;
            }
            assert(self.posts@ =~= old(self).posts@.update(
                id - 1,
                Post { likes: sat_dec(post_of(*old(self), id).likes), ..post_of(*old(self), id) },
            ));
        }
        proof {
            if likes_consistent(*old(self)) {
                assert forall|i: int| 0 <= i < self.posts@.len() implies (#[trigger] self.posts@[i]).likes
                    == count_for(self.post_likes@, (i + 1) as u64) by {
                    lemma_count_remove(old(self).post_likes@, j as int, (i + 1) as u64);
                    assert(old(self).posts@[i].likes == count_for(old(self).post_likes@, (i + 1) as u64));
                }
            }
        }
        Ok(())
    }

    /// Whether `caller` likes post `id`.
    pub fn has_user_liked_post(&self, caller: &Identity, id: u64) -> (r: bool)
        ensures
            r == engaged(self.post_likes@, caller@, id),
    {
        find_engagement(&self.post_likes, caller, id).is_some()
    }

    /// The ids of the posts that `caller` likes, in the order the likes were given.
    pub fn get_user_liked_posts(&self, caller: &Identity) -> (r: Vec<u64>)
        ensures
            r@ == items_of(self.post_likes@, caller@),
    {
        let mut out: Vec<u64> = Vec::new();
        let mut i: usize = 0;
        while i < self.post_likes.len()
            invariant
                0 <= i <= self.post_likes@.len(),
                out@ == items_of(self.post_likes@.take(i as int), caller@),
            decreases self.post_likes@.len() - i,
        {
            assert(self.post_likes@.take(i + 1).drop_last() =~= self.post_likes@.take(i as int));
            if self.post_likes[i].user_id.same_as(caller) {
                out.push(self.post_likes[i].item_id);
            }
            i = i + 1;
        }
        assert(self.post_likes@.take(self.post_likes@.len() as int) =~= self.post_likes@);
        out
    }
}

} // verus!
