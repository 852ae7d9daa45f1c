use vstd::prelude::*;

use crate::identity::Identity;
use crate::model::{Follow, Post, StoreError};
use crate::posts::{ids_of, newest_first, select_newest};
use crate::store::SocialStore;

verus! {

/// The most posts a feed shows.
pub const FEED_LIMIT: usize = 50;

/// Some edge goes from `a` to `b`.
pub open spec fn edge(edges: Seq<Follow>, a: Seq<u8>, b: Seq<u8>) -> bool {
    exists|i: int|
        0 <= i < edges.len() && (#[trigger] edges[i]).follower_id@ == a && edges[i].following_id@
            == b
}

/// No edge is stored twice.
pub open spec fn edges_unique(edges: Seq<Follow>) -> bool {
    forall|i: int, j: int|
        0 <= i < j < edges.len() ==> !((#[trigger] edges[i]).follower_id@ == (
        #[trigger] edges[j]).follower_id@ && edges[i].following_id@ == edges[j].following_id@)
}

/// No identity follows itself.
pub open spec fn no_self_edges(edges: Seq<Follow>) -> bool {
    forall|i: int| 0 <= i < edges.len() ==> (#[trigger] edges[i]).follower_id@ != edges[i].following_id@
}

/// The followers of `id`, in edge order.
pub open spec fn followers_in(edges: Seq<Follow>, id: Seq<u8>) -> Seq<Seq<u8>>
    decreases edges.len(),
{
    if edges.len() == 0 {
        Seq::empty()
    } else {
        let rest = followers_in(edges.drop_last(), id);
        if edges.last().following_id@ == id {
            rest.push(edges.last().follower_id@)
        } else {
            rest
        }
    }
}

/// The identities that `id` follows, in edge order.
pub open spec fn following_in(edges: Seq<Follow>, id: Seq<u8>) -> Seq<Seq<u8>>
    decreases edges.len(),
{
    if edges.len() == 0 {
        Seq::empty()
    } else {
        let rest = following_in(edges.drop_last(), id);
        if edges.last().follower_id@ == id {
            rest.push(edges.last().following_id@)
        } else {
            rest
        }
    }
}

/// The flags of the live posts by `caller` or by someone `caller` follows.
pub open spec fn feed_mask(posts: Seq<Post>, edges: Seq<Follow>, caller: Seq<u8>) -> Seq<bool> {
    Seq::new(
        posts.len(),
        |i: int|
            !posts[i].is_deleted && (posts[i].author_id@ == caller || edge(
                edges,
                caller,
                posts[i].author_id@,
            )),
    )
}

/// At most the first `n` items of `s`.
pub open spec fn at_most(s: Seq<u64>, n: nat) -> Seq<u64> {
    if s.len() > n {
        s.take(n as int)
    } else {
        s
    }
}

/// The ids of the feed of `caller`: newest first, at most fifty.
pub open spec fn feed_of(s: SocialStore, caller: Seq<u8>) -> Seq<u64> {
    at_most(select_newest(s.posts@, feed_mask(s.posts@, s.follows@, caller)), FEED_LIMIT as nat)
}

/// Only the follow edges differ.
pub open spec fn same_but_follows(t: SocialStore, s: SocialStore) -> bool {
    &&& t.users == s.users
    &&& t.posts == s.posts
    &&& t.comments == s.comments
    &&& t.post_likes == s.post_likes
    &&& t.comment_likes == s.comment_likes
    &&& t.shares == s.shares
    &&& t.predefined_admins == s.predefined_admins
    &&& t.promoted_admins == s.promoted_admins
    &&& t.ids == s.ids
    &&& t.clock == s.clock
}

/// What adding an edge from `a` to `b` does, where `missing` is the error
/// for an unknown `a`.
pub open spec fn add_follow_effect(
    s: SocialStore,
    t: SocialStore,
    a: Seq<u8>,
    b: Seq<u8>,
    missing: StoreError,
    r: Result<(), StoreError>,
) -> bool {
    if !s.has_user(a) {
        r == Err::<(), StoreError>(missing) && t == s
    } else if !s.has_user(b) {
        r == Err::<(), StoreError>(StoreError::TargetNotFound) && t == s
    } else if a == b {
        r == Err::<(), StoreError>(StoreError::SelfFollow) && t == s
    } else if edge(s.follows@, a, b) {
        r == Err::<(), StoreError>(StoreError::AlreadyFollowing) && t == s
    } else {
        &&& r is Ok
        &&& t.follows@.len() == s.follows@.len() + 1
        &&& t.follows@.drop_last() == s.follows@
        &&& t.follows@.last().follower_id@ == a
        &&& t.follows@.last().following_id@ == b
        &&& same_but_follows(t, s)
    }
}

impl SocialStore {
    /// The position of the edge from `a` to `b`, if there is one.
    pub fn find_edge(&self, a: &Identity, b: &Identity) -> (r: Option<usize>)
        ensures
            match r {
                Some(i) => i < self.follows@.len() && self.follows@[i as int].follower_id@ == a@
                    && self.follows@[i as int].following_id@ == b@,
                None => !edge(self.follows@, a@, b@),
            },
    {
        let mut i: usize = 0;
        while i < self.follows.len()
            invariant
                0 <= i <= self.follows@.len(),
                forall|j: int|
                    0 <= j < i ==> !((#[trigger] self.follows@[j]).follower_id@ == a@
                        && self.follows@[j].following_id@ == b@),
            decreases self.follows@.len() - i,
        {
            if self.follows[i].follower_id.same_as(a) && self.follows[i].following_id.same_as(b) {
                return Some(i);
            }
            i = i + 1;
        }
        None
    }

    fn add_follow(&mut self, a: &Identity, b: &Identity, missing: StoreError) -> (r: Result<(), StoreError>)
        requires
            old(self).wf(),
        ensures
            final(self).wf(),
            add_follow_effect(*old(self), *final(self), a@, b@, missing, r),
    {
        if !self.user_exists(a) {
            return Err(missing);
        }
        if !self.user_exists(b) {
            return Err(StoreError::TargetNotFound);
        }
        if a.same_as(b) {
            return Err(StoreError::SelfFollow);
        }
        if self.find_edge(a, b).is_some() {
            return Err(StoreError::AlreadyFollowing);
        }
        self.follows.push(Follow { follower_id: a.copy(), following_id: b.copy() });
        assert(self.follows@.drop_last() =~= old(self).follows@);
        Ok(())
    }

    /// `caller` starts following `target`.
    pub fn follow_user(&mut self, caller: &Identity, target: &Identity) -> (r: Result<(), StoreError>)
        requires
            old(self).wf(),
        ensures
            final(self).wf(),
            add_follow_effect(*old(self), *final(self), caller@, target@, StoreError::UserNotRegistered, r),
    {
        self.add_follow(caller, target, StoreError::UserNotRegistered)
    }

    /// An admin makes `follower` follow `following`.
    pub fn admin_create_follow_relationship(
        &mut self,
        caller: &Identity,
        follower: &Identity,
        following: &Identity,
    ) -> (r: Result<(), StoreError>)
        requires
            old(self).wf(),
        ensures
            final(self).wf(),
            !old(self).admin(caller@) ==> r == Err::<(), StoreError>(StoreError::Forbidden)
                && *final(self) == *old(self),
            old(self).admin(caller@) ==> add_follow_effect(
                *old(self),
                *final(self),
                follower@,
                following@,
                StoreError::UserNotFound,
                r,
            ),
    {
        if let Err(e) = self.require_admin(caller) {
            return Err(e);
        }
        self.add_follow(follower, following, StoreError::UserNotFound)
    }

    /// `caller` stops following `target`.
    pub fn unfollow_user(&mut self, caller: &Identity, target: &Identity) -> (r: Result<(), StoreError>)
        requires
            old(self).wf(),
        ensures
            final(self).wf(),
            !edge(final(self).follows@, caller@, target@),
            r is Ok == edge(old(self).follows@, caller@, target@),
            r is Err ==> r == Err::<(), StoreError>(StoreError::NotFollowing) && *final(self)
                == *old(self),
            r is Ok ==> same_but_follows(*final(self), *old(self)) && exists|k: int|
                0 <= k < old(self).follows@.len() && final(self).follows@ == old(self).follows@.remove(k),
    {
        match self.find_edge(caller, target) {
            Some(k) => {
                self.follows.remove(k);
                assert forall|m: int| 0 <= m < self.follows@.len() implies !((
                #[trigger] self.follows@[m]).follower_id@ == caller@ && self.follows@[m].following_id@
                    == target@) by {
                    if m < k {
                        assert(old(self).follows@[m] == self.follows@[m]);
                    } else {
                        assert(old(self).follows@[m + 1] == self.follows@[m]);
                    }
                }
                Ok(())
            },
            None => Err(StoreError::NotFollowing),
        }
    }

    /// Whether `caller` follows `target`.
    pub fn is_following(&self, caller: &Identity, target: &Identity) -> (r: bool)
        ensures
            r == edge(self.follows@, caller@, target@),
    {
        self.find_edge(caller, target).is_some()
    }

    /// Everyone who follows `id`, found by a scan of all edges.
    pub fn get_followers(&self, id: &Identity) -> (r: Vec<Identity>)
        ensures
            ids_of(r@) == followers_in(self.follows@, id@),
    {
        let mut out: Vec<Identity> = Vec::new();
        let mut i: usize = 0;
        while i < self.follows.len()
            invariant
                0 <= i <= self.follows@.len(),
                ids_of(out@) == followers_in(self.follows@.take(i as int), id@),
            decreases self.follows@.len() - i,
        {
            assert(self.follows@.take(i + 1).drop_last() =~= self.follows@.take(i as int));
            if self.follows[i].following_id.same_as(id) {
                let ghost prev = out@;
                out.push(self.follows[i].follower_id.copy());
                assert(ids_of(out@) =~= ids_of(prev).push(self.follows@[i as int].follower_id@));
            }
            i = i + 1;
        }
        assert(self.follows@.take(self.follows@.len() as int) =~= self.follows@);
        out
    }

    /// Everyone whom `id` follows.
    pub fn get_following(&self, id: &Identity) -> (r: Vec<Identity>)
        ensures
            ids_of(r@) == following_in(self.follows@, id@),
    {
        let mut out: Vec<Identity> = Vec::new();
        let mut i: usize = 0;
        while i < self.follows.len()
            invariant
                0 <= i <= self.follows@.len(),
                ids_of(out@) == following_in(self.follows@.take(i as int), id@),
            decreases self.follows@.len() - i,
        {
            assert(self.follows@.take(i + 1).drop_last() =~= self.follows@.take(i as int));
            if self.follows[i].follower_id.same_as(id) {
                let ghost prev = out@;
                out.push(self.follows[i].following_id.copy());
                assert(ids_of(out@) =~= ids_of(prev).push(self.follows@[i as int].following_id@));
            }
            i = i + 1;
        }
        assert(self.follows@.take(self.follows@.len() as int) =~= self.follows@);
        out
    }

    /// The ids of the newest fifty live posts by `caller` or by those it follows.
    pub fn get_user_feed(&self, caller: &Identity) -> (r: Vec<u64>)
        ensures
            r@ == feed_of(*self, caller@),
    {
        let mut keep: Vec<bool> = Vec::new();
        let mut i: usize = 0;
        while i < self.posts.len()
            invariant
                0 <= i <= self.posts@.len(),
                keep@ =~= feed_mask(self.posts@, self.follows@, caller@).take(i as int),
            decreases self.posts@.len() - i,
        {
            let p = &self.posts[i];
            let shown = !p.is_deleted && (p.author_id.same_as(caller) || self.is_following(
                caller,
                &p.author_id,
            ));
            keep.push(shown);
            i = i + 1;
        }
        assert(keep@ =~= feed_mask(self.posts@, self.follows@, caller@));
        let mut out = newest_first(&self.posts, &keep);
        if out.len() > FEED_LIMIT {
            out.truncate(FEED_LIMIT);
        }
        out
    }
}

} // verus!
