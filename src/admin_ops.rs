use vstd::prelude::*;

use crate::identity::Identity;
use crate::model::{AdminStats, Post, PostStats, Profile, StoreError, User};
use crate::posts::{newest_first, select_newest};
use crate::store::{contains_identity, created_user, id_in, position_of, SocialStore};

verus! {

/// One day, in nanoseconds.
pub const DAY_NANOS: u64 = 86_400_000_000_000;

/// The start of the day that ends at `now`, held at zero.
pub open spec fn day_start(now: u64) -> u64 {
    if now >= DAY_NANOS {
        (now - DAY_NANOS) as u64
    } else {
        0
    }
}

/// The number of users whose cached admin flag is set.
pub open spec fn flagged_admins(users: Seq<User>) -> nat
    decreases users.len(),
{
    if users.len() == 0 {
        0
    } else {
        flagged_admins(users.drop_last()) + if users.last().is_admin {
            1nat
        } else {
            0nat
        }
    }
}

/// The number of users created after `cutoff`.
pub open spec fn joined_after(users: Seq<User>, cutoff: u64) -> nat
    decreases users.len(),
{
    if users.len() == 0 {
        0
    } else {
        joined_after(users.drop_last(), cutoff) + if users.last().created_at > cutoff {
            1nat
        } else {
            0nat
        }
    }
}

/// The number of live posts created after `cutoff`.
pub open spec fn live_posts_after(posts: Seq<Post>, cutoff: int) -> nat
    decreases posts.len(),
{
    if posts.len() == 0 {
        0
    } else {
        live_posts_after(posts.drop_last(), cutoff) + if !posts.last().is_deleted
            && posts.last().created_at > cutoff {
            1nat
        } else {
            0nat
        }
    }
}

/// The sum of the like counters of the live posts.
pub open spec fn live_likes(posts: Seq<Post>) -> nat
    decreases posts.len(),
{
    if posts.len() == 0 {
        0
    } else {
        live_likes(posts.drop_last()) + if !posts.last().is_deleted {
            posts.last().likes as nat
        } else {
            0nat
        }
    }
}

/// `n` held at the largest `u64`.
pub open spec fn cap(n: nat) -> u64 {
    if n <= u64::MAX {
        n as u64
    } else {
        u64::MAX
    }
}

/// The identities of the users, newest first.
pub open spec fn users_newest(users: Seq<User>) -> Seq<Seq<u8>>
    decreases users.len(),
{
    if users.len() == 0 {
        Seq::empty()
    } else {
        seq![users.last().user_id@] + users_newest(users.drop_last())
    }
}

/// Every flag set.
pub open spec fn all_mask(n: nat) -> Seq<bool> {
    Seq::new(n, |i: int| true)
}

proof fn lemma_counts_bounded(posts: Seq<Post>, cutoff: int)
    ensures
        live_posts_after(posts, cutoff) <= posts.len(),
    decreases posts.len(),
{
    if posts.len() > 0 {
        lemma_counts_bounded(posts.drop_last(), cutoff);
    }
}

proof fn lemma_user_counts_bounded(users: Seq<User>, cutoff: u64)
    ensures
        flagged_admins(users) <= users.len(),
        joined_after(users, cutoff) <= users.len(),
    decreases users.len(),
{
    if users.len() > 0 {
        lemma_user_counts_bounded(users.drop_last(), cutoff);
    }
}

impl SocialStore {
    /// Whether `caller` is an admin.
    pub fn is_caller_admin(&self, caller: &Identity) -> (r: bool)
        ensures
            r == self.admin(caller@),
    {
        self.is_admin(caller)
    }

    /// An admin adds `target` to the promoted admins and sets its cached flag.
    pub fn admin_promote_user(&mut self, caller: &Identity, target: &Identity) -> (r: Result<(), StoreError>)
        requires
            old(self).wf(),
        ensures
            final(self).wf(),
            !old(self).admin(caller@) ==> r == Err::<(), StoreError>(StoreError::Forbidden)
                && *final(self) == *old(self),
            old(self).admin(caller@) ==> {
                &&& final(self).promoted_admins@ == if id_in(old(self).promoted_admins@, target@) {
                    old(self).promoted_admins@
                } else {
                    old(self).promoted_admins@.push(final(self).promoted_admins@.last())
                }
                &&& id_in(final(self).promoted_admins@, target@)
                &&& final(self).admin(target@)
                &&& forall|x: Seq<u8>| #![auto] x != target@ ==> (final(self).admin(x) == old(self).admin(x))
                &&& r is Ok == old(self).has_user(target@)
                &&& r is Err ==> r == Err::<(), StoreError>(StoreError::UserNotFound)
                &&& final(self).users@.len() == old(self).users@.len()
                &&& forall|i: int| 0 <= i < old(self).users@.len() ==> #[trigger] final(self).users@[i] == if old(self).users@[i].user_id@ == target@ {
                    User { is_admin: true, ..old(self).users@[i] }
                } else {
                    old(self).users@[i]
                }
                &&& final(self).same_but_users_and_admins(old(self))
            },
    {
        if let Err(e) = self.require_admin(caller) {
            return Err(e);
        }
        if !contains_identity(&self.promoted_admins, target) {
            self.promoted_admins.push(target.copy());
            let ghost n = old(self).promoted_admins@.len();
            assert(self.promoted_admins@ =~= old(self).promoted_admins@.push(self.promoted_admins@.last()));
            assert(self.promoted_admins@[n as int]@ == target@);
            assert forall|x: Seq<u8>| x != target@ implies (id_in(self.promoted_admins@, x) == id_in(
                old(self).promoted_admins@,
                x,
            )) by {
                if id_in(old(self).promoted_admins@, x) {
                    let k = choose|k: int| 0 <= k < n && (#[trigger] old(self).promoted_admins@[k])@ == x;
                    assert(self.promoted_admins@[k]@ == x);
                }
                if id_in(self.promoted_admins@, x) {
                    let k = choose|k: int| 0 <= k < n + 1 && (#[trigger] self.promoted_admins@[k])@ == x;
                    assert(k != n);
                    assert(old(self).promoted_admins@[k]@ == x);
                }
            }
            assert forall|i: int, j: int| 0 <= i < j < self.promoted_admins@.len() implies (
            #[trigger] self.promoted_admins@[i])@ != (#[trigger] self.promoted_admins@[j])@ by {
                if j < n {
                    assert(old(self).promoted_admins@[i]@ != old(self).promoted_admins@[j]@);
                } else {
                    assert(old(self).promoted_admins@[i] == self.promoted_admins@[i]);
                }
            }
        }
        self.set_admin_flag(target, true)
    }

    /// An admin removes `target` from the promoted admins and clears its
    /// cached flag; a predefined admin cannot be demoted.
    pub fn admin_demote_user(&mut self, caller: &Identity, target: &Identity) -> (r: Result<(), StoreError>)
        requires
            old(self).wf(),
        ensures
            final(self).wf(),
            !old(self).admin(caller@) ==> r == Err::<(), StoreError>(StoreError::Forbidden)
                && *final(self) == *old(self),
            old(self).admin(caller@) && id_in(old(self).predefined_admins@, target@) ==> r
                == Err::<(), StoreError>(StoreError::CannotDemotePredefinedAdmin) && *final(self)
                == *old(self),
            old(self).admin(caller@) && !id_in(old(self).predefined_admins@, target@) ==> {
                &&& if id_in(old(self).promoted_admins@, target@) {
                    exists|k: int|
                        0 <= k < old(self).promoted_admins@.len() && (#[trigger] old(self).promoted_admins@[k])@
                            == target@ && final(self).promoted_admins@ == old(self).promoted_admins@.remove(k)
                } else {
                    final(self).promoted_admins == old(self).promoted_admins
                }
                &&& !final(self).admin(target@)
                &&& forall|x: Seq<u8>| #![auto] x != target@ ==> (final(self).admin(x) == old(self).admin(x))
                &&& r is Ok == old(self).has_user(target@)
                &&& r is Err ==> r == Err::<(), StoreError>(StoreError::UserNotFound)
                &&& final(self).users@.len() == old(self).users@.len()
                &&& forall|i: int| 0 <= i < old(self).users@.len() ==> #[trigger] final(self).users@[i] == if old(self).users@[i].user_id@ == target@ {
                    User { is_admin: false, ..old(self).users@[i] }
                } else {
                    old(self).users@[i]
                }
                &&& final(self).same_but_users_and_admins(old(self))
            },
    {
        if let Err(e) = self.require_admin(caller) {
            return Err(e);
        }
        if contains_identity(&self.predefined_admins, target) {
            return Err(StoreError::CannotDemotePredefinedAdmin);
        }
        if let Some(i) = position_of(&self.promoted_admins, target) {
            self.promoted_admins.remove(i);
            assert forall|j: int| 0 <= j < self.promoted_admins@.len() implies (
            #[trigger] self.promoted_admins@[j])@ != target@ by {
                if j < i {
                    assert(old(self).promoted_admins@[j] == self.promoted_admins@[j]);
                    assert(old(self).promoted_admins@[j]@ != old(self).promoted_admins@[i as int]@);
                } else {
                    assert(old(self).promoted_admins@[j + 1] == self.promoted_admins@[j]);
                    assert(old(self).promoted_admins@[i as int]@ != old(self).promoted_admins@[j + 1]@);
                }
            }
            assert forall|x: Seq<u8>| x != target@ implies (id_in(self.promoted_admins@, x) == id_in(
                old(self).promoted_admins@,
                x,
            )) by {
                if id_in(old(self).promoted_admins@, x) {
                    let k = choose|k: int| 0 <= k < old(self).promoted_admins@.len() && (#[trigger] old(self).promoted_admins@[k])@ == x;
                    if k < i {
                        assert(self.promoted_admins@[k]@ == x);
                    } else {
                        assert(k != i);
                        assert(self.promoted_admins@[k - 1]@ == x);
                    }
                }
                if id_in(self.promoted_admins@, x) {
                    let k = choose|k: int| 0 <= k < self.promoted_admins@.len() && (#[trigger] self.promoted_admins@[k])@ == x;
                    if k < i {
                        assert(old(self).promoted_admins@[k]@ == x);
                    } else {
                        assert(old(self).promoted_admins@[k + 1]@ == x);
                    }
                }
            }
        }
        self.set_admin_flag(target, false)
    }

    /// Only the user table and the promoted admins differ.
    pub open spec fn same_but_users_and_admins(&self, s: &SocialStore) -> bool {
        &&& self.posts == s.posts
        &&& self.comments == s.comments
        &&& self.follows == s.follows
        &&& self.post_likes == s.post_likes
        &&& self.comment_likes == s.comment_likes
        &&& self.shares == s.shares
        &&& self.predefined_admins == s.predefined_admins
        &&& self.ids == s.ids
        &&& self.clock == s.clock
    }

    /// Sets the cached admin flag of `target`'s row, if there is one.
    fn set_admin_flag(&mut self, target: &Identity, flag: bool) -> (r: Result<(), StoreError>)
        requires
            old(self).wf(),
        ensures
            final(self).wf(),
            r is Ok == old(self).has_user(target@),
            r is Err ==> r == Err::<(), StoreError>(StoreError::UserNotFound),
            final(self).users@.len() == old(self).users@.len(),
            forall|i: int| 0 <= i < old(self).users@.len() ==> #[trigger] final(self).users@[i] == if old(self).users@[i].user_id@ == target@ {
                User { is_admin: flag, ..old(self).users@[i] }
            } else {
                old(self).users@[i]
            },
            final(self).promoted_admins == old(self).promoted_admins,
            final(self).same_but_users(old(self)),
            final(self).clock == old(self).clock,
    {
        match self.find_user(target) {
            Some(i) => {
                self.users[i].is_admin = flag;
                assert forall|j: int| 0 <= j < self.users@.len() && j != i implies (
                #[trigger] old(self).users@[j]).user_id@ != target@ by {
                    if j < i {
                        assert(old(self).users@[j].user_id@ != old(self).users@[i as int].user_id@);
                    } else {
                        assert(old(self).users@[i as int].user_id@ != old(self).users@[j].user_id@);
                    }
                }
                Ok(())
            },
            None => Err(StoreError::UserNotFound),
        }
    }

    /// Counts of users, flagged admins and users created in the day before `now`.
    pub fn admin_get_stats(&self, caller: &Identity, now: u64) -> (r: Result<AdminStats, StoreError>)
        ensures
            !self.admin(caller@) ==> r == Err::<AdminStats, StoreError>(StoreError::Forbidden),
            self.admin(caller@) ==> r == Ok::<AdminStats, StoreError>(
                AdminStats {
                    total_users: self.users@.len() as u64,
                    total_admins: flagged_admins(self.users@) as u64,
                    recent_registrations: joined_after(self.users@, day_start(now)) as u64,
                },
            ),
    {
        if let Err(e) = self.require_admin(caller) {
            return Err(e);
        }
        let cutoff = now.saturating_sub(DAY_NANOS);
        let mut admins: u64 = 0;
        let mut recent: u64 = 0;
        let mut i: usize = 0;
        while i < self.users.len()
            invariant
                0 <= i <= self.users@.len(),
                cutoff == day_start(now),
                admins == flagged_admins(self.users@.take(i as int)),
                recent == joined_after(self.users@.take(i as int), cutoff),
            decreases self.users@.len() - i,
        {
            proof {
                assert(self.users@.take(i + 1).drop_last() =~= self.users@.take(i as int));
                lemma_user_counts_bounded(self.users@.take(i as int), cutoff);
            }
            if self.users[i].is_admin {
                admins = admins + 1;
            }
            if self.users[i].created_at > cutoff {
                recent = recent + 1;
            }
            i = i + 1;
        }
        assert(self.users@.take(self.users@.len() as int) =~= self.users@);
        Ok(AdminStats { total_users: self.users.len() as u64, total_admins: admins, recent_registrations: recent })
    }

    /// Counts of live posts, of those created in the day before `now`, and
    /// their likes summed (held at the largest `u64`).
    pub fn admin_get_post_stats(&self, caller: &Identity, now: u64) -> (r: Result<PostStats, StoreError>)
        ensures
            !self.admin(caller@) ==> r == Err::<PostStats, StoreError>(StoreError::Forbidden),
            self.admin(caller@) ==> r == Ok::<PostStats, StoreError>(
                PostStats {
                    total_posts: live_posts_after(self.posts@, -1) as u64,
                    recent_posts: live_posts_after(self.posts@, day_start(now) as int) as u64,
                    total_likes: cap(live_likes(self.posts@)),
                },
            ),
    {
        if let Err(e) = self.require_admin(caller) {
            return Err(e);
        }
        let cutoff = now.saturating_sub(DAY_NANOS);
        let mut total: u64 = 0;
        let mut recent: u64 = 0;
        let mut likes: u64 = 0;
        let mut i: usize = 0;
        while i < self.posts.len()
            invariant
                0 <= i <= self.posts@.len(),
                cutoff == day_start(now),
                total == live_posts_after(self.posts@.take(i as int), -1),
                recent == live_posts_after(self.posts@.take(i as int), cutoff as int),
                likes == cap(live_likes(self.posts@.take(i as int))),
            decreases self.posts@.len() - i,
        {
            proof {
                assert(self.posts@.take(i + 1).drop_last() =~= self.posts@.take(i as int));
                lemma_counts_bounded(self.posts@.take(i as int), -1);
                lemma_counts_bounded(self.posts@.take(i as int), cutoff as int);
            }
            if !self.posts[i].is_deleted {
                total = total + 1;
                if self.posts[i].created_at > cutoff {
                    recent = recent + 1;
                }
                likes = likes.saturating_add(self.posts[i].likes);
            }
            i = i + 1;
        }
        assert(self.posts@.take(self.posts@.len() as int) =~= self.posts@);
        Ok(PostStats { total_posts: total, recent_posts: recent, total_likes: likes })
    }

    /// The ids of all posts, deleted ones included, newest first.
    pub fn admin_get_all_posts(&self, caller: &Identity) -> (r: Result<Vec<u64>, StoreError>)
        ensures
            !self.admin(caller@) ==> r == Err::<Vec<u64>, StoreError>(StoreError::Forbidden),
            self.admin(caller@) ==> r is Ok && r.unwrap()@ == select_newest(
                self.posts@,
                all_mask(self.posts@.len()),
            ),
    {
        if let Err(e) = self.require_admin(caller) {
            return Err(e);
        }
        let mut keep: Vec<bool> = Vec::new();
        let mut i: usize = 0;
        while i < self.posts.len()
            invariant
                0 <= i <= self.posts@.len(),
                keep@ =~= all_mask(self.posts@.len()).take(i as int),
            decreases self.posts@.len() - i,
        {
            keep.push(true);
            i = i + 1;
        }
        assert(keep@ =~= all_mask(self.posts@.len()));
        Ok(newest_first(&self.posts, &keep))
    }

    /// All user rows, for an admin.
    pub fn admin_get_all_users_detailed(&self, caller: &Identity) -> (r: Result<&Vec<User>, StoreError>)
        ensures
            !self.admin(caller@) ==> r == Err::<&Vec<User>, StoreError>(StoreError::Forbidden),
            self.admin(caller@) ==> r == Ok::<&Vec<User>, StoreError>(&self.users),
    {
        if let Err(e) = self.require_admin(caller) {
            return Err(e);
        }
        Ok(&self.users)
    }

    /// All user rows, for an admin.
    pub fn admin_get_all_users(&self, caller: &Identity) -> (r: Result<&Vec<User>, StoreError>)
        ensures
            !self.admin(caller@) ==> r == Err::<&Vec<User>, StoreError>(StoreError::Forbidden),
            self.admin(caller@) ==> r == Ok::<&Vec<User>, StoreError>(&self.users),
    {
        self.admin_get_all_users_detailed(caller)
    }

    /// The identities of the `limit` most recently created users, newest first.
    pub fn admin_get_recent_users(&self, caller: &Identity, limit: u64) -> (r: Result<Vec<Identity>, StoreError>)
        ensures
            !self.admin(caller@) ==> r is Err && r == Err::<Vec<Identity>, StoreError>(StoreError::Forbidden),
            self.admin(caller@) ==> r is Ok && crate::posts::ids_of(r.unwrap()@) == if users_newest(self.users@).len() > limit {
                users_newest(self.users@).take(limit as int)
            } else {
                users_newest(self.users@)
            },
    {
        if let Err(e) = self.require_admin(caller) {
            return Err(e);
        }
        let mut out: Vec<Identity> = Vec::new();
        let n = self.users.len();
        let mut i: usize = 0;
        let ghost all = users_newest(self.users@);
        proof {
            lemma_users_newest(self.users@);
        }
        while i < n && (i as u64) < limit
            invariant
                0 <= i <= n,
                i <= limit,
                n == self.users@.len(),
                all == users_newest(self.users@),
                all.len() == n,
                forall|k: int| 0 <= k < n ==> #[trigger] all[k] == self.users@[n - 1 - k].user_id@,
                crate::posts::ids_of(out@) =~= all.take(i as int),
            decreases n - i,
        {
            let ghost prev = out@;
            out.push(self.users[n - 1 - i].user_id.copy());
            assert(crate::posts::ids_of(out@) =~= crate::posts::ids_of(prev).push(all[i as int]));
            i = i + 1;
        }
        assert(all.take(n as int) =~= all);
        Ok(out)
    }

    /// An admin writes a fresh row for `target`, replacing any it had.
    pub fn admin_create_user_with_principal(
        &mut self,
        caller: &Identity,
        target: &Identity,
        username: String,
        profile: Profile,
        now: u64,
    ) -> (r: Result<(), StoreError>)
        requires
            old(self).wf(),
            old(self).clock <= now,
        ensures
            final(self).wf(),
            !old(self).admin(caller@) ==> r == Err::<(), StoreError>(StoreError::Forbidden)
                && *final(self) == *old(self),
            old(self).admin(caller@) ==> {
                &&& r is Ok
                &&& final(self).users@.len() >= 1
                &&& created_user(final(self).users@.last(), target@, username@, profile, old(self).admin(target@), now)
                &&& old(self).has_user(target@) ==> exists|i: int|
                    0 <= i < old(self).users@.len() && old(self).users@[i].user_id@ == target@
                        && final(self).users@.drop_last() == old(self).users@.remove(i)
                &&& !old(self).has_user(target@) ==> final(self).users@.drop_last() == old(self).users@
                &&& final(self).same_but_users(old(self))
                &&& final(self).clock == now
            },
    {
        if let Err(e) = self.require_admin(caller) {
            return Err(e);
        }
        let _ = self.delete_user(target);
        let ghost mid = self.users@;
        let admin = self.is_admin(target);
        let user = User {
            user_id: target.copy(),
            username,
            full_name: profile.full_name,
            email: profile.email,
            bio: profile.bio,
            profile_pic: profile.profile_pic,
            location: profile.location,
            website: profile.website,
            is_admin: admin,
            created_at: now,
            last_active: now,
        };
        self.users.push(user);
        self.clock = now;
        assert(self.users@.drop_last() =~= mid);
        Ok(())
    }
}

proof fn lemma_users_newest(users: Seq<User>)
    ensures
        users_newest(users).len() == users.len(),
        forall|k: int|
            0 <= k < users.len() ==> #[trigger] users_newest(users)[k] == users[users.len() - 1 - k].user_id@,
    decreases users.len(),
{
    if users.len() > 0 {
        lemma_users_newest(users.drop_last());
    }
}

} // verus!
