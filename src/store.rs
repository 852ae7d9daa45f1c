use vstd::prelude::*;

use crate::identity::Identity;
use crate::model::{Comment, Engagement, Follow, IdGenerator, Post, Profile, StoreError, User};

verus! {

/// Some identity in `s` is `id`.
pub open spec fn id_in(s: Seq<Identity>, id: Seq<u8>) -> bool {
    exists|i: int| 0 <= i < s.len() && (#[trigger] s[i])@ == id
}

/// No identity occurs twice in `s`.
pub open spec fn ids_unique(s: Seq<Identity>) -> bool {
    forall|i: int, j: int| 0 <= i < j < s.len() ==> (#[trigger] s[i])@ != (#[trigger] s[j])@
}

/// Whether `id` is among `ids`.
pub fn contains_identity(ids: &Vec<Identity>, id: &Identity) -> (r: bool)
    ensures
        r == id_in(ids@, id@),
{
    let mut i: usize = 0;
    while i < ids.len()
        invariant
            0 <= i <= ids@.len(),
            forall|j: int| 0 <= j < i ==> (#[trigger] ids@[j])@ != id@,
        decreases ids@.len() - i,
    {
        if ids[i].same_as(id) {
            return true;
        }
        i = i + 1;
    }
    false
}

/// The position of `id` in `ids`, if it occurs.
pub fn position_of(ids: &Vec<Identity>, id: &Identity) -> (r: Option<usize>)
    ensures
        match r {
            Some(i) => i < ids@.len() && ids@[i as int]@ == id@,
            None => !id_in(ids@, id@),
        },
{
    let mut i: usize = 0;
    while i < ids.len()
        invariant
            0 <= i <= ids@.len(),
            forall|j: int| 0 <= j < i ==> (#[trigger] ids@[j])@ != id@,
        decreases ids@.len() - i,
    {
        if ids[i].same_as(id) {
            return Some(i);
        }
        i = i + 1;
    }
    None
}

/// The whole in-memory state: users, posts, comments, follow edges,
/// engagement records and the admin registry.
pub struct SocialStore {
    pub users: Vec<User>,
    pub posts: Vec<Post>,
    pub comments: Vec<Comment>,
    pub follows: Vec<Follow>,
    pub post_likes: Vec<Engagement>,
    pub comment_likes: Vec<Engagement>,
    pub shares: Vec<Engagement>,
    pub predefined_admins: Vec<Identity>,
    pub promoted_admins: Vec<Identity>,
    pub ids: IdGenerator,
    /// The latest time at which the store was changed.
    pub clock: u64,
}

/// `u` holds the profile given on creation, at time `now`.
pub open spec fn created_user(
    u: User,
    id: Seq<u8>,
    username: Seq<char>,
    p: Profile,
    admin: bool,
    now: u64,
) -> bool {
    &&& u.user_id@ == id
    &&& u.username@ == username
    &&& u.full_name == p.full_name
    &&& u.email == p.email
    &&& u.bio == p.bio
    &&& u.profile_pic == p.profile_pic
    &&& u.location == p.location
    &&& u.website == p.website
    &&& u.is_admin == admin
    &&& u.created_at == now
    &&& u.last_active == now
}

/// A field given as `Some` replaces the old value; `None` keeps it.
pub open spec fn overwrite(old_value: Option<String>, given: Option<String>) -> Option<String> {
    if given.is_some() {
        given
    } else {
        old_value
    }
}

/// Every counter equals the size of its relation: each post's comment,
/// like and share counters, and each comment's like counter.
pub open spec fn counters_consistent(s: SocialStore) -> bool {
    &&& crate::comments::comment_counts_consistent(s)
    &&& crate::post_ops::likes_consistent(s)
    &&& crate::post_ops::shares_consistent(s)
    &&& crate::comment_ops::comment_likes_consistent(s)
}

/// What `create_user` does.
pub open spec fn create_user_effect(
    s: SocialStore,
    t: SocialStore,
    caller: Seq<u8>,
    username: Seq<char>,
    profile: Profile,
    now: u64,
    r: Result<(), StoreError>,
) -> bool {
    if s.has_user(caller) {
        r == Err::<(), StoreError>(StoreError::UserAlreadyExists) && t == s
    } else {
        &&& r is Ok
        &&& t.users@.len() == s.users@.len() + 1
        &&& t.users@.drop_last() == s.users@
        &&& created_user(t.users@.last(), caller, username, profile, s.admin(caller), now)
        &&& t.same_but_users(&s)
        &&& t.clock == now
    }
}

/// What `delete_user` does.
pub open spec fn delete_user_effect(s: SocialStore, t: SocialStore, caller: Seq<u8>, r: Result<(), StoreError>) -> bool {
    &&& !t.has_user(caller)
    &&& r is Ok == s.has_user(caller)
    &&& r is Err ==> r == Err::<(), StoreError>(StoreError::UserNotFound) && t == s
    &&& r is Ok ==> t.same_but_users(&s) && t.clock == s.clock && exists|i: int|
        0 <= i < s.users@.len() && s.users@[i].user_id@ == caller && t.users@ == s.users@.remove(i)
}

impl SocialStore {
    /// The store is consistent: its tables are well formed and every
    /// counter equals the size of the relation it counts.
    pub open spec fn wf(&self) -> bool {
        self.wf_base() && counters_consistent(*self)
    }

    /// The tables are well formed: ids follow table positions, identities
    /// are unique, records are kept in time order and name existing items.
    pub open spec fn wf_base(&self) -> bool {
        &&& self.posts@.len() == self.ids.post_counter
        &&& self.comments@.len() == self.ids.comment_counter
        &&& forall|i: int| 0 <= i < self.posts@.len() ==> (#[trigger] self.posts@[i]).post_id == i + 1
        &&& forall|i: int|
            0 <= i < self.comments@.len() ==> (#[trigger] self.comments@[i]).comment_id == i + 1
                && 1 <= self.comments@[i].post_id <= self.posts@.len()
        &&& forall|i: int, j: int|
            0 <= i < j < self.users@.len() ==> (#[trigger] self.users@[i]).user_id@
                != (#[trigger] self.users@[j]).user_id@
        &&& forall|i: int, j: int|
            0 <= i <= j < self.users@.len() ==> (#[trigger] self.users@[i]).created_at
                <= (#[trigger] self.users@[j]).created_at
        &&& forall|i: int, j: int|
            0 <= i <= j < self.posts@.len() ==> (#[trigger] self.posts@[i]).created_at
                <= (#[trigger] self.posts@[j]).created_at
        &&& forall|i: int, j: int|
            0 <= i <= j < self.comments@.len() ==> (#[trigger] self.comments@[i]).created_at
                <= (#[trigger] self.comments@[j]).created_at
        &&& ids_unique(self.promoted_admins@)
        &&& crate::follows::edges_unique(self.follows@)
        &&& crate::follows::no_self_edges(self.follows@)
        &&& crate::posts::engagement_unique(self.post_likes@)
        &&& crate::posts::records_within(self.post_likes@, self.posts@.len())
        &&& crate::posts::records_within(self.comment_likes@, self.comments@.len())
        &&& crate::posts::records_within(self.shares@, self.posts@.len())
        &&& crate::posts::engagement_unique(self.comment_likes@)
        &&& crate::posts::engagement_unique(self.shares@)
        &&& forall|i: int| 0 <= i < self.users@.len() ==> (#[trigger] self.users@[i]).created_at <= self.clock
        &&& forall|i: int| 0 <= i < self.posts@.len() ==> (#[trigger] self.posts@[i]).created_at <= self.clock
        &&& forall|i: int|
            0 <= i < self.comments@.len() ==> (#[trigger] self.comments@[i]).created_at <= self.clock
    }

    /// A user with identity `id` is registered.
    pub open spec fn has_user(&self, id: Seq<u8>) -> bool {
        exists|i: int| 0 <= i < self.users@.len() && (#[trigger] self.users@[i]).user_id@ == id
    }

    /// `id` is an admin: predefined or promoted.
    pub open spec fn admin(&self, id: Seq<u8>) -> bool {
        id_in(self.predefined_admins@, id) || id_in(self.promoted_admins@, id)
    }

    /// Only the user table and the clock differ between the two states.
    pub open spec fn same_but_users(&self, other: &SocialStore) -> bool {
        &&& self.posts == other.posts
        &&& self.comments == other.comments
        &&& self.follows == other.follows
        &&& self.post_likes == other.post_likes
        &&& self.comment_likes == other.comment_likes
        &&& self.shares == other.shares
        &&& self.predefined_admins == other.predefined_admins
        &&& self.promoted_admins == other.promoted_admins
        &&& self.ids == other.ids
    }

    /// An empty store whose fixed admins are `predefined_admins`.
    pub fn new(predefined_admins: Vec<Identity>) -> (r: SocialStore)
        ensures
            r.wf(),
            r.users@.len() == 0,
            r.posts@.len() == 0,
            r.comments@.len() == 0,
            r.follows@.len() == 0,
            r.post_likes@.len() == 0,
            r.comment_likes@.len() == 0,
            r.shares@.len() == 0,
            r.predefined_admins == predefined_admins,
            r.promoted_admins@.len() == 0,
            r.clock == 0,
    {
        SocialStore {
            users: Vec::new(),
            posts: Vec::new(),
            comments: Vec::new(),
            follows: Vec::new(),
            post_likes: Vec::new(),
            comment_likes: Vec::new(),
            shares: Vec::new(),
            predefined_admins,
            promoted_admins: Vec::new(),
            ids: IdGenerator::new(),
            clock: 0,
        }
    }

    /// Whether `id` is an admin.
    pub fn is_admin(&self, id: &Identity) -> (r: bool)
        ensures
            r == self.admin(id@),
    {
        contains_identity(&self.predefined_admins, id) || contains_identity(
            &self.promoted_admins,
            id,
        )
    }

    /// Succeeds exactly when `caller` is an admin.
    pub fn require_admin(&self, caller: &Identity) -> (r: Result<(), StoreError>)
        ensures
            r == (if self.admin(caller@) {
                Ok::<(), StoreError>(())
            } else {
                Err(StoreError::Forbidden)
            }),
    {
        if self.is_admin(caller) {
            Ok(())
        } else {
            Err(StoreError::Forbidden)
        }
    }

    /// The position of the user with identity `id`, if registered.
    pub fn find_user(&self, id: &Identity) -> (r: Option<usize>)
        ensures
            match r {
                Some(i) => i < self.users@.len() && self.users@[i as int].user_id@ == id@,
                None => !self.has_user(id@),
            },
    {
        let mut i: usize = 0;
        while i < self.users.len()
            invariant
                0 <= i <= self.users@.len(),
                forall|j: int| 0 <= j < i ==> (#[trigger] self.users@[j]).user_id@ != id@,
            decreases self.users@.len() - i,
        {
            if self.users[i].user_id.same_as(id) {
                return Some(i);
            }
            i = i + 1;
        }
        None
    }

    /// Whether a user with identity `id` is registered.
    pub fn user_exists(&self, id: &Identity) -> (r: bool)
        ensures
            r == self.has_user(id@),
    {
        self.find_user(id).is_some()
    }

    /// The user registered under `id`.
    pub fn get_user(&self, id: &Identity) -> (r: Option<&User>)
        ensures
            r.is_some() == self.has_user(id@),
            r.is_some() ==> r.unwrap().user_id@ == id@ && exists|i: int|
                0 <= i < self.users@.len() && self.users@[i] == *r.unwrap(),
    {
        match self.find_user(id) {
            Some(i) => Some(&self.users[i]),
            None => None,
        }
    }

    /// All registered users.
    pub fn get_all_users(&self) -> (r: &Vec<User>)
        ensures
            r == &self.users,
    {
        &self.users
    }

    /// The number of registered users.
    pub fn user_count(&self) -> (r: usize)
        ensures
            r == self.users@.len(),
    {
        self.users.len()
    }

    /// Registers `caller` under `username`; a second registration is a conflict.
    pub fn create_user(&mut self, caller: &Identity, username: String, profile: Profile, now: u64) -> (r:
        Result<(), StoreError>)
        requires
            old(self).wf(),
            old(self).clock <= now,
        ensures
            final(self).wf(),
            create_user_effect(*old(self), *final(self), caller@, username@, profile, now, r),
    {
        if self.user_exists(caller) {
            return Err(StoreError::UserAlreadyExists);
        }
        let admin = self.is_admin(caller);
        let user = User {
            user_id: caller.copy(),
            username,
            full_name: profile.full_name,
            email: profile.email,
            bio: profile.bio,
            profile_pic: profile.profile_pic,
            location: profile.location,
            website: profile.website,
            is_admin: admin,
            created_at: now,
            last_active: now,
        };
        self.users.push(user);
        self.clock = now;
        assert(final(self).users@.drop_last() =~= old(self).users@);
        Ok(())
    }

    /// Overwrites the given profile fields of `caller` and refreshes its activity time.
    pub fn update_user(&mut self, caller: &Identity, profile: Profile, now: u64) -> (r: Result<(), StoreError>)
        requires
            old(self).wf(),
            old(self).clock <= now,
        ensures
            final(self).wf(),
            !old(self).has_user(caller@) ==> r == Err::<(), StoreError>(StoreError::UserNotFound)
                && *final(self) == *old(self),
            old(self).has_user(caller@) ==> r is Ok && final(self).same_but_users(old(self))
                && final(self).users@.len() == old(self).users@.len() && exists|i: int|
                0 <= i < old(self).users@.len() && old(self).users@[i].user_id@ == caller@ && {
                    let (o, n) = (old(self).users@[i], final(self).users@[i]);
                    &&& n.user_id == o.user_id
                    &&& n.username == o.username
                    &&& n.full_name == overwrite(o.full_name, profile.full_name)
                    &&& n.email == overwrite(o.email, profile.email)
                    &&& n.bio == overwrite(o.bio, profile.bio)
                    &&& n.profile_pic == overwrite(o.profile_pic, profile.profile_pic)
                    &&& n.location == overwrite(o.location, profile.location)
                    &&& n.website == overwrite(o.website, profile.website)
                    &&& n.is_admin == o.is_admin
                    &&& n.created_at == o.created_at
                    &&& n.last_active == now
                    &&& forall|j: int|
                        0 <= j < old(self).users@.len() && j != i ==> final(self).users@[j]
                            == old(self).users@[j]
                },
    {
        let i = match self.find_user(caller) {
            Some(i) => i,
            None => return Err(StoreError::UserNotFound),
        };
        if profile.full_name.is_some() {
            self.users[i].full_name = profile.full_name;
        }
        if profile.email.is_some() {
            self.users[i].email = profile.email;
        }
        if profile.bio.is_some() {
            self.users[i].bio = profile.bio;
        }
        if profile.profile_pic.is_some() {
            self.users[i].profile_pic = profile.profile_pic;
        }
        if profile.location.is_some() {
            self.users[i].location = profile.location;
        }
        if profile.website.is_some() {
            self.users[i].website = profile.website;
        }
        self.users[i].last_active = now;
        self.clock = now;
        Ok(())
    }

    /// Removes the user row of `caller`; nothing else is touched.
    pub fn delete_user(&mut self, caller: &Identity) -> (r: Result<(), StoreError>)
        requires
            old(self).wf(),
        ensures
            final(self).wf(),
            delete_user_effect(*old(self), *final(self), caller@, r),
    {
        match self.find_user(caller) {
            Some(i) => {
                self.users.remove(i);
                assert forall|j: int| 0 <= j < self.users@.len() implies (
                #[trigger] self.users@[j]).user_id@ != caller@ by {
                    if j < i {
                        assert(old(self).users@[j] == self.users@[j]);
                    } else {
                        assert(old(self).users@[j + 1] == self.users@[j]);
                    }
                }
                Ok(())
            },
            None => Err(StoreError::UserNotFound),
        }
    }
}

} // verus!
