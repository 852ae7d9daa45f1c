use vstd::prelude::*;

use crate::identity::Identity;
use crate::model::{Post, StoreError, User};
use crate::posts::{ids_of, newest_first, select_newest};
use crate::store::SocialStore;
use crate::text::{contains_text, is_infix, lower_of, lowercase};

verus! {

/// `field` is present and holds the lowercased query `q`.
pub open spec fn field_has(field: Option<String>, q: Seq<char>) -> bool {
    field.is_some() && is_infix(q, lower_of(field.unwrap()@))
}

/// The public search: username, full name or bio holds the lowercased query.
pub open spec fn public_match(u: User, q: Seq<char>) -> bool {
    is_infix(q, lower_of(u.username@)) || field_has(u.full_name, q) || field_has(u.bio, q)
}

/// The admin search: username, full name or email holds the lowercased query.
pub open spec fn admin_match(u: User, q: Seq<char>) -> bool {
    is_infix(q, lower_of(u.username@)) || field_has(u.full_name, q) || field_has(u.email, q)
}

/// The identities of the users that `m` selects, in table order.
pub open spec fn users_where(users: Seq<User>, m: Seq<bool>) -> Seq<Seq<u8>>
    decreases users.len(),
{
    if users.len() == 0 {
        Seq::empty()
    } else {
        let rest = users_where(users.drop_last(), m.take(users.len() - 1));
        if m[users.len() - 1] {
            rest.push(users.last().user_id@)
        } else {
            rest
        }
    }
}

/// Some tag, lowercased, holds the lowercased query `q`.
pub open spec fn some_tag_has(tags: Seq<String>, q: Seq<char>) -> bool {
    exists|k: int| 0 <= k < tags.len() && is_infix(q, lower_of((#[trigger] tags[k])@))
}

/// Some tag equals `tag` once both are lowercased.
pub open spec fn some_tag_is(tags: Seq<String>, tag: Seq<char>) -> bool {
    exists|k: int| 0 <= k < tags.len() && lower_of((#[trigger] tags[k])@) == lower_of(tag)
}

/// The flags of the live posts whose text or some tag holds the query.
pub open spec fn text_mask(posts: Seq<Post>, query: Seq<char>) -> Seq<bool> {
    Seq::new(
        posts.len(),
        |i: int|
            !posts[i].is_deleted && (is_infix(lower_of(query), lower_of(posts[i].content@))
                || some_tag_has(posts[i].hashtags@, lower_of(query))),
    )
}

/// The flags of the live posts that carry `tag`.
pub open spec fn tag_mask(posts: Seq<Post>, tag: Seq<char>) -> Seq<bool> {
    Seq::new(posts.len(), |i: int| !posts[i].is_deleted && some_tag_is(posts[i].hashtags@, tag))
}

/// Whether `field` is present and, lowercased, holds `q`.
fn optional_holds(field: &Option<String>, q: &String) -> (r: bool)
    ensures
        r == field_has(*field, q@),
{
    match field {
        Some(text) => contains_text(lowercase(text.as_str()).as_str(), q.as_str()),
        None => false,
    }
}

/// Whether some tag of `tags`, lowercased, holds `q`.
fn tags_hold(tags: &Vec<String>, q: &String) -> (r: bool)
    ensures
        r == some_tag_has(tags@, q@),
{
    let mut i: usize = 0;
    while i < tags.len()
        invariant
            0 <= i <= tags@.len(),
            forall|k: int| 0 <= k < i ==> !is_infix(q@, lower_of((#[trigger] tags@[k])@)),
        decreases tags@.len() - i,
    {
        if contains_text(lowercase(tags[i].as_str()).as_str(), q.as_str()) {
            return true;
        }
        i = i + 1;
    }
    false
}

/// Whether some tag of `tags` equals the lowercased `tag` once lowercased.
fn tags_include(tags: &Vec<String>, tag: &String) -> (r: bool)
    ensures
        r == exists|k: int| 0 <= k < tags@.len() && lower_of((#[trigger] tags@[k])@) == tag@,
{
    let mut i: usize = 0;
    while i < tags.len()
        invariant
            0 <= i <= tags@.len(),
            forall|k: int| 0 <= k < i ==> lower_of((#[trigger] tags@[k])@) != tag@,
        decreases tags@.len() - i,
    {
        if lowercase(tags[i].as_str()) == *tag {
            return true;
        }
        i = i + 1;
    }
    false
}

impl SocialStore {
    fn pick_users(&self, mask: &Vec<bool>) -> (r: Vec<Identity>)
        requires
            mask@.len() == self.users@.len(),
        ensures
            ids_of(r@) == users_where(self.users@, mask@),
    {
        let mut out: Vec<Identity> = Vec::new();
        let mut i: usize = 0;
        while i < self.users.len()
            invariant
                0 <= i <= self.users@.len(),
                mask@.len() == self.users@.len(),
                ids_of(out@) == users_where(self.users@.take(i as int), mask@.take(i as int)),
            decreases self.users@.len() - i,
        {
            proof {
                assert(self.users@.take(i + 1).drop_last() =~= self.users@.take(i as int));
                assert(mask@.take(i + 1).take(i as int) =~= mask@.take(i as int));
            }
            if mask[i] {
                let ghost prev = out@;
                out.push(self.users[i].user_id.copy());
                assert(ids_of(out@) =~= ids_of(prev).push(self.users@[i as int].user_id@));
            }
            i = i + 1;
        }
        assert(self.users@.take(self.users@.len() as int) =~= self.users@);
        assert(mask@.take(mask@.len() as int) =~= mask@);
        out
    }

    /// The users whose username, full name or bio holds `query`, ignoring case.
    pub fn search_users(&self, query: &str) -> (r: Vec<Identity>)
        ensures
            ids_of(r@) == users_where(
                self.users@,
                Seq::new(self.users@.len(), |i: int| public_match(self.users@[i], lower_of(query@))),
            ),
    {
        let q = lowercase(query);
        let mut mask: Vec<bool> = Vec::new();
        let mut i: usize = 0;
        while i < self.users.len()
            invariant
                0 <= i <= self.users@.len(),
                q@ == lower_of(query@),
                mask@ =~= Seq::new(self.users@.len(), |k: int| public_match(self.users@[k], lower_of(query@))).take(i as int),
            decreases self.users@.len() - i,
        {
            let u = &self.users[i];
            let hit = contains_text(lowercase(u.username.as_str()).as_str(), q.as_str())
                || optional_holds(&u.full_name, &q) || optional_holds(&u.bio, &q);
            mask.push(hit);
            i = i + 1;
        }
        assert(mask@ =~= Seq::new(self.users@.len(), |k: int| public_match(self.users@[k], lower_of(query@))));
        self.pick_users(&mask)
    }

    /// For an admin: the users whose username, full name or email holds
    /// `query`, ignoring case.
    pub fn admin_search_users(&self, caller: &Identity, query: &str) -> (r: Result<Vec<Identity>, StoreError>)
        ensures
            !self.admin(caller@) ==> r is Err && r == Err::<Vec<Identity>, StoreError>(StoreError::Forbidden),
            self.admin(caller@) ==> r is Ok && ids_of(r.unwrap()@) == users_where(
                self.users@,
                Seq::new(self.users@.len(), |i: int| admin_match(self.users@[i], lower_of(query@))),
            ),
    {
        if let Err(e) = self.require_admin(caller) {
            return Err(e);
        }
        let q = lowercase(query);
        let mut mask: Vec<bool> = Vec::new();
        let mut i: usize = 0;
        while i < self.users.len()
            invariant
                0 <= i <= self.users@.len(),
                q@ == lower_of(query@),
                mask@ =~= Seq::new(self.users@.len(), |k: int| admin_match(self.users@[k], lower_of(query@))).take(i as int),
            decreases self.users@.len() - i,
        {
            let u = &self.users[i];
            let hit = contains_text(lowercase(u.username.as_str()).as_str(), q.as_str())
                || optional_holds(&u.full_name, &q) || optional_holds(&u.email, &q);
            mask.push(hit);
            i = i + 1;
        }
        assert(mask@ =~= Seq::new(self.users@.len(), |k: int| admin_match(self.users@[k], lower_of(query@))));
        Ok(self.pick_users(&mask))
    }

    /// The ids of the live posts whose text or some tag holds `query`,
    /// ignoring case, newest first.
    pub fn search_posts(&self, query: &str) -> (r: Vec<u64>)
        ensures
            r@ == select_newest(self.posts@, text_mask(self.posts@, query@)),
    {
        let q = lowercase(query);
        let mut keep: Vec<bool> = Vec::new();
        let mut i: usize = 0;
        while i < self.posts.len()
            invariant
                0 <= i <= self.posts@.len(),
                q@ == lower_of(query@),
                keep@ =~= text_mask(self.posts@, query@).take(i as int),
            decreases self.posts@.len() - i,
        {
            let p = &self.posts[i];
            let hit = !p.is_deleted && (contains_text(lowercase(p.content.as_str()).as_str(), q.as_str())
                || tags_hold(&p.hashtags, &q));
            keep.push(hit);
            i = i + 1;
        }
        assert(keep@ =~= text_mask(self.posts@, query@));
        newest_first(&self.posts, &keep)
    }

    /// The ids of the live posts carrying `hashtag`, ignoring case, newest first.
    pub fn get_posts_by_hashtag(&self, hashtag: &str) -> (r: Vec<u64>)
        ensures
            r@ == select_newest(self.posts@, tag_mask(self.posts@, hashtag@)),
    {
        let tag = lowercase(hashtag);
        let mut keep: Vec<bool> = Vec::new();
        let mut i: usize = 0;
        while i < self.posts.len()
            invariant
                0 <= i <= self.posts@.len(),
                tag@ == lower_of(hashtag@),
                keep@ =~= tag_mask(self.posts@, hashtag@).take(i as int),
            decreases self.posts@.len() - i,
        {
            let p = &self.posts[i];
            let hit = !p.is_deleted && tags_include(&p.hashtags, &tag);
            keep.push(hit);
            i = i + 1;
        }
        assert(keep@ =~= tag_mask(self.posts@, hashtag@));
        newest_first(&self.posts, &keep)
    }
}

} // verus!
