use vstd::prelude::*;

use crate::identity::Identity;
use crate::model::{Engagement, Post, StoreError, User};
use crate::store::SocialStore;
use crate::text::{split_words, trim, trim_of, words_of};
use vstd::string::StrSliceExecFns;

verus! {

/// The longest post, in characters.
pub const MAX_POST_CHARS: usize = 2000;

/// Why `content` is refused as a text of at most `max` characters, if it is.
pub open spec fn content_error(content: Seq<char>, max: nat) -> Option<StoreError> {
    if trim_of(content).len() == 0 {
        Some(StoreError::EmptyContent)
    } else if content.len() > max {
        Some(StoreError::ContentTooLong)
    } else {
        None
    }
}

/// Checks `content` against the rules for a text of at most `max`
/// characters and gives it back trimmed.
pub fn validate_content(content: &str, max: usize) -> (r: Result<String, StoreError>)
    ensures
        match content_error(content@, max as nat) {
            Some(e) => r == Err::<String, StoreError>(e),
            None => r is Ok && r.unwrap()@ == trim_of(content@),
        },
{
    let trimmed = trim(content);
    if trimmed.as_str().is_empty() {
        return Err(StoreError::EmptyContent);
    }
    if content.unicode_len() > max {
        return Err(StoreError::ContentTooLong);
    }
    Ok(trimmed)
}

/// The identity of the first user in table order whose username is `name`.
pub open spec fn first_named(users: Seq<User>, name: Seq<char>) -> Option<Seq<u8>>
    decreases users.len(),
{
    if users.len() == 0 {
        None
    } else if users[0].username@ == name {
        Some(users[0].user_id@)
    } else {
        first_named(users.skip(1), name)
    }
}

/// The identities mentioned by `@username` words, in order; words naming
/// nobody are dropped.
pub open spec fn mentions_in(words: Seq<Seq<char>>, users: Seq<User>) -> Seq<Seq<u8>>
    decreases words.len(),
{
    if words.len() == 0 {
        Seq::empty()
    } else {
        let rest = mentions_in(words.drop_last(), users);
        let w = words.last();
        if w.len() > 1 && w[0] == '@' {
            match first_named(users, w.skip(1)) {
                Some(id) => rest.push(id),
                None => rest,
            }
        } else {
            rest
        }
    }
}

/// The views of a sequence of identities.
pub open spec fn ids_of(s: Seq<Identity>) -> Seq<Seq<u8>> {
    s.map_values(|x: Identity| x@)
}

/// Some engagement record pairs `user` with `item`.
pub open spec fn engaged(records: Seq<Engagement>, user: Seq<u8>, item: u64) -> bool {
    exists|i: int|
        0 <= i < records.len() && (#[trigger] records[i]).user_id@ == user && records[i].item_id
            == item
}

/// No pair of user and item is recorded twice.
pub open spec fn engagement_unique(records: Seq<Engagement>) -> bool {
    forall|i: int, j: int|
        0 <= i < j < records.len() ==> !((#[trigger] records[i]).user_id@ == (
        #[trigger] records[j]).user_id@ && records[i].item_id == records[j].item_id)
}

/// The number of records for `item`.
pub open spec fn count_for(records: Seq<Engagement>, item: u64) -> nat
    decreases records.len(),
{
    if records.len() == 0 {
        0
    } else {
        count_for(records.drop_last(), item) + if records.last().item_id == item {
            1nat
        } else {
            0nat
        }
    }
}

/// Every record names an item among the first `n`.
pub open spec fn records_within(records: Seq<Engagement>, n: nat) -> bool {
    forall|k: int| 0 <= k < records.len() ==> 1 <= (#[trigger] records[k]).item_id <= n
}

pub proof fn lemma_count_push(records: Seq<Engagement>, e: Engagement, item: u64)
    ensures
        count_for(records.push(e), item) == count_for(records, item) + if e.item_id == item {
            1nat
        } else {
            0nat
        },
{
    assert(records.push(e).drop_last() =~= records);
}

pub proof fn lemma_count_remove(records: Seq<Engagement>, k: int, item: u64)
    requires
        0 <= k < records.len(),
    ensures
        count_for(records.remove(k), item) + if records[k].item_id == item {
            1nat
        } else {
            0nat
        } == count_for(records, item),
    decreases records.len(),
{
    if k == records.len() - 1 {
        assert(records.remove(k) =~= records.drop_last());
    } else {
        lemma_count_remove(records.drop_last(), k, item);
        assert(records.remove(k).drop_last() =~= records.drop_last().remove(k));
    }
}

pub proof fn lemma_count_bound(records: Seq<Engagement>, item: u64)
    ensures
        count_for(records, item) <= records.len(),
    decreases records.len(),
{
    if records.len() > 0 {
        lemma_count_bound(records.drop_last(), item);
    }
}

pub proof fn lemma_count_beyond(records: Seq<Engagement>, item: u64)
    requires
        forall|k: int| 0 <= k < records.len() ==> (#[trigger] records[k]).item_id < item,
    ensures
        count_for(records, item) == 0,
    decreases records.len(),
{
    if records.len() > 0 {
        lemma_count_beyond(records.drop_last(), item);
    }
}

/// The ids of the posts selected by `keep`, newest first.
pub open spec fn select_newest(posts: Seq<Post>, keep: Seq<bool>) -> Seq<u64>
    decreases posts.len(),
{
    if posts.len() == 0 {
        Seq::empty()
    } else {
        let rest = select_newest(posts.drop_last(), keep.take(posts.len() - 1));
        if keep[posts.len() - 1] {
            seq![posts.last().post_id] + rest
        } else {
            rest
        }
    }
}

/// The position of the record pairing `user` with `item`, if there is one.
pub fn find_engagement(records: &Vec<Engagement>, user: &Identity, item: u64) -> (r: Option<usize>)
    ensures
        match r {
            Some(i) => i < records@.len() && records@[i as int].user_id@ == user@
                && records@[i as int].item_id == item,
            None => !engaged(records@, user@, item),
        },
{
    let mut i: usize = 0;
    while i < records.len()
        invariant
            0 <= i <= records@.len(),
            forall|j: int|
                0 <= j < i ==> !((#[trigger] records@[j]).user_id@ == user@ && records@[j].item_id
                    == item),
        decreases records@.len() - i,
    {
        if records[i].item_id == item && records[i].user_id.same_as(user) {
            return Some(i);
        }
        i = i + 1;
    }
    None
}

/// The ids of the posts whose flag in `keep` is set, newest first.
pub fn newest_first(posts: &Vec<Post>, keep: &Vec<bool>) -> (r: Vec<u64>)
    requires
        keep@.len() == posts@.len(),
    ensures
        r@ == select_newest(posts@, keep@),
{
    let mut out: Vec<u64> = Vec::new();
    let mut i: usize = 0;
    while i < posts.len()
        invariant
            0 <= i <= posts@.len(),
            keep@.len() == posts@.len(),
            out@ == select_newest(posts@.take(i as int), keep@.take(i as int)),
        decreases posts@.len() - i,
    {
        proof {
            assert(posts@.take(i + 1).drop_last() =~= posts@.take(i as int));
            assert(keep@.take(i + 1).take(i as int) =~= keep@.take(i as int));
        }
        if keep[i] {
            out.insert(0, posts[i].post_id);
            assert(out@ =~= seq![posts@[i as int].post_id] + select_newest(
                posts@.take(i as int),
                keep@.take(i as int),
            ));
        }
        i = i + 1;
    }
    assert(posts@.take(posts@.len() as int) =~= posts@);
    assert(keep@.take(keep@.len() as int) =~= keep@);
    out
}

impl SocialStore {
    /// The identity of the first user whose username is `name`.
    pub fn find_username(&self, name: &String) -> (r: Option<&Identity>)
        ensures
            match first_named(self.users@, name@) {
                Some(id) => r.is_some() && r.unwrap()@ == id,
                None => r.is_none(),
            },
    {
        let mut i: usize = 0;
        assert(self.users@.skip(0) =~= self.users@);
        while i < self.users.len()
            invariant
                0 <= i <= self.users@.len(),
                first_named(self.users@, name@) == first_named(self.users@.skip(i as int), name@),
            decreases self.users@.len() - i,
        {
            assert(self.users@.skip(i as int).skip(1) =~= self.users@.skip(i + 1));
            if self.users[i].username == *name {
                return Some(&self.users[i].user_id);
            }
            i = i + 1;
        }
        None
    }

    /// Resolves the `@username` words of `content` to identities.
    pub fn extract_mentions(&self, content: &str) -> (r: Vec<Identity>)
        ensures
            ids_of(r@) == mentions_in(words_of(content@), self.users@),
    {
        let words = split_words(content);
        let ghost ws = words_of(content@);
        let mut out: Vec<Identity> = Vec::new();
        let mut i: usize = 0;
        while i < words.len()
            invariant
                0 <= i <= words@.len(),
                words@.len() == ws.len(),
                forall|k: int| 0 <= k < words@.len() ==> (#[trigger] words@[k])@ == ws[k],
                ids_of(out@) =~= mentions_in(ws.take(i as int), self.users@),
            decreases words@.len() - i,
        {
            proof {
                assert(ws.take(i + 1).drop_last() =~= ws.take(i as int));
                assert(ws.take(i + 1).last() == words@[i as int]@);
            }
            let w = words[i].as_str();
            let n = w.unicode_len();
            if n > 1 && w.get_char(0) == '@' {
                let name = w.substring_char(1, n).to_owned();
                assert(name@ =~= ws[i as int].skip(1));
                match self.find_username(&name) {
                    Some(id) => {
                        let ghost prev = out@;
                        out.push(id.copy());
                        assert(ids_of(out@) =~= ids_of(prev).push(id@));
                    },
                    None => {},
                }
            }
            i = i + 1;
        }
        assert(ws.take(ws.len() as int) =~= ws);
        out
    }
}

} // verus!
