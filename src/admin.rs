use vstd::prelude::*;

use crate::follows::{edges_unique, no_self_edges};
use crate::posts::{count_for, engagement_unique, lemma_count_bound, records_within};
use crate::comments::{lemma_live_comments_bound, lemma_live_comments_shape, live_comments, same_shape};
use crate::identity::Identity;
use crate::model::{Comment, Engagement, Follow, Post, StoreError};
use crate::store::SocialStore;

verus! {

/// The records that do not belong to `id`, in order.
pub open spec fn records_without(s: Seq<Engagement>, id: Seq<u8>) -> Seq<Engagement>
    decreases s.len(),
{
    if s.len() == 0 {
        Seq::empty()
    } else {
        let rest = records_without(s.skip(1), id);
        if s[0].user_id@ != id {
            seq![s[0]] + rest
        } else {
            rest
        }
    }
}

/// The edges that touch `id` at neither end, in order.
pub open spec fn edges_without(s: Seq<Follow>, id: Seq<u8>) -> Seq<Follow>
    decreases s.len(),
{
    if s.len() == 0 {
        Seq::empty()
    } else {
        let rest = edges_without(s.skip(1), id);
        if s[0].follower_id@ != id && s[0].following_id@ != id {
            seq![s[0]] + rest
        } else {
            rest
        }
    }
}

/// The posts with those of `id` marked deleted.
pub open spec fn posts_retired(s: Seq<Post>, id: Seq<u8>) -> Seq<Post> {
    s.map_values(|p: Post| if p.author_id@ == id { Post { is_deleted: true, ..p } } else { p })
}

/// The comments with those of `id` marked deleted.
pub open spec fn comments_retired(s: Seq<Comment>, id: Seq<u8>) -> Seq<Comment> {
    s.map_values(|c: Comment| if c.author_id@ == id { Comment { is_deleted: true, ..c } } else { c })
}

pub proof fn lemma_edges_without_none(s: Seq<Follow>, id: Seq<u8>)
    ensures
        forall|i: int|
            0 <= i < edges_without(s, id).len() ==> (#[trigger] edges_without(s, id)[i]).follower_id@
                != id && edges_without(s, id)[i].following_id@ != id,
    decreases s.len(),
{
    if s.len() > 0 {
        lemma_edges_without_none(s.skip(1), id);
        let rest = edges_without(s.skip(1), id);
        if s[0].follower_id@ != id && s[0].following_id@ != id {
            assert forall|i: int| 0 <= i < edges_without(s, id).len() implies (
            #[trigger] edges_without(s, id)[i]).follower_id@ != id && edges_without(s, id)[i].following_id@ != id by {
                if i > 0 {
                    assert(edges_without(s, id)[i] == rest[i - 1]);
                }
            }
        }
    }
}

pub proof fn lemma_edges_without_subseq(s: Seq<Follow>, id: Seq<u8>)
    ensures
        is_sub(edges_without(s, id), s),
    decreases s.len(),
{
    if s.len() > 0 {
        lemma_edges_without_subseq(s.skip(1), id);
        let rest = edges_without(s.skip(1), id);
        let f = choose|f: spec_fn(int) -> int| sub_map(f, rest, s.skip(1));
        if s[0].follower_id@ != id && s[0].following_id@ != id {
            let r = edges_without(s, id);
            assert(r =~= seq![s[0]] + rest);
            let g = |i: int| if i == 0 { 0 } else { f(i - 1) + 1 };
            assert(sub_map(g, r, s));
        } else {
            let g = |i: int| f(i) + 1;
            assert(sub_map(g, rest, s));
        }
    } else {
        let g = |i: int| i;
        assert(sub_map(g, edges_without(s, id), s));
    }
}

pub proof fn lemma_sub_engagement_unique(a: Seq<Engagement>, b: Seq<Engagement>)
    requires
        is_sub(a, b),
        engagement_unique(b),
    ensures
        engagement_unique(a),
{
    let f = choose|f: spec_fn(int) -> int| sub_map(f, a, b);
    assert forall|i: int, j: int| 0 <= i < j < a.len() implies !((#[trigger] a[i]).user_id@ == (
    #[trigger] a[j]).user_id@ && a[i].item_id == a[j].item_id) by {
        assert(f(i) < f(j));
        assert(b[f(i)] == a[i] && b[f(j)] == a[j]);
    }
}

pub proof fn lemma_sub_within(a: Seq<Engagement>, b: Seq<Engagement>, n: nat)
    requires
        is_sub(a, b),
        records_within(b, n),
    ensures
        records_within(a, n),
{
    let f = choose|f: spec_fn(int) -> int| sub_map(f, a, b);
    assert forall|k: int| 0 <= k < a.len() implies 1 <= (#[trigger] a[k]).item_id <= n by {
        assert(b[f(k)] == a[k]);
    }
}

pub proof fn lemma_sub_edges(a: Seq<Follow>, b: Seq<Follow>)
    requires
        is_sub(a, b),
        edges_unique(b),
        no_self_edges(b),
    ensures
        edges_unique(a),
        no_self_edges(a),
{
    let f = choose|f: spec_fn(int) -> int| sub_map(f, a, b);
    assert forall|i: int, j: int| 0 <= i < j < a.len() implies !((#[trigger] a[i]).follower_id@ == (
    #[trigger] a[j]).follower_id@ && a[i].following_id@ == a[j].following_id@) by {
        assert(f(i) < f(j));
        assert(b[f(i)] == a[i] && b[f(j)] == a[j]);
    }
    assert forall|i: int| 0 <= i < a.len() implies (#[trigger] a[i]).follower_id@ != a[i].following_id@ by {
        assert(b[f(i)] == a[i]);
    }
}

pub proof fn lemma_records_without_subseq(s: Seq<Engagement>, id: Seq<u8>)
    ensures
        is_sub(records_without(s, id), s),
    decreases s.len(),
{
    if s.len() > 0 {
        lemma_records_without_subseq(s.skip(1), id);
        let rest = records_without(s.skip(1), id);
        let f = choose|f: spec_fn(int) -> int| sub_map(f, rest, s.skip(1));
        if s[0].user_id@ != id {
            let r = records_without(s, id);
            assert(r =~= seq![s[0]] + rest);
            let g = |i: int| if i == 0 { 0 } else { f(i - 1) + 1 };
            assert(sub_map(g, r, s));
        } else {
            let g = |i: int| f(i) + 1;
            assert(sub_map(g, rest, s));
        }
    } else {
        let g = |i: int| i;
        assert(sub_map(g, records_without(s, id), s));
    }
}

/// `f` maps the positions of `a` strictly increasingly to equal items of `b`.
pub open spec fn sub_map<T>(f: spec_fn(int) -> int, a: Seq<T>, b: Seq<T>) -> bool {
    &&& forall|i: int| 0 <= i < a.len() ==> 0 <= #[trigger] f(i) < b.len() && b[f(i)] == a[i]
    &&& forall|i: int, j: int| 0 <= i < j < a.len() ==> #[trigger] f(i) < #[trigger] f(j)
}

/// `a` is `b` with some items left out, order kept.
pub open spec fn is_sub<T>(a: Seq<T>, b: Seq<T>) -> bool {
    exists|f: spec_fn(int) -> int| sub_map(f, a, b)
}

/// Keeps the records that do not belong to `id`.
fn drop_records(v: &mut Vec<Engagement>, id: &Identity)
    ensures
        final(v)@ == records_without(old(v)@, id@),
{
    let mut rest: Vec<Engagement> = Vec::new();
    std::mem::swap(v, &mut rest);
    let ghost orig = rest@;
    while rest.len() > 0
        invariant
            records_without(orig, id@) == v@ + records_without(rest@, id@),
        decreases rest@.len(),
    {
        let ghost before = rest@;
        let e = rest.remove(0);
        assert(before.skip(1) =~= rest@);
        if !e.user_id.same_as(id) {
            let ghost pv = v@;
            v.push(e);
            assert(pv + records_without(before, id@) =~= v@ + records_without(rest@, id@));
        }
    }
    assert(v@ + records_without(rest@, id@) =~= v@);
}

/// Keeps the edges that touch `id` at neither end.
fn drop_edges(v: &mut Vec<Follow>, id: &Identity)
    ensures
        final(v)@ == edges_without(old(v)@, id@),
{
    let mut rest: Vec<Follow> = Vec::new();
    std::mem::swap(v, &mut rest);
    let ghost orig = rest@;
    while rest.len() > 0
        invariant
            edges_without(orig, id@) == v@ + edges_without(rest@, id@),
        decreases rest@.len(),
    {
        let ghost before = rest@;
        let e = rest.remove(0);
        assert(before.skip(1) =~= rest@);
        if !e.follower_id.same_as(id) && !e.following_id.same_as(id) {
            let ghost pv = v@;
            v.push(e);
            assert(pv + edges_without(before, id@) =~= v@ + edges_without(rest@, id@));
        }
    }
    assert(v@ + edges_without(rest@, id@) =~= v@);
}

/// The posts with each counter set to the size of its relation.
pub open spec fn recounted_posts(
    ps: Seq<Post>,
    cs: Seq<Comment>,
    likes: Seq<Engagement>,
    shares: Seq<Engagement>,
) -> Seq<Post> {
    Seq::new(
        ps.len(),
        |i: int|
            Post {
                comments_count: live_comments(cs, (i + 1) as u64) as u64,
                likes: count_for(likes, (i + 1) as u64) as u64,
                shares_count: count_for(shares, (i + 1) as u64) as u64,
                ..ps[i]
            },
    )
}

/// The comments with each like counter set to the number of its likes.
pub open spec fn recounted_comments(cs: Seq<Comment>, likes: Seq<Engagement>) -> Seq<Comment> {
    Seq::new(cs.len(), |i: int| Comment { likes: count_for(likes, (i + 1) as u64) as u64, ..cs[i] })
}

/// Counts the live comments on post `pid`.
pub fn count_live_comments(cs: &Vec<Comment>, pid: u64) -> (r: u64)
    ensures
        r == live_comments(cs@, pid),
{
    let mut n: usize = 0;
    let mut i: usize = 0;
    while i < cs.len()
        invariant
            0 <= i <= cs@.len(),
            n <= i,
            n == live_comments(cs@.take(i as int), pid),
        decreases cs@.len() - i,
    {
        assert(cs@.take(i + 1).drop_last() =~= cs@.take(i as int));
        if cs[i].post_id == pid && !cs[i].is_deleted {
            n = n + 1;
        }
        i = i + 1;
    }
    assert(cs@.take(cs@.len() as int) =~= cs@);
    n as u64
}

/// Counts the records for `item`.
pub fn count_records(rs: &Vec<Engagement>, item: u64) -> (r: u64)
    ensures
        r == count_for(rs@, item),
{
    let mut n: usize = 0;
    let mut i: usize = 0;
    while i < rs.len()
        invariant
            0 <= i <= rs@.len(),
            n <= i,
            n == count_for(rs@.take(i as int), item),
        decreases rs@.len() - i,
    {
        assert(rs@.take(i + 1).drop_last() =~= rs@.take(i as int));
        if rs[i].item_id == item {
            n = n + 1;
        }
        i = i + 1;
    }
    assert(rs@.take(rs@.len() as int) =~= rs@);
    n as u64
}

impl SocialStore {
    /// Sets every counter to the size of the relation it counts.
    fn recount(&mut self)
        requires
            old(self).wf_base(),
        ensures
            final(self).wf(),
            final(self).posts@ == recounted_posts(
                old(self).posts@,
                final(self).comments@,
                final(self).post_likes@,
                final(self).shares@,
            ),
            final(self).comments@ == recounted_comments(old(self).comments@, final(self).comment_likes@),
            final(self).users == old(self).users,
            final(self).follows == old(self).follows,
            final(self).post_likes == old(self).post_likes,
            final(self).comment_likes == old(self).comment_likes,
            final(self).shares == old(self).shares,
            final(self).predefined_admins == old(self).predefined_admins,
            final(self).promoted_admins == old(self).promoted_admins,
            final(self).ids == old(self).ids,
            final(self).clock == old(self).clock,
    {
        let ghost target = recounted_posts(old(self).posts@, old(self).comments@, old(self).post_likes@, old(self).shares@);
        let mut i: usize = 0;
        while i < self.posts.len()
            invariant
                0 <= i <= self.posts@.len(),
                self.posts@.len() == old(self).posts@.len(),
                target == recounted_posts(old(self).posts@, old(self).comments@, old(self).post_likes@, old(self).shares@),
                forall|j: int| 0 <= j < i ==> self.posts@[j] == target[j],
                forall|j: int| i <= j < self.posts@.len() ==> self.posts@[j] == old(self).posts@[j],
                self.comments == old(self).comments,
                self.users == old(self).users,
                self.follows == old(self).follows,
                self.post_likes == old(self).post_likes,
                self.comment_likes == old(self).comment_likes,
                self.shares == old(self).shares,
                self.predefined_admins == old(self).predefined_admins,
                self.promoted_admins == old(self).promoted_admins,
                self.ids == old(self).ids,
                self.clock == old(self).clock,
            decreases self.posts@.len() - i,
        {
            let pid = (i + 1) as u64;
            let c = count_live_comments(&self.comments, pid);
            let l = count_records(&self.post_likes, pid);
            let sh = count_records(&self.shares, pid);
            self.posts[i].comments_count = c;
            self.posts[i].likes = l;
            self.posts[i].shares_count = sh;
            assert(self.posts@[i as int] == target[i as int]);
            i = i + 1;
        }
        assert(self.posts@ =~= target);
        let ghost ctarget = recounted_comments(old(self).comments@, old(self).comment_likes@);
        let mut i: usize = 0;
        while i < self.comments.len()
            invariant
                0 <= i <= self.comments@.len(),
                self.comments@.len() == old(self).comments@.len(),
                ctarget == recounted_comments(old(self).comments@, old(self).comment_likes@),
                target == recounted_posts(old(self).posts@, old(self).comments@, old(self).post_likes@, old(self).shares@),
                forall|j: int| 0 <= j < i ==> self.comments@[j] == ctarget[j],
                forall|j: int| i <= j < self.comments@.len() ==> self.comments@[j] == old(self).comments@[j],
                self.posts@ == target,
                self.users == old(self).users,
                self.follows == old(self).follows,
                self.post_likes == old(self).post_likes,
                self.comment_likes == old(self).comment_likes,
                self.shares == old(self).shares,
                self.predefined_admins == old(self).predefined_admins,
                self.promoted_admins == old(self).promoted_admins,
                self.ids == old(self).ids,
                self.clock == old(self).clock,
            decreases self.comments@.len() - i,
        {
            let l = count_records(&self.comment_likes, (i + 1) as u64);
            self.comments[i].likes = l;
            assert(self.comments@[i as int] == ctarget[i as int]);
            i = i + 1;
        }
        assert(self.comments@ =~= ctarget);
        // every table's length fits a usize, which bounds each count
        let n_comments: usize = self.comments.len();
        let n_likes: usize = self.post_likes.len();
        let n_shares: usize = self.shares.len();
        let n_comment_likes: usize = self.comment_likes.len();
        proof {
            assert(same_shape(old(self).comments@, self.comments@));
            assert forall|i: int| 0 <= i < self.posts@.len() implies (#[trigger] self.posts@[i]).comments_count
                == live_comments(self.comments@, (i + 1) as u64) by {
                lemma_live_comments_shape(old(self).comments@, self.comments@, (i + 1) as u64);
                lemma_live_comments_bound(old(self).comments@, (i + 1) as u64);
                assert(live_comments(old(self).comments@, (i + 1) as u64) <= n_comments);
            }
            assert forall|i: int| 0 <= i < self.posts@.len() implies (#[trigger] self.posts@[i]).likes
                == count_for(self.post_likes@, (i + 1) as u64) && self.posts@[i].shares_count == count_for(
                self.shares@,
                (i + 1) as u64,
            ) by {
                lemma_count_bound(self.post_likes@, (i + 1) as u64);
                lemma_count_bound(self.shares@, (i + 1) as u64);
                assert(count_for(self.post_likes@, (i + 1) as u64) <= n_likes);
                assert(count_for(self.shares@, (i + 1) as u64) <= n_shares);
            }
            assert forall|i: int| 0 <= i < self.comments@.len() implies (#[trigger] self.comments@[i]).likes
                == count_for(self.comment_likes@, (i + 1) as u64) by {
                lemma_count_bound(self.comment_likes@, (i + 1) as u64);
                assert(count_for(self.comment_likes@, (i + 1) as u64) <= n_comment_likes);
            }
            assert(self.posts@ =~= recounted_posts(
                old(self).posts@,
                self.comments@,
                self.post_likes@,
                self.shares@,
            ));
        }
    }

    /// Marks every post and comment of `target` deleted.
    fn retire_content(&mut self, target: &Identity)
        requires
            old(self).wf_base(),
        ensures
            final(self).wf_base(),
            final(self).posts@ == posts_retired(old(self).posts@, target@),
            final(self).comments@ == comments_retired(old(self).comments@, target@),
            final(self).users == old(self).users,
            final(self).follows == old(self).follows,
            final(self).post_likes == old(self).post_likes,
            final(self).comment_likes == old(self).comment_likes,
            final(self).shares == old(self).shares,
            final(self).predefined_admins == old(self).predefined_admins,
            final(self).promoted_admins == old(self).promoted_admins,
            final(self).ids == old(self).ids,
            final(self).clock == old(self).clock,
    {
        let mut i: usize = 0;
        while i < self.posts.len()
            invariant
                0 <= i <= self.posts@.len(),
                self.posts@.len() == old(self).posts@.len(),
                forall|j: int| 0 <= j < i ==> self.posts@[j] == posts_retired(old(self).posts@, target@)[j],
                forall|j: int| i <= j < self.posts@.len() ==> self.posts@[j] == old(self).posts@[j],
                self.comments == old(self).comments,
                self.users == old(self).users,
                self.follows == old(self).follows,
                self.post_likes == old(self).post_likes,
                self.comment_likes == old(self).comment_likes,
                self.shares == old(self).shares,
                self.predefined_admins == old(self).predefined_admins,
                self.promoted_admins == old(self).promoted_admins,
                self.ids == old(self).ids,
                self.clock == old(self).clock,
            decreases self.posts@.len() - i,
        {
            if self.posts[i].author_id.same_as(target) {
                self.posts[i].is_deleted = true;
            }
            i = i + 1;
        }
        assert(self.posts@ =~= posts_retired(old(self).posts@, target@));
        let mut i: usize = 0;
        while i < self.comments.len()
            invariant
                0 <= i <= self.comments@.len(),
                self.comments@.len() == old(self).comments@.len(),
                forall|j: int|
                    0 <= j < i ==> self.comments@[j] == comments_retired(old(self).comments@, target@)[j],
                forall|j: int| i <= j < self.comments@.len() ==> self.comments@[j] == old(self).comments@[j],
                self.posts@ == posts_retired(old(self).posts@, target@),
                self.users == old(self).users,
                self.follows == old(self).follows,
                self.post_likes == old(self).post_likes,
                self.comment_likes == old(self).comment_likes,
                self.shares == old(self).shares,
                self.predefined_admins == old(self).predefined_admins,
                self.promoted_admins == old(self).promoted_admins,
                self.ids == old(self).ids,
                self.clock == old(self).clock,
            decreases self.comments@.len() - i,
        {
            if self.comments[i].author_id.same_as(target) {
                self.comments[i].is_deleted = true;
            }
            i = i + 1;
        }
        assert(self.comments@ =~= comments_retired(old(self).comments@, target@));
    }

    /// Removes `target` and everything it did: its posts and comments are
    /// marked deleted, its likes and shares and every follow edge that
    /// touches it are dropped, every counter is brought back to the size of
    /// its relation, and its user row is removed.
    pub fn admin_delete_user(&mut self, caller: &Identity, target: &Identity) -> (r: Result<(), StoreError>)
        requires
            old(self).wf(),
        ensures
            final(self).wf(),
            !old(self).admin(caller@) ==> r == Err::<(), StoreError>(StoreError::Forbidden)
                && *final(self) == *old(self),
            old(self).admin(caller@) ==> {
                &&& r is Ok == old(self).has_user(target@)
                &&& r is Err ==> r == Err::<(), StoreError>(StoreError::UserNotFound)
                &&& !final(self).has_user(target@)
                &&& old(self).has_user(target@) ==> exists|i: int|
                    0 <= i < old(self).users@.len() && final(self).users@ == old(self).users@.remove(i)
                &&& !old(self).has_user(target@) ==> final(self).users == old(self).users
                &&& final(self).posts@ == recounted_posts(
                    posts_retired(old(self).posts@, target@),
                    final(self).comments@,
                    final(self).post_likes@,
                    final(self).shares@,
                )
                &&& final(self).comments@ == recounted_comments(
                    comments_retired(old(self).comments@, target@),
                    final(self).comment_likes@,
                )
                &&& final(self).post_likes@ == records_without(old(self).post_likes@, target@)
                &&& final(self).comment_likes@ == records_without(old(self).comment_likes@, target@)
                &&& final(self).shares@ == records_without(old(self).shares@, target@)
                &&& final(self).follows@ == edges_without(old(self).follows@, target@)
                &&& final(self).predefined_admins == old(self).predefined_admins
                &&& final(self).promoted_admins == old(self).promoted_admins
                &&& final(self).ids == old(self).ids
                &&& final(self).clock == old(self).clock
            },
    {
        if let Err(e) = self.require_admin(caller) {
            return Err(e);
        }
        self.retire_content(target);
        let ghost s1 = *self;
        drop_records(&mut self.post_likes, target);
        drop_records(&mut self.comment_likes, target);
        drop_records(&mut self.shares, target);
        drop_edges(&mut self.follows, target);
        proof {
            lemma_records_without_subseq(s1.post_likes@, target@);
            lemma_records_without_subseq(s1.comment_likes@, target@);
            lemma_records_without_subseq(s1.shares@, target@);
            lemma_edges_without_subseq(s1.follows@, target@);
            lemma_sub_engagement_unique(self.post_likes@, s1.post_likes@);
            lemma_sub_within(self.post_likes@, s1.post_likes@, s1.posts@.len());
            lemma_sub_engagement_unique(self.comment_likes@, s1.comment_likes@);
            lemma_sub_within(self.comment_likes@, s1.comment_likes@, s1.comments@.len());
            lemma_sub_engagement_unique(self.shares@, s1.shares@);
            lemma_sub_edges(self.follows@, s1.follows@);
            lemma_sub_within(self.shares@, s1.shares@, s1.posts@.len());
        }
        self.recount();
        self.delete_user(target)
    }
}

} // verus!
