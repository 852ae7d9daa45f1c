use vstd::prelude::*;

use crate::admin::{recounted_comments, recounted_posts, comments_retired, edges_without, lemma_edges_without_none, posts_retired};
use crate::comments::comments_on;
use crate::follows::{add_follow_effect, edge, feed_mask, feed_of, followers_in, FEED_LIMIT};
use crate::model::{kind_of, Comment, ErrorKind, Follow, Post, Profile, StoreError};
use crate::post_ops::{like_post_effect, live_mask, post_exists, post_of, unlike_post_effect};
use crate::posts::{count_for, engaged, lemma_count_bound, select_newest};
use crate::store::{create_user_effect, delete_user_effect, SocialStore};
use crate::trending::{recent_live, trending_list};
use crate::admin_ops::day_start;
use crate::comments::{comment_exists, comment_of};

verus! {

/// Each post's id is its position plus one.
pub open spec fn ids_are_positions(posts: Seq<Post>) -> bool {
    forall|i: int| 0 <= i < posts.len() ==> (#[trigger] posts[i]).post_id == i + 1
}

/// The number of flags set.
pub open spec fn flag_count(keep: Seq<bool>) -> nat
    decreases keep.len(),
{
    if keep.len() == 0 {
        0
    } else {
        flag_count(keep.drop_last()) + if keep.last() {
            1nat
        } else {
            0nat
        }
    }
}

/// `select_newest` chooses one id for each flag set.
pub proof fn lemma_select_newest_len(posts: Seq<Post>, keep: Seq<bool>)
    requires
        keep.len() == posts.len(),
    ensures
        select_newest(posts, keep).len() == flag_count(keep),
    decreases posts.len(),
{
    if posts.len() > 0 {
        lemma_select_newest_len(posts.drop_last(), keep.take(posts.len() - 1));
        assert(keep.take(posts.len() - 1) =~= keep.drop_last());
    }
}

/// The ids chosen by `select_newest` are exactly the flagged posts, in
/// strictly decreasing order.
pub proof fn lemma_select_newest(posts: Seq<Post>, keep: Seq<bool>)
    requires
        ids_are_positions(posts),
        keep.len() == posts.len(),
    ensures
        forall|k: int|
            0 <= k < select_newest(posts, keep).len() ==> 1 <= #[trigger] select_newest(posts, keep)[k]
                <= posts.len() && keep[select_newest(posts, keep)[k] - 1],
        forall|a: int, b: int|
            0 <= a < b < select_newest(posts, keep).len() ==> #[trigger] select_newest(posts, keep)[a]
                > #[trigger] select_newest(posts, keep)[b],
        forall|i: int| 0 <= i < posts.len() && #[trigger] keep[i] ==> select_newest(posts, keep).contains((i + 1) as u64),
    decreases posts.len(),
{
    if posts.len() > 0 {
        let n = posts.len() - 1;
        let rest_posts = posts.drop_last();
        let rest_keep = keep.take(n);
        lemma_select_newest(rest_posts, rest_keep);
        let rest = select_newest(rest_posts, rest_keep);
        let r = select_newest(posts, keep);
        assert forall|i: int| 0 <= i < posts.len() && #[trigger] keep[i] implies r.contains((i + 1) as u64) by {
            if i == n {
                assert(r[0] == posts[n].post_id);
            } else {
                assert(rest_keep[i]);
                let m = choose|m: int| 0 <= m < rest.len() && rest[m] == (i + 1) as u64;
                if keep[n] {
                    assert(r[m + 1] == rest[m]);
                } else {
                    assert(r[m] == rest[m]);
                }
            }
        }
        if keep[n] {
            assert forall|k: int| 0 <= k < r.len() implies 1 <= #[trigger] r[k] <= posts.len() && keep[r[k] - 1] by {
                if k > 0 {
                    assert(r[k] == rest[k - 1]);
                }
            }
            assert forall|a: int, b: int| 0 <= a < b < r.len() implies #[trigger] r[a] > #[trigger] r[b] by {
                assert(r[b] == rest[b - 1]);
                if a > 0 {
                    assert(r[a] == rest[a - 1]);
                }
            }
        }
    }
}

/// A registered identity cannot register again: the second `create_user`
/// is a conflict.
pub proof fn law_register_twice(
    s0: SocialStore,
    s1: SocialStore,
    s2: SocialStore,
    caller: Seq<u8>,
    name1: Seq<char>,
    profile1: Profile,
    now1: u64,
    r1: Result<(), StoreError>,
    name2: Seq<char>,
    profile2: Profile,
    now2: u64,
    r2: Result<(), StoreError>,
)
    requires
        create_user_effect(s0, s1, caller, name1, profile1, now1, r1),
        create_user_effect(s1, s2, caller, name2, profile2, now2, r2),
    ensures
        r2 == Err::<(), StoreError>(StoreError::UserAlreadyExists),
        kind_of(r2.unwrap_err()) == ErrorKind::Conflict,
        s2 == s1,
{
    if !s0.has_user(caller) {
        assert(s1.users@[s1.users@.len() - 1].user_id@ == caller);
    }
}

/// After `delete_user` the identity is no longer registered, so `get_user`
/// finds nothing.
pub proof fn law_deleted_user_gone(s0: SocialStore, s1: SocialStore, caller: Seq<u8>, r: Result<(), StoreError>)
    requires
        delete_user_effect(s0, s1, caller, r),
    ensures
        !s1.has_user(caller),
{
}

/// Liking a post and then withdrawing the like gives back the like counter
/// and the absence of the like.
pub proof fn law_like_unlike(
    s0: SocialStore,
    s1: SocialStore,
    s2: SocialStore,
    user: Seq<u8>,
    id: u64,
    r2: Result<(), StoreError>,
)
    requires
        s0.wf(),
        like_post_effect(s0, s1, user, id, Ok(())),
        unlike_post_effect(s1, s2, user, id, r2),
    ensures
        r2 is Ok,
        post_of(s2, id).likes == post_of(s0, id).likes,
        !engaged(s2.post_likes@, user, id),
        s2.posts@.len() == s0.posts@.len(),
{
    let n = s0.post_likes@.len();
    // the like table after the like still has a usize length
    assert(s1.post_likes@.len() == s1.post_likes.len());
    lemma_count_bound(s0.post_likes@, id);
    assert(post_of(s0, id).likes == count_for(s0.post_likes@, id));
    assert(s1.post_likes@[n as int].user_id@ == user && s1.post_likes@[n as int].item_id == id);
    assert(engaged(s1.post_likes@, user, id));
    let k = choose|k: int|
        0 <= k < s1.post_likes@.len() && s1.post_likes@[k].user_id@ == user
            && s1.post_likes@[k].item_id == id && s2.post_likes@ == s1.post_likes@.remove(k);
    if k < n {
        assert(s0.post_likes@[k] == s1.post_likes@[k]);
        assert(engaged(s0.post_likes@, user, id));
    }
    assert(s2.post_likes@ =~= s0.post_likes@);
}

/// Withdrawing a like that was never given is refused.
pub proof fn law_unlike_first(s0: SocialStore, s1: SocialStore, user: Seq<u8>, id: u64, r: Result<(), StoreError>)
    requires
        s0.has_user(user),
        !engaged(s0.post_likes@, user, id),
        unlike_post_effect(s0, s1, user, id, r),
    ensures
        r == Err::<(), StoreError>(StoreError::NotLiked),
        s1 == s0,
{
}

/// A deleted post shows in no list, search, feed or trending result, and
/// `get_post` does not return it.
pub proof fn law_deleted_post_hidden(s: SocialStore, id: u64, keep: Seq<bool>, caller: Seq<u8>, now: u64)
    requires
        s.wf(),
        post_exists(s, id),
        post_of(s, id).is_deleted,
        keep.len() == s.posts@.len(),
        forall|i: int| 0 <= i < keep.len() && #[trigger] keep[i] ==> !s.posts@[i].is_deleted,
    ensures
        !select_newest(s.posts@, keep).contains(id),
        !select_newest(s.posts@, live_mask(s.posts@)).contains(id),
        !feed_of(s, caller).contains(id),
        !recent_live(s, id, now),
{
    lemma_select_newest(s.posts@, keep);
    lemma_select_newest(s.posts@, live_mask(s.posts@));
    let fm = feed_mask(s.posts@, s.follows@, caller);
    lemma_select_newest(s.posts@, fm);
    let all = select_newest(s.posts@, fm);
    if select_newest(s.posts@, keep).contains(id) {
        let k = choose|k: int| 0 <= k < select_newest(s.posts@, keep).len() && select_newest(s.posts@, keep)[k] == id;
        assert(keep[id - 1]);
    }
    if select_newest(s.posts@, live_mask(s.posts@)).contains(id) {
        let k = choose|k: int|
            0 <= k < select_newest(s.posts@, live_mask(s.posts@)).len() && select_newest(s.posts@, live_mask(s.posts@))[k] == id;
        assert(live_mask(s.posts@)[id - 1]);
    }
    if feed_of(s, caller).contains(id) {
        let k = choose|k: int| 0 <= k < feed_of(s, caller).len() && feed_of(s, caller)[k] == id;
        assert(all[k] == id);
        assert(fm[id - 1]);
    }
}

/// A deleted comment is not listed under any post, and `get_comment` does
/// not return it.
pub proof fn law_deleted_comment_hidden(s: SocialStore, cid: u64, pid: u64)
    requires
        s.wf(),
        comment_exists(s, cid),
        comment_of(s, cid).is_deleted,
    ensures
        !comments_on(s.comments@, pid).contains(cid),
{
    lemma_comments_on_live(s.comments@, pid);
    if comments_on(s.comments@, pid).contains(cid) {
        let k = choose|k: int| 0 <= k < comments_on(s.comments@, pid).len() && comments_on(s.comments@, pid)[k] == cid;
        assert(!s.comments@[comments_on(s.comments@, pid)[k] - 1].is_deleted);
    }
}

/// A post created more than a day before `now` is never in the trending
/// list, however engaging it is.
pub proof fn law_old_post_not_trending(s: SocialStore, now: u64, r: Seq<u64>, id: u64)
    requires
        trending_list(s, now, r),
        post_exists(s, id),
        post_of(s, id).created_at <= day_start(now),
    ensures
        !r.contains(id),
{
    if r.contains(id) {
        let k = choose|k: int| 0 <= k < r.len() && r[k] == id;
        assert(recent_live(s, r[k], now));
    }
}

/// The feed of `caller` holds only live posts by `caller` or by those it
/// follows, newest first; and when there are at most fifty such posts it
/// holds all of them.
pub proof fn law_feed(s: SocialStore, caller: Seq<u8>)
    requires
        s.wf(),
    ensures
        forall|k: int|
            0 <= k < feed_of(s, caller).len() ==> post_exists(s, #[trigger] feed_of(s, caller)[k])
                && !post_of(s, feed_of(s, caller)[k]).is_deleted && (post_of(s, feed_of(s, caller)[k]).author_id@ == caller
                || edge(s.follows@, caller, post_of(s, feed_of(s, caller)[k]).author_id@)),
        forall|a: int, b: int|
            0 <= a < b < feed_of(s, caller).len() ==> post_of(s, #[trigger] feed_of(s, caller)[a]).created_at
                >= post_of(s, #[trigger] feed_of(s, caller)[b]).created_at,
        feed_of(s, caller).len() == if flag_count(feed_mask(s.posts@, s.follows@, caller)) > FEED_LIMIT {
            FEED_LIMIT as nat
        } else {
            flag_count(feed_mask(s.posts@, s.follows@, caller))
        },
        forall|i: int, k: int|
            0 <= i < s.posts@.len() && #[trigger] feed_mask(s.posts@, s.follows@, caller)[i]
                && !feed_of(s, caller).contains(s.posts@[i].post_id) && 0 <= k < feed_of(s, caller).len()
                ==> s.posts@[i].created_at <= post_of(s, #[trigger] feed_of(s, caller)[k]).created_at,
        select_newest(s.posts@, feed_mask(s.posts@, s.follows@, caller)).len() <= FEED_LIMIT ==> forall|i: int|
            0 <= i < s.posts@.len() && !s.posts@[i].is_deleted && (s.posts@[i].author_id@ == caller
                || edge(s.follows@, caller, s.posts@[i].author_id@)) ==> #[trigger] feed_of(s, caller).contains(
                s.posts@[i].post_id,
            ),
{
    let fm = feed_mask(s.posts@, s.follows@, caller);
    lemma_select_newest(s.posts@, fm);
    lemma_select_newest_len(s.posts@, fm);
    let all = select_newest(s.posts@, fm);
    let f = feed_of(s, caller);
    assert forall|i: int, k: int|
        0 <= i < s.posts@.len() && #[trigger] fm[i] && !f.contains(s.posts@[i].post_id) && 0 <= k < f.len()
            implies s.posts@[i].created_at <= post_of(s, #[trigger] f[k]).created_at by {
        let m = choose|m: int| 0 <= m < all.len() && all[m] == (i + 1) as u64;
        if m < f.len() {
            assert(f[m] == all[m]);
        }
        assert(all[k] == f[k]);
        assert(all[k] > all[m]);
        assert(s.posts@[i].created_at <= s.posts@[f[k] - 1].created_at);
    }
    assert forall|k: int| 0 <= k < f.len() implies #[trigger] f[k] == all[k] by {}
    assert forall|k: int| 0 <= k < f.len() implies post_exists(s, #[trigger] f[k]) && !post_of(s, f[k]).is_deleted
        && (post_of(s, f[k]).author_id@ == caller || edge(s.follows@, caller, post_of(s, f[k]).author_id@)) by {
        assert(fm[f[k] - 1]);
    }
    assert forall|a: int, b: int| 0 <= a < b < f.len() implies post_of(s, #[trigger] f[a]).created_at >= post_of(
        s,
        #[trigger] f[b],
    ).created_at by {
        assert(all[a] > all[b]);
        assert(s.posts@[f[b] - 1].created_at <= s.posts@[f[a] - 1].created_at);
    }
    assert forall|i: int|
        0 <= i < s.posts@.len() && !s.posts@[i].is_deleted && (s.posts@[i].author_id@ == caller || edge(
            s.follows@,
            caller,
            s.posts@[i].author_id@,
        )) && all.len() <= FEED_LIMIT implies #[trigger] f.contains(s.posts@[i].post_id) by {
        assert(fm[i]);
    }
}

/// After an admin removes `x`, no live post or comment of `x` is listed, no
/// one is shown following `x` or followed by it, and `x` is not registered.
pub proof fn law_cascade(s: SocialStore, t: SocialStore, x: Seq<u8>, pid: u64, someone: Seq<u8>)
    requires
        t.wf(),
        !t.has_user(x),
        t.posts@ == recounted_posts(posts_retired(s.posts@, x), t.comments@, t.post_likes@, t.shares@),
        t.comments@ == recounted_comments(comments_retired(s.comments@, x), t.comment_likes@),
        t.follows@ == edges_without(s.follows@, x),
    ensures
        forall|k: int|
            0 <= k < select_newest(t.posts@, live_mask(t.posts@)).len() ==> post_of(
                t,
                #[trigger] select_newest(t.posts@, live_mask(t.posts@))[k],
            ).author_id@ != x,
        forall|k: int|
            0 <= k < comments_on(t.comments@, pid).len() ==> t.comments@[#[trigger] comments_on(t.comments@, pid)[k] - 1].author_id@ != x,
        !followers_in(t.follows@, someone).contains(x),
        !t.has_user(x),
{
    let m = live_mask(t.posts@);
    lemma_select_newest(t.posts@, m);
    let r = select_newest(t.posts@, m);
    assert forall|k: int| 0 <= k < r.len() implies post_of(t, #[trigger] r[k]).author_id@ != x by {
        assert(m[r[k] - 1]);
        assert(t.posts@[r[k] - 1].author_id == posts_retired(s.posts@, x)[r[k] - 1].author_id);
    }
    lemma_comments_on_live(t.comments@, pid);
    assert forall|k: int| 0 <= k < comments_on(t.comments@, pid).len() implies t.comments@[#[trigger] comments_on(t.comments@, pid)[k] - 1].author_id@ != x by {
        let c = comments_on(t.comments@, pid)[k];
        assert(t.comments@[c - 1].author_id == comments_retired(s.comments@, x)[c - 1].author_id);
    }
    lemma_edges_without_none(s.follows@, x);
    lemma_followers_from_edges(t.follows@, someone);
    if followers_in(t.follows@, someone).contains(x) {
        let k = choose|k: int| 0 <= k < followers_in(t.follows@, someone).len() && followers_in(t.follows@, someone)[k] == x;
        let e = choose|e: int| 0 <= e < t.follows@.len() && t.follows@[e].follower_id@ == followers_in(t.follows@, someone)[k];
        assert(edges_without(s.follows@, x)[e].follower_id@ != x);
    }
}

/// The comments listed for a post are live comments, each found at its
/// id's position.
pub proof fn lemma_comments_on_live(cs: Seq<Comment>, pid: u64)
    requires
        forall|i: int| 0 <= i < cs.len() ==> (#[trigger] cs[i]).comment_id == i + 1,
    ensures
        forall|k: int|
            0 <= k < comments_on(cs, pid).len() ==> 1 <= #[trigger] comments_on(cs, pid)[k] <= cs.len()
                && !cs[comments_on(cs, pid)[k] - 1].is_deleted,
    decreases cs.len(),
{
    if cs.len() > 0 {
        lemma_comments_on_live(cs.drop_last(), pid);
        let rest = comments_on(cs.drop_last(), pid);
        assert forall|k: int| 0 <= k < comments_on(cs, pid).len() implies 1 <= #[trigger] comments_on(cs, pid)[k]
            <= cs.len() && !cs[comments_on(cs, pid)[k] - 1].is_deleted by {
            if k < rest.len() {
                assert(comments_on(cs, pid)[k] == rest[k]);
                assert(cs.drop_last()[rest[k] - 1] == cs[rest[k] - 1]);
            }
        }
    }
}

/// Each follower listed comes from some edge.
pub proof fn lemma_followers_from_edges(edges: Seq<Follow>, id: Seq<u8>)
    ensures
        forall|k: int|
            0 <= k < followers_in(edges, id).len() ==> exists|e: int|
                0 <= e < edges.len() && edges[e].follower_id@ == #[trigger] followers_in(edges, id)[k],
    decreases edges.len(),
{
    if edges.len() > 0 {
        lemma_followers_from_edges(edges.drop_last(), id);
        let rest = followers_in(edges.drop_last(), id);
        assert forall|k: int| 0 <= k < followers_in(edges, id).len() implies exists|e: int|
            0 <= e < edges.len() && edges[e].follower_id@ == #[trigger] followers_in(edges, id)[k] by {
            if k < rest.len() {
                let e = choose|e: int| 0 <= e < edges.len() - 1 && edges.drop_last()[e].follower_id@ == rest[k];
                assert(edges[e] == edges.drop_last()[e]);
            } else {
                assert(edges[edges.len() - 1].follower_id@ == followers_in(edges, id)[k]);
            }
        }
    }
}

/// Following oneself is refused as a conflict.
pub proof fn law_self_follow(s: SocialStore, t: SocialStore, a: Seq<u8>, missing: StoreError, r: Result<(), StoreError>)
    requires
        s.has_user(a),
        add_follow_effect(s, t, a, a, missing, r),
    ensures
        r == Err::<(), StoreError>(StoreError::SelfFollow),
        kind_of(r.unwrap_err()) == ErrorKind::Conflict,
        t == s,
{
}

/// Following the same identity twice: the second attempt is refused as a
/// conflict.
pub proof fn law_follow_twice(
    s0: SocialStore,
    s1: SocialStore,
    s2: SocialStore,
    a: Seq<u8>,
    b: Seq<u8>,
    missing: StoreError,
    r2: Result<(), StoreError>,
)
    requires
        add_follow_effect(s0, s1, a, b, missing, Ok(())),
        add_follow_effect(s1, s2, a, b, missing, r2),
    ensures
        r2 == Err::<(), StoreError>(StoreError::AlreadyFollowing),
        kind_of(r2.unwrap_err()) == ErrorKind::Conflict,
        s2 == s1,
{
    let n = s0.follows@.len();
    assert(s1.follows@[n as int].follower_id@ == a && s1.follows@[n as int].following_id@ == b);
    assert(edge(s1.follows@, a, b));
    assert(s1.users == s0.users);
}

} // verus!
