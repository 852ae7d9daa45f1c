use vstd::prelude::*;

use crate::admin_ops::{day_start, live_posts_after, DAY_NANOS};
use crate::model::Post;
use crate::post_ops::{post_exists, post_of};
use crate::store::SocialStore;

verus! {

/// The most posts the trending list shows.
pub const TRENDING_LIMIT: usize = 20;

/// Likes, comments and shares of a post together.
pub open spec fn engagement(p: Post) -> int {
    p.likes + p.comments_count + p.shares_count
}

/// Post `id` is live and was created in the day before `now`.
pub open spec fn recent_live(s: SocialStore, id: u64, now: u64) -> bool {
    post_exists(s, id) && !post_of(s, id).is_deleted && post_of(s, id).created_at > day_start(now)
}

/// The number of posts that may trend at `now`.
pub open spec fn recent_live_count(s: SocialStore, now: u64) -> nat {
    live_posts_after(s.posts@, day_start(now) as int)
}

/// What the trending list is: recent live posts, each once, most engaging
/// first, as many as there are up to the limit, and none left out that is
/// more engaging than one shown.
pub open spec fn trending_list(s: SocialStore, now: u64, r: Seq<u64>) -> bool {
    &&& forall|i: int| 0 <= i < r.len() ==> recent_live(s, #[trigger] r[i], now)
    &&& forall|i: int, j: int| 0 <= i < j < r.len() ==> #[trigger] r[i] != #[trigger] r[j]
    &&& forall|i: int, j: int|
        0 <= i < j < r.len() ==> engagement(post_of(s, #[trigger] r[i])) >= engagement(
            post_of(s, #[trigger] r[j]),
        )
    &&& r.len() == if recent_live_count(s, now) > TRENDING_LIMIT {
        TRENDING_LIMIT as nat
    } else {
        recent_live_count(s, now)
    }
    &&& recent_live_count(s, now) <= TRENDING_LIMIT ==> forall|id: u64|
        #[trigger] recent_live(s, id, now) ==> r.contains(id)
    &&& forall|id: u64, i: int|
        #[trigger] recent_live(s, id, now) && !r.contains(id) && 0 <= i < r.len() ==> engagement(
            post_of(s, id),
        ) <= engagement(post_of(s, #[trigger] r[i]))
}

impl SocialStore {
    /// The ids of the most engaging live posts of the day before `now`.
    pub fn get_trending_posts(&self, now: u64) -> (r: Vec<u64>)
        requires
            self.wf(),
        ensures
            trending_list(*self, now, r@),
    {
        let cutoff = now.saturating_sub(DAY_NANOS);
        let mut ids: Vec<u64> = Vec::new();
        let mut engs: Vec<u128> = Vec::new();
        let mut i: usize = 0;
        while i < self.posts.len()
            invariant
                self.wf(),
                0 <= i <= self.posts@.len(),
                cutoff == day_start(now),
                engs@.len() == ids@.len(),
                ids@.len() == live_posts_after(self.posts@.take(i as int), cutoff as int),
                forall|k: int| 0 <= k < ids@.len() ==> recent_live(*self, #[trigger] ids@[k], now) && ids@[k] <= i
                    && engs@[k] == engagement(post_of(*self, ids@[k])),
                forall|a: int, b: int| 0 <= a < b < ids@.len() ==> #[trigger] ids@[a] < #[trigger] ids@[b],
                forall|id: u64| 1 <= id <= i && recent_live(*self, id, now) ==> ids@.contains(id),
            decreases self.posts@.len() - i,
        {
            assert(self.posts@.take(i + 1).drop_last() =~= self.posts@.take(i as int));
            let p = &self.posts[i];
            assert(p.post_id == i + 1);
            let ghost old_ids = ids@;
            if !p.is_deleted && p.created_at > cutoff {
                ids.push(p.post_id);
                engs.push(p.likes as u128 + p.comments_count as u128 + p.shares_count as u128);
                assert(ids@[ids@.len() - 1] == i + 1);
            }
            assert forall|id: u64| 1 <= id <= i + 1 && recent_live(*self, id, now) implies ids@.contains(id) by {
                if id == i + 1 {
                    assert(post_of(*self, id) == self.posts@[i as int]);
                    assert(ids@[ids@.len() - 1] == id);
                } else {
                    assert(old_ids.contains(id));
                    let m = choose|m: int| 0 <= m < old_ids.len() && old_ids[m] == id;
                    assert(ids@[m] == id);
                }
            }
            i = i + 1;
        }
        assert(self.posts@.take(self.posts@.len() as int) =~= self.posts@);
        let ghost count = ids@.len();
        let mut out: Vec<u64> = Vec::new();
        while out.len() < TRENDING_LIMIT && ids.len() > 0
            invariant
                self.wf(),
                engs@.len() == ids@.len(),
                out@.len() <= TRENDING_LIMIT,
                out@.len() + ids@.len() == count,
                count == recent_live_count(*self, now),
                forall|k: int| 0 <= k < ids@.len() ==> recent_live(*self, #[trigger] ids@[k], now)
                    && engs@[k] == engagement(post_of(*self, ids@[k])),
                forall|a: int, b: int| 0 <= a < b < ids@.len() ==> #[trigger] ids@[a] != #[trigger] ids@[b],
                forall|k: int| 0 <= k < out@.len() ==> recent_live(*self, #[trigger] out@[k], now) && !ids@.contains(out@[k]),
                forall|a: int, b: int| 0 <= a < b < out@.len() ==> #[trigger] out@[a] != #[trigger] out@[b],
                forall|a: int, b: int|
                    0 <= a < b < out@.len() ==> engagement(post_of(*self, #[trigger] out@[a])) >= engagement(
                        post_of(*self, #[trigger] out@[b]),
                    ),
                forall|k: int, o: int|
                    0 <= k < ids@.len() && 0 <= o < out@.len() ==> engagement(post_of(*self, #[trigger] ids@[k]))
                        <= engagement(post_of(*self, #[trigger] out@[o])),
                forall|id: u64| recent_live(*self, id, now) ==> ids@.contains(id) || out@.contains(id),
            decreases ids@.len(),
        {
            let mut best: usize = 0;
            let mut j: usize = 1;
            while j < ids.len()
                invariant
                    engs@.len() == ids@.len(),
                    0 <= best < ids@.len(),
                    1 <= j <= ids@.len(),
                    best < j,
                    forall|k: int| 0 <= k < j ==> engs@[k] <= engs@[best as int],
                decreases ids@.len() - j,
            {
                if engs[j] > engs[best] {
                    best = j;
                }
                j = j + 1;
            }
            let ghost before = ids@;
            let ghost before_out = out@;
            let picked = ids[best];
            out.push(picked);
            ids.remove(best);
            engs.remove(best);
            proof {
                assert forall|k: int| 0 <= k < ids@.len() implies #[trigger] ids@[k] == before[if k < best { k } else { k + 1 }] by {}
                assert forall|a: int, b: int| 0 <= a < b < ids@.len() implies #[trigger] ids@[a] != #[trigger] ids@[b] by {
                    let a1 = if a < best { a } else { a + 1 };
                    let b1 = if b < best { b } else { b + 1 };
                    assert(before[a1] != before[b1]);
                }
                assert forall|k: int| 0 <= k < out@.len() implies recent_live(*self, #[trigger] out@[k], now) && !ids@.contains(out@[k]) by {
                    if k < before_out.len() {
                        assert(out@[k] == before_out[k]);
                        if ids@.contains(out@[k]) {
                            let m = choose|m: int| 0 <= m < ids@.len() && ids@[m] == out@[k];
                            let m1 = if m < best { m } else { m + 1 };
                            assert(before[m1] == out@[k]);
                        }
                    } else {
                        if ids@.contains(picked) {
                            let m = choose|m: int| 0 <= m < ids@.len() && ids@[m] == picked;
                            let m1 = if m < best { m } else { m + 1 };
                            assert(before[m1] == picked);
                            assert(m1 != best);
                        }
                    }
                }
                assert forall|a: int, b: int| 0 <= a < b < out@.len() implies #[trigger] out@[a] != #[trigger] out@[b] by {
                    if b == before_out.len() {
                        assert(!before.contains(before_out[a]));
                        assert(before[best as int] == picked);
                    }
                }
                assert forall|k: int| 0 <= k < before.len() implies engagement(post_of(*self, #[trigger] before[k]))
                    <= engagement(post_of(*self, picked)) by {
                    assert(engs@.len() == before.len() - 1);
                }
                assert forall|id: u64| recent_live(*self, id, now) implies ids@.contains(id) || out@.contains(id) by {
                    if before.contains(id) {
                        let m = choose|m: int| 0 <= m < before.len() && before[m] == id;
                        if m < best {
                            assert(ids@[m] == id);
                        } else if m > best {
                            assert(ids@[m - 1] == id);
                        } else {
                            assert(out@[before_out.len() as int] == id);
                        }
                    } else {
                        let m = choose|m: int| 0 <= m < before_out.len() && before_out[m] == id;
                        assert(out@[m] == id);
                    }
                }
            }
        }
        proof {
            if count <= TRENDING_LIMIT {
                assert(ids@.len() == 0);
            }
        }
        out
    }
}

} // verus!
