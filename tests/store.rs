use social_network_backend::identity::Identity;
use social_network_backend::model::{ErrorKind, IdGenerator, Profile, StoreError};
use social_network_backend::store::SocialStore;

const DAY: u64 = 86_400_000_000_000;

fn who(b: u8) -> Identity {
    Identity::new(vec![b, b, b, 7])
}

fn blank() -> Profile {
    Profile { full_name: None, email: None, bio: None, profile_pic: None, location: None, website: None }
}

fn store_with(admins: &[u8], users: &[(u8, &str)]) -> SocialStore {
    let mut s = SocialStore::new(admins.iter().map(|b| who(*b)).collect());
    for (b, name) in users {
        s.create_user(&who(*b), name.to_string(), blank(), 1).unwrap();
    }
    s
}

fn post(s: &mut SocialStore, author: u8, text: &str, now: u64) -> u64 {
    s.create_post(&who(author), text.to_string(), vec![], vec![], now).unwrap()
}

#[test]
fn register_twice_is_a_conflict() {
    let mut s = store_with(&[], &[(1, "ann")]);
    let r = s.create_user(&who(1), "ann2".to_string(), blank(), 2);
    assert_eq!(r, Err(StoreError::UserAlreadyExists));
    assert_eq!(r.unwrap_err().kind(), ErrorKind::Conflict);
    assert_eq!(s.get_user(&who(1)).unwrap().username, "ann");
    assert_eq!(s.user_count(), 1);
}

#[test]
fn deleted_user_is_not_found() {
    let mut s = store_with(&[], &[(1, "ann"), (2, "bob")]);
    assert_eq!(s.delete_user(&who(1)), Ok(()));
    assert!(s.get_user(&who(1)).is_none());
    assert_eq!(s.delete_user(&who(1)), Err(StoreError::UserNotFound));
    assert!(s.user_exists(&who(2)));
}

#[test]
fn create_user_fills_profile_and_admin_flag() {
    let mut s = SocialStore::new(vec![who(9)]);
    let p = Profile { full_name: Some("Ann Lee".to_string()), email: None, bio: None, profile_pic: None, location: None, website: Some("w".to_string()) };
    s.create_user(&who(9), "ann".to_string(), p, 5).unwrap();
    let u = s.get_user(&who(9)).unwrap();
    assert!(u.is_admin);
    assert_eq!(u.full_name.as_deref(), Some("Ann Lee"));
    assert_eq!(u.website.as_deref(), Some("w"));
    assert_eq!((u.created_at, u.last_active), (5, 5));
}

#[test]
fn update_user_overwrites_given_fields_only() {
    let mut s = store_with(&[], &[(1, "ann")]);
    let p = Profile { full_name: Some("A".to_string()), email: Some("a@x".to_string()), bio: None, profile_pic: None, location: None, website: None };
    s.update_user(&who(1), p, 10).unwrap();
    let p2 = Profile { full_name: None, email: None, bio: Some("hi".to_string()), profile_pic: None, location: None, website: None };
    s.update_user(&who(1), p2, 11).unwrap();
    let u = s.get_user(&who(1)).unwrap();
    assert_eq!(u.full_name.as_deref(), Some("A"));
    assert_eq!(u.email.as_deref(), Some("a@x"));
    assert_eq!(u.bio.as_deref(), Some("hi"));
    assert_eq!(u.last_active, 11);
    assert_eq!(s.update_user(&who(2), blank(), 12), Err(StoreError::UserNotFound));
}

#[test]
fn like_then_unlike_restores_counter() {
    let mut s = store_with(&[], &[(1, "ann"), (2, "bob")]);
    let p = post(&mut s, 1, "hello", 2);
    s.like_post(&who(2), p).unwrap();
    assert_eq!(s.get_post(p).unwrap().likes, 1);
    assert!(s.has_user_liked_post(&who(2), p));
    assert_eq!(s.get_user_liked_posts(&who(2)), vec![p]);
    assert_eq!(s.like_post(&who(2), p), Err(StoreError::AlreadyLiked));
    s.unlike_post(&who(2), p).unwrap();
    assert_eq!(s.get_post(p).unwrap().likes, 0);
    assert!(!s.has_user_liked_post(&who(2), p));
}

#[test]
fn unlike_before_like_is_refused() {
    let mut s = store_with(&[], &[(1, "ann")]);
    let p = post(&mut s, 1, "hello", 2);
    assert_eq!(s.unlike_post(&who(1), p), Err(StoreError::NotLiked));
    assert_eq!(s.unlike_post(&who(5), p), Err(StoreError::UserNotRegistered));
    assert_eq!(s.like_post(&who(5), p), Err(StoreError::UserNotRegistered));
    assert_eq!(s.like_post(&who(1), 99), Err(StoreError::PostNotFound));
    s.delete_post(&who(1), p).unwrap();
    assert_eq!(s.like_post(&who(1), p), Err(StoreError::PostDeleted));
}

#[test]
fn comment_counter_follows_live_comments() {
    let mut s = store_with(&[], &[(1, "ann"), (2, "bob")]);
    let p = post(&mut s, 1, "hello", 2);
    let c1 = s.create_comment(&who(2), p, "first".to_string(), 3).unwrap();
    let c2 = s.create_comment(&who(1), p, "second".to_string(), 4).unwrap();
    assert_eq!(s.get_post(p).unwrap().comments_count, 2);
    assert_eq!(s.get_post_comments(p), vec![c1, c2]);
    s.delete_comment(&who(2), c1).unwrap();
    assert_eq!(s.get_post(p).unwrap().comments_count, 1);
    assert_eq!(s.get_post_comments(p), vec![c2]);
    assert_eq!(s.delete_comment(&who(2), c1), Err(StoreError::AlreadyDeleted));
    assert_eq!(s.delete_comment(&who(2), c2), Err(StoreError::Forbidden));
    assert_eq!(s.get_post(p).unwrap().comments_count, 1);
}

#[test]
fn comment_rules() {
    let mut s = store_with(&[], &[(1, "ann")]);
    let p = post(&mut s, 1, "hello", 2);
    assert_eq!(s.create_comment(&who(1), p, "   ".to_string(), 3), Err(StoreError::EmptyContent));
    assert_eq!(s.create_comment(&who(1), p, "x".repeat(501), 3), Err(StoreError::ContentTooLong));
    assert_eq!(s.create_comment(&who(1), 42, "x".to_string(), 3), Err(StoreError::PostNotFound));
    assert_eq!(s.create_comment(&who(3), p, "x".to_string(), 3), Err(StoreError::UserNotRegistered));
    let c = s.create_comment(&who(1), p, "  ok  ".to_string(), 3).unwrap();
    assert_eq!(s.get_comment(c).unwrap().content, "ok");
    s.update_comment(&who(1), c, " new ".to_string(), 4).unwrap();
    assert_eq!(s.get_comment(c).unwrap().content, "new");
    assert_eq!(s.get_comment(c).unwrap().updated_at, Some(4));
    s.like_comment(&who(1), c).unwrap();
    assert_eq!(s.like_comment(&who(1), c), Err(StoreError::AlreadyLiked));
    assert_eq!(s.get_comment(c).unwrap().likes, 1);
    s.unlike_comment(&who(1), c).unwrap();
    assert_eq!(s.get_comment(c).unwrap().likes, 0);
    assert_eq!(s.unlike_comment(&who(1), c), Err(StoreError::NotLiked));
    s.delete_post(&who(1), p).unwrap();
    assert_eq!(s.create_comment(&who(1), p, "late".to_string(), 5), Err(StoreError::PostDeleted));
}

#[test]
fn deleted_post_is_hidden_everywhere() {
    let mut s = store_with(&[], &[(1, "ann")]);
    let keep = s.create_post(&who(1), "rust stays".to_string(), vec!["Rust".to_string()], vec![], 2).unwrap();
    let gone = s.create_post(&who(1), "rust goes".to_string(), vec!["Rust".to_string()], vec![], 3).unwrap();
    s.delete_post(&who(1), gone).unwrap();
    assert!(s.get_post(gone).is_none());
    assert!(s.post_by_id(gone).unwrap().is_deleted);
    assert_eq!(s.get_all_posts(), vec![keep]);
    assert_eq!(s.get_user_posts(&who(1)), vec![keep]);
    assert_eq!(s.search_posts("rust"), vec![keep]);
    assert_eq!(s.get_posts_by_hashtag("rust"), vec![keep]);
    assert_eq!(s.get_user_feed(&who(1)), vec![keep]);
    assert_eq!(s.get_trending_posts(10), vec![keep]);
    assert_eq!(s.delete_post(&who(1), gone), Err(StoreError::AlreadyDeleted));
}

#[test]
fn feed_holds_own_and_followed_posts_newest_first() {
    let mut s = store_with(&[], &[(1, "a"), (2, "b"), (3, "c"), (4, "d")]);
    s.follow_user(&who(3), &who(1)).unwrap();
    s.follow_user(&who(3), &who(2)).unwrap();
    let pa = post(&mut s, 1, "from a", 2);
    let pb = post(&mut s, 2, "from b", 3);
    let pc = post(&mut s, 3, "from c", 4);
    let _pd = post(&mut s, 4, "from d", 5);
    let pb2 = post(&mut s, 2, "b again", 6);
    s.delete_post(&who(2), pb2).unwrap();
    assert_eq!(s.get_user_feed(&who(3)), vec![pc, pb, pa]);
}

#[test]
fn feed_is_cut_at_fifty() {
    let mut s = store_with(&[], &[(1, "a")]);
    let mut ids = Vec::new();
    for t in 0..60u64 {
        ids.push(post(&mut s, 1, "p", 2 + t));
    }
    let feed = s.get_user_feed(&who(1));
    assert_eq!(feed.len(), 50);
    assert_eq!(feed[0], ids[59]);
    assert_eq!(feed[49], ids[10]);
}

#[test]
fn trending_ranks_recent_posts_by_engagement() {
    let mut s = store_with(&[], &[(1, "a"), (2, "b"), (3, "c"), (4, "d"), (5, "e")]);
    let old = post(&mut s, 1, "old", 2);
    for u in 1..=5u8 {
        s.like_post(&who(u), old).unwrap();
    }
    let now = 2 * DAY;
    let liked = post(&mut s, 1, "liked", now - 100);
    let mixed = post(&mut s, 2, "mixed", now - 50);
    let quiet = post(&mut s, 3, "quiet", now - 10);
    for u in 1..=5u8 {
        s.like_post(&who(u), liked).unwrap();
    }
    s.like_post(&who(1), mixed).unwrap();
    s.create_comment(&who(2), mixed, "c".to_string(), now).unwrap();
    for u in 1..=3u8 {
        s.share_post(&who(u), mixed).unwrap();
    }
    s.share_post(&who(3), mixed).unwrap();
    assert_eq!(s.get_post(mixed).unwrap().shares_count, 3);
    let t = s.get_trending_posts(now);
    assert_eq!(t.len(), 3);
    assert!(t[..2].contains(&liked) && t[..2].contains(&mixed));
    assert_eq!(t[2], quiet);
    assert!(!t.contains(&old));
}

#[test]
fn trending_is_cut_at_twenty() {
    let mut s = store_with(&[], &[(1, "a")]);
    for t in 0..25u64 {
        post(&mut s, 1, "p", 2 + t);
    }
    assert_eq!(s.get_trending_posts(30).len(), 20);
}

#[test]
fn cascade_removes_everything_of_a_user() {
    let mut s = store_with(&[9], &[(9, "root"), (1, "x"), (2, "y")]);
    let px = post(&mut s, 1, "by x", 2);
    let py = post(&mut s, 2, "by y", 3);
    let cx = s.create_comment(&who(1), py, "x says".to_string(), 4).unwrap();
    let cy = s.create_comment(&who(2), py, "y says".to_string(), 5).unwrap();
    s.like_post(&who(1), py).unwrap();
    s.share_post(&who(1), py).unwrap();
    s.follow_user(&who(1), &who(2)).unwrap();
    s.follow_user(&who(2), &who(1)).unwrap();
    assert_eq!(s.admin_delete_user(&who(2), &who(1)), Err(StoreError::Forbidden));
    s.like_comment(&who(1), cy).unwrap();
    assert_eq!(s.get_post(py).unwrap().comments_count, 2);
    s.admin_delete_user(&who(9), &who(1)).unwrap();
    let left = s.get_post(py).unwrap();
    assert_eq!((left.comments_count, left.likes, left.shares_count), (1, 0, 0));
    assert_eq!(s.get_comment(cy).unwrap().likes, 0);
    assert_eq!(s.get_all_posts(), vec![py]);
    assert!(s.get_post(px).is_none());
    assert_eq!(s.get_post_comments(py), vec![cy]);
    assert!(s.get_comment(cx).is_none());
    assert!(s.get_followers(&who(2)).is_empty());
    assert!(s.get_following(&who(2)).is_empty());
    assert!(s.get_user(&who(1)).is_none());
    assert!(!s.has_user_liked_post(&who(1), py));
    assert_eq!(s.admin_delete_user(&who(9), &who(1)), Err(StoreError::UserNotFound));
}

#[test]
fn self_follow_and_double_follow_conflict() {
    let mut s = store_with(&[], &[(1, "a"), (2, "b")]);
    let r = s.follow_user(&who(1), &who(1));
    assert_eq!(r, Err(StoreError::SelfFollow));
    assert_eq!(r.unwrap_err().kind(), ErrorKind::Conflict);
    s.follow_user(&who(1), &who(2)).unwrap();
    let r = s.follow_user(&who(1), &who(2));
    assert_eq!(r, Err(StoreError::AlreadyFollowing));
    assert_eq!(r.unwrap_err().kind(), ErrorKind::Conflict);
    assert_eq!(s.follow_user(&who(1), &who(3)), Err(StoreError::TargetNotFound));
    assert_eq!(s.follow_user(&who(3), &who(1)), Err(StoreError::UserNotRegistered));
}

#[test]
fn follow_lists_and_unfollow() {
    let mut s = store_with(&[], &[(1, "a"), (2, "b"), (3, "c")]);
    s.follow_user(&who(1), &who(3)).unwrap();
    s.follow_user(&who(2), &who(3)).unwrap();
    let f: Vec<Vec<u8>> = s.get_followers(&who(3)).into_iter().map(|i| i.bytes).collect();
    assert_eq!(f, vec![who(1).bytes, who(2).bytes]);
    assert!(s.is_following(&who(1), &who(3)));
    s.unfollow_user(&who(1), &who(3)).unwrap();
    assert!(!s.is_following(&who(1), &who(3)));
    assert_eq!(s.unfollow_user(&who(1), &who(3)), Err(StoreError::NotFollowing));
    assert_eq!(s.get_following(&who(2)).len(), 1);
}

#[test]
fn post_content_rules() {
    let mut s = store_with(&[], &[(1, "a")]);
    let e = s.create_post(&who(1), " \t\n".to_string(), vec![], vec![], 2);
    assert_eq!(e, Err(StoreError::EmptyContent));
    assert_eq!(e.unwrap_err().kind(), ErrorKind::Validation);
    assert_eq!(s.create_post(&who(1), "x".repeat(2001), vec![], vec![], 2), Err(StoreError::ContentTooLong));
    // two thousand characters are allowed even when they take more bytes
    let p = s.create_post(&who(1), "é".repeat(2000), vec![], vec![], 2).unwrap();
    assert_eq!(s.get_post(p).unwrap().content.chars().count(), 2000);
    let q = s.create_post(&who(1), "  padded  ".to_string(), vec![], vec!["m".to_string()], 3).unwrap();
    let got = s.get_post(q).unwrap();
    assert_eq!(got.content, "padded");
    assert_eq!(got.media_urls, vec!["m".to_string()]);
    assert_eq!(got.created_at, 3);
    assert_eq!(s.get_user(&who(1)).unwrap().last_active, 3);
    assert_eq!(s.create_post(&who(2), "hi".to_string(), vec![], vec![], 4), Err(StoreError::UserNotRegistered));
}

#[test]
fn mentions_resolve_first_matching_username() {
    let mut s = store_with(&[], &[(1, "ann"), (2, "bob"), (3, "bob")]);
    let p = post(&mut s, 1, "hi @bob and @nobody @ and @ann", 2);
    let m: Vec<Vec<u8>> = s.get_post(p).unwrap().mentions.iter().map(|i| i.bytes.clone()).collect();
    assert_eq!(m, vec![who(2).bytes, who(1).bytes]);
}

#[test]
fn edits_need_author_or_admin() {
    let mut s = store_with(&[9], &[(1, "a"), (2, "b"), (9, "root")]);
    let p = post(&mut s, 1, "mine", 2);
    assert_eq!(s.update_post(&who(2), p, "theirs".to_string(), 3), Err(StoreError::Forbidden));
    assert_eq!(s.update_post(&who(1), p, "".to_string(), 3), Err(StoreError::EmptyContent));
    assert_eq!(s.update_post(&who(1), 77, "x".to_string(), 3), Err(StoreError::PostNotFound));
    s.update_post(&who(9), p, " by admin ".to_string(), 4).unwrap();
    assert_eq!(s.get_post(p).unwrap().content, "by admin");
    assert_eq!(s.get_post(p).unwrap().updated_at, Some(4));
    assert_eq!(s.delete_post(&who(2), p), Err(StoreError::Forbidden));
    s.admin_delete_post(&who(9), p).unwrap();
    assert_eq!(s.admin_delete_post(&who(9), p), Err(StoreError::AlreadyDeleted));
    assert_eq!(s.admin_delete_post(&who(1), p), Err(StoreError::Forbidden));
    assert_eq!(s.update_post(&who(1), p, "again".to_string(), 5), Err(StoreError::AlreadyDeleted));
}

#[test]
fn search_ignores_case() {
    let mut s = SocialStore::new(vec![who(9)]);
    let p = Profile { full_name: Some("Grace HOPPER".to_string()), email: Some("GH@Navy.mil".to_string()), bio: Some("Compilers".to_string()), profile_pic: None, location: None, website: None };
    s.create_user(&who(1), "Amazing".to_string(), p, 1).unwrap();
    s.create_user(&who(9), "root".to_string(), blank(), 1).unwrap();
    assert_eq!(s.search_users("hopper").len(), 1);
    assert_eq!(s.search_users("COMPILER").len(), 1);
    assert_eq!(s.search_users("navy").len(), 0);
    assert_eq!(s.admin_search_users(&who(9), "navy").unwrap().len(), 1);
    assert_eq!(s.admin_search_users(&who(1), "navy").err(), Some(StoreError::Forbidden));
    let a = s.create_post(&who(1), "Learning RUST today".to_string(), vec![], vec![], 2).unwrap();
    let b = s.create_post(&who(1), "other".to_string(), vec!["RustLang".to_string()], vec![], 3).unwrap();
    assert_eq!(s.search_posts("rust"), vec![b, a]);
    assert_eq!(s.get_posts_by_hashtag("rustlang"), vec![b]);
    assert!(s.get_posts_by_hashtag("rust").is_empty());
}

#[test]
fn admin_registry_and_stats() {
    let mut s = store_with(&[9], &[(9, "root"), (1, "a"), (2, "b")]);
    assert!(s.is_caller_admin(&who(9)));
    assert!(!s.is_caller_admin(&who(1)));
    assert_eq!(s.admin_get_stats(&who(1), 5).err(), Some(StoreError::Forbidden));
    s.admin_promote_user(&who(9), &who(1)).unwrap();
    assert!(s.is_caller_admin(&who(1)));
    assert!(s.get_user(&who(1)).unwrap().is_admin);
    let st = s.admin_get_stats(&who(1), 5).unwrap();
    assert_eq!((st.total_users, st.total_admins, st.recent_registrations), (3, 2, 3));
    assert_eq!(s.admin_demote_user(&who(1), &who(9)), Err(StoreError::CannotDemotePredefinedAdmin));
    s.admin_demote_user(&who(9), &who(1)).unwrap();
    assert!(!s.is_caller_admin(&who(1)));
    assert_eq!(s.admin_promote_user(&who(9), &who(7)), Err(StoreError::UserNotFound));
    assert!(s.is_caller_admin(&who(7)));
    let later = s.admin_get_stats(&who(9), 3 * DAY).unwrap();
    assert_eq!(later.recent_registrations, 0);
}

#[test]
fn post_stats_and_listing_for_admins() {
    let mut s = store_with(&[9], &[(9, "root"), (1, "a")]);
    let p1 = post(&mut s, 1, "one", 2);
    let p2 = post(&mut s, 1, "two", DAY + 10);
    s.like_post(&who(1), p1).unwrap();
    s.like_post(&who(9), p1).unwrap();
    s.like_post(&who(1), p2).unwrap();
    let st = s.admin_get_post_stats(&who(9), DAY + 20).unwrap();
    assert_eq!((st.total_posts, st.recent_posts, st.total_likes), (2, 1, 3));
    s.delete_post(&who(1), p1).unwrap();
    let st = s.admin_get_post_stats(&who(9), DAY + 20).unwrap();
    assert_eq!((st.total_posts, st.recent_posts, st.total_likes), (1, 1, 1));
    assert_eq!(s.admin_get_all_posts(&who(9)).unwrap(), vec![p2, p1]);
    assert_eq!(s.admin_get_all_posts(&who(1)).err(), Some(StoreError::Forbidden));
}

#[test]
fn recent_users_newest_first() {
    let mut s = SocialStore::new(vec![who(9)]);
    for (b, t) in [(9u8, 1u64), (1, 2), (2, 3), (3, 4)] {
        s.create_user(&who(b), format!("u{b}"), blank(), t).unwrap();
    }
    let r: Vec<Vec<u8>> = s.admin_get_recent_users(&who(9), 2).unwrap().into_iter().map(|i| i.bytes).collect();
    assert_eq!(r, vec![who(3).bytes, who(2).bytes]);
    assert_eq!(s.admin_get_recent_users(&who(9), 10).unwrap().len(), 4);
    assert_eq!(s.admin_get_all_users(&who(9)).unwrap().len(), 4);
    assert_eq!(s.admin_get_all_users_detailed(&who(1)).err(), Some(StoreError::Forbidden));
}

#[test]
fn admin_writes_user_rows() {
    let mut s = store_with(&[9], &[(9, "root"), (1, "a")]);
    s.admin_create_user_with_principal(&who(9), &who(1), "renamed".to_string(), blank(), 7).unwrap();
    assert_eq!(s.user_count(), 2);
    let u = s.get_user(&who(1)).unwrap();
    assert_eq!((u.username.as_str(), u.created_at), ("renamed", 7));
    s.admin_create_user_with_principal(&who(9), &who(5), "new".to_string(), blank(), 8).unwrap();
    assert!(s.user_exists(&who(5)));
    assert_eq!(s.admin_create_user_with_principal(&who(1), &who(6), "n".to_string(), blank(), 9), Err(StoreError::Forbidden));
    s.admin_create_follow_relationship(&who(9), &who(1), &who(5)).unwrap();
    assert!(s.is_following(&who(1), &who(5)));
    assert_eq!(s.admin_create_follow_relationship(&who(9), &who(4), &who(5)), Err(StoreError::UserNotFound));
    assert_eq!(s.admin_create_follow_relationship(&who(1), &who(5), &who(1)), Err(StoreError::Forbidden));
}

#[test]
fn sharing_twice_counts_once() {
    let mut s = store_with(&[], &[(1, "a")]);
    let p = post(&mut s, 1, "p", 2);
    s.share_post(&who(1), p).unwrap();
    s.share_post(&who(1), p).unwrap();
    assert_eq!(s.get_post(p).unwrap().shares_count, 1);
    assert_eq!(s.shares.len(), 1);
    assert_eq!(s.share_post(&who(1), 9), Err(StoreError::PostNotFound));
}

#[test]
fn id_generator_counts_from_one() {
    let mut g = IdGenerator::new();
    assert_eq!(g.next_post_id(), 1);
    assert_eq!(g.next_post_id(), 2);
    assert_eq!(g.next_comment_id(), 1);
}

#[test]
fn error_kinds() {
    assert_eq!(StoreError::ContentTooLong.kind(), ErrorKind::Validation);
    assert_eq!(StoreError::PostNotFound.kind(), ErrorKind::NotFound);
    assert_eq!(StoreError::Forbidden.kind(), ErrorKind::Forbidden);
    assert_eq!(StoreError::CannotDemotePredefinedAdmin.kind(), ErrorKind::Conflict);
    assert_eq!(StoreError::AlreadyDeleted.kind(), ErrorKind::AlreadyDeleted);
}
