use solcials::address::{derive_address, follow_address, i64_to_le_bytes, keys_equal, like_address, post_address, profile_address, Key};
use solcials::instructions::{
    add_image_chunk, create_image_post, create_text_post, follow_user, initialize, initialize_user_profile, like_post,
    unfollow_user, unlike_post, update_user_profile, AddImageChunk, CreateImagePost, CreateTextPost, FollowUser,
    Initialize, InitializeUserProfile, LikePost, UnfollowUser, UnlikePost, UpdateUserProfile,
};
use anchor_lang::prelude::Pubkey;
use solcials::ledger::Ledger;
use solcials::records::{Post, Record, SocialError, UserProfile};

const PROGRAM: Key = [7u8; 32];

fn key(b: u8) -> Key {
    let mut k = [0u8; 32];
    k[0] = b;
    k[31] = b.wrapping_mul(3);
    k
}

fn profile<'a>(ledger: &'a Ledger, user: &Key) -> Option<&'a UserProfile> {
    let a = profile_address(&PROGRAM, user).unwrap().0;
    match ledger.get(&a) {
        Some(Record::Profile(p)) => Some(p),
        _ => None,
    }
}

fn post_at<'a>(ledger: &'a Ledger, a: &Key) -> Option<&'a Post> {
    match ledger.get(a) {
        Some(Record::Post(p)) => Some(p),
        _ => None,
    }
}

const DEP: u64 = 10;
const FUNDS: u64 = 1_000_000;

fn join(ledger: &mut Ledger, user: Key, now: i64) -> Result<(), SocialError> {
    if ledger.balance(&user) == 0 {
        ledger.set_balance(user, FUNDS);
    }
    initialize_user_profile(ledger, InitializeUserProfile { user }, now, DEP)
}

fn with_user(user: &Key) -> Ledger {
    let mut ledger = Ledger::new(PROGRAM);
    join(&mut ledger, *user, 50).unwrap();
    ledger
}

fn none7() -> [Option<String>; 7] {
    [None, None, None, None, None, None, None]
}

fn update(ledger: &mut Ledger, user: &Key, f: [Option<String>; 7]) -> Result<(), SocialError> {
    let [a, b, c, d, e, g, h] = f;
    update_user_profile(ledger, UpdateUserProfile { user: *user }, a, b, c, d, e, g, h)
}

#[test]
fn initialize_succeeds() {
    assert_eq!(initialize(Initialize {}), Ok(()));
}

#[test]
fn timestamp_bytes_are_little_endian() {
    assert_eq!(i64_to_le_bytes(1000), vec![0xe8, 0x03, 0, 0, 0, 0, 0, 0]);
    assert_eq!(i64_to_le_bytes(-1), vec![0xff; 8]);
}

#[test]
fn derivation_is_repeatable_and_key_dependent() {
    let a = post_address(&PROGRAM, &key(1), 1000).unwrap();
    let b = post_address(&PROGRAM, &key(1), 1000).unwrap();
    assert_eq!(a, b);
    let c = post_address(&PROGRAM, &key(1), 1001).unwrap();
    assert_ne!(a.0, c.0);
    let d = post_address(&PROGRAM, &key(2), 1000).unwrap();
    assert_ne!(a.0, d.0);
    let seeds = vec![b"post".to_vec(), key(1).to_vec(), 1000i64.to_le_bytes().to_vec()];
    assert_eq!(derive_address(&seeds, &PROGRAM).unwrap(), a);
}

#[test]
fn derivation_rejects_oversized_seed() {
    let seeds = vec![vec![0u8; 33]];
    assert_eq!(derive_address(&seeds, &PROGRAM), None);
    assert_eq!(derive_address(&vec![], &PROGRAM), None);
    assert_eq!(derive_address(&vec![vec![1u8]; 16], &PROGRAM), None);
    assert!(derive_address(&vec![vec![1u8]; 15], &PROGRAM).is_some());
    assert!(derive_address(&vec![vec![1u8; 32]], &PROGRAM).is_some());
}

#[test]
fn keys_equal_compares_bytes() {
    assert!(keys_equal(&key(4), &key(4)));
    assert!(!keys_equal(&key(4), &key(5)));
}

#[test]
fn new_profile_is_empty() {
    let u = key(1);
    let ledger = with_user(&u);
    let p = profile(&ledger, &u).unwrap();
    assert_eq!(p.user, u);
    assert_eq!(p.username, None);
    assert_eq!(p.bio, None);
    assert_eq!(p.location, None);
    assert_eq!((p.followers_count, p.following_count, p.post_count), (0, 0, 0));
    assert_eq!(p.created_at, 50);
    assert!(!p.verified);
}

#[test]
fn profile_is_created_once() {
    let u = key(1);
    let mut ledger = with_user(&u);
    assert_eq!(
        join(&mut ledger, u, 60),
        Err(SocialError::AddressAlreadyExists)
    );
    assert_eq!(profile(&ledger, &u).unwrap().created_at, 50);
}

#[test]
fn text_post_scenario() {
    let u = key(1);
    let mut ledger = with_user(&u);
    assert_eq!(create_text_post(&mut ledger, CreateTextPost { author: u }, "hello".to_string(), 1000, None, DEP), Ok(()));
    assert_eq!(profile(&ledger, &u).unwrap().post_count, 1);
    let seeds = vec![b"post".to_vec(), u.to_vec(), 1000i64.to_le_bytes().to_vec()];
    let (addr, bump) = derive_address(&seeds, &PROGRAM).unwrap();
    let p = post_at(&ledger, &addr).unwrap();
    assert_eq!(p.author, u);
    assert_eq!(p.content, "hello");
    assert_eq!(p.post_type, 0);
    assert_eq!(p.timestamp, 1000);
    assert_eq!((p.likes, p.reposts, p.replies), (0, 0, 0));
    assert!(p.image_chunks.is_empty());
    assert_eq!(p.reply_to, None);
    assert_eq!(p.bump, bump);
}

#[test]
fn content_length_bounds() {
    let u = key(1);
    let mut ledger = with_user(&u);
    for (i, n) in [1usize, 2, 140, 279, 280].iter().enumerate() {
        let r = create_text_post(&mut ledger, CreateTextPost { author: u }, "a".repeat(*n), i as i64, None, DEP);
        assert_eq!(r, Ok(()));
    }
    assert_eq!(profile(&ledger, &u).unwrap().post_count, 5);
    let r = create_text_post(&mut ledger, CreateTextPost { author: u }, String::new(), 100, None, DEP);
    assert_eq!(r, Err(SocialError::ContentEmpty));
    let r = create_text_post(&mut ledger, CreateTextPost { author: u }, "a".repeat(281), 101, None, DEP);
    assert_eq!(r, Err(SocialError::ContentTooLong));
    for ts in [100i64, 101] {
        let a = post_address(&PROGRAM, &u, ts).unwrap().0;
        assert!(!ledger.contains(&a));
    }
    assert_eq!(profile(&ledger, &u).unwrap().post_count, 5);
}

#[test]
fn content_length_counts_bytes() {
    let u = key(1);
    let mut ledger = with_user(&u);
    // 140 two-byte characters fill the limit exactly; one more is too long.
    let r = create_text_post(&mut ledger, CreateTextPost { author: u }, "é".repeat(140), 1, None, DEP);
    assert_eq!(r, Ok(()));
    let r = create_text_post(&mut ledger, CreateTextPost { author: u }, "é".repeat(141), 2, None, DEP);
    assert_eq!(r, Err(SocialError::ContentTooLong));
}

#[test]
fn same_timestamp_post_fails() {
    let u = key(1);
    let mut ledger = with_user(&u);
    create_text_post(&mut ledger, CreateTextPost { author: u }, "one".to_string(), 5, None, DEP).unwrap();
    let r = create_image_post(&mut ledger, CreateImagePost { author: u }, "two".to_string(), 5, None, DEP);
    assert_eq!(r, Err(SocialError::AddressAlreadyExists));
    let a = post_address(&PROGRAM, &u, 5).unwrap().0;
    assert_eq!(post_at(&ledger, &a).unwrap().content, "one");
    assert_eq!(profile(&ledger, &u).unwrap().post_count, 1);
}

#[test]
fn post_needs_profile() {
    let mut ledger = Ledger::new(PROGRAM);
    let r = create_text_post(&mut ledger, CreateTextPost { author: key(9) }, "hi".to_string(), 1, None, DEP);
    assert_eq!(r, Err(SocialError::AddressNotFound));
}

#[test]
fn reply_keeps_parent() {
    let u = key(1);
    let mut ledger = with_user(&u);
    let parent = post_address(&PROGRAM, &u, 1).unwrap().0;
    create_text_post(&mut ledger, CreateTextPost { author: u }, "root".to_string(), 1, None, DEP).unwrap();
    create_text_post(&mut ledger, CreateTextPost { author: u }, "reply".to_string(), 2, Some(parent), DEP).unwrap();
    let a = post_address(&PROGRAM, &u, 2).unwrap().0;
    assert_eq!(post_at(&ledger, &a).unwrap().reply_to, Some(parent));
}

#[test]
fn image_chunks_are_appended() {
    let u = key(1);
    let mut ledger = with_user(&u);
    create_image_post(&mut ledger, CreateImagePost { author: u }, "pic".to_string(), 7, None, DEP).unwrap();
    let a = post_address(&PROGRAM, &u, 7).unwrap().0;
    assert_eq!(post_at(&ledger, &a).unwrap().post_type, 1);
    let ctx = AddImageChunk { post: a, author: u };
    assert_eq!(add_image_chunk(&mut ledger, ctx, vec![1, 2, 3], 0, 2, DEP), Ok(()));
    assert_eq!(add_image_chunk(&mut ledger, ctx, vec![0; 9216], 1, 3, DEP), Ok(()));
    let p = post_at(&ledger, &a).unwrap();
    assert_eq!(p.image_chunks.len(), 2);
    assert_eq!(p.total_image_chunks, 3);
    match ledger.get(&p.image_chunks[0]) {
        Some(Record::Chunk(c)) => {
            assert_eq!(c.data, vec![1, 2, 3]);
            assert_eq!((c.chunk_index, c.total_chunks), (0, 2));
            assert_eq!(c.post, a);
        }
        _ => panic!("chunk missing"),
    }
}

#[test]
fn image_chunk_errors() {
    let u = key(1);
    let mut ledger = with_user(&u);
    create_image_post(&mut ledger, CreateImagePost { author: u }, "pic".to_string(), 7, None, DEP).unwrap();
    let a = post_address(&PROGRAM, &u, 7).unwrap().0;
    let ctx = AddImageChunk { post: a, author: u };
    assert_eq!(add_image_chunk(&mut ledger, ctx, vec![0; 9217], 0, 1, DEP), Err(SocialError::ChunkTooLarge));
    let other = AddImageChunk { post: a, author: key(2) };
    assert_eq!(add_image_chunk(&mut ledger, other, vec![1], 0, 1, DEP), Err(SocialError::AuthorizationMismatch));
    let missing = AddImageChunk { post: key(99), author: u };
    assert_eq!(add_image_chunk(&mut ledger, missing, vec![1], 0, 1, DEP), Err(SocialError::AddressNotFound));
    add_image_chunk(&mut ledger, ctx, vec![1], 0, 1, DEP).unwrap();
    assert_eq!(add_image_chunk(&mut ledger, ctx, vec![2], 0, 1, DEP), Err(SocialError::AddressAlreadyExists));
    assert_eq!(post_at(&ledger, &a).unwrap().image_chunks.len(), 1);
}

#[test]
fn follow_unfollow_scenario() {
    let (a, b) = (key(1), key(2));
    let mut ledger = with_user(&a);
    join(&mut ledger, b, 51).unwrap();
    assert_eq!(follow_user(&mut ledger, FollowUser { follower: a, following: b }, 70, DEP), Ok(()));
    assert_eq!(profile(&ledger, &a).unwrap().following_count, 1);
    assert_eq!(profile(&ledger, &b).unwrap().followers_count, 1);
    assert_eq!(profile(&ledger, &a).unwrap().followers_count, 0);
    let fa = follow_address(&PROGRAM, &a, &b).unwrap().0;
    match ledger.get(&fa) {
        Some(Record::Follow(f)) => assert_eq!((f.follower, f.following, f.timestamp), (a, b, 70)),
        _ => panic!("relation missing"),
    }
    assert_eq!(unfollow_user(&mut ledger, UnfollowUser { follower: a, following: b }), Ok(()));
    assert_eq!(profile(&ledger, &a).unwrap().following_count, 0);
    assert_eq!(profile(&ledger, &b).unwrap().followers_count, 0);
    assert!(!ledger.contains(&fa));
}

#[test]
fn follow_twice_is_refused() {
    let (a, b) = (key(1), key(2));
    let mut ledger = with_user(&a);
    join(&mut ledger, b, 51).unwrap();
    follow_user(&mut ledger, FollowUser { follower: a, following: b }, 70, DEP).unwrap();
    assert_eq!(
        follow_user(&mut ledger, FollowUser { follower: a, following: b }, 71, DEP),
        Err(SocialError::AddressAlreadyExists)
    );
    assert_eq!(profile(&ledger, &b).unwrap().followers_count, 1);
    assert_eq!(follow_user(&mut ledger, FollowUser { follower: b, following: a }, 72, DEP), Ok(()));
    assert_eq!(profile(&ledger, &a).unwrap().followers_count, 1);
}

#[test]
fn follow_errors() {
    let (a, b) = (key(1), key(2));
    let mut ledger = with_user(&a);
    assert_eq!(follow_user(&mut ledger, FollowUser { follower: a, following: a }, 1, DEP), Err(SocialError::SelfFollow));
    assert_eq!(follow_user(&mut ledger, FollowUser { follower: a, following: b }, 1, DEP), Err(SocialError::AddressNotFound));
    assert_eq!(unfollow_user(&mut ledger, UnfollowUser { follower: a, following: b }), Err(SocialError::AddressNotFound));
    assert_eq!(profile(&ledger, &a).unwrap().following_count, 0);
}

#[test]
fn like_unlike_scenario() {
    let (u, v) = (key(1), key(2));
    let mut ledger = with_user(&u);
    create_text_post(&mut ledger, CreateTextPost { author: u }, "hello".to_string(), 1000, None, DEP).unwrap();
    let pa = post_address(&PROGRAM, &u, 1000).unwrap().0;
    ledger.set_balance(v, FUNDS);
    assert_eq!(like_post(&mut ledger, LikePost { user: v, post: pa }, 5, DEP), Ok(()));
    assert_eq!(like_post(&mut ledger, LikePost { user: u, post: pa }, 6, DEP), Ok(()));
    assert_eq!(post_at(&ledger, &pa).unwrap().likes, 2);
    assert_eq!(like_post(&mut ledger, LikePost { user: v, post: pa }, 7, DEP), Err(SocialError::AddressAlreadyExists));
    let la = like_address(&PROGRAM, &v, &pa).unwrap().0;
    assert!(ledger.contains(&la));
    assert_eq!(unlike_post(&mut ledger, UnlikePost { user: v, post: pa }), Ok(()));
    assert_eq!(post_at(&ledger, &pa).unwrap().likes, 1);
    assert!(!ledger.contains(&la));
    assert_eq!(unlike_post(&mut ledger, UnlikePost { user: v, post: pa }), Err(SocialError::AddressNotFound));
    assert_eq!(post_at(&ledger, &pa).unwrap().likes, 1);
}

#[test]
fn like_needs_post() {
    let u = key(1);
    let mut ledger = with_user(&u);
    assert_eq!(like_post(&mut ledger, LikePost { user: u, post: key(40) }, 5, DEP), Err(SocialError::AddressNotFound));
}

#[test]
fn bio_only_update() {
    let u = key(1);
    let mut ledger = with_user(&u);
    let mut f = none7();
    f[0] = Some("alice".to_string());
    f[6] = Some("Lisbon".to_string());
    update(&mut ledger, &u, f).unwrap();
    let mut f = none7();
    f[2] = Some("hi there".to_string());
    assert_eq!(update(&mut ledger, &u, f), Ok(()));
    let p = profile(&ledger, &u).unwrap();
    assert_eq!(p.username.as_deref(), Some("alice"));
    assert_eq!(p.bio.as_deref(), Some("hi there"));
    assert_eq!(p.location.as_deref(), Some("Lisbon"));
    assert_eq!(p.display_name, None);
    assert_eq!(p.website_url, None);
}

#[test]
fn overlong_bio_changes_nothing() {
    let u = key(1);
    let mut ledger = with_user(&u);
    let mut f = none7();
    f[0] = Some("bob".to_string());
    f[1] = Some("Bob B".to_string());
    f[2] = Some("b".repeat(161));
    assert_eq!(update(&mut ledger, &u, f), Err(SocialError::BioTooLong));
    let p = profile(&ledger, &u).unwrap();
    assert_eq!(p.username, None);
    assert_eq!(p.display_name, None);
    assert_eq!(p.bio, None);
    let mut f = none7();
    f[2] = Some("b".repeat(160));
    assert_eq!(update(&mut ledger, &u, f), Ok(()));
}

#[test]
fn each_field_limit_has_its_error() {
    let u = key(1);
    let mut ledger = with_user(&u);
    let limits = [
        (50usize, SocialError::UsernameTooLong),
        (50, SocialError::DisplayNameTooLong),
        (160, SocialError::BioTooLong),
        (200, SocialError::AvatarUrlTooLong),
        (200, SocialError::CoverImageUrlTooLong),
        (200, SocialError::WebsiteUrlTooLong),
        (100, SocialError::LocationTooLong),
    ];
    for (i, (max, err)) in limits.iter().enumerate() {
        let mut f = none7();
        f[i] = Some("x".repeat(*max + 1));
        assert_eq!(update(&mut ledger, &u, f), Err(*err));
        let mut f = none7();
        f[i] = Some("x".repeat(*max));
        assert_eq!(update(&mut ledger, &u, f), Ok(()));
    }
    let p = profile(&ledger, &u).unwrap();
    assert_eq!(p.avatar_url.as_ref().map(|s| s.len()), Some(200));
}

#[test]
fn update_needs_profile() {
    let mut ledger = Ledger::new(PROGRAM);
    assert_eq!(update(&mut ledger, &key(3), none7()), Err(SocialError::AddressNotFound));
}

fn bare_profile(user: Key) -> UserProfile {
    UserProfile {
        user,
        username: None,
        display_name: None,
        bio: None,
        avatar_url: None,
        cover_image_url: None,
        website_url: None,
        location: None,
        followers_count: 0,
        following_count: 0,
        post_count: 0,
        created_at: 0,
        verified: false,
        bump: 0,
    }
}

#[test]
fn derivation_matches_the_ledger_runtime() {
    let u = key(1);
    let program = Pubkey::new_from_array(PROGRAM);
    let (want, bump) = Pubkey::find_program_address(&[b"post", &u, &1000i64.to_le_bytes()], &program);
    assert_eq!(post_address(&PROGRAM, &u, 1000), Some((want.to_bytes(), bump)));
    let (want, bump) = Pubkey::find_program_address(&[b"user_profile", &u], &program);
    assert_eq!(profile_address(&PROGRAM, &u), Some((want.to_bytes(), bump)));
    let (want, _) = Pubkey::find_program_address(&[b"follow", &u, &key(2)], &program);
    assert_eq!(follow_address(&PROGRAM, &u, &key(2)).unwrap().0, want.to_bytes());
    assert_ne!(post_address(&PROGRAM, &u, 1000).unwrap().0, u);
}

#[test]
fn post_count_overflow_is_refused() {
    let u = key(1);
    let mut ledger = Ledger::new(PROGRAM);
    let mut p = bare_profile(u);
    p.post_count = u64::MAX;
    ledger.insert(profile_address(&PROGRAM, &u).unwrap().0, Record::Profile(p));
    let r = create_text_post(&mut ledger, CreateTextPost { author: u }, "hi".to_string(), 1, None, DEP);
    assert_eq!(r, Err(SocialError::CounterOverflow));
    assert!(!ledger.contains(&post_address(&PROGRAM, &u, 1).unwrap().0));
}

#[test]
fn follower_count_overflow_is_refused() {
    let (a, b) = (key(1), key(2));
    let mut ledger = with_user(&a);
    let mut p = bare_profile(b);
    p.followers_count = u64::MAX;
    ledger.insert(profile_address(&PROGRAM, &b).unwrap().0, Record::Profile(p));
    assert_eq!(follow_user(&mut ledger, FollowUser { follower: a, following: b }, 1, DEP), Err(SocialError::CounterOverflow));
    assert_eq!(profile(&ledger, &a).unwrap().following_count, 0);
}

#[test]
fn unfollow_underflow_is_refused() {
    let (a, b) = (key(1), key(2));
    let mut ledger = with_user(&a);
    join(&mut ledger, b, 51).unwrap();
    let fa = follow_address(&PROGRAM, &a, &b).unwrap().0;
    let rel = solcials::records::FollowRelation { follower: a, following: b, timestamp: 0, bump: 0 };
    ledger.insert(fa, Record::Follow(rel));
    assert_eq!(unfollow_user(&mut ledger, UnfollowUser { follower: a, following: b }), Err(SocialError::CounterUnderflow));
    assert!(ledger.contains(&fa));
}

#[test]
fn unlike_underflow_is_refused() {
    let (u, v) = (key(1), key(2));
    let mut ledger = with_user(&u);
    create_text_post(&mut ledger, CreateTextPost { author: u }, "hello".to_string(), 3, None, DEP).unwrap();
    let pa = post_address(&PROGRAM, &u, 3).unwrap().0;
    let la = like_address(&PROGRAM, &v, &pa).unwrap().0;
    let rel = solcials::records::LikeRelation { user: v, post: pa, timestamp: 0, bump: 0 };
    ledger.insert(la, Record::Like(rel));
    assert_eq!(unlike_post(&mut ledger, UnlikePost { user: v, post: pa }), Err(SocialError::CounterUnderflow));
    assert_eq!(post_at(&ledger, &pa).unwrap().likes, 0);
}

#[test]
fn update_of_foreign_profile_is_refused() {
    let u = key(1);
    let mut ledger = Ledger::new(PROGRAM);
    ledger.insert(profile_address(&PROGRAM, &u).unwrap().0, Record::Profile(bare_profile(key(2))));
    let mut f = none7();
    f[2] = Some("mine".to_string());
    assert_eq!(update(&mut ledger, &u, f), Err(SocialError::AuthorizationMismatch));
}

#[test]
fn creation_charges_deposits() {
    let u = key(1);
    let mut ledger = with_user(&u);
    let pa = profile_address(&PROGRAM, &u).unwrap().0;
    assert_eq!(ledger.deposit(&pa), DEP);
    assert_eq!(ledger.balance(&u), FUNDS - DEP);
    create_text_post(&mut ledger, CreateTextPost { author: u }, "hi".to_string(), 1, None, 300).unwrap();
    let post = post_address(&PROGRAM, &u, 1).unwrap().0;
    assert_eq!(ledger.deposit(&post), 300);
    assert_eq!(ledger.balance(&u), FUNDS - DEP - 300);
    add_image_chunk(&mut ledger, AddImageChunk { post, author: u }, vec![1], 0, 1, 40).unwrap();
    assert_eq!(ledger.balance(&u), FUNDS - DEP - 340);
}

#[test]
fn insufficient_funds_change_nothing() {
    let u = key(1);
    let mut ledger = Ledger::new(PROGRAM);
    ledger.set_balance(u, 5);
    assert_eq!(
        initialize_user_profile(&mut ledger, InitializeUserProfile { user: u }, 1, 6),
        Err(SocialError::InsufficientFunds)
    );
    assert!(profile(&ledger, &u).is_none());
    assert_eq!(ledger.balance(&u), 5);
    let mut ledger = with_user(&u);
    let r = create_text_post(&mut ledger, CreateTextPost { author: u }, "hi".to_string(), 1, None, FUNDS);
    assert_eq!(r, Err(SocialError::InsufficientFunds));
    assert!(!ledger.contains(&post_address(&PROGRAM, &u, 1).unwrap().0));
    assert_eq!(profile(&ledger, &u).unwrap().post_count, 0);
    let b = key(2);
    join(&mut ledger, b, 51).unwrap();
    ledger.set_balance(u, 3);
    let r = follow_user(&mut ledger, FollowUser { follower: u, following: b }, 2, 4);
    assert_eq!(r, Err(SocialError::InsufficientFunds));
    assert_eq!(profile(&ledger, &b).unwrap().followers_count, 0);
    assert_eq!(ledger.balance(&u), 3);
}

#[test]
fn unfollow_returns_the_deposit() {
    let (a, b) = (key(1), key(2));
    let mut ledger = with_user(&a);
    join(&mut ledger, b, 51).unwrap();
    let start = ledger.balance(&a);
    follow_user(&mut ledger, FollowUser { follower: a, following: b }, 70, 250).unwrap();
    let fa = follow_address(&PROGRAM, &a, &b).unwrap().0;
    assert_eq!(ledger.balance(&a), start - 250);
    assert_eq!(ledger.deposit(&fa), 250);
    unfollow_user(&mut ledger, UnfollowUser { follower: a, following: b }).unwrap();
    assert_eq!(ledger.balance(&a), start);
    assert_eq!(ledger.deposit(&fa), 0);
}

#[test]
fn unlike_returns_the_deposit() {
    let (u, v) = (key(1), key(2));
    let mut ledger = with_user(&u);
    create_text_post(&mut ledger, CreateTextPost { author: u }, "hello".to_string(), 9, None, DEP).unwrap();
    let pa = post_address(&PROGRAM, &u, 9).unwrap().0;
    ledger.set_balance(v, 500);
    like_post(&mut ledger, LikePost { user: v, post: pa }, 5, 120).unwrap();
    assert_eq!(ledger.balance(&v), 380);
    unlike_post(&mut ledger, UnlikePost { user: v, post: pa }).unwrap();
    assert_eq!(ledger.balance(&v), 500);
    let la = like_address(&PROGRAM, &v, &pa).unwrap().0;
    assert_eq!(ledger.deposit(&la), 0);
}

#[test]
fn refund_overflow_is_refused() {
    let (a, b) = (key(1), key(2));
    let mut ledger = with_user(&a);
    join(&mut ledger, b, 51).unwrap();
    follow_user(&mut ledger, FollowUser { follower: a, following: b }, 70, 250).unwrap();
    ledger.set_balance(a, u64::MAX - 100);
    assert_eq!(unfollow_user(&mut ledger, UnfollowUser { follower: a, following: b }), Err(SocialError::BalanceOverflow));
    assert!(ledger.contains(&follow_address(&PROGRAM, &a, &b).unwrap().0));
}

#[test]
fn chunk_signer_is_checked_before_the_chunk_address() {
    let u = key(1);
    let mut ledger = with_user(&u);
    create_image_post(&mut ledger, CreateImagePost { author: u }, "pic".to_string(), 7, None, DEP).unwrap();
    let a = post_address(&PROGRAM, &u, 7).unwrap().0;
    add_image_chunk(&mut ledger, AddImageChunk { post: a, author: u }, vec![1], 0, 1, DEP).unwrap();
    let other = AddImageChunk { post: a, author: key(2) };
    assert_eq!(add_image_chunk(&mut ledger, other, vec![2], 0, 1, DEP), Err(SocialError::AuthorizationMismatch));
}

#[test]
fn mismatched_relations_are_refused() {
    let (a, b) = (key(1), key(2));
    let mut ledger = with_user(&a);
    join(&mut ledger, b, 51).unwrap();
    let fa = follow_address(&PROGRAM, &a, &b).unwrap().0;
    let rel = solcials::records::FollowRelation { follower: b, following: a, timestamp: 0, bump: 0 };
    ledger.insert(fa, Record::Follow(rel));
    assert_eq!(
        unfollow_user(&mut ledger, UnfollowUser { follower: a, following: b }),
        Err(SocialError::AuthorizationMismatch)
    );
    assert!(ledger.contains(&fa));
    create_text_post(&mut ledger, CreateTextPost { author: a }, "hello".to_string(), 3, None, DEP).unwrap();
    let pa = post_address(&PROGRAM, &a, 3).unwrap().0;
    let la = like_address(&PROGRAM, &b, &pa).unwrap().0;
    let like = solcials::records::LikeRelation { user: a, post: pa, timestamp: 0, bump: 0 };
    ledger.insert(la, Record::Like(like));
    assert_eq!(unlike_post(&mut ledger, UnlikePost { user: b, post: pa }), Err(SocialError::AuthorizationMismatch));
    assert!(ledger.contains(&la));
}
