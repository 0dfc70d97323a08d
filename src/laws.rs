//! Laws that relate the operations to one another, proved from their
//! contracts.
use vstd::prelude::*;
use crate::address::{Key, follow_seeds, like_seeds, post_seeds, profile_seeds, program_address};
use crate::instructions::{
    FollowUser, LikePost, post_at, with_likes, ProfileFields, UnfollowUser, UnlikePost, UpdateUserProfile, create_post_effect,
    follow_addresses, follow_user_effect, like_post_effect, profile_at, too_long, unfollow_user_effect,
    unlike_post_effect, update_user_profile_effect, with_followers, with_following,
};
use crate::ledger::amount_of;
use crate::records::{MAX_BIO_LEN, MAX_CONTENT_LEN, Record, SocialError, byte_len};

verus! {

/// Address derivation is a function: the same seeds under the same program
/// give the same address and bump.
pub proof fn derivation_is_deterministic(seeds_a: Seq<Seq<u8>>, program_a: Seq<u8>, seeds_b: Seq<Seq<u8>>, program_b: Seq<u8>)
    requires
        seeds_a == seeds_b,
        program_a == program_b,
    ensures
        program_address(seeds_a, program_a) == program_address(seeds_b, program_b),
{
}

/// With a free address, a profile to count it in and funds for the deposit,
/// post creation succeeds exactly when the content has 1 to 280 bytes;
/// otherwise it fails with the error that names the problem, leaves no
/// record at the post's address and charges nothing.
pub proof fn content_length_decides_post_creation(
    before: Map<Seq<u8>, Record>,
    after: Map<Seq<u8>, Record>,
    dep_before: Map<Seq<u8>, u64>,
    dep_after: Map<Seq<u8>, u64>,
    bal_before: Map<Seq<u8>, u64>,
    bal_after: Map<Seq<u8>, u64>,
    program_id: Seq<u8>,
    author: Key,
    content: String,
    post_type: u8,
    timestamp: i64,
    reply_to: Option<Key>,
    deposit: u64,
    r: Result<(), SocialError>,
)
    requires
        create_post_effect(
            before,
            after,
            dep_before,
            dep_after,
            bal_before,
            bal_after,
            program_id,
            author,
            content,
            post_type,
            timestamp,
            reply_to,
            deposit,
            r,
        ),
        program_address(post_seeds(author@, timestamp), program_id) is Some,
        program_address(profile_seeds(author@), program_id) is Some,
        !before.contains_key(program_address(post_seeds(author@, timestamp), program_id).unwrap().0),
        profile_at(before, program_address(profile_seeds(author@), program_id).unwrap().0) matches Some(
            u,
        ) && u.post_count < u64::MAX,
        amount_of(bal_before, author@) >= deposit,
    ensures
        r is Ok <==> 1 <= byte_len(content@) <= MAX_CONTENT_LEN,
        byte_len(content@) == 0 ==> r == Err::<(), SocialError>(SocialError::ContentEmpty),
        byte_len(content@) > MAX_CONTENT_LEN ==> r == Err::<(), SocialError>(SocialError::ContentTooLong),
        r is Err ==> dep_after == dep_before && bal_after == bal_before,
        r is Err ==> !after.contains_key(program_address(post_seeds(author@, timestamp), program_id).unwrap().0),
{
}

/// Following and then unfollowing the same ordered pair puts every record
/// back as it was: both profiles' counters return to their earlier values,
/// no follow relation is left, and the follower gets the deposit back, so
/// their balance is what it was.
pub proof fn follow_then_unfollow_restores(
    before: Map<Seq<u8>, Record>,
    mid: Map<Seq<u8>, Record>,
    after: Map<Seq<u8>, Record>,
    dep_before: Map<Seq<u8>, u64>,
    dep_mid: Map<Seq<u8>, u64>,
    dep_after: Map<Seq<u8>, u64>,
    bal_before: Map<Seq<u8>, u64>,
    bal_mid: Map<Seq<u8>, u64>,
    bal_after: Map<Seq<u8>, u64>,
    program_id: Seq<u8>,
    follower: Key,
    following: Key,
    now: i64,
    deposit: u64,
    r1: Result<(), SocialError>,
    r2: Result<(), SocialError>,
)
    requires
        follow_user_effect(
            before,
            mid,
            dep_before,
            dep_mid,
            bal_before,
            bal_mid,
            program_id,
            FollowUser { follower, following },
            now,
            deposit,
            r1,
        ),
        r1 is Ok,
        unfollow_user_effect(
            mid,
            after,
            dep_mid,
            dep_after,
            bal_mid,
            bal_after,
            program_id,
            UnfollowUser { follower, following },
            r2,
        ),
    ensures
        r2 is Ok,
        after == before,
        !after.contains_key(program_address(follow_seeds(follower@, following@), program_id).unwrap().0),
        bal_after == bal_before.insert(follower@, amount_of(bal_before, follower@)),
        dep_after == dep_before.remove(program_address(follow_seeds(follower@, following@), program_id).unwrap().0),
{
    let (fa, bump, ra, ga) = follow_addresses(program_id, follower, following).unwrap();
    let fr = profile_at(before, ra).unwrap();
    let gp = profile_at(before, ga).unwrap();
    assert(mid[fa] is Follow);
    assert(profile_at(mid, ra) == Some(with_following(fr, fr.following_count + 1)));
    assert(profile_at(mid, ga) == Some(with_followers(gp, gp.followers_count + 1)));
    assert(amount_of(dep_mid, fa) == deposit);
    assert(amount_of(bal_mid, follower@) == amount_of(bal_before, follower@) - deposit);
    assert(after =~= before);
    assert(bal_after =~= bal_before.insert(follower@, amount_of(bal_before, follower@)));
    assert(dep_after =~= dep_before.remove(fa));
}

/// Liking and then unliking a post puts every record back as it was, the
/// post's like count included, and the user gets the deposit back; a second
/// unlike then fails and changes nothing, so a like is never taken off
/// twice.
pub proof fn like_then_unlike_restores(
    before: Map<Seq<u8>, Record>,
    mid: Map<Seq<u8>, Record>,
    after: Map<Seq<u8>, Record>,
    again: Map<Seq<u8>, Record>,
    dep_before: Map<Seq<u8>, u64>,
    dep_mid: Map<Seq<u8>, u64>,
    dep_after: Map<Seq<u8>, u64>,
    dep_again: Map<Seq<u8>, u64>,
    bal_before: Map<Seq<u8>, u64>,
    bal_mid: Map<Seq<u8>, u64>,
    bal_after: Map<Seq<u8>, u64>,
    bal_again: Map<Seq<u8>, u64>,
    program_id: Seq<u8>,
    user: Key,
    post: Key,
    now: i64,
    deposit: u64,
    r1: Result<(), SocialError>,
    r2: Result<(), SocialError>,
    r3: Result<(), SocialError>,
)
    requires
        like_post_effect(
            before,
            mid,
            dep_before,
            dep_mid,
            bal_before,
            bal_mid,
            program_id,
            LikePost { user, post },
            now,
            deposit,
            r1,
        ),
        r1 is Ok,
        unlike_post_effect(mid, after, dep_mid, dep_after, bal_mid, bal_after, program_id, UnlikePost { user, post }, r2),
        unlike_post_effect(
            after,
            again,
            dep_after,
            dep_again,
            bal_after,
            bal_again,
            program_id,
            UnlikePost { user, post },
            r3,
        ),
    ensures
        r2 is Ok,
        after == before,
        bal_after == bal_before.insert(user@, amount_of(bal_before, user@)),
        dep_after == dep_before.remove(program_address(like_seeds(user@, post@), program_id).unwrap().0),
        r3 == Err::<(), SocialError>(SocialError::AddressNotFound),
        again == after,
        bal_again == bal_after,
        dep_again == dep_after,
{
    let (la, bump) = program_address(like_seeds(user@, post@), program_id).unwrap();
    let p = post_at(before, post@).unwrap();
    assert(mid[la] is Like);
    assert(post_at(mid, post@) == Some(with_likes(p, p.likes + 1)));
    assert(amount_of(dep_mid, la) == deposit);
    assert(amount_of(bal_mid, user@) == amount_of(bal_before, user@) - deposit);
    assert(after =~= before);
    assert(bal_after =~= bal_before.insert(user@, amount_of(bal_before, user@)));
    assert(dep_after =~= dep_before.remove(la));
}

/// Following a user whom one already follows fails as an address that
/// already exists, and changes nothing.
pub proof fn follow_twice_fails(
    before: Map<Seq<u8>, Record>,
    after: Map<Seq<u8>, Record>,
    dep_before: Map<Seq<u8>, u64>,
    dep_after: Map<Seq<u8>, u64>,
    bal_before: Map<Seq<u8>, u64>,
    bal_after: Map<Seq<u8>, u64>,
    program_id: Seq<u8>,
    follower: Key,
    following: Key,
    now: i64,
    deposit: u64,
    r: Result<(), SocialError>,
)
    requires
        follow_user_effect(
            before,
            after,
            dep_before,
            dep_after,
            bal_before,
            bal_after,
            program_id,
            FollowUser { follower, following },
            now,
            deposit,
            r,
        ),
        follow_addresses(program_id, follower, following) matches Some((fa, _, _, _)) && before.contains_key(fa),
    ensures
        r == Err::<(), SocialError>(SocialError::AddressAlreadyExists),
        after == before,
        dep_after == dep_before,
        bal_after == bal_before,
{
}

/// An update that supplies only `bio` leaves the six other fields as they
/// were and sets `bio`.
pub proof fn bio_only_update_keeps_other_fields(
    before: Map<Seq<u8>, Record>,
    after: Map<Seq<u8>, Record>,
    program_id: Seq<u8>,
    user: Key,
    bio: String,
    r: Result<(), SocialError>,
)
    requires
        update_user_profile_effect(
            before,
            after,
            program_id,
            UpdateUserProfile { user },
            (ProfileFields {
                username: None,
                display_name: None,
                bio: Some(bio),
                avatar_url: None,
                cover_image_url: None,
                website_url: None,
                location: None,
            }),
            r,
        ),
        r is Ok,
    ensures
        ({
            let a = program_address(profile_seeds(user@), program_id).unwrap().0;
            let p = profile_at(before, a).unwrap();
            let q = profile_at(after, a).unwrap();
            &&& profile_at(after, a) is Some
            &&& q.username == p.username
            &&& q.display_name == p.display_name
            &&& q.bio == Some(bio)
            &&& q.avatar_url == p.avatar_url
            &&& q.cover_image_url == p.cover_image_url
            &&& q.website_url == p.website_url
            &&& q.location == p.location
            &&& q.user == p.user
            &&& q.followers_count == p.followers_count
            &&& q.following_count == p.following_count
            &&& q.post_count == p.post_count
            &&& q.created_at == p.created_at
            &&& q.verified == p.verified
            &&& after == before.insert(a, Record::Profile(q))
        }),
{
}

/// An update whose bio is over 160 bytes fails and leaves every record as it
/// was, including the fields supplied before the bio in the same call. Where
/// the profile exists and the fields before the bio are within their limits,
/// the error is the bio's.
pub proof fn overlong_bio_changes_nothing(
    before: Map<Seq<u8>, Record>,
    after: Map<Seq<u8>, Record>,
    program_id: Seq<u8>,
    ctx: UpdateUserProfile,
    f: ProfileFields,
    r: Result<(), SocialError>,
)
    requires
        update_user_profile_effect(before, after, program_id, ctx, f, r),
        too_long(f.bio, MAX_BIO_LEN as nat),
    ensures
        r is Err,
        after == before,
        ({
            match program_address(profile_seeds(ctx.user@), program_id) {
                Some((a, _)) => (profile_at(before, a) matches Some(p) && p.user@ == ctx.user@ && !too_long(
                    f.username,
                    crate::records::MAX_USERNAME_LEN as nat,
                ) && !too_long(f.display_name, crate::records::MAX_DISPLAY_NAME_LEN as nat)) ==> r
                    == Err::<(), SocialError>(SocialError::BioTooLong),
                None => true,
            }
        }),
{
}

} // verus!
