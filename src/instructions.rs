//! The operations on the ledger. Each one checks everything it needs first and
//! changes the ledger only when all checks pass.
use vstd::prelude::*;
use crate::address::{
    Key, chunk_address, chunk_seeds, follow_address, follow_seeds, keys_equal, like_address, like_seeds,
    post_address, post_seeds, profile_address, profile_seeds, program_address,
};
use crate::ledger::{Ledger, amount_of};
use crate::records::{
    ImageChunk, FollowRelation, LikeRelation, MAX_BIO_LEN, MAX_CHUNK_LEN, MAX_CONTENT_LEN,
    MAX_DISPLAY_NAME_LEN, MAX_LOCATION_LEN, MAX_URL_LEN, MAX_USERNAME_LEN, Post, Record, SocialError,
    UserProfile, byte_len, str_len, IMAGE_POST, TEXT_POST,
};

verus! {

/// The profile at `a`, if a profile lives there.
pub open spec fn profile_at(recs: Map<Seq<u8>, Record>, a: Seq<u8>) -> Option<UserProfile> {
    if recs.contains_key(a) {
        match recs[a] {
            Record::Profile(p) => Some(p),
            _ => None,
        }
    } else {
        None
    }
}

/// The post at `a`, if a post lives there.
pub open spec fn post_at(recs: Map<Seq<u8>, Record>, a: Seq<u8>) -> Option<Post> {
    if recs.contains_key(a) {
        match recs[a] {
            Record::Post(p) => Some(p),
            _ => None,
        }
    } else {
        None
    }
}

/// Whether `f` holds a string of more than `max` bytes.
pub open spec fn too_long(f: Option<String>, max: nat) -> bool {
    match f {
        Some(s) => byte_len(s@) > max,
        None => false,
    }
}

/// The new value of an optional field: the supplied one, else the old one.
pub open spec fn replace_if(new: Option<String>, prev: Option<String>) -> Option<String> {
    match new {
        Some(s) => Some(s),
        None => prev,
    }
}

/// The fields of a profile update.
pub struct ProfileFields {
    pub username: Option<String>,
    pub display_name: Option<String>,
    pub bio: Option<String>,
    pub avatar_url: Option<String>,
    pub cover_image_url: Option<String>,
    pub website_url: Option<String>,
    pub location: Option<String>,
}

/// The first field of `f`, in the order of its declaration, that is over
/// its limit, as the error that names it.
pub open spec fn fields_error(f: ProfileFields) -> Option<SocialError> {
    if too_long(f.username, MAX_USERNAME_LEN as nat) {
        Some(SocialError::UsernameTooLong)
    } else if too_long(f.display_name, MAX_DISPLAY_NAME_LEN as nat) {
        Some(SocialError::DisplayNameTooLong)
    } else if too_long(f.bio, MAX_BIO_LEN as nat) {
        Some(SocialError::BioTooLong)
    } else if too_long(f.avatar_url, MAX_URL_LEN as nat) {
        Some(SocialError::AvatarUrlTooLong)
    } else if too_long(f.cover_image_url, MAX_URL_LEN as nat) {
        Some(SocialError::CoverImageUrlTooLong)
    } else if too_long(f.website_url, MAX_URL_LEN as nat) {
        Some(SocialError::WebsiteUrlTooLong)
    } else if too_long(f.location, MAX_LOCATION_LEN as nat) {
        Some(SocialError::LocationTooLong)
    } else {
        None
    }
}

/// `p` with each supplied field of `f` replaced.
pub open spec fn updated_profile(p: UserProfile, f: ProfileFields) -> UserProfile {
    UserProfile {
        username: replace_if(f.username, p.username),
        display_name: replace_if(f.display_name, p.display_name),
        bio: replace_if(f.bio, p.bio),
        avatar_url: replace_if(f.avatar_url, p.avatar_url),
        cover_image_url: replace_if(f.cover_image_url, p.cover_image_url),
        website_url: replace_if(f.website_url, p.website_url),
        location: replace_if(f.location, p.location),
        ..p
    }
}

/// A fresh profile of `user`, made at `now`.
pub open spec fn fresh_profile(user: Key, now: i64, bump: u8) -> UserProfile {
    UserProfile {
        user,
        username: None,
        display_name: None,
        bio: None,
        avatar_url: None,
        cover_image_url: None,
        website_url: None,
        location: None,
        followers_count: 0,
        following_count: 0,
        post_count: 0,
        created_at: now,
        verified: false,
        bump,
    }
}

/// Accounts of `initialize`.
#[derive(Clone, Copy)]
pub struct Initialize {}

/// Accounts of `initialize_user_profile`: the user, who signs.
#[derive(Clone, Copy)]
pub struct InitializeUserProfile {
    pub user: Key,
}

/// Accounts of `update_user_profile`: the user, who signs.
#[derive(Clone, Copy)]
pub struct UpdateUserProfile {
    pub user: Key,
}

/// Announces the program; it changes nothing.
pub fn initialize(ctx: Initialize) -> (r: Result<(), SocialError>)
    ensures
        r == Ok::<(), SocialError>(()),
{
    Ok(())
}

fn check_len(f: &Option<String>, max: usize) -> (r: bool)
    ensures
        r == !too_long(*f, max as nat),
{
    match f {
        Some(s) => str_len(s) <= max,
        None => true,
    }
}

fn validate_fields(f: &ProfileFields) -> (r: Option<SocialError>)
    ensures
        r == fields_error(*f),
{
    if !check_len(&f.username, MAX_USERNAME_LEN) {
        Some(SocialError::UsernameTooLong)
    } else if !check_len(&f.display_name, MAX_DISPLAY_NAME_LEN) {
        Some(SocialError::DisplayNameTooLong)
    } else if !check_len(&f.bio, MAX_BIO_LEN) {
        Some(SocialError::BioTooLong)
    } else if !check_len(&f.avatar_url, MAX_URL_LEN) {
        Some(SocialError::AvatarUrlTooLong)
    } else if !check_len(&f.cover_image_url, MAX_URL_LEN) {
        Some(SocialError::CoverImageUrlTooLong)
    } else if !check_len(&f.website_url, MAX_URL_LEN) {
        Some(SocialError::WebsiteUrlTooLong)
    } else if !check_len(&f.location, MAX_LOCATION_LEN) {
        Some(SocialError::LocationTooLong)
    } else {
        None
    }
}

fn replace_field(new: Option<String>, prev: Option<String>) -> (r: Option<String>)
    ensures
        r == replace_if(new, prev),
{
    match new {
        Some(s) => Some(s),
        None => prev,
    }
}

/// The whole effect of `initialize_user_profile` from the records `before` to the records
/// `after`: on failure nothing changes; on success, a fresh profile of the signer at its derived address.
pub open spec fn initialize_user_profile_effect(
    before: Map<Seq<u8>, Record>,
    after: Map<Seq<u8>, Record>,
    dep_before: Map<Seq<u8>, u64>,
    dep_after: Map<Seq<u8>, u64>,
    bal_before: Map<Seq<u8>, u64>,
    bal_after: Map<Seq<u8>, u64>,
    program_id: Seq<u8>,
    ctx: InitializeUserProfile,
    now: i64,
    deposit: u64,
    r: Result<(), SocialError>,
) -> bool {
    match program_address(profile_seeds(ctx.user@), program_id) {
        None => r == Err::<(), SocialError>(SocialError::InvalidSeeds) && after == before && dep_after == dep_before && bal_after == bal_before,
        Some((a, bump)) => if before.contains_key(a) {
            r == Err::<(), SocialError>(SocialError::AddressAlreadyExists) && after == before && dep_after == dep_before && bal_after == bal_before
        } else if amount_of(bal_before, ctx.user@) < deposit {
            r == Err::<(), SocialError>(SocialError::InsufficientFunds) && after == before && dep_after == dep_before && bal_after == bal_before
        } else {
            &&& r == Ok::<(), SocialError>(())
            &&& after == before.insert(a, Record::Profile(fresh_profile(ctx.user, now, bump)))
            &&& paid(dep_before, dep_after, bal_before, bal_after, ctx.user@, a, deposit)
        },
    }
}

/// Creates the profile of `ctx.user`, with every optional field empty and
/// `created_at` set to `now`.
pub fn initialize_user_profile(
    ledger: &mut Ledger,
    ctx: InitializeUserProfile,
    now: i64,
    deposit: u64,
) -> (r: Result<(), SocialError>)
    requires
        old(ledger).wf(),
    ensures
        final(ledger).wf(),
        final(ledger).id() == old(ledger).id(),
        initialize_user_profile_effect(
            old(ledger).records(),
            final(ledger).records(),
            old(ledger).deposits(),
            final(ledger).deposits(),
            old(ledger).balances(),
            final(ledger).balances(),
            old(ledger).id()@,
            ctx,
            now,
            deposit,
            r,
        ),
{
    let pid = ledger.program_id();
    let (addr, bump) = match profile_address(&pid, &ctx.user) {
        Some(d) => d,
        None => {
            return Err(SocialError::InvalidSeeds);
        },
    };
    if ledger.contains(&addr) {
        return Err(SocialError::AddressAlreadyExists);
    }
    let bal = ledger.balance(&ctx.user);
    if bal < deposit {
        return Err(SocialError::InsufficientFunds);
    }
    let profile = UserProfile {
        user: ctx.user,
        username: None,
        display_name: None,
        bio: None,
        avatar_url: None,
        cover_image_url: None,
        website_url: None,
        location: None,
        followers_count: 0,
        following_count: 0,
        post_count: 0,
        created_at: now,
        verified: false,
        bump,
    };
    ledger.insert(addr, Record::Profile(profile));
    ledger.set_balance(ctx.user, bal - deposit);
    ledger.set_deposit(addr, deposit);
    Ok(())
}

/// What `update_user_profile` owes for the ledger `recs` when it fails, or
/// the profile's address when it succeeds.
pub open spec fn update_profile_check(
    recs: Map<Seq<u8>, Record>,
    program_id: Seq<u8>,
    user: Key,
    f: ProfileFields,
) -> Result<Seq<u8>, SocialError> {
    match program_address(profile_seeds(user@), program_id) {
        None => Err(SocialError::InvalidSeeds),
        Some((a, _)) => match profile_at(recs, a) {
            None => Err(SocialError::AddressNotFound),
            Some(p) => if p.user@ != user@ {
                Err(SocialError::AuthorizationMismatch)
            } else {
                match fields_error(f) {
                    Some(e) => Err(e),
                    None => Ok(a),
                }
            },
        },
    }
}

/// The whole effect of `update_user_profile` from the records `before` to
/// the records `after`: on failure nothing changes; on success, the supplied
/// fields of the signer's profile are replaced and nothing else.
pub open spec fn update_user_profile_effect(
    before: Map<Seq<u8>, Record>,
    after: Map<Seq<u8>, Record>,
    program_id: Seq<u8>,
    ctx: UpdateUserProfile,
    f: ProfileFields,
    r: Result<(), SocialError>,
) -> bool {
    match update_profile_check(before, program_id, ctx.user, f) {
        Err(e) => r == Err::<(), SocialError>(e) && after == before,
        Ok(a) => r == Ok::<(), SocialError>(()) && after == before.insert(
            a,
            Record::Profile(updated_profile(profile_at(before, a).unwrap(), f)),
        ),
    }
}

/// Replaces each supplied field of the signer's profile. Every supplied field
/// is checked before any is written: on a failure the profile is unchanged.
pub fn update_user_profile(
    ledger: &mut Ledger,
    ctx: UpdateUserProfile,
    username: Option<String>,
    display_name: Option<String>,
    bio: Option<String>,
    avatar_url: Option<String>,
    cover_image_url: Option<String>,
    website_url: Option<String>,
    location: Option<String>,
) -> (r: Result<(), SocialError>)
    requires
        old(ledger).wf(),
    ensures
        final(ledger).wf(),
        final(ledger).id() == old(ledger).id(),
        final(ledger).deposits() == old(ledger).deposits(),
        final(ledger).balances() == old(ledger).balances(),
        update_user_profile_effect(
            old(ledger).records(),
            final(ledger).records(),
            old(ledger).id()@,
            ctx,
            (ProfileFields { username, display_name, bio, avatar_url, cover_image_url, website_url, location }),
            r,
        ),
{
    let f = ProfileFields { username, display_name, bio, avatar_url, cover_image_url, website_url, location };
    let pid = ledger.program_id();
    let addr = match profile_address(&pid, &ctx.user) {
        Some((a, _)) => a,
        None => {
            return Err(SocialError::InvalidSeeds);
        },
    };
    match ledger.get(&addr) {
        Some(Record::Profile(p)) => {
            if !keys_equal(&p.user, &ctx.user) {
                return Err(SocialError::AuthorizationMismatch);
            }
        },
        _ => {
            return Err(SocialError::AddressNotFound);
        },
    }
    match validate_fields(&f) {
        Some(e) => {
            return Err(e);
        },
        None => {},
    }
    let ghost before = ledger.records();
    let rec = ledger.remove(&addr);
    let rec = match rec {
        Record::Profile(p) => {
            let mut p = p;
            p.username = replace_field(f.username, p.username);
            p.display_name = replace_field(f.display_name, p.display_name);
            p.bio = replace_field(f.bio, p.bio);
            p.avatar_url = replace_field(f.avatar_url, p.avatar_url);
            p.cover_image_url = replace_field(f.cover_image_url, p.cover_image_url);
            p.website_url = replace_field(f.website_url, p.website_url);
            p.location = replace_field(f.location, p.location);
            Record::Profile(p)
        },
        other => other,
    };
    proof {
        assert(rec == Record::Profile(updated_profile(profile_at(before, addr@).unwrap(), f)));
        assert(before.remove(addr@).insert(addr@, rec) =~= before.insert(addr@, rec));
    }
    ledger.insert(addr, rec);
    Ok(())
}

/// Accounts of `create_text_post`: the author, who signs.
#[derive(Clone, Copy)]
pub struct CreateTextPost {
    pub author: Key,
}

/// Accounts of `create_image_post`: the author, who signs.
#[derive(Clone, Copy)]
pub struct CreateImagePost {
    pub author: Key,
}

/// Accounts of `add_image_chunk`: the post's address and the author, who signs.
#[derive(Clone, Copy)]
pub struct AddImageChunk {
    pub post: Key,
    pub author: Key,
}

/// The error of a post's content, if it has one.
pub open spec fn content_error(content: Seq<char>) -> Option<SocialError> {
    if byte_len(content) > MAX_CONTENT_LEN as nat {
        Some(SocialError::ContentTooLong)
    } else if byte_len(content) == 0 {
        Some(SocialError::ContentEmpty)
    } else {
        None
    }
}

/// What post creation owes for the ledger `recs` when it fails, or the
/// addresses and bump of the new post and the author's profile when it succeeds.
pub open spec fn create_post_check(
    recs: Map<Seq<u8>, Record>,
    program_id: Seq<u8>,
    author: Key,
    content: Seq<char>,
    timestamp: i64,
    balance: u64,
    deposit: u64,
) -> Result<(Seq<u8>, u8, Seq<u8>), SocialError> {
    match (program_address(post_seeds(author@, timestamp), program_id), program_address(profile_seeds(author@), program_id)) {
        (Some((pa, bump)), Some((ua, _))) => if recs.contains_key(pa) {
            Err(SocialError::AddressAlreadyExists)
        } else {
            match profile_at(recs, ua) {
                None => Err(SocialError::AddressNotFound),
                Some(u) => match content_error(content) {
                    Some(e) => Err(e),
                    None => if u.post_count == u64::MAX {
                        Err(SocialError::CounterOverflow)
                    } else if balance < deposit {
                        Err(SocialError::InsufficientFunds)
                    } else {
                        Ok((pa, bump, ua))
                    },
                },
            }
        },
        _ => Err(SocialError::InvalidSeeds),
    }
}

/// `p` is the post just made by `author` from the given values.
pub open spec fn is_new_post(
    p: Post,
    author: Key,
    content: String,
    post_type: u8,
    timestamp: i64,
    reply_to: Option<Key>,
    bump: u8,
) -> bool {
    &&& p.author == author
    &&& p.content == content
    &&& p.post_type == post_type
    &&& p.image_chunks@ == Seq::<Key>::empty()
    &&& p.total_image_chunks == 0
    &&& p.reply_to == reply_to
    &&& p.timestamp == timestamp
    &&& p.likes == 0
    &&& p.reposts == 0
    &&& p.replies == 0
    &&& p.bump == bump
}

/// The whole effect of post creation: on failure nothing changes; on
/// success the post is added and the author's post count goes up by one.
pub open spec fn create_post_effect(
    before: Map<Seq<u8>, Record>,
    after: Map<Seq<u8>, Record>,
    dep_before: Map<Seq<u8>, u64>,
    dep_after: Map<Seq<u8>, u64>,
    bal_before: Map<Seq<u8>, u64>,
    bal_after: Map<Seq<u8>, u64>,
    program_id: Seq<u8>,
    author: Key,
    content: String,
    post_type: u8,
    timestamp: i64,
    reply_to: Option<Key>,
    deposit: u64,
    r: Result<(), SocialError>,
) -> bool {
    match create_post_check(before, program_id, author, content@, timestamp, amount_of(bal_before, author@), deposit) {
        Err(e) => r == Err::<(), SocialError>(e) && after == before && dep_after == dep_before && bal_after == bal_before,
        Ok((pa, bump, ua)) => {
            let u = profile_at(before, ua).unwrap();
            &&& r == Ok::<(), SocialError>(())
            &&& paid(dep_before, dep_after, bal_before, bal_after, author@, pa, deposit)
            &&& post_at(after, pa) matches Some(p) && is_new_post(p, author, content, post_type, timestamp, reply_to, bump)
            &&& after == before.insert(pa, after[pa]).insert(
                ua,
                Record::Profile(UserProfile { post_count: (u.post_count + 1) as u64, ..u }),
            )
        },
    }
}

fn create_post(
    ledger: &mut Ledger,
    author: Key,
    content: String,
    post_type: u8,
    timestamp: i64,
    reply_to: Option<Key>,
    deposit: u64,
) -> (r: Result<(), SocialError>)
    requires
        old(ledger).wf(),
    ensures
        final(ledger).wf(),
        final(ledger).id() == old(ledger).id(),
        create_post_effect(
            old(ledger).records(),
            final(ledger).records(),
            old(ledger).deposits(),
            final(ledger).deposits(),
            old(ledger).balances(),
            final(ledger).balances(),
            old(ledger).id()@,
            author,
            content,
            post_type,
            timestamp,
            reply_to,
            deposit,
            r,
        ),
{
    let pid = ledger.program_id();
    let (post_addr, bump) = match post_address(&pid, &author, timestamp) {
        Some(d) => d,
        None => {
            return Err(SocialError::InvalidSeeds);
        },
    };
    let profile_addr = match profile_address(&pid, &author) {
        Some((a, _)) => a,
        None => {
            return Err(SocialError::InvalidSeeds);
        },
    };
    if ledger.contains(&post_addr) {
        return Err(SocialError::AddressAlreadyExists);
    }
    match ledger.get(&profile_addr) {
        Some(Record::Profile(u)) => {
            let n = str_len(&content);
            if n > MAX_CONTENT_LEN {
                return Err(SocialError::ContentTooLong);
            }
            if n == 0 {
                return Err(SocialError::ContentEmpty);
            }
            if u.post_count == u64::MAX {
                return Err(SocialError::CounterOverflow);
            }
        },
        _ => {
            return Err(SocialError::AddressNotFound);
        },
    }
    let bal = ledger.balance(&author);
    if bal < deposit {
        return Err(SocialError::InsufficientFunds);
    }
    let ghost before = ledger.records();
    let post = Post {
        author,
        content,
        post_type,
        image_chunks: Vec::new(),
        total_image_chunks: 0,
        reply_to,
        timestamp,
        likes: 0,
        reposts: 0,
        replies: 0,
        bump,
    };
    ledger.insert(post_addr, Record::Post(post));
    let rec = match ledger.remove(&profile_addr) {
        Record::Profile(u) => {
            let mut u = u;
            u.post_count = u.post_count + 1;
            Record::Profile(u)
        },
        other => other,
    };
    ledger.insert(profile_addr, rec);
    ledger.set_balance(author, bal - deposit);
    ledger.set_deposit(post_addr, deposit);
    proof {
        let after = ledger.records();
        assert(post_at(after, post_addr@) == Some(post));
        let mid = before.insert(post_addr@, Record::Post(post));
        assert(mid.remove(profile_addr@).insert(profile_addr@, rec) =~= mid.insert(profile_addr@, rec));
    }
    Ok(())
}

/// Creates a text post by the signer, keyed by `timestamp`, and counts it
/// in the author's profile.
pub fn create_text_post(
    ledger: &mut Ledger,
    ctx: CreateTextPost,
    content: String,
    timestamp: i64,
    reply_to: Option<Key>,
    deposit: u64,
) -> (r: Result<(), SocialError>)
    requires
        old(ledger).wf(),
    ensures
        final(ledger).wf(),
        final(ledger).id() == old(ledger).id(),
        create_post_effect(
            old(ledger).records(),
            final(ledger).records(),
            old(ledger).deposits(),
            final(ledger).deposits(),
            old(ledger).balances(),
            final(ledger).balances(),
            old(ledger).id()@,
            ctx.author,
            content,
            TEXT_POST,
            timestamp,
            reply_to,
            deposit,
            r,
        ),
{
    create_post(ledger, ctx.author, content, TEXT_POST, timestamp, reply_to, deposit)
}

/// Creates an image post by the signer, keyed by `timestamp`, and counts it
/// in the author's profile. Its image data comes later, chunk by chunk.
pub fn create_image_post(
    ledger: &mut Ledger,
    ctx: CreateImagePost,
    content: String,
    timestamp: i64,
    reply_to: Option<Key>,
    deposit: u64,
) -> (r: Result<(), SocialError>)
    requires
        old(ledger).wf(),
    ensures
        final(ledger).wf(),
        final(ledger).id() == old(ledger).id(),
        create_post_effect(
            old(ledger).records(),
            final(ledger).records(),
            old(ledger).deposits(),
            final(ledger).deposits(),
            old(ledger).balances(),
            final(ledger).balances(),
            old(ledger).id()@,
            ctx.author,
            content,
            IMAGE_POST,
            timestamp,
            reply_to,
            deposit,
            r,
        ),
{
    create_post(ledger, ctx.author, content, IMAGE_POST, timestamp, reply_to, deposit)
}

/// What `add_image_chunk` owes for the ledger `recs` when it fails, or the
/// chunk's address and bump when it succeeds.
pub open spec fn add_chunk_check(
    recs: Map<Seq<u8>, Record>,
    program_id: Seq<u8>,
    ctx: AddImageChunk,
    data_len: nat,
    chunk_index: u8,
    balance: u64,
    deposit: u64,
) -> Result<(Seq<u8>, u8), SocialError> {
    match post_at(recs, ctx.post@) {
        None => Err(SocialError::AddressNotFound),
        Some(p) => if p.author@ != ctx.author@ {
            Err(SocialError::AuthorizationMismatch)
        } else {
            match program_address(chunk_seeds(ctx.post@, chunk_index), program_id) {
                None => Err(SocialError::InvalidSeeds),
                Some((ca, bump)) => if recs.contains_key(ca) {
                    Err(SocialError::AddressAlreadyExists)
                } else if data_len > MAX_CHUNK_LEN as nat {
                    Err(SocialError::ChunkTooLarge)
                } else if balance < deposit {
                    Err(SocialError::InsufficientFunds)
                } else {
                    Ok((ca, bump))
                },
            }
        },
    }
}

/// `q` is the post `p` with the chunk at `chunk` appended and the declared
/// total set to `total`.
pub open spec fn chunk_appended(p: Post, q: Post, chunk: Seq<u8>, total: u8) -> bool {
    &&& q.image_chunks@.len() == p.image_chunks@.len() + 1
    &&& q.image_chunks@.drop_last() == p.image_chunks@
    &&& q.image_chunks@.last()@ == chunk
    &&& q.total_image_chunks == total
    &&& q.author == p.author
    &&& q.content == p.content
    &&& q.post_type == p.post_type
    &&& q.reply_to == p.reply_to
    &&& q.timestamp == p.timestamp
    &&& q.likes == p.likes
    &&& q.reposts == p.reposts
    &&& q.replies == p.replies
    &&& q.bump == p.bump
}

/// The whole effect of `add_image_chunk` from the records `before` to the records
/// `after`: on failure nothing changes; on success, the chunk stored and listed in its post.
pub open spec fn add_image_chunk_effect(
    before: Map<Seq<u8>, Record>,
    after: Map<Seq<u8>, Record>,
    dep_before: Map<Seq<u8>, u64>,
    dep_after: Map<Seq<u8>, u64>,
    bal_before: Map<Seq<u8>, u64>,
    bal_after: Map<Seq<u8>, u64>,
    program_id: Seq<u8>,
    ctx: AddImageChunk, chunk_data: Vec<u8>, chunk_index: u8, total_chunks: u8, deposit: u64,
    r: Result<(), SocialError>,
) -> bool {
    match add_chunk_check(
        before,
        program_id,
        ctx,
        chunk_data@.len(),
        chunk_index,
        amount_of(bal_before, ctx.author@),
        deposit,
    ) {
        Err(e) => r == Err::<(), SocialError>(e) && after == before && dep_after == dep_before && bal_after == bal_before,
        Ok((ca, bump)) => {
            &&& r == Ok::<(), SocialError>(())
            &&& paid(dep_before, dep_after, bal_before, bal_after, ctx.author@, ca, deposit)
            &&& post_at(after, ctx.post@) matches Some(q) && chunk_appended(
                post_at(before, ctx.post@).unwrap(),
                q,
                ca,
                total_chunks,
            )
            &&& after == before.insert(
                ca,
                Record::Chunk(ImageChunk { post: ctx.post, chunk_index, total_chunks, data: chunk_data, bump }),
            ).insert(ctx.post@, after[ctx.post@])
        },
    }
}

/// Stores one chunk of an image post's data at its own address and lists it
/// in the post. Only the post's author may add chunks. The post's declared
/// total is replaced by `total_chunks`, whatever it was.
pub fn add_image_chunk(
    ledger: &mut Ledger,
    ctx: AddImageChunk,
    chunk_data: Vec<u8>,
    chunk_index: u8,
    total_chunks: u8,
    deposit: u64,
) -> (r: Result<(), SocialError>)
    requires
        old(ledger).wf(),
    ensures
        final(ledger).wf(),
        final(ledger).id() == old(ledger).id(),
        add_image_chunk_effect(
            old(ledger).records(),
            final(ledger).records(),
            old(ledger).deposits(),
            final(ledger).deposits(),
            old(ledger).balances(),
            final(ledger).balances(),
            old(ledger).id()@,
            ctx,
            chunk_data,
            chunk_index,
            total_chunks,
            deposit,
            r,
        ),
{
    match ledger.get(&ctx.post) {
        Some(Record::Post(p)) => {
            if !keys_equal(&p.author, &ctx.author) {
                return Err(SocialError::AuthorizationMismatch);
            }
        },
        _ => {
            return Err(SocialError::AddressNotFound);
        },
    }
    let pid = ledger.program_id();
    let (chunk_addr, bump) = match chunk_address(&pid, &ctx.post, chunk_index) {
        Some(d) => d,
        None => {
            return Err(SocialError::InvalidSeeds);
        },
    };
    if ledger.contains(&chunk_addr) {
        return Err(SocialError::AddressAlreadyExists);
    }
    if chunk_data.len() > MAX_CHUNK_LEN {
        return Err(SocialError::ChunkTooLarge);
    }
    let bal = ledger.balance(&ctx.author);
    if bal < deposit {
        return Err(SocialError::InsufficientFunds);
    }
    let ghost before = ledger.records();
    let chunk = ImageChunk { post: ctx.post, chunk_index, total_chunks, data: chunk_data, bump };
    ledger.insert(chunk_addr, Record::Chunk(chunk));
    let rec = match ledger.remove(&ctx.post) {
        Record::Post(p) => {
            let mut p = p;
            p.image_chunks.push(chunk_addr);
            p.total_image_chunks = total_chunks;
            Record::Post(p)
        },
        other => other,
    };
    let ghost new_rec = rec;
    ledger.insert(ctx.post, rec);
    ledger.set_balance(ctx.author, bal - deposit);
    ledger.set_deposit(chunk_addr, deposit);
    proof {
        let mid = before.insert(chunk_addr@, Record::Chunk(chunk));
        assert(mid.remove(ctx.post@).insert(ctx.post@, rec) =~= mid.insert(ctx.post@, rec));
        assert(ledger.records()[ctx.post@] == rec);
        match new_rec {
            Record::Post(q) => {
                assert(q.image_chunks@.drop_last() =~= post_at(before, ctx.post@).unwrap().image_chunks@);
            },
            _ => {},
        }
    }
    Ok(())
}

/// `payer` paid `deposit` into a new record at `addr`: its balance went down
/// by that much and the record holds it.
pub open spec fn paid(
    dep_before: Map<Seq<u8>, u64>,
    dep_after: Map<Seq<u8>, u64>,
    bal_before: Map<Seq<u8>, u64>,
    bal_after: Map<Seq<u8>, u64>,
    payer: Seq<u8>,
    addr: Seq<u8>,
    deposit: u64,
) -> bool {
    &&& bal_after == bal_before.insert(payer, (amount_of(bal_before, payer) - deposit) as u64)
    &&& dep_after == dep_before.insert(addr, deposit)
}

/// The deposit of the record at `addr` went back to `payer`, and the record
/// holds none any more.
pub open spec fn refunded(
    dep_before: Map<Seq<u8>, u64>,
    dep_after: Map<Seq<u8>, u64>,
    bal_before: Map<Seq<u8>, u64>,
    bal_after: Map<Seq<u8>, u64>,
    payer: Seq<u8>,
    addr: Seq<u8>,
) -> bool {
    &&& bal_after == bal_before.insert(payer, (amount_of(bal_before, payer) + amount_of(dep_before, addr)) as u64)
    &&& dep_after == dep_before.remove(addr)
}

/// Accounts of `follow_user`: the follower, who signs, and the followed user.
#[derive(Clone, Copy)]
pub struct FollowUser {
    pub follower: Key,
    pub following: Key,
}

/// Accounts of `unfollow_user`: the follower, who signs, and the followed user.
#[derive(Clone, Copy)]
pub struct UnfollowUser {
    pub follower: Key,
    pub following: Key,
}

/// The addresses of a follow relation and of the two profiles it joins.
pub open spec fn follow_addresses(program_id: Seq<u8>, follower: Key, following: Key) -> Option<(Seq<u8>, u8, Seq<u8>, Seq<u8>)> {
    match (
        program_address(follow_seeds(follower@, following@), program_id),
        program_address(profile_seeds(follower@), program_id),
        program_address(profile_seeds(following@), program_id),
    ) {
        (Some((fa, bump)), Some((ra, _)), Some((ga, _))) => Some((fa, bump, ra, ga)),
        _ => None,
    }
}

/// What `follow_user` owes for the ledger `recs` when it fails, or the
/// addresses and bump it works with when it succeeds. A user cannot follow
/// themself: the two profiles would be one record.
pub open spec fn follow_check(
    recs: Map<Seq<u8>, Record>,
    program_id: Seq<u8>,
    follower: Key,
    following: Key,
    balance: u64,
    deposit: u64,
) -> Result<(Seq<u8>, u8, Seq<u8>, Seq<u8>), SocialError> {
    match follow_addresses(program_id, follower, following) {
        None => Err(SocialError::InvalidSeeds),
        Some((fa, bump, ra, ga)) => if recs.contains_key(fa) {
            Err(SocialError::AddressAlreadyExists)
        } else if ra == ga {
            Err(SocialError::SelfFollow)
        } else {
            match (profile_at(recs, ra), profile_at(recs, ga)) {
                (Some(r), Some(g)) => if r.following_count == u64::MAX || g.followers_count == u64::MAX {
                    Err(SocialError::CounterOverflow)
                } else if balance < deposit {
                    Err(SocialError::InsufficientFunds)
                } else {
                    Ok((fa, bump, ra, ga))
                },
                _ => Err(SocialError::AddressNotFound),
            }
        },
    }
}

/// What `unfollow_user` owes for the ledger `recs` when it fails, or the
/// addresses it works with when it succeeds.
pub open spec fn unfollow_check(
    recs: Map<Seq<u8>, Record>,
    program_id: Seq<u8>,
    follower: Key,
    following: Key,
    balance: u64,
    refund: u64,
) -> Result<(Seq<u8>, Seq<u8>, Seq<u8>), SocialError> {
    match follow_addresses(program_id, follower, following) {
        None => Err(SocialError::InvalidSeeds),
        Some((fa, _, ra, ga)) => if !(recs.contains_key(fa) && recs[fa] is Follow) {
            Err(SocialError::AddressNotFound)
        } else if !(recs[fa] matches Record::Follow(f) && f.follower@ == follower@ && f.following@ == following@) {
            Err(SocialError::AuthorizationMismatch)
        } else if ra == ga {
            Err(SocialError::SelfFollow)
        } else {
            match (profile_at(recs, ra), profile_at(recs, ga)) {
                (Some(r), Some(g)) => if r.following_count == 0 || g.followers_count == 0 {
                    Err(SocialError::CounterUnderflow)
                } else if balance + refund > u64::MAX {
                    Err(SocialError::BalanceOverflow)
                } else {
                    Ok((fa, ra, ga))
                },
                _ => Err(SocialError::AddressNotFound),
            }
        },
    }
}

/// `p` with its following count set to `n`.
pub open spec fn with_following(p: UserProfile, n: int) -> UserProfile {
    UserProfile { following_count: n as u64, ..p }
}

/// `p` with its followers count set to `n`.
pub open spec fn with_followers(p: UserProfile, n: int) -> UserProfile {
    UserProfile { followers_count: n as u64, ..p }
}

/// The whole effect of `follow_user` from the records `before` to the records
/// `after`: on failure nothing changes; on success, the relation created and counted in both profiles.
pub open spec fn follow_user_effect(
    before: Map<Seq<u8>, Record>,
    after: Map<Seq<u8>, Record>,
    dep_before: Map<Seq<u8>, u64>,
    dep_after: Map<Seq<u8>, u64>,
    bal_before: Map<Seq<u8>, u64>,
    bal_after: Map<Seq<u8>, u64>,
    program_id: Seq<u8>,
    ctx: FollowUser, now: i64, deposit: u64,
    r: Result<(), SocialError>,
) -> bool {
    match follow_check(before, program_id, ctx.follower, ctx.following, amount_of(bal_before, ctx.follower@), deposit) {
        Err(e) => r == Err::<(), SocialError>(e) && after == before && dep_after == dep_before && bal_after == bal_before,
        Ok((fa, bump, ra, ga)) => {
            let fr = profile_at(before, ra).unwrap();
            let gp = profile_at(before, ga).unwrap();
            &&& r == Ok::<(), SocialError>(())
            &&& paid(dep_before, dep_after, bal_before, bal_after, ctx.follower@, fa, deposit)
            &&& after == before.insert(
                fa,
                Record::Follow(FollowRelation { follower: ctx.follower, following: ctx.following, timestamp: now, bump }),
            ).insert(ra, Record::Profile(with_following(fr, fr.following_count + 1))).insert(
                ga,
                Record::Profile(with_followers(gp, gp.followers_count + 1)),
            )
        },
    }
}

/// Makes the signer follow `ctx.following`: creates the relation and counts
/// it in both profiles.
pub fn follow_user(ledger: &mut Ledger, ctx: FollowUser, now: i64, deposit: u64) -> (r: Result<(), SocialError>)
    requires
        old(ledger).wf(),
    ensures
        final(ledger).wf(),
        final(ledger).id() == old(ledger).id(),
        follow_user_effect(
            old(ledger).records(),
            final(ledger).records(),
            old(ledger).deposits(),
            final(ledger).deposits(),
            old(ledger).balances(),
            final(ledger).balances(),
            old(ledger).id()@,
            ctx, now, deposit, r,
        ),
{
    let pid = ledger.program_id();
    let (fa, bump) = match follow_address(&pid, &ctx.follower, &ctx.following) {
        Some(d) => d,
        None => {
            return Err(SocialError::InvalidSeeds);
        },
    };
    let ra = match profile_address(&pid, &ctx.follower) {
        Some((a, _)) => a,
        None => {
            return Err(SocialError::InvalidSeeds);
        },
    };
    let ga = match profile_address(&pid, &ctx.following) {
        Some((a, _)) => a,
        None => {
            return Err(SocialError::InvalidSeeds);
        },
    };
    if ledger.contains(&fa) {
        return Err(SocialError::AddressAlreadyExists);
    }
    if keys_equal(&ra, &ga) {
        return Err(SocialError::SelfFollow);
    }
    let full_r = match ledger.get(&ra) {
        Some(Record::Profile(p)) => p.following_count == u64::MAX,
        _ => {
            return Err(SocialError::AddressNotFound);
        },
    };
    let full_g = match ledger.get(&ga) {
        Some(Record::Profile(p)) => p.followers_count == u64::MAX,
        _ => {
            return Err(SocialError::AddressNotFound);
        },
    };
    if full_r || full_g {
        return Err(SocialError::CounterOverflow);
    }
    let bal = ledger.balance(&ctx.follower);
    if bal < deposit {
        return Err(SocialError::InsufficientFunds);
    }
    let ghost before = ledger.records();
    let rel = FollowRelation { follower: ctx.follower, following: ctx.following, timestamp: now, bump };
    ledger.insert(fa, Record::Follow(rel));
    let rec_r = match ledger.remove(&ra) {
        Record::Profile(p) => {
            let mut p = p;
            p.following_count = p.following_count + 1;
            Record::Profile(p)
        },
        other => other,
    };
    ledger.insert(ra, rec_r);
    let ghost mid2 = ledger.records();
    let rec_g = match ledger.remove(&ga) {
        Record::Profile(p) => {
            let mut p = p;
            p.followers_count = p.followers_count + 1;
            Record::Profile(p)
        },
        other => other,
    };
    ledger.insert(ga, rec_g);
    proof {
        let mid = before.insert(fa@, Record::Follow(rel));
        assert(mid.remove(ra@).insert(ra@, rec_r) =~= mid.insert(ra@, rec_r));
        assert(mid2.remove(ga@).insert(ga@, rec_g) =~= mid2.insert(ga@, rec_g));
    }
    ledger.set_balance(ctx.follower, bal - deposit);
    ledger.set_deposit(fa, deposit);
    Ok(())
}

/// The whole effect of `unfollow_user` from the records `before` to the records
/// `after`: on failure nothing changes; on success, the relation removed and taken off both profiles' counts.
pub open spec fn unfollow_user_effect(
    before: Map<Seq<u8>, Record>,
    after: Map<Seq<u8>, Record>,
    dep_before: Map<Seq<u8>, u64>,
    dep_after: Map<Seq<u8>, u64>,
    bal_before: Map<Seq<u8>, u64>,
    bal_after: Map<Seq<u8>, u64>,
    program_id: Seq<u8>,
    ctx: UnfollowUser,
    r: Result<(), SocialError>,
) -> bool {
    match unfollow_check(
        before,
        program_id,
        ctx.follower,
        ctx.following,
        amount_of(bal_before, ctx.follower@),
        amount_of(dep_before, follow_addresses(program_id, ctx.follower, ctx.following).unwrap().0),
    ) {
        Err(e) => r == Err::<(), SocialError>(e) && after == before && dep_after == dep_before && bal_after == bal_before,
        Ok((fa, ra, ga)) => {
            let fr = profile_at(before, ra).unwrap();
            let gp = profile_at(before, ga).unwrap();
            &&& r == Ok::<(), SocialError>(())
            &&& refunded(dep_before, dep_after, bal_before, bal_after, ctx.follower@, fa)
            &&& after == before.remove(fa).insert(
                ra,
                Record::Profile(with_following(fr, fr.following_count - 1)),
            ).insert(ga, Record::Profile(with_followers(gp, gp.followers_count - 1)))
        },
    }
}

/// Ends the signer's following of `ctx.following`: removes the relation and
/// takes it off both profiles' counts.
pub fn unfollow_user(ledger: &mut Ledger, ctx: UnfollowUser) -> (r: Result<(), SocialError>)
    requires
        old(ledger).wf(),
    ensures
        final(ledger).wf(),
        final(ledger).id() == old(ledger).id(),
        unfollow_user_effect(
            old(ledger).records(),
            final(ledger).records(),
            old(ledger).deposits(),
            final(ledger).deposits(),
            old(ledger).balances(),
            final(ledger).balances(),
            old(ledger).id()@,
            ctx, r,
        ),
{
    let pid = ledger.program_id();
    let fa = match follow_address(&pid, &ctx.follower, &ctx.following) {
        Some((a, _)) => a,
        None => {
            return Err(SocialError::InvalidSeeds);
        },
    };
    let ra = match profile_address(&pid, &ctx.follower) {
        Some((a, _)) => a,
        None => {
            return Err(SocialError::InvalidSeeds);
        },
    };
    let ga = match profile_address(&pid, &ctx.following) {
        Some((a, _)) => a,
        None => {
            return Err(SocialError::InvalidSeeds);
        },
    };
    match ledger.get(&fa) {
        Some(Record::Follow(f)) => {
            if !keys_equal(&f.follower, &ctx.follower) || !keys_equal(&f.following, &ctx.following) {
                return Err(SocialError::AuthorizationMismatch);
            }
        },
        _ => {
            return Err(SocialError::AddressNotFound);
        },
    }
    if keys_equal(&ra, &ga) {
        return Err(SocialError::SelfFollow);
    }
    let empty_r = match ledger.get(&ra) {
        Some(Record::Profile(p)) => p.following_count == 0,
        _ => {
            return Err(SocialError::AddressNotFound);
        },
    };
    let empty_g = match ledger.get(&ga) {
        Some(Record::Profile(p)) => p.followers_count == 0,
        _ => {
            return Err(SocialError::AddressNotFound);
        },
    };
    if empty_r || empty_g {
        return Err(SocialError::CounterUnderflow);
    }
    let bal = ledger.balance(&ctx.follower);
    let refund = ledger.deposit(&fa);
    if refund > u64::MAX - bal {
        return Err(SocialError::BalanceOverflow);
    }
    let _ = ledger.remove(&fa);
    let ghost mid = ledger.records();
    let rec_r = match ledger.remove(&ra) {
        Record::Profile(p) => {
            let mut p = p;
            p.following_count = p.following_count - 1;
            Record::Profile(p)
        },
        other => other,
    };
    ledger.insert(ra, rec_r);
    let ghost mid2 = ledger.records();
    let rec_g = match ledger.remove(&ga) {
        Record::Profile(p) => {
            let mut p = p;
            p.followers_count = p.followers_count - 1;
            Record::Profile(p)
        },
        other => other,
    };
    ledger.insert(ga, rec_g);
    proof {
        assert(mid.remove(ra@).insert(ra@, rec_r) =~= mid.insert(ra@, rec_r));
        assert(mid2.remove(ga@).insert(ga@, rec_g) =~= mid2.insert(ga@, rec_g));
    }
    let _ = ledger.take_deposit(&fa);
    ledger.set_balance(ctx.follower, bal + refund);
    Ok(())
}

/// Accounts of `like_post`: the user, who signs, and the post's address.
#[derive(Clone, Copy)]
pub struct LikePost {
    pub user: Key,
    pub post: Key,
}

/// Accounts of `unlike_post`: the user, who signs, and the post's address.
#[derive(Clone, Copy)]
pub struct UnlikePost {
    pub user: Key,
    pub post: Key,
}

/// `p` with its like count set to `n`.
pub open spec fn with_likes(p: Post, n: int) -> Post {
    Post { likes: n as u64, ..p }
}

/// What `like_post` owes for the ledger `recs` when it fails, or the
/// relation's address and bump when it succeeds.
pub open spec fn like_check(
    recs: Map<Seq<u8>, Record>,
    program_id: Seq<u8>,
    user: Key,
    post: Key,
    balance: u64,
    deposit: u64,
) -> Result<(Seq<u8>, u8), SocialError> {
    match program_address(like_seeds(user@, post@), program_id) {
        None => Err(SocialError::InvalidSeeds),
        Some((la, bump)) => if recs.contains_key(la) {
            Err(SocialError::AddressAlreadyExists)
        } else {
            match post_at(recs, post@) {
                None => Err(SocialError::AddressNotFound),
                Some(p) => if p.likes == u64::MAX {
                    Err(SocialError::CounterOverflow)
                } else if balance < deposit {
                    Err(SocialError::InsufficientFunds)
                } else {
                    Ok((la, bump))
                },
            }
        },
    }
}

/// What `unlike_post` owes for the ledger `recs` when it fails, or the
/// relation's address when it succeeds.
pub open spec fn unlike_check(
    recs: Map<Seq<u8>, Record>,
    program_id: Seq<u8>,
    user: Key,
    post: Key,
    balance: u64,
    refund: u64,
) -> Result<Seq<u8>, SocialError> {
    match program_address(like_seeds(user@, post@), program_id) {
        None => Err(SocialError::InvalidSeeds),
        Some((la, _)) => if !(recs.contains_key(la) && recs[la] is Like) {
            Err(SocialError::AddressNotFound)
        } else if !(recs[la] matches Record::Like(l) && l.user@ == user@ && l.post@ == post@) {
            Err(SocialError::AuthorizationMismatch)
        } else {
            match post_at(recs, post@) {
                None => Err(SocialError::AddressNotFound),
                Some(p) => if p.likes == 0 {
                    Err(SocialError::CounterUnderflow)
                } else if balance + refund > u64::MAX {
                    Err(SocialError::BalanceOverflow)
                } else {
                    Ok(la)
                },
            }
        },
    }
}

/// The whole effect of `like_post` from the records `before` to the records
/// `after`: on failure nothing changes; on success, the relation created and counted on the post.
pub open spec fn like_post_effect(
    before: Map<Seq<u8>, Record>,
    after: Map<Seq<u8>, Record>,
    dep_before: Map<Seq<u8>, u64>,
    dep_after: Map<Seq<u8>, u64>,
    bal_before: Map<Seq<u8>, u64>,
    bal_after: Map<Seq<u8>, u64>,
    program_id: Seq<u8>,
    ctx: LikePost, now: i64, deposit: u64,
    r: Result<(), SocialError>,
) -> bool {
    match like_check(before, program_id, ctx.user, ctx.post, amount_of(bal_before, ctx.user@), deposit) {
        Err(e) => r == Err::<(), SocialError>(e) && after == before && dep_after == dep_before && bal_after == bal_before,
        Ok((la, bump)) => {
            let p = post_at(before, ctx.post@).unwrap();
            &&& r == Ok::<(), SocialError>(())
            &&& paid(dep_before, dep_after, bal_before, bal_after, ctx.user@, la, deposit)
            &&& after == before.insert(
                la,
                Record::Like(LikeRelation { user: ctx.user, post: ctx.post, timestamp: now, bump }),
            ).insert(ctx.post@, Record::Post(with_likes(p, p.likes + 1)))
        },
    }
}

/// Records that the signer likes the post at `ctx.post` and counts the like
/// on the post.
pub fn like_post(ledger: &mut Ledger, ctx: LikePost, now: i64, deposit: u64) -> (r: Result<(), SocialError>)
    requires
        old(ledger).wf(),
    ensures
        final(ledger).wf(),
        final(ledger).id() == old(ledger).id(),
        like_post_effect(
            old(ledger).records(),
            final(ledger).records(),
            old(ledger).deposits(),
            final(ledger).deposits(),
            old(ledger).balances(),
            final(ledger).balances(),
            old(ledger).id()@,
            ctx, now, deposit, r,
        ),
{
    let pid = ledger.program_id();
    let (la, bump) = match like_address(&pid, &ctx.user, &ctx.post) {
        Some(d) => d,
        None => {
            return Err(SocialError::InvalidSeeds);
        },
    };
    if ledger.contains(&la) {
        return Err(SocialError::AddressAlreadyExists);
    }
    match ledger.get(&ctx.post) {
        Some(Record::Post(p)) => {
            if p.likes == u64::MAX {
                return Err(SocialError::CounterOverflow);
            }
        },
        _ => {
            return Err(SocialError::AddressNotFound);
        },
    }
    let bal = ledger.balance(&ctx.user);
    if bal < deposit {
        return Err(SocialError::InsufficientFunds);
    }
    let ghost before = ledger.records();
    let rel = LikeRelation { user: ctx.user, post: ctx.post, timestamp: now, bump };
    ledger.insert(la, Record::Like(rel));
    let rec = match ledger.remove(&ctx.post) {
        Record::Post(p) => {
            let mut p = p;
            p.likes = p.likes + 1;
            Record::Post(p)
        },
        other => other,
    };
    ledger.insert(ctx.post, rec);
    proof {
        let mid = before.insert(la@, Record::Like(rel));
        assert(mid.remove(ctx.post@).insert(ctx.post@, rec) =~= mid.insert(ctx.post@, rec));
    }
    ledger.set_balance(ctx.user, bal - deposit);
    ledger.set_deposit(la, deposit);
    Ok(())
}

/// The whole effect of `unlike_post` from the records `before` to the records
/// `after`: on failure nothing changes; on success, the relation removed and taken off the post's count.
pub open spec fn unlike_post_effect(
    before: Map<Seq<u8>, Record>,
    after: Map<Seq<u8>, Record>,
    dep_before: Map<Seq<u8>, u64>,
    dep_after: Map<Seq<u8>, u64>,
    bal_before: Map<Seq<u8>, u64>,
    bal_after: Map<Seq<u8>, u64>,
    program_id: Seq<u8>,
    ctx: UnlikePost,
    r: Result<(), SocialError>,
) -> bool {
    match unlike_check(
        before,
        program_id,
        ctx.user,
        ctx.post,
        amount_of(bal_before, ctx.user@),
        amount_of(dep_before, program_address(like_seeds(ctx.user@, ctx.post@), program_id).unwrap().0),
    ) {
        Err(e) => r == Err::<(), SocialError>(e) && after == before && dep_after == dep_before && bal_after == bal_before,
        Ok(la) => {
            let p = post_at(before, ctx.post@).unwrap();
            &&& r == Ok::<(), SocialError>(())
            &&& refunded(dep_before, dep_after, bal_before, bal_after, ctx.user@, la)
            &&& after == before.remove(la).insert(
                ctx.post@,
                Record::Post(with_likes(p, p.likes - 1)),
            )
        },
    }
}

/// Withdraws the signer's like of the post at `ctx.post`: removes the
/// relation and takes the like off the post's count.
pub fn unlike_post(ledger: &mut Ledger, ctx: UnlikePost) -> (r: Result<(), SocialError>)
    requires
        old(ledger).wf(),
    ensures
        final(ledger).wf(),
        final(ledger).id() == old(ledger).id(),
        unlike_post_effect(
            old(ledger).records(),
            final(ledger).records(),
            old(ledger).deposits(),
            final(ledger).deposits(),
            old(ledger).balances(),
            final(ledger).balances(),
            old(ledger).id()@,
            ctx, r,
        ),
{
    let pid = ledger.program_id();
    let la = match like_address(&pid, &ctx.user, &ctx.post) {
        Some((a, _)) => a,
        None => {
            return Err(SocialError::InvalidSeeds);
        },
    };
    match ledger.get(&la) {
        Some(Record::Like(l)) => {
            if !keys_equal(&l.user, &ctx.user) || !keys_equal(&l.post, &ctx.post) {
                return Err(SocialError::AuthorizationMismatch);
            }
        },
        _ => {
            return Err(SocialError::AddressNotFound);
        },
    }
    match ledger.get(&ctx.post) {
        Some(Record::Post(p)) => {
            if p.likes == 0 {
                return Err(SocialError::CounterUnderflow);
            }
        },
        _ => {
            return Err(SocialError::AddressNotFound);
        },
    }
    let bal = ledger.balance(&ctx.user);
    let refund = ledger.deposit(&la);
    if refund > u64::MAX - bal {
        return Err(SocialError::BalanceOverflow);
    }
    let _ = ledger.remove(&la);
    let ghost mid = ledger.records();
    let rec = match ledger.remove(&ctx.post) {
        Record::Post(p) => {
            let mut p = p;
            p.likes = p.likes - 1;
            Record::Post(p)
        },
        other => other,
    };
    ledger.insert(ctx.post, rec);
    proof {
        assert(mid.remove(ctx.post@).insert(ctx.post@, rec) =~= mid.insert(ctx.post@, rec));
    }
    let _ = ledger.take_deposit(&la);
    ledger.set_balance(ctx.user, bal + refund);
    Ok(())
}

} // verus!
