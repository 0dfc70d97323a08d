//! The record kinds, their field limits and the library's error type.
use vstd::prelude::*;
use crate::address::Key;

verus! {

/// Most bytes of a post's content.
pub const MAX_CONTENT_LEN: usize = 280;
/// Most bytes of a username.
pub const MAX_USERNAME_LEN: usize = 50;
/// Most bytes of a display name.
pub const MAX_DISPLAY_NAME_LEN: usize = 50;
/// Most bytes of a bio.
pub const MAX_BIO_LEN: usize = 160;
/// Most bytes of an avatar, cover image or website URL.
pub const MAX_URL_LEN: usize = 200;
/// Most bytes of a location.
pub const MAX_LOCATION_LEN: usize = 100;
/// Most bytes of image data in one chunk.
pub const MAX_CHUNK_LEN: usize = 9216;

/// Kind tag of a text post.
pub const TEXT_POST: u8 = 0;
/// Kind tag of an image post.
pub const IMAGE_POST: u8 = 1;

/// A post, kept at the address derived from its author and timestamp.
pub struct Post {
    pub author: Key,
    pub content: String,
    pub post_type: u8,
    pub image_chunks: Vec<Key>,
    pub total_image_chunks: u8,
    pub reply_to: Option<Key>,
    pub timestamp: i64,
    pub likes: u64,
    pub reposts: u64,
    pub replies: u64,
    pub bump: u8,
}

/// One piece of an image post's data.
pub struct ImageChunk {
    pub post: Key,
    pub chunk_index: u8,
    pub total_chunks: u8,
    pub data: Vec<u8>,
    pub bump: u8,
}

/// A user's profile, one per user key.
pub struct UserProfile {
    pub user: Key,
    pub username: Option<String>,
    pub display_name: Option<String>,
    pub bio: Option<String>,
    pub avatar_url: Option<String>,
    pub cover_image_url: Option<String>,
    pub website_url: Option<String>,
    pub location: Option<String>,
    pub followers_count: u64,
    pub following_count: u64,
    pub post_count: u64,
    pub created_at: i64,
    pub verified: bool,
    pub bump: u8,
}

/// The record whose existence means "`follower` follows `following`".
pub struct FollowRelation {
    pub follower: Key,
    pub following: Key,
    pub timestamp: i64,
    pub bump: u8,
}

/// The record whose existence means "`user` likes `post`".
pub struct LikeRelation {
    pub user: Key,
    pub post: Key,
    pub timestamp: i64,
    pub bump: u8,
}

/// Why an operation was refused. A refused operation changes nothing.
#[derive(Debug, Clone, Copy, PartialEq, Eq, Structural)]
pub enum SocialError {
    ContentTooLong,
    ContentEmpty,
    UsernameTooLong,
    BioTooLong,
    AvatarUrlTooLong,
    DisplayNameTooLong,
    LocationTooLong,
    WebsiteUrlTooLong,
    CoverImageUrlTooLong,
    ImageArraysMismatch,
    TooManyImages,
    ChunkTooLarge,
    /// A record already lives at the address to be created.
    AddressAlreadyExists,
    /// No record of the needed kind lives at a referenced address.
    AddressNotFound,
    /// The signer is not the party the operation requires.
    AuthorizationMismatch,
    /// A counter would go below zero.
    CounterUnderflow,
    /// A counter would go past its largest value.
    CounterOverflow,
    /// No address can be derived from the given key material.
    InvalidSeeds,
    /// A post is not an image post.
    NotImagePost,
    /// A user cannot follow themself.
    SelfFollow,
    /// The payer's balance does not cover a new record's deposit.
    InsufficientFunds,
    /// A refunded deposit would take a balance past its largest value.
    BalanceOverflow,
}

/// A record of any kind, as the ledger holds it.
pub enum Record {
    Post(Post),
    Profile(UserProfile),
    Follow(FollowRelation),
    Like(LikeRelation),
    Chunk(ImageChunk),
}

/// Number of bytes of a string's UTF-8 encoding.
pub open spec fn byte_len(s: Seq<char>) -> nat {
    vstd::utf8::encode_utf8(s).len()
}

/// Number of bytes of `s`.
pub fn str_len(s: &String) -> (r: usize)
    ensures
        r == byte_len(s@),
{
    s.as_str().as_bytes().len()
}

} // verus!
