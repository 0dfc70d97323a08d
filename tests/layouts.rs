use solcials::layout::{
    check_kind, decode_follow_relation, decode_image_chunk, decode_post, decode_user_profile, decode_like_relation, encode_follow_relation, encode_image_chunk, encode_like_relation,
    encode_post, encode_user_profile, LayoutError, RecordKind, FOLLOW_RELATION_SPACE, IMAGE_CHUNK_SPACE, POST_SPACE,
    USER_PROFILE_SPACE,
};
use solcials::records::{FollowRelation, ImageChunk, LikeRelation, Post, UserProfile};

fn tag(name: &str) -> Vec<u8> {
    let d = anchor_lang::solana_program::hash::hash(format!("account:{}", name).as_bytes()).to_bytes();
    d[..8].to_vec()
}

fn follow() -> FollowRelation {
    FollowRelation { follower: [1u8; 32], following: [2u8; 32], timestamp: -1000, bump: 254 }
}

fn profile() -> UserProfile {
    UserProfile {
        user: [3u8; 32],
        username: Some("ab".to_string()),
        display_name: None,
        bio: None,
        avatar_url: None,
        cover_image_url: None,
        website_url: None,
        location: None,
        followers_count: 1,
        following_count: 2,
        post_count: 258,
        created_at: 5,
        verified: false,
        bump: 9,
    }
}

#[test]
fn follow_relation_layout_bytes() {
    let b = encode_follow_relation(&follow());
    assert_eq!(b.len(), FOLLOW_RELATION_SPACE);
    assert_eq!(&b[..8], &tag("FollowRelation")[..]);
    assert_eq!(&b[8..40], &[1u8; 32]);
    assert_eq!(&b[40..72], &[2u8; 32]);
    assert_eq!(&b[72..80], &(-1000i64).to_le_bytes());
    assert_eq!(b[80], 254);
}

#[test]
fn follow_relation_round_trip() {
    let f = follow();
    let g = decode_follow_relation(&encode_follow_relation(&f)).unwrap();
    assert_eq!((g.follower, g.following, g.timestamp, g.bump), (f.follower, f.following, f.timestamp, f.bump));
}

#[test]
fn like_relation_round_trip() {
    let l = LikeRelation { user: [4u8; 32], post: [5u8; 32], timestamp: i64::MAX, bump: 1 };
    let b = encode_like_relation(&l);
    assert_eq!(&b[..8], &tag("LikeRelation")[..]);
    let m = decode_like_relation(&b).unwrap();
    assert_eq!((m.user, m.post, m.timestamp, m.bump), (l.user, l.post, l.timestamp, l.bump));
}

#[test]
fn decoding_checks_kind_and_length() {
    let b = encode_follow_relation(&follow());
    assert_eq!(decode_like_relation(&b).err(), Some(LayoutError::KindMismatch));
    assert_eq!(decode_follow_relation(&vec![0u8; 4]).err(), Some(LayoutError::KindMismatch));
    let mut longer = b.clone();
    longer.push(0);
    assert_eq!(decode_follow_relation(&longer).err(), Some(LayoutError::WrongLength));
}

#[test]
fn profile_layout_bytes() {
    let b = encode_user_profile(&profile());
    let mut want = tag("UserProfile");
    want.extend_from_slice(&[3u8; 32]);
    want.extend_from_slice(&[1, 2, 0, 0, 0, b'a', b'b']);
    want.extend_from_slice(&[0; 6]);
    want.extend_from_slice(&1u64.to_le_bytes());
    want.extend_from_slice(&2u64.to_le_bytes());
    want.extend_from_slice(&258u64.to_le_bytes());
    want.extend_from_slice(&5i64.to_le_bytes());
    want.extend_from_slice(&[0, 9]);
    assert_eq!(b, want);
}

#[test]
fn fullest_profile_fits_its_space() {
    let mut p = profile();
    p.username = Some("u".repeat(50));
    p.display_name = Some("d".repeat(50));
    p.bio = Some("b".repeat(160));
    p.avatar_url = Some("a".repeat(200));
    p.cover_image_url = Some("c".repeat(200));
    p.website_url = Some("w".repeat(200));
    p.location = Some("l".repeat(100));
    assert_eq!(encode_user_profile(&p).len(), USER_PROFILE_SPACE);
}

#[test]
fn post_layout_size() {
    let p = Post {
        author: [6u8; 32],
        content: "x".repeat(280),
        post_type: 1,
        image_chunks: vec![],
        total_image_chunks: 0,
        reply_to: Some([7u8; 32]),
        timestamp: 1000,
        likes: 0,
        reposts: 0,
        replies: 0,
        bump: 3,
    };
    let b = encode_post(&p);
    assert_eq!(b.len(), POST_SPACE);
    assert_eq!(&b[..8], &tag("Post")[..]);
    assert_eq!(&b[40..44], &280u32.to_le_bytes());
    let mut q = p;
    q.image_chunks = vec![[8u8; 32], [9u8; 32]];
    q.reply_to = None;
    assert_eq!(encode_post(&q).len(), POST_SPACE + 64 - 32);
}

#[test]
fn chunk_layout_size() {
    let c = ImageChunk { post: [1u8; 32], chunk_index: 2, total_chunks: 3, data: vec![7u8; 9216], bump: 4 };
    let b = encode_image_chunk(&c);
    assert_eq!(b.len(), IMAGE_CHUNK_SPACE);
    assert_eq!(&b[..8], &tag("ImageChunk")[..]);
    assert_eq!(&b[40..46], &[2, 3, 0, 0x24, 0, 0]);
}

#[test]
fn kind_check_reads_the_tag() {
    let b = encode_user_profile(&profile());
    assert_eq!(check_kind(&b, RecordKind::UserProfile), Ok(()));
    assert_eq!(check_kind(&b, RecordKind::Post), Err(LayoutError::KindMismatch));
    assert_eq!(check_kind(&b[..7].to_vec(), RecordKind::UserProfile), Err(LayoutError::KindMismatch));
    let f = encode_follow_relation(&follow());
    assert_eq!(check_kind(&f, RecordKind::FollowRelation), Ok(()));
    assert_eq!(check_kind(&f, RecordKind::LikeRelation), Err(LayoutError::KindMismatch));
}

#[test]
fn post_round_trip() {
    let p = Post {
        author: [6u8; 32],
        content: "héllo".to_string(),
        post_type: 1,
        image_chunks: vec![[8u8; 32], [9u8; 32]],
        total_image_chunks: 4,
        reply_to: Some([7u8; 32]),
        timestamp: -5,
        likes: 3,
        reposts: 2,
        replies: 1,
        bump: 250,
    };
    let q = decode_post(&encode_post(&p)).unwrap();
    assert_eq!((q.author, q.content.as_str(), q.post_type), (p.author, "héllo", 1));
    assert_eq!(q.image_chunks, p.image_chunks);
    assert_eq!((q.total_image_chunks, q.reply_to, q.timestamp), (4, p.reply_to, -5));
    assert_eq!((q.likes, q.reposts, q.replies, q.bump), (3, 2, 1, 250));
}

#[test]
fn profile_round_trip() {
    let mut p = profile();
    p.bio = Some("bio".to_string());
    p.location = Some("Porto".to_string());
    p.verified = true;
    let q = decode_user_profile(&encode_user_profile(&p)).unwrap();
    assert_eq!(q.user, p.user);
    assert_eq!(q.username, p.username);
    assert_eq!(q.display_name, None);
    assert_eq!(q.bio, p.bio);
    assert_eq!(q.location, p.location);
    assert_eq!((q.followers_count, q.following_count, q.post_count, q.created_at), (1, 2, 258, 5));
    assert!(q.verified);
    assert_eq!(q.bump, 9);
}

#[test]
fn chunk_round_trip() {
    let c = ImageChunk { post: [1u8; 32], chunk_index: 2, total_chunks: 3, data: vec![5, 6, 7], bump: 4 };
    let d = decode_image_chunk(&encode_image_chunk(&c)).unwrap();
    assert_eq!((d.post, d.chunk_index, d.total_chunks, d.data, d.bump), (c.post, 2, 3, vec![5, 6, 7], 4));
}

#[test]
fn malformed_records_are_refused() {
    let b = encode_user_profile(&profile());
    assert_eq!(decode_post(&b).err(), Some(LayoutError::KindMismatch));
    let mut short = b.clone();
    short.pop();
    assert_eq!(decode_user_profile(&short).err(), Some(LayoutError::Malformed));
    let mut bad_utf8 = b.clone();
    bad_utf8[45] = 0xff;
    assert_eq!(decode_user_profile(&bad_utf8).err(), Some(LayoutError::Malformed));
    let mut bad_flag = b.clone();
    let n = bad_flag.len();
    bad_flag[n - 2] = 2;
    assert_eq!(decode_user_profile(&bad_flag).err(), Some(LayoutError::Malformed));
    let c = ImageChunk { post: [1u8; 32], chunk_index: 0, total_chunks: 1, data: vec![1, 2], bump: 0 };
    let mut longer = encode_image_chunk(&c);
    longer.push(0);
    assert_eq!(decode_image_chunk(&longer).err(), Some(LayoutError::Malformed));
}
