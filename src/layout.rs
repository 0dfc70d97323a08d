//! The byte layout of each record: an eight-byte kind tag, then the fields
//! in order, integers little-endian, strings and lists behind a four-byte
//! length, optional values behind a presence byte.
use vstd::prelude::*;
use vstd::utf8::{encode_utf8, encode_utf8_valid_utf8, valid_utf8};
use vstd::arithmetic::div_mod::{lemma_fundamental_div_mod_converse, lemma_mod_breakdown};
use crate::address::{Key, le_bytes, i64_le_bytes};
use crate::records::{
    FollowRelation, ImageChunk, LikeRelation, MAX_BIO_LEN, MAX_CHUNK_LEN, MAX_CONTENT_LEN, MAX_DISPLAY_NAME_LEN,
    MAX_LOCATION_LEN, MAX_URL_LEN, MAX_USERNAME_LEN, Post, UserProfile, byte_len,
};

verus! {

/// The SHA-256 digest of `data`.
pub uninterp spec fn sha256_of(data: Seq<u8>) -> Seq<u8>;

/// Relies on `solana_program::hash::hash` (re-exported by anchor-lang): the
/// SHA-256 digest of `data`, a function of `data` alone.
#[verifier::external_body]
fn sha256(data: &Vec<u8>) -> (r: Key)
    ensures
        r@ == sha256_of(data@),
{
    anchor_lang::solana_program::hash::hash(data).to_bytes()
}

/// The bytes of "account:Post", whose digest begins each Post record.
pub open spec fn post_name() -> Seq<u8> {
    seq![97u8, 99u8, 99u8, 111u8, 117u8, 110u8, 116u8, 58u8, 80u8, 111u8, 115u8, 116u8]
}

/// The bytes of "account:ImageChunk", whose digest begins each ImageChunk record.
pub open spec fn imagechunk_name() -> Seq<u8> {
    seq![97u8, 99u8, 99u8, 111u8, 117u8, 110u8, 116u8, 58u8, 73u8, 109u8, 97u8, 103u8, 101u8, 67u8, 104u8, 117u8, 110u8, 107u8]
}

/// The bytes of "account:UserProfile", whose digest begins each UserProfile record.
pub open spec fn userprofile_name() -> Seq<u8> {
    seq![97u8, 99u8, 99u8, 111u8, 117u8, 110u8, 116u8, 58u8, 85u8, 115u8, 101u8, 114u8, 80u8, 114u8, 111u8, 102u8, 105u8, 108u8, 101u8]
}

/// The bytes of "account:FollowRelation", whose digest begins each FollowRelation record.
pub open spec fn followrelation_name() -> Seq<u8> {
    seq![97u8, 99u8, 99u8, 111u8, 117u8, 110u8, 116u8, 58u8, 70u8, 111u8, 108u8, 108u8, 111u8, 119u8, 82u8, 101u8, 108u8, 97u8, 116u8, 105u8, 111u8, 110u8]
}

/// The bytes of "account:LikeRelation", whose digest begins each LikeRelation record.
pub open spec fn likerelation_name() -> Seq<u8> {
    seq![97u8, 99u8, 99u8, 111u8, 117u8, 110u8, 116u8, 58u8, 76u8, 105u8, 107u8, 101u8, 82u8, 101u8, 108u8, 97u8, 116u8, 105u8, 111u8, 110u8]
}

/// The kind tag of the records named by `name`: the first eight bytes of
/// its digest.
pub open spec fn tag_of(name: Seq<u8>) -> Seq<u8> {
    Seq::new(8, |i: int| sha256_of(name)[i])
}

fn post_name_bytes() -> (r: Vec<u8>)
    ensures
        r@ == post_name(),
{
    let r: Vec<u8> = vec![97u8, 99u8, 99u8, 111u8, 117u8, 110u8, 116u8, 58u8, 80u8, 111u8, 115u8, 116u8];
    assert(r@ =~= post_name());
    r
}

fn imagechunk_name_bytes() -> (r: Vec<u8>)
    ensures
        r@ == imagechunk_name(),
{
    let r: Vec<u8> = vec![97u8, 99u8, 99u8, 111u8, 117u8, 110u8, 116u8, 58u8, 73u8, 109u8, 97u8, 103u8, 101u8, 67u8, 104u8, 117u8, 110u8, 107u8];
    assert(r@ =~= imagechunk_name());
    r
}

fn userprofile_name_bytes() -> (r: Vec<u8>)
    ensures
        r@ == userprofile_name(),
{
    let r: Vec<u8> = vec![97u8, 99u8, 99u8, 111u8, 117u8, 110u8, 116u8, 58u8, 85u8, 115u8, 101u8, 114u8, 80u8, 114u8, 111u8, 102u8, 105u8, 108u8, 101u8];
    assert(r@ =~= userprofile_name());
    r
}

fn followrelation_name_bytes() -> (r: Vec<u8>)
    ensures
        r@ == followrelation_name(),
{
    let r: Vec<u8> = vec![97u8, 99u8, 99u8, 111u8, 117u8, 110u8, 116u8, 58u8, 70u8, 111u8, 108u8, 108u8, 111u8, 119u8, 82u8, 101u8, 108u8, 97u8, 116u8, 105u8, 111u8, 110u8];
    assert(r@ =~= followrelation_name());
    r
}

fn likerelation_name_bytes() -> (r: Vec<u8>)
    ensures
        r@ == likerelation_name(),
{
    let r: Vec<u8> = vec![97u8, 99u8, 99u8, 111u8, 117u8, 110u8, 116u8, 58u8, 76u8, 105u8, 107u8, 101u8, 82u8, 101u8, 108u8, 97u8, 116u8, 105u8, 111u8, 110u8];
    assert(r@ =~= likerelation_name());
    r
}

fn tag_bytes(name: &Vec<u8>) -> (r: Vec<u8>)
    ensures
        r@ == tag_of(name@),
        r@.len() == 8,
{
    let d = sha256(name);
    let mut r: Vec<u8> = Vec::new();
    let mut i: usize = 0;
    while i < 8
        invariant
            i <= 8,
            d@.len() == 32,
            r@ == d@.subrange(0, i as int),
        decreases 8 - i,
    {
        r.push(d[i]);
        assert(d@.subrange(0, i + 1) == d@.subrange(0, i as int).push(d@[i as int]));
        i = i + 1;
    }
    assert(r@ =~= tag_of(name@));
    r
}

/// Appends the low `n` bytes of `v`, least significant first.
fn put_le(out: &mut Vec<u8>, v: u64, n: usize)
    requires
        n <= 8,
    ensures
        final(out)@ == old(out)@ + le_bytes(v as nat, n as nat),
{
    let mut rest: u64 = v;
    let mut k: usize = 0;
    while k < n
        invariant
            k <= n,
            out@ + le_bytes(rest as nat, (n - k) as nat) == old(out)@ + le_bytes(v as nat, n as nat),
        decreases n - k,
    {
        let ghost before = out@;
        out.push((rest % 256) as u8);
        proof {
            let tail = le_bytes((rest / 256) as nat, (n - k - 1) as nat);
            assert(le_bytes(rest as nat, (n - k) as nat) == seq![(rest % 256) as u8] + tail);
            assert(before + (seq![(rest % 256) as u8] + tail) == out@ + tail);
        }
        rest = rest / 256;
        k = k + 1;
    }
    assert(out@ + le_bytes(rest as nat, 0) == out@);
}

/// Appends the bytes of `b`.
fn put_bytes(out: &mut Vec<u8>, b: &[u8])
    ensures
        final(out)@ == old(out)@ + b@,
{
    let mut i: usize = 0;
    while i < b.len()
        invariant
            i <= b@.len(),
            out@ == old(out)@ + b@.subrange(0, i as int),
        decreases b@.len() - i,
    {
        out.push(b[i]);
        assert(b@.subrange(0, i + 1) == b@.subrange(0, i as int).push(b@[i as int]));
        i = i + 1;
    }
    assert(b@.subrange(0, b@.len() as int) == b@);
}

/// Appends a key's 32 bytes.
fn put_key(out: &mut Vec<u8>, k: &Key)
    ensures
        final(out)@ == old(out)@ + k@,
{
    put_bytes(out, k.as_slice());
}

/// The layout of a follow relation.
pub open spec fn follow_relation_bytes(f: FollowRelation) -> Seq<u8> {
    tag_of(followrelation_name()) + f.follower@ + f.following@ + i64_le_bytes(f.timestamp) + seq![f.bump]
}

/// The layout of a like relation.
pub open spec fn like_relation_bytes(l: LikeRelation) -> Seq<u8> {
    tag_of(likerelation_name()) + l.user@ + l.post@ + i64_le_bytes(l.timestamp) + seq![l.bump]
}

/// Lays out a follow relation.
pub fn encode_follow_relation(f: &FollowRelation) -> (r: Vec<u8>)
    ensures
        r@ == follow_relation_bytes(*f),
{
    let mut out = tag_bytes(&followrelation_name_bytes());
    put_key(&mut out, &f.follower);
    put_key(&mut out, &f.following);
    put_le(&mut out, f.timestamp as u64, 8);
    out.push(f.bump);
    out
}

/// Lays out a like relation.
pub fn encode_like_relation(l: &LikeRelation) -> (r: Vec<u8>)
    ensures
        r@ == like_relation_bytes(*l),
{
    let mut out = tag_bytes(&likerelation_name_bytes());
    put_key(&mut out, &l.user);
    put_key(&mut out, &l.post);
    put_le(&mut out, l.timestamp as u64, 8);
    out.push(l.bump);
    out
}

/// A string: its byte count in four bytes, then its UTF-8 bytes.
pub open spec fn str_bytes(s: Seq<char>) -> Seq<u8> {
    le_bytes(byte_len(s), 4) + vstd::utf8::encode_utf8(s)
}

/// An optional string: a zero byte when absent, else a one byte and the string.
pub open spec fn opt_str_bytes(o: Option<String>) -> Seq<u8> {
    match o {
        Some(s) => seq![1u8] + str_bytes(s@),
        None => seq![0u8],
    }
}

/// An optional key: a zero byte when absent, else a one byte and the key.
pub open spec fn opt_key_bytes(o: Option<Key>) -> Seq<u8> {
    match o {
        Some(k) => seq![1u8] + k@,
        None => seq![0u8],
    }
}

/// The keys of `v`, one after another.
pub open spec fn keys_concat(v: Seq<Key>) -> Seq<u8>
    decreases v.len(),
{
    if v.len() == 0 {
        seq![]
    } else {
        keys_concat(v.drop_last()) + v.last()@
    }
}

/// A list of keys: its length in four bytes, then the keys.
pub open spec fn keys_bytes(v: Seq<Key>) -> Seq<u8> {
    le_bytes(v.len(), 4) + keys_concat(v)
}

/// A list of bytes: its length in four bytes, then the bytes.
pub open spec fn data_bytes(v: Seq<u8>) -> Seq<u8> {
    le_bytes(v.len(), 4) + v
}

/// Appends a string with its length. Its byte count must fit in four bytes.
fn put_str(out: &mut Vec<u8>, s: &String)
    requires
        byte_len(s@) <= u32::MAX,
    ensures
        final(out)@ == old(out)@ + str_bytes(s@),
{
    let b = s.as_str().as_bytes();
    put_le(out, b.len() as u64, 4);
    put_bytes(out, b);
}

/// Appends an optional string.
fn put_opt_str(out: &mut Vec<u8>, o: &Option<String>)
    requires
        o matches Some(s) ==> byte_len(s@) <= u32::MAX,
    ensures
        final(out)@ == old(out)@ + opt_str_bytes(*o),
{
    match o {
        Some(s) => {
            out.push(1u8);
            put_str(out, s);
        },
        None => {
            out.push(0u8);
        },
    }
}

/// Appends an optional key.
fn put_opt_key(out: &mut Vec<u8>, o: &Option<Key>)
    ensures
        final(out)@ == old(out)@ + opt_key_bytes(*o),
{
    match o {
        Some(k) => {
            out.push(1u8);
            put_key(out, k);
        },
        None => {
            out.push(0u8);
        },
    }
}

/// Appends a list of keys with its length, which must fit in four bytes.
fn put_keys(out: &mut Vec<u8>, v: &Vec<Key>)
    requires
        v@.len() <= u32::MAX,
    ensures
        final(out)@ == old(out)@ + keys_bytes(v@),
{
    put_le(out, v.len() as u64, 4);
    let ghost start = out@;
    let mut i: usize = 0;
    while i < v.len()
        invariant
            i <= v@.len(),
            out@ == start + keys_concat(v@.subrange(0, i as int)),
        decreases v@.len() - i,
    {
        put_key(out, &v[i]);
        assert(v@.subrange(0, i + 1).drop_last() == v@.subrange(0, i as int));
        i = i + 1;
    }
    assert(v@.subrange(0, v@.len() as int) == v@);
}

/// Appends a list of bytes with its length, which must fit in four bytes.
fn put_data(out: &mut Vec<u8>, v: &Vec<u8>)
    requires
        v@.len() <= u32::MAX,
    ensures
        final(out)@ == old(out)@ + data_bytes(v@),
{
    put_le(out, v.len() as u64, 4);
    put_bytes(out, v.as_slice());
}

/// The layout of a post.
pub open spec fn post_bytes(p: Post) -> Seq<u8> {
    tag_of(post_name()) + p.author@ + str_bytes(p.content@) + seq![p.post_type] + keys_bytes(p.image_chunks@)
        + seq![p.total_image_chunks] + opt_key_bytes(p.reply_to) + i64_le_bytes(p.timestamp) + le_bytes(
        p.likes as nat,
        8,
    ) + le_bytes(p.reposts as nat, 8) + le_bytes(p.replies as nat, 8) + seq![p.bump]
}

/// The layout of an image chunk.
pub open spec fn image_chunk_bytes(c: ImageChunk) -> Seq<u8> {
    tag_of(imagechunk_name()) + c.post@ + seq![c.chunk_index, c.total_chunks] + data_bytes(c.data@) + seq![c.bump]
}

/// The layout of a user profile.
pub open spec fn user_profile_bytes(p: UserProfile) -> Seq<u8> {
    tag_of(userprofile_name()) + p.user@ + opt_str_bytes(p.username) + opt_str_bytes(p.display_name)
        + opt_str_bytes(p.bio) + opt_str_bytes(p.avatar_url) + opt_str_bytes(p.cover_image_url) + opt_str_bytes(
        p.website_url,
    ) + opt_str_bytes(p.location) + le_bytes(p.followers_count as nat, 8) + le_bytes(p.following_count as nat, 8)
        + le_bytes(p.post_count as nat, 8) + i64_le_bytes(p.created_at) + seq![if p.verified { 1u8 } else { 0u8 }]
        + seq![p.bump]
}

/// Each string field of `p` has a byte count that fits in four bytes.
pub open spec fn profile_encodable(p: UserProfile) -> bool {
    &&& p.username matches Some(s) ==> byte_len(s@) <= u32::MAX
    &&& p.display_name matches Some(s) ==> byte_len(s@) <= u32::MAX
    &&& p.bio matches Some(s) ==> byte_len(s@) <= u32::MAX
    &&& p.avatar_url matches Some(s) ==> byte_len(s@) <= u32::MAX
    &&& p.cover_image_url matches Some(s) ==> byte_len(s@) <= u32::MAX
    &&& p.website_url matches Some(s) ==> byte_len(s@) <= u32::MAX
    &&& p.location matches Some(s) ==> byte_len(s@) <= u32::MAX
}

/// Lays out a post. Its content's byte count and its number of chunks must
/// fit in four bytes.
pub fn encode_post(p: &Post) -> (r: Vec<u8>)
    requires
        byte_len(p.content@) <= u32::MAX,
        p.image_chunks@.len() <= u32::MAX,
    ensures
        r@ == post_bytes(*p),
{
    let mut out = tag_bytes(&post_name_bytes());
    put_key(&mut out, &p.author);
    put_str(&mut out, &p.content);
    out.push(p.post_type);
    put_keys(&mut out, &p.image_chunks);
    out.push(p.total_image_chunks);
    put_opt_key(&mut out, &p.reply_to);
    put_le(&mut out, p.timestamp as u64, 8);
    put_le(&mut out, p.likes, 8);
    put_le(&mut out, p.reposts, 8);
    put_le(&mut out, p.replies, 8);
    out.push(p.bump);
    out
}

/// Lays out an image chunk. Its data's length must fit in four bytes.
pub fn encode_image_chunk(c: &ImageChunk) -> (r: Vec<u8>)
    requires
        c.data@.len() <= u32::MAX,
    ensures
        r@ == image_chunk_bytes(*c),
{
    let mut out = tag_bytes(&imagechunk_name_bytes());
    put_key(&mut out, &c.post);
    out.push(c.chunk_index);
    out.push(c.total_chunks);
    put_data(&mut out, &c.data);
    out.push(c.bump);
    out
}

/// Lays out a user profile. Each string's byte count must fit in four bytes.
pub fn encode_user_profile(p: &UserProfile) -> (r: Vec<u8>)
    requires
        profile_encodable(*p),
    ensures
        r@ == user_profile_bytes(*p),
{
    let mut out = tag_bytes(&userprofile_name_bytes());
    put_key(&mut out, &p.user);
    put_opt_str(&mut out, &p.username);
    put_opt_str(&mut out, &p.display_name);
    put_opt_str(&mut out, &p.bio);
    put_opt_str(&mut out, &p.avatar_url);
    put_opt_str(&mut out, &p.cover_image_url);
    put_opt_str(&mut out, &p.website_url);
    put_opt_str(&mut out, &p.location);
    put_le(&mut out, p.followers_count, 8);
    put_le(&mut out, p.following_count, 8);
    put_le(&mut out, p.post_count, 8);
    put_le(&mut out, p.created_at as u64, 8);
    out.push(if p.verified { 1u8 } else { 0u8 });
    out.push(p.bump);
    out
}

/// Why a byte blob is not a record of the expected kind.
#[derive(Debug, Clone, Copy, PartialEq, Eq, Structural)]
pub enum LayoutError {
    /// The kind tag names another kind of record.
    KindMismatch,
    /// The blob's length is not that of the record.
    WrongLength,
    /// The blob's fields do not fit its length, or a string in it is not
    /// UTF-8.
    Malformed,
}

/// The number that the bytes of `s` spell, least significant first.
pub open spec fn le_value(s: Seq<u8>) -> nat
    decreases s.len(),
{
    if s.len() == 0 {
        0
    } else {
        s[0] as nat + 256 * le_value(s.drop_first())
    }
}

/// 256 to the power `n`.
pub open spec fn pow256(n: nat) -> nat
    decreases n,
{
    if n == 0 {
        1
    } else {
        256 * pow256((n - 1) as nat)
    }
}

proof fn lemma_pow256_pos(n: nat)
    ensures
        pow256(n) > 0,
    decreases n,
{
    if n > 0 {
        lemma_pow256_pos((n - 1) as nat);
    }
}

proof fn lemma_pow256_8()
    ensures
        pow256(8) == 0x1_0000_0000_0000_0000,
{
    reveal_with_fuel(pow256, 9);
}

proof fn lemma_le_bytes_value(v: nat, n: nat)
    ensures
        le_bytes(v, n).len() == n,
        le_value(le_bytes(v, n)) == v % pow256(n),
    decreases n,
{
    if n > 0 {
        lemma_le_bytes_value(v / 256, (n - 1) as nat);
        lemma_pow256_pos((n - 1) as nat);
        let s = le_bytes(v, n);
        assert(s.drop_first() =~= le_bytes(v / 256, (n - 1) as nat));
        lemma_mod_breakdown(v as int, 256, pow256((n - 1) as nat) as int);
    }
}

proof fn lemma_le_value_bytes(s: Seq<u8>)
    ensures
        le_bytes(le_value(s), s.len()) == s,
    decreases s.len(),
{
    if s.len() > 0 {
        let rest = s.drop_first();
        lemma_le_value_bytes(rest);
        lemma_fundamental_div_mod_converse(le_value(s) as int, 256, le_value(rest) as int, s[0] as int);
        assert(le_bytes(le_value(s), s.len()) =~= seq![s[0]] + rest);
        assert(seq![s[0]] + rest =~= s);
    }
}

proof fn lemma_le_value_bound(s: Seq<u8>)
    ensures
        le_value(s) < pow256(s.len()),
    decreases s.len(),
{
    if s.len() > 0 {
        lemma_le_value_bound(s.drop_first());
        let a = s[0] as nat;
        let b = le_value(s.drop_first());
        let m = pow256(s.drop_first().len());
        assert(a + 256 * b < 256 * m) by (nonlinear_arith)
            requires
                a < 256,
                b < m,
        ;
    }
}

proof fn lemma_pow256_mono(a: nat, b: nat)
    requires
        a <= b,
    ensures
        pow256(a) <= pow256(b),
    decreases b - a,
{
    if a < b {
        lemma_pow256_mono(a, (b - 1) as nat);
        lemma_pow256_pos((b - 1) as nat);
    }
}

/// Reads `n` bytes of `b` from `pos` as a little-endian number.
fn get_le(b: &Vec<u8>, pos: usize, n: usize) -> (r: u64)
    requires
        n <= 8,
        pos + n <= b@.len(),
    ensures
        r == le_value(b@.subrange(pos as int, pos + n)),
{
    let len = b.len();
    let mut acc: u64 = 0;
    let mut k: usize = n;
    while k > 0
        invariant
            len == b@.len(),
            k <= n <= 8,
            pos + n <= b@.len(),
            acc == le_value(b@.subrange(pos + k, pos + n)),
        decreases k,
    {
        let ghost tail = b@.subrange(pos + k, pos + n);
        proof {
            lemma_le_value_bound(tail);
            lemma_pow256_mono(tail.len(), 7);
            lemma_pow256_8();
            reveal_with_fuel(pow256, 2);
            assert(pow256(8) == 256 * pow256(7));
            let byte = b@[pos + k - 1] as nat;
            assert(byte + 256 * (acc as nat) < 0x1_0000_0000_0000_0000) by (nonlinear_arith)
                requires
                    byte < 256,
                    acc < pow256(7),
                    pow256(8) == 256 * pow256(7),
                    pow256(8) == 0x1_0000_0000_0000_0000,
            ;
        }
        acc = b[pos + k - 1] as u64 + 256 * acc;
        k = k - 1;
        assert(b@.subrange(pos + k, pos + n).drop_first() =~= tail);
    }
    acc
}

/// Copies the 32 bytes of `b` from `pos` into a key.
fn get_key(b: &Vec<u8>, pos: usize) -> (r: Key)
    requires
        pos + 32 <= b@.len(),
    ensures
        r@ == b@.subrange(pos as int, pos + 32),
{
    let len = b.len();
    let mut r: Key = [0u8; 32];
    let mut i: usize = 0;
    while i < 32
        invariant
            len == b@.len(),
            i <= 32,
            pos + 32 <= b@.len(),
            r@.len() == 32,
            forall|j: int| 0 <= j < i ==> r@[j] == b@[pos + j],
        decreases 32 - i,
    {
        r[i] = b[pos + i];
        i = i + 1;
    }
    assert(r@ =~= b@.subrange(pos as int, pos + 32));
    r
}

fn starts_with(b: &Vec<u8>, prefix: &Vec<u8>) -> (r: bool)
    ensures
        r == (prefix@.len() <= b@.len() && b@.subrange(0, prefix@.len() as int) == prefix@),
{
    if prefix.len() > b.len() {
        return false;
    }
    let mut i: usize = 0;
    while i < prefix.len()
        invariant
            i <= prefix@.len() <= b@.len(),
            forall|j: int| 0 <= j < i ==> b@[j] == prefix@[j],
        decreases prefix@.len() - i,
    {
        if b[i] != prefix[i] {
            assert(b@.subrange(0, prefix@.len() as int)[i as int] != prefix@[i as int]);
            return false;
        }
        i = i + 1;
    }
    assert(b@.subrange(0, prefix@.len() as int) =~= prefix@);
    true
}

/// Length of a laid-out follow or like relation.
pub const RELATION_LEN: usize = 81;

proof fn lemma_relation_fields(a: Key, b: Key, t: i64, bump: u8, tag: Seq<u8>)
    requires
        tag.len() == 8,
    ensures
        ({
            let s = tag + a@ + b@ + i64_le_bytes(t) + seq![bump];
            &&& s.len() == RELATION_LEN
            &&& s.subrange(0, 8) == tag
            &&& s.subrange(8, 40) == a@
            &&& s.subrange(40, 72) == b@
            &&& le_value(s.subrange(72, 80)) == t as u64
            &&& s[80] == bump
        }),
{
    let s = tag + a@ + b@ + i64_le_bytes(t) + seq![bump];
    lemma_le_bytes_value((t as u64) as nat, 8);
    lemma_pow256_8();
    assert(s.subrange(0, 8) =~= tag);
    assert(s.subrange(8, 40) =~= a@);
    assert(s.subrange(40, 72) =~= b@);
    assert(s.subrange(72, 80) =~= i64_le_bytes(t));
}

/// Reads a follow relation. The blob must hold the follow relation kind tag
/// and have the layout's length; then it is the layout of exactly one
/// relation, which is returned.
pub fn decode_follow_relation(b: &Vec<u8>) -> (r: Result<FollowRelation, LayoutError>)
    ensures
        match r {
            Ok(f) => b@ == follow_relation_bytes(f),
            Err(LayoutError::KindMismatch) => !(8 <= b@.len() && b@.subrange(0, 8) == tag_of(followrelation_name())),
            Err(LayoutError::WrongLength) => 8 <= b@.len() && b@.subrange(0, 8) == tag_of(followrelation_name())
                && b@.len() != RELATION_LEN,
            Err(LayoutError::Malformed) => false,
        },
{
    let tag = tag_bytes(&followrelation_name_bytes());
    if !starts_with(b, &tag) {
        return Err(LayoutError::KindMismatch);
    }
    if b.len() != RELATION_LEN {
        return Err(LayoutError::WrongLength);
    }
    let follower = get_key(b, 8);
    let following = get_key(b, 40);
    let ts = get_le(b, 72, 8);
    let f = FollowRelation { follower, following, timestamp: #[verifier::truncate] (ts as i64), bump: b[80] };
    proof {
        lemma_le_bytes_value(ts as nat, 8);
        lemma_pow256_8();
        assert(((#[verifier::truncate] (ts as i64)) as u64) == ts) by (bit_vector);
        lemma_le_value_bytes(b@.subrange(72, 80));
        assert(b@ =~= follow_relation_bytes(f));
    }
    Ok(f)
}

/// Reads a like relation. The blob must hold the like relation kind tag
/// and have the layout's length; then it is the layout of exactly one
/// relation, which is returned.
pub fn decode_like_relation(b: &Vec<u8>) -> (r: Result<LikeRelation, LayoutError>)
    ensures
        match r {
            Ok(f) => b@ == like_relation_bytes(f),
            Err(LayoutError::KindMismatch) => !(8 <= b@.len() && b@.subrange(0, 8) == tag_of(likerelation_name())),
            Err(LayoutError::WrongLength) => 8 <= b@.len() && b@.subrange(0, 8) == tag_of(likerelation_name())
                && b@.len() != RELATION_LEN,
            Err(LayoutError::Malformed) => false,
        },
{
    let tag = tag_bytes(&likerelation_name_bytes());
    if !starts_with(b, &tag) {
        return Err(LayoutError::KindMismatch);
    }
    if b.len() != RELATION_LEN {
        return Err(LayoutError::WrongLength);
    }
    let user = get_key(b, 8);
    let post = get_key(b, 40);
    let ts = get_le(b, 72, 8);
    let f = LikeRelation { user, post, timestamp: #[verifier::truncate] (ts as i64), bump: b[80] };
    proof {
        lemma_le_bytes_value(ts as nat, 8);
        lemma_pow256_8();
        assert(((#[verifier::truncate] (ts as i64)) as u64) == ts) by (bit_vector);
        lemma_le_value_bytes(b@.subrange(72, 80));
        assert(b@ =~= like_relation_bytes(f));
    }
    Ok(f)
}

/// Worst-case size of a laid-out follow relation.
pub const FOLLOW_RELATION_SPACE: usize = 8 + 32 + 32 + 8 + 1;
/// Worst-case size of a laid-out like relation.
pub const LIKE_RELATION_SPACE: usize = 8 + 32 + 32 + 8 + 1;
/// Worst-case size of a laid-out image chunk.
pub const IMAGE_CHUNK_SPACE: usize = 8 + 32 + 1 + 1 + 4 + 9216 + 1;
/// Worst-case size of a laid-out user profile: every optional field present
/// at its longest.
pub const USER_PROFILE_SPACE: usize = 8 + 32 + 5 + 50 + 5 + 50 + 5 + 160 + 5 + 200 + 5 + 200 + 5 + 200 + 5 + 100 + 8 + 8
    + 8 + 8 + 1 + 1;
/// Worst-case size of a laid-out post that lists no image chunk; each
/// listed chunk adds 32 bytes.
pub const POST_SPACE: usize = 8 + 32 + 4 + 280 + 1 + 4 + 1 + 33 + 8 + 8 + 8 + 8 + 1;

proof fn lemma_keys_concat_len(v: Seq<Key>)
    ensures
        keys_concat(v).len() == 32 * v.len(),
    decreases v.len(),
{
    if v.len() > 0 {
        lemma_keys_concat_len(v.drop_last());
    }
}

/// Whether an optional string, when present, has at most `max` bytes.
pub open spec fn within(o: Option<String>, max: nat) -> bool {
    match o {
        Some(s) => byte_len(s@) <= max,
        None => true,
    }
}

proof fn lemma_opt_str_len(o: Option<String>, max: nat)
    requires
        within(o, max),
    ensures
        opt_str_bytes(o).len() <= 5 + max,
{
    if let Some(s) = o {
        lemma_le_bytes_value(byte_len(s@), 4);
    }
}

proof fn lemma_same_key(a: Key, b: Key)
    requires
        a@ == b@,
    ensures
        a == b,
{
    assert forall|i: int| 0 <= i < 32 implies a[i] == b[i] by {
        assert(a@[i] == b@[i]);
    }
    assert(a =~= b);
}

/// Two follow relations with the same layout are the same relation, so
/// reading a laid-out relation gives back the relation that was laid out.
pub proof fn follow_layout_is_injective(f: FollowRelation, g: FollowRelation)
    requires
        follow_relation_bytes(f) == follow_relation_bytes(g),
    ensures
        f == g,
{
    let tag = tag_of(followrelation_name());
    lemma_relation_fields(f.follower, f.following, f.timestamp, f.bump, tag);
    lemma_relation_fields(g.follower, g.following, g.timestamp, g.bump, tag);
    lemma_same_key(f.follower, g.follower);
    lemma_same_key(f.following, g.following);
    let (x, y) = (f.timestamp, g.timestamp);
    assert(x as u64 == y as u64);
    assert(x == y) by (bit_vector)
        requires
            x as u64 == y as u64,
    ;
    assert(follow_relation_bytes(f)[80] == f.bump);
}

/// Two like relations with the same layout are the same relation, so
/// reading a laid-out relation gives back the relation that was laid out.
pub proof fn like_layout_is_injective(f: LikeRelation, g: LikeRelation)
    requires
        like_relation_bytes(f) == like_relation_bytes(g),
    ensures
        f == g,
{
    let tag = tag_of(likerelation_name());
    lemma_relation_fields(f.user, f.post, f.timestamp, f.bump, tag);
    lemma_relation_fields(g.user, g.post, g.timestamp, g.bump, tag);
    lemma_same_key(f.user, g.user);
    lemma_same_key(f.post, g.post);
    let (x, y) = (f.timestamp, g.timestamp);
    assert(x as u64 == y as u64);
    assert(x == y) by (bit_vector)
        requires
            x as u64 == y as u64,
    ;
}

/// A relation's layout has exactly its reserved size.
pub proof fn relation_layouts_fill_their_space(f: FollowRelation, l: LikeRelation)
    ensures
        follow_relation_bytes(f).len() == FOLLOW_RELATION_SPACE,
        like_relation_bytes(l).len() == LIKE_RELATION_SPACE,
{
    lemma_relation_fields(f.follower, f.following, f.timestamp, f.bump, tag_of(followrelation_name()));
    lemma_relation_fields(l.user, l.post, l.timestamp, l.bump, tag_of(likerelation_name()));
}

proof fn lemma_profile_len(p: UserProfile)
    ensures
        user_profile_bytes(p).len() == 8 + 32 + opt_str_bytes(p.username).len() + opt_str_bytes(p.display_name).len()
            + opt_str_bytes(p.bio).len() + opt_str_bytes(p.avatar_url).len() + opt_str_bytes(p.cover_image_url).len()
            + opt_str_bytes(p.website_url).len() + opt_str_bytes(p.location).len() + 34,
{
    lemma_le_bytes_value(p.followers_count as nat, 8);
    lemma_le_bytes_value(p.following_count as nat, 8);
    lemma_le_bytes_value(p.post_count as nat, 8);
    lemma_le_bytes_value((p.created_at as u64) as nat, 8);
}

/// A profile whose fields are within their limits fits its reserved size.
pub proof fn profile_layout_fits(p: UserProfile)
    requires
        within(p.username, MAX_USERNAME_LEN as nat),
        within(p.display_name, MAX_DISPLAY_NAME_LEN as nat),
        within(p.bio, MAX_BIO_LEN as nat),
        within(p.avatar_url, MAX_URL_LEN as nat),
        within(p.cover_image_url, MAX_URL_LEN as nat),
        within(p.website_url, MAX_URL_LEN as nat),
        within(p.location, MAX_LOCATION_LEN as nat),
    ensures
        user_profile_bytes(p).len() <= USER_PROFILE_SPACE,
{
    lemma_opt_str_len(p.username, MAX_USERNAME_LEN as nat);
    lemma_opt_str_len(p.display_name, MAX_DISPLAY_NAME_LEN as nat);
    lemma_opt_str_len(p.bio, MAX_BIO_LEN as nat);
    lemma_opt_str_len(p.avatar_url, MAX_URL_LEN as nat);
    lemma_opt_str_len(p.cover_image_url, MAX_URL_LEN as nat);
    lemma_opt_str_len(p.website_url, MAX_URL_LEN as nat);
    lemma_opt_str_len(p.location, MAX_LOCATION_LEN as nat);
    lemma_profile_len(p);
}

/// A chunk whose data is within its limit fits its reserved size.
pub proof fn chunk_layout_fits(c: ImageChunk)
    requires
        c.data@.len() <= MAX_CHUNK_LEN,
    ensures
        image_chunk_bytes(c).len() <= IMAGE_CHUNK_SPACE,
{
    lemma_le_bytes_value(c.data@.len(), 4);
}

/// A post whose content is within its limit fits its reserved size plus 32
/// bytes for each chunk it lists.
pub proof fn post_layout_fits(p: Post)
    requires
        byte_len(p.content@) <= MAX_CONTENT_LEN,
    ensures
        post_bytes(p).len() <= POST_SPACE + 32 * p.image_chunks@.len(),
{
    lemma_le_bytes_value(byte_len(p.content@), 4);
    lemma_le_bytes_value(p.image_chunks@.len(), 4);
    lemma_keys_concat_len(p.image_chunks@);
    lemma_le_bytes_value((p.timestamp as u64) as nat, 8);
    lemma_le_bytes_value(p.likes as nat, 8);
    lemma_le_bytes_value(p.reposts as nat, 8);
    lemma_le_bytes_value(p.replies as nat, 8);
}

/// The kinds of record.
#[derive(Debug, Clone, Copy, PartialEq, Eq, Structural)]
pub enum RecordKind {
    Post,
    ImageChunk,
    UserProfile,
    FollowRelation,
    LikeRelation,
}

/// The bytes whose digest gives the tag of records of kind `k`.
pub open spec fn kind_name(k: RecordKind) -> Seq<u8> {
    match k {
        RecordKind::Post => post_name(),
        RecordKind::ImageChunk => imagechunk_name(),
        RecordKind::UserProfile => userprofile_name(),
        RecordKind::FollowRelation => followrelation_name(),
        RecordKind::LikeRelation => likerelation_name(),
    }
}

/// Whether `b` begins with the tag of kind `k`.
pub open spec fn has_tag(b: Seq<u8>, k: RecordKind) -> bool {
    8 <= b.len() && b.subrange(0, 8) == tag_of(kind_name(k))
}

/// Checks that `b` begins with the tag of kind `k`.
pub fn check_kind(b: &Vec<u8>, k: RecordKind) -> (r: Result<(), LayoutError>)
    ensures
        r is Ok <==> has_tag(b@, k),
        r is Err ==> r == Err::<(), LayoutError>(LayoutError::KindMismatch),
{
    let name = match k {
        RecordKind::Post => post_name_bytes(),
        RecordKind::ImageChunk => imagechunk_name_bytes(),
        RecordKind::UserProfile => userprofile_name_bytes(),
        RecordKind::FollowRelation => followrelation_name_bytes(),
        RecordKind::LikeRelation => likerelation_name_bytes(),
    };
    let tag = tag_bytes(&name);
    if starts_with(b, &tag) {
        Ok(())
    } else {
        Err(LayoutError::KindMismatch)
    }
}

/// Relies on `String::from_utf8`: it succeeds exactly when the bytes are
/// valid UTF-8, and the string then holds those bytes.
#[verifier::external_body]
fn utf8_string(bytes: Vec<u8>) -> (r: Option<String>)
    ensures
        r is Some <==> valid_utf8(bytes@),
        r matches Some(s) ==> encode_utf8(s@) == bytes@,
{
    String::from_utf8(bytes).ok()
}

/// The four-byte length stored at `pos`.
pub open spec fn len_at(b: Seq<u8>, pos: int) -> int {
    le_value(b.subrange(pos, pos + 4)) as int
}

/// Where the length-prefixed field at `pos` ends.
pub open spec fn field_end(b: Seq<u8>, pos: int) -> int {
    pos + 4 + len_at(b, pos)
}

/// A length-prefixed run of bytes starts at `pos` and fits in `b`.
pub open spec fn data_at(b: Seq<u8>, pos: int) -> bool {
    0 <= pos && pos + 4 <= b.len() && field_end(b, pos) <= b.len()
}

/// A length-prefixed UTF-8 string starts at `pos` and fits in `b`.
pub open spec fn str_at(b: Seq<u8>, pos: int) -> bool {
    data_at(b, pos) && valid_utf8(b.subrange(pos + 4, field_end(b, pos)))
}

/// Where the optional string at `pos` ends, if one is there.
pub open spec fn opt_str_end(b: Seq<u8>, pos: int) -> Option<int> {
    if 0 <= pos < b.len() && b[pos] == 0 {
        Some(pos + 1)
    } else if 0 <= pos < b.len() && b[pos] == 1 && str_at(b, pos + 1) {
        Some(field_end(b, pos + 1))
    } else {
        None
    }
}

/// Where the optional string after the end `at` ends, if `at` and that
/// string are there.
pub open spec fn then_opt_str(b: Seq<u8>, at: Option<int>) -> Option<int> {
    match at {
        Some(e) => opt_str_end(b, e),
        None => None,
    }
}

/// Where the optional key at `pos` ends, if one is there.
pub open spec fn opt_key_end(b: Seq<u8>, pos: int) -> Option<int> {
    if 0 <= pos < b.len() && b[pos] == 0 {
        Some(pos + 1)
    } else if 0 <= pos < b.len() && b[pos] == 1 && pos + 33 <= b.len() {
        Some(pos + 33)
    } else {
        None
    }
}

/// Where the list of keys at `pos` ends.
pub open spec fn keys_end(b: Seq<u8>, pos: int) -> int {
    pos + 4 + 32 * len_at(b, pos)
}

/// The fields of an image chunk fill `b` after its tag.
pub open spec fn chunk_shape(b: Seq<u8>) -> bool {
    b.len() >= 42 && data_at(b, 42) && field_end(b, 42) + 1 == b.len()
}

/// The fields of a post fill `b` after its tag.
pub open spec fn post_shape(b: Seq<u8>) -> bool {
    &&& str_at(b, 40)
    &&& field_end(b, 40) + 5 <= b.len()
    &&& keys_end(b, field_end(b, 40) + 1) <= b.len()
    &&& opt_key_end(b, keys_end(b, field_end(b, 40) + 1) + 1) matches Some(e) && e + 33 == b.len()
}

/// The fields of a user profile fill `b` after its tag.
pub open spec fn profile_shape(b: Seq<u8>) -> bool {
    &&& b.len() >= 40
    &&& then_opt_str(
        b,
        then_opt_str(b, then_opt_str(b, then_opt_str(b, then_opt_str(b, then_opt_str(b, opt_str_end(b, 40)))))),
    ) matches Some(e) && e + 34 == b.len()
    &&& b[b.len() - 2] <= 1
}

proof fn lemma_split(b: Seq<u8>, i: int, j: int, k: int)
    requires
        0 <= i <= j <= k <= b.len(),
    ensures
        b.subrange(i, k) == b.subrange(i, j) + b.subrange(j, k),
{
    assert(b.subrange(i, k) =~= b.subrange(i, j) + b.subrange(j, k));
}

fn copy_range(b: &Vec<u8>, from: usize, to: usize) -> (r: Vec<u8>)
    requires
        from <= to <= b@.len(),
    ensures
        r@ == b@.subrange(from as int, to as int),
{
    let mut r: Vec<u8> = Vec::new();
    let mut i: usize = from;
    while i < to
        invariant
            from <= i <= to <= b@.len(),
            r@ == b@.subrange(from as int, i as int),
        decreases to - i,
    {
        r.push(b[i]);
        assert(b@.subrange(from as int, i + 1) == b@.subrange(from as int, i as int).push(b@[i as int]));
        i = i + 1;
    }
    r
}

/// Reads the four-byte length at `pos`, if it fits in `b`.
fn read_len(b: &Vec<u8>, pos: usize) -> (r: Option<usize>)
    ensures
        r is Some <==> pos + 4 <= b@.len(),
        r matches Some(n) ==> n == len_at(b@, pos as int) && b@.subrange(pos as int, pos + 4) == le_bytes(
            n as nat,
            4,
        ) && n < 0x1_0000_0000,
{
    if pos > b.len() || b.len() - pos < 4 {
        return None;
    }
    let n = get_le(b, pos, 4);
    proof {
        lemma_le_value_bytes(b@.subrange(pos as int, pos + 4));
        lemma_le_value_bound(b@.subrange(pos as int, pos + 4));
        reveal_with_fuel(pow256, 5);
    }
    Some(n as usize)
}

/// Reads the length-prefixed bytes at `pos`, if they fit in `b`.
fn read_data(b: &Vec<u8>, pos: usize) -> (r: Option<(Vec<u8>, usize)>)
    ensures
        r is Some <==> data_at(b@, pos as int),
        r matches Some((v, next)) ==> next == field_end(b@, pos as int) && b@.subrange(pos as int, next as int)
            == data_bytes(v@) && v@ == b@.subrange(pos + 4, next as int),
{
    let n = match read_len(b, pos) {
        Some(n) => n,
        None => {
            return None;
        },
    };
    if n > b.len() - pos - 4 {
        return None;
    }
    let end = pos + 4 + n;
    let v = copy_range(b, pos + 4, end);
    proof {
        lemma_split(b@, pos as int, pos + 4, end as int);
    }
    Some((v, end))
}

/// Reads the length-prefixed UTF-8 string at `pos`, if it is there.
fn read_str(b: &Vec<u8>, pos: usize) -> (r: Option<(String, usize)>)
    ensures
        r is Some <==> str_at(b@, pos as int),
        r matches Some((s, next)) ==> next == field_end(b@, pos as int) && b@.subrange(pos as int, next as int)
            == str_bytes(s@),
{
    let (v, end) = match read_data(b, pos) {
        Some(d) => d,
        None => {
            return None;
        },
    };
    let ghost bytes = v@;
    match utf8_string(v) {
        Some(s) => {
            assert(byte_len(s@) == bytes.len());
            Some((s, end))
        },
        None => None,
    }
}

/// Reads the optional string at `pos`, if it is there.
fn read_opt_str(b: &Vec<u8>, pos: usize) -> (r: Option<(Option<String>, usize)>)
    ensures
        r is Some <==> opt_str_end(b@, pos as int) is Some,
        r matches Some((o, next)) ==> opt_str_end(b@, pos as int) == Some(next as int) && pos < next
            && b@.subrange(pos as int, next as int) == opt_str_bytes(o),
{
    if pos >= b.len() {
        return None;
    }
    if b[pos] == 0 {
        assert(b@.subrange(pos as int, pos + 1) =~= seq![0u8]);
        return Some((None, pos + 1));
    }
    if b[pos] != 1 {
        return None;
    }
    match read_str(b, pos + 1) {
        Some((s, end)) => {
            proof {
                lemma_split(b@, pos as int, pos + 1, end as int);
                assert(b@.subrange(pos as int, pos + 1) =~= seq![1u8]);
            }
            Some((Some(s), end))
        },
        None => None,
    }
}

/// Reads the optional key at `pos`, if it is there.
fn read_opt_key(b: &Vec<u8>, pos: usize) -> (r: Option<(Option<Key>, usize)>)
    ensures
        r is Some <==> opt_key_end(b@, pos as int) is Some,
        r matches Some((o, next)) ==> opt_key_end(b@, pos as int) == Some(next as int) && b@.subrange(
            pos as int,
            next as int,
        ) == opt_key_bytes(o),
{
    if pos >= b.len() {
        return None;
    }
    if b[pos] == 0 {
        assert(b@.subrange(pos as int, pos + 1) =~= seq![0u8]);
        return Some((None, pos + 1));
    }
    if b[pos] != 1 || b.len() - pos < 33 {
        return None;
    }
    let k = get_key(b, pos + 1);
    proof {
        lemma_split(b@, pos as int, pos + 1, pos + 33);
        assert(b@.subrange(pos as int, pos + 1) =~= seq![1u8]);
    }
    Some((Some(k), pos + 33))
}

/// Reads the list of keys at `pos`, if it fits in `b`.
fn read_keys(b: &Vec<u8>, pos: usize) -> (r: Option<(Vec<Key>, usize)>)
    ensures
        r is Some <==> pos + 4 <= b@.len() && keys_end(b@, pos as int) <= b@.len(),
        r matches Some((v, next)) ==> next == keys_end(b@, pos as int) && b@.subrange(pos as int, next as int)
            == keys_bytes(v@),
{
    let n = match read_len(b, pos) {
        Some(n) => n,
        None => {
            return None;
        },
    };
    if n > (b.len() - pos - 4) / 32 {
        return None;
    }
    let len = b.len();
    let mut v: Vec<Key> = Vec::new();
    let mut at: usize = pos + 4;
    let mut i: usize = 0;
    while i < n
        invariant
            len == b@.len(),
            n <= (b@.len() - pos - 4) / 32,
            pos + 4 <= b@.len(),
            i <= n,
            v@.len() == i,
            at == pos + 4 + 32 * i,
            b@.subrange(pos + 4, at as int) == keys_concat(v@),
        decreases n - i,
    {
        assert(at + 32 <= b@.len()) by (nonlinear_arith)
            requires
                at == pos + 4 + 32 * i,
                i < n,
                n <= (b@.len() - pos - 4) / 32,
                pos + 4 <= b@.len(),
        ;
        let k = get_key(b, at);
        proof {
            lemma_split(b@, pos + 4, at as int, at + 32);
        }
        let ghost prev = v@;
        v.push(k);
        assert(v@.drop_last() =~= prev);
        at = at + 32;
        i = i + 1;
    }
    proof {
        lemma_split(b@, pos as int, pos + 4, at as int);
    }
    Some((v, at))
}

fn read_u64(b: &Vec<u8>, pos: usize) -> (r: u64)
    requires
        pos + 8 <= b@.len(),
    ensures
        b@.subrange(pos as int, pos + 8) == le_bytes(r as nat, 8),
{
    let r = get_le(b, pos, 8);
    proof {
        lemma_le_value_bytes(b@.subrange(pos as int, pos + 8));
    }
    r
}

fn read_i64(b: &Vec<u8>, pos: usize) -> (r: i64)
    requires
        pos + 8 <= b@.len(),
    ensures
        b@.subrange(pos as int, pos + 8) == i64_le_bytes(r),
{
    let u = read_u64(b, pos);
    let r = #[verifier::truncate] (u as i64);
    assert(((#[verifier::truncate] (u as i64)) as u64) == u) by (bit_vector);
    r
}

/// Reads an image chunk. It succeeds exactly when the blob holds the image
/// chunk kind tag and its fields fill the rest; the blob is then the layout
/// of the chunk returned.
pub fn decode_image_chunk(b: &Vec<u8>) -> (r: Result<ImageChunk, LayoutError>)
    ensures
        match r {
            Ok(c) => b@ == image_chunk_bytes(c),
            Err(LayoutError::KindMismatch) => !has_tag(b@, RecordKind::ImageChunk),
            Err(LayoutError::Malformed) => has_tag(b@, RecordKind::ImageChunk) && !chunk_shape(b@),
            Err(LayoutError::WrongLength) => false,
        },
{
    if check_kind(b, RecordKind::ImageChunk).is_err() {
        return Err(LayoutError::KindMismatch);
    }
    if b.len() < 42 {
        return Err(LayoutError::Malformed);
    }
    let (data, end) = match read_data(b, 42) {
        Some(d) => d,
        None => {
            return Err(LayoutError::Malformed);
        },
    };
    if end >= b.len() || end + 1 != b.len() {
        return Err(LayoutError::Malformed);
    }
    let post = get_key(b, 8);
    let c = ImageChunk { post, chunk_index: b[40], total_chunks: b[41], data, bump: b[end] };
    proof {
        let s = b@;
        lemma_split(s, 0, 8, 40);
        lemma_split(s, 0, 40, 42);
        lemma_split(s, 0, 42, end as int);
        lemma_split(s, 0, end as int, s.len() as int);
        assert(s.subrange(40, 42) =~= seq![c.chunk_index, c.total_chunks]);
        assert(s.subrange(end as int, s.len() as int) =~= seq![c.bump]);
        assert(s.subrange(0, s.len() as int) =~= s);
    }
    Ok(c)
}

/// Reads a post. It succeeds exactly when the blob holds the post kind tag
/// and its fields fill the rest; the blob is then the layout of the post
/// returned.
pub fn decode_post(b: &Vec<u8>) -> (r: Result<Post, LayoutError>)
    ensures
        match r {
            Ok(p) => b@ == post_bytes(p),
            Err(LayoutError::KindMismatch) => !has_tag(b@, RecordKind::Post),
            Err(LayoutError::Malformed) => has_tag(b@, RecordKind::Post) && !post_shape(b@),
            Err(LayoutError::WrongLength) => false,
        },
{
    if check_kind(b, RecordKind::Post).is_err() {
        return Err(LayoutError::KindMismatch);
    }
    if b.len() < 40 {
        return Err(LayoutError::Malformed);
    }
    let (content, e1) = match read_str(b, 40) {
        Some(d) => d,
        None => {
            return Err(LayoutError::Malformed);
        },
    };
    if e1 >= b.len() {
        return Err(LayoutError::Malformed);
    }
    let post_type = b[e1];
    let (image_chunks, e2) = match read_keys(b, e1 + 1) {
        Some(d) => d,
        None => {
            return Err(LayoutError::Malformed);
        },
    };
    if e2 >= b.len() {
        return Err(LayoutError::Malformed);
    }
    let total_image_chunks = b[e2];
    let (reply_to, e3) = match read_opt_key(b, e2 + 1) {
        Some(d) => d,
        None => {
            return Err(LayoutError::Malformed);
        },
    };
    if e3 > b.len() || b.len() - e3 != 33 {
        return Err(LayoutError::Malformed);
    }
    let author = get_key(b, 8);
    let timestamp = read_i64(b, e3);
    let likes = read_u64(b, e3 + 8);
    let reposts = read_u64(b, e3 + 16);
    let replies = read_u64(b, e3 + 24);
    let p = Post {
        author,
        content,
        post_type,
        image_chunks,
        total_image_chunks,
        reply_to,
        timestamp,
        likes,
        reposts,
        replies,
        bump: b[e3 + 32],
    };
    proof {
        let s = b@;
        let (e1, e2, e3) = (e1 as int, e2 as int, e3 as int);
        lemma_split(s, 0, 8, 40);
        lemma_split(s, 0, 40, e1);
        lemma_split(s, 0, e1, e1 + 1);
        lemma_split(s, 0, e1 + 1, e2);
        lemma_split(s, 0, e2, e2 + 1);
        lemma_split(s, 0, e2 + 1, e3);
        lemma_split(s, 0, e3, e3 + 8);
        lemma_split(s, 0, e3 + 8, e3 + 16);
        lemma_split(s, 0, e3 + 16, e3 + 24);
        lemma_split(s, 0, e3 + 24, e3 + 32);
        lemma_split(s, 0, e3 + 32, e3 + 33);
        assert(s.subrange(e1, e1 + 1) =~= seq![post_type]);
        assert(s.subrange(e2, e2 + 1) =~= seq![total_image_chunks]);
        assert(s.subrange(e3 + 32, e3 + 33) =~= seq![p.bump]);
        assert(s.subrange(0, s.len() as int) =~= s);
    }
    Ok(p)
}

/// Reads a user profile. It succeeds exactly when the blob holds the user
/// profile kind tag and its fields fill the rest; the blob is then the
/// layout of the profile returned.
#[verifier::rlimit(40)]
pub fn decode_user_profile(b: &Vec<u8>) -> (r: Result<UserProfile, LayoutError>)
    ensures
        match r {
            Ok(p) => b@ == user_profile_bytes(p),
            Err(LayoutError::KindMismatch) => !has_tag(b@, RecordKind::UserProfile),
            Err(LayoutError::Malformed) => has_tag(b@, RecordKind::UserProfile) && !profile_shape(b@),
            Err(LayoutError::WrongLength) => false,
        },
{
    if check_kind(b, RecordKind::UserProfile).is_err() {
        return Err(LayoutError::KindMismatch);
    }
    if b.len() < 40 {
        return Err(LayoutError::Malformed);
    }
    let (username, e1) = match read_opt_str(b, 40) {
        Some(d) => d,
        None => {
            return Err(LayoutError::Malformed);
        },
    };
    let (display_name, e2) = match read_opt_str(b, e1) {
        Some(d) => d,
        None => {
            return Err(LayoutError::Malformed);
        },
    };
    let (bio, e3) = match read_opt_str(b, e2) {
        Some(d) => d,
        None => {
            return Err(LayoutError::Malformed);
        },
    };
    let (avatar_url, e4) = match read_opt_str(b, e3) {
        Some(d) => d,
        None => {
            return Err(LayoutError::Malformed);
        },
    };
    let (cover_image_url, e5) = match read_opt_str(b, e4) {
        Some(d) => d,
        None => {
            return Err(LayoutError::Malformed);
        },
    };
    let (website_url, e6) = match read_opt_str(b, e5) {
        Some(d) => d,
        None => {
            return Err(LayoutError::Malformed);
        },
    };
    let (location, e7) = match read_opt_str(b, e6) {
        Some(d) => d,
        None => {
            return Err(LayoutError::Malformed);
        },
    };
    if e7 > b.len() || b.len() - e7 != 34 {
        return Err(LayoutError::Malformed);
    }
    let flag = b[e7 + 32];
    if flag > 1 {
        return Err(LayoutError::Malformed);
    }
    let p = UserProfile {
        user: get_key(b, 8),
        username,
        display_name,
        bio,
        avatar_url,
        cover_image_url,
        website_url,
        location,
        followers_count: read_u64(b, e7),
        following_count: read_u64(b, e7 + 8),
        post_count: read_u64(b, e7 + 16),
        created_at: read_i64(b, e7 + 24),
        verified: flag == 1,
        bump: b[e7 + 33],
    };
    proof {
        let s = b@;
        let e = e7 as int;
        lemma_split(s, 0, 8, 40);
        lemma_split(s, 0, 40, e1 as int);
        lemma_split(s, 0, e1 as int, e2 as int);
        lemma_split(s, 0, e2 as int, e3 as int);
        lemma_split(s, 0, e3 as int, e4 as int);
        lemma_split(s, 0, e4 as int, e5 as int);
        lemma_split(s, 0, e5 as int, e6 as int);
        lemma_split(s, 0, e6 as int, e);
        lemma_split(s, 0, e, e + 8);
        lemma_split(s, 0, e + 8, e + 16);
        lemma_split(s, 0, e + 16, e + 24);
        lemma_split(s, 0, e + 24, e + 32);
        lemma_split(s, 0, e + 32, e + 33);
        lemma_split(s, 0, e + 33, e + 34);
        assert(s.subrange(e + 32, e + 33) =~= seq![if p.verified { 1u8 } else { 0u8 }]);
        assert(s.subrange(e + 33, e + 34) =~= seq![p.bump]);
        assert(s.subrange(0, s.len() as int) =~= s);
    }
    Ok(p)
}

proof fn lemma_len_prefix(v: nat)
    requires
        v < 0x1_0000_0000,
    ensures
        le_bytes(v, 4).len() == 4,
        le_value(le_bytes(v, 4)) == v,
{
    lemma_le_bytes_value(v, 4);
    reveal_with_fuel(pow256, 5);
    assert(pow256(4) == 0x1_0000_0000);
    vstd::arithmetic::div_mod::lemma_small_mod(v, 0x1_0000_0000);
}

proof fn lemma_peel(s: Seq<u8>, a: Seq<u8>, b: Seq<u8>)
    requires
        a.len() + b.len() <= s.len(),
        s.subrange(0, (a.len() + b.len()) as int) == a + b,
    ensures
        s.subrange(0, a.len() as int) == a,
        s.subrange(a.len() as int, (a.len() + b.len()) as int) == b,
{
    assert(s.subrange(0, a.len() as int) =~= (a + b).subrange(0, a.len() as int));
    assert(s.subrange(0, a.len() as int) =~= a);
    assert forall|i: int| 0 <= i < b.len() implies s.subrange(a.len() as int, (a.len() + b.len()) as int)[i] == b[i] by {
        assert(s[a.len() + i] == s.subrange(0, (a.len() + b.len()) as int)[a.len() + i]);
        assert((a + b)[a.len() + i] == b[i]);
    }
    assert(s.subrange(a.len() as int, (a.len() + b.len()) as int) =~= b);
}

proof fn lemma_str_in(s: Seq<u8>, pos: int, t: Seq<char>)
    requires
        0 <= pos,
        byte_len(t) < 0x1_0000_0000,
        pos + str_bytes(t).len() <= s.len(),
        s.subrange(pos, pos + str_bytes(t).len()) == str_bytes(t),
    ensures
        str_bytes(t).len() == 4 + byte_len(t),
        str_at(s, pos),
        field_end(s, pos) == pos + str_bytes(t).len(),
{
    lemma_len_prefix(byte_len(t));
    let w = str_bytes(t);
    assert(s.subrange(pos, pos + 4) =~= w.subrange(0, 4));
    assert(w.subrange(0, 4) =~= le_bytes(byte_len(t), 4));
    assert(s.subrange(pos + 4, pos + w.len()) =~= w.subrange(4, w.len() as int));
    assert(w.subrange(4, w.len() as int) =~= encode_utf8(t));
    encode_utf8_valid_utf8(t);
}

proof fn lemma_opt_str_in(s: Seq<u8>, pos: int, o: Option<String>)
    requires
        0 <= pos,
        within(o, 0xffff_ffff),
        pos + opt_str_bytes(o).len() <= s.len(),
        s.subrange(pos, pos + opt_str_bytes(o).len()) == opt_str_bytes(o),
    ensures
        opt_str_end(s, pos) == Some(pos + opt_str_bytes(o).len()),
{
    let w = opt_str_bytes(o);
    assert(s[pos] == s.subrange(pos, pos + w.len())[0]);
    if let Some(t) = o {
        assert(s.subrange(pos + 1, pos + w.len()) =~= w.subrange(1, w.len() as int));
        assert(w.subrange(1, w.len() as int) =~= str_bytes(t@));
        lemma_str_in(s, pos + 1, t@);
    }
}

/// Every laid-out image chunk holds the chunk tag and has the shape that
/// `decode_image_chunk` reads back.
pub proof fn chunk_layout_is_readable(c: ImageChunk)
    requires
        c.data@.len() <= u32::MAX,
    ensures
        has_tag(image_chunk_bytes(c), RecordKind::ImageChunk),
        chunk_shape(image_chunk_bytes(c)),
{
    let s = image_chunk_bytes(c);
    let n = c.data@.len();
    lemma_len_prefix(n);
    assert(s.subrange(0, 8) =~= tag_of(imagechunk_name()));
    assert(s.subrange(42, 46) =~= le_bytes(n, 4));
}

/// Every laid-out post whose content and chunk list have lengths that fit
/// in four bytes holds the post tag and has the shape that `decode_post`
/// reads back.
pub proof fn post_layout_is_readable(p: Post)
    requires
        byte_len(p.content@) <= u32::MAX,
        p.image_chunks@.len() <= u32::MAX,
    ensures
        has_tag(post_bytes(p), RecordKind::Post),
        post_shape(post_bytes(p)),
{
    let s = post_bytes(p);
    let w = str_bytes(p.content@);
    lemma_len_prefix(byte_len(p.content@));
    lemma_len_prefix(p.image_chunks@.len());
    lemma_keys_concat_len(p.image_chunks@);
    lemma_le_bytes_value((p.timestamp as u64) as nat, 8);
    lemma_le_bytes_value(p.likes as nat, 8);
    lemma_le_bytes_value(p.reposts as nat, 8);
    lemma_le_bytes_value(p.replies as nat, 8);
    assert(s.subrange(0, 8) =~= tag_of(post_name()));
    assert(s.subrange(40, 40 + w.len() as int) =~= w);
    lemma_str_in(s, 40, p.content@);
    let e1: int = 40 + w.len() as int;
    assert(s.subrange(e1 + 1, e1 + 5) =~= le_bytes(p.image_chunks@.len(), 4));
    let e2: int = e1 + 5 + 32 * p.image_chunks@.len();
    assert(s[e2 + 1] == opt_key_bytes(p.reply_to)[0]);
}

/// Every laid-out profile whose strings have lengths that fit in four bytes
/// holds the profile tag and has the shape that `decode_user_profile` reads
/// back.
#[verifier::rlimit(60)]
pub proof fn profile_layout_is_readable(p: UserProfile)
    requires
        within(p.username, 0xffff_ffff),
        within(p.display_name, 0xffff_ffff),
        within(p.bio, 0xffff_ffff),
        within(p.avatar_url, 0xffff_ffff),
        within(p.cover_image_url, 0xffff_ffff),
        within(p.website_url, 0xffff_ffff),
        within(p.location, 0xffff_ffff),
    ensures
        has_tag(user_profile_bytes(p), RecordKind::UserProfile),
        profile_shape(user_profile_bytes(p)),
{
    let s = user_profile_bytes(p);
    lemma_profile_len(p);
    let o1 = opt_str_bytes(p.username);
    let o2 = opt_str_bytes(p.display_name);
    let o3 = opt_str_bytes(p.bio);
    let o4 = opt_str_bytes(p.avatar_url);
    let o5 = opt_str_bytes(p.cover_image_url);
    let o6 = opt_str_bytes(p.website_url);
    let o7 = opt_str_bytes(p.location);
    let tag = tag_of(userprofile_name());
    let p0 = tag + p.user@;
    let p1 = p0 + o1;
    let p2 = p1 + o2;
    let p3 = p2 + o3;
    let p4 = p3 + o4;
    let p5 = p4 + o5;
    let p6 = p5 + o6;
    let p7 = p6 + o7;
    assert(s.subrange(0, p7.len() as int) =~= p7);
    lemma_peel(s, p6, o7);
    lemma_peel(s, p5, o6);
    lemma_peel(s, p4, o5);
    lemma_peel(s, p3, o4);
    lemma_peel(s, p2, o3);
    lemma_peel(s, p1, o2);
    lemma_peel(s, p0, o1);
    lemma_peel(s, tag, p.user@);
    lemma_opt_str_in(s, p0.len() as int, p.username);
    lemma_opt_str_in(s, p1.len() as int, p.display_name);
    lemma_opt_str_in(s, p2.len() as int, p.bio);
    lemma_opt_str_in(s, p3.len() as int, p.avatar_url);
    lemma_opt_str_in(s, p4.len() as int, p.cover_image_url);
    lemma_opt_str_in(s, p5.len() as int, p.website_url);
    lemma_opt_str_in(s, p6.len() as int, p.location);
    assert(s[s.len() - 2] == (if p.verified { 1u8 } else { 0u8 }));
}

} // verus!
