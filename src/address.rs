//! Deterministic derivation of record addresses from a namespace tag and key
//! material.
use vstd::prelude::*;

verus! {

/// A 32-byte public key or record address.
pub type Key = [u8; 32];

/// What the ledger's address derivation yields for `seeds` under the program
/// `program_id`: `None` when no bump seed gives a valid address, otherwise
/// the address and the bump seed that was found.
pub uninterp spec fn program_address(seeds: Seq<Seq<u8>>, program_id: Seq<u8>) -> Option<(Seq<u8>, u8)>;

/// The view of a derived address.
pub open spec fn derived_view(r: Option<(Key, u8)>) -> Option<(Seq<u8>, u8)> {
    match r {
        Some((a, b)) => Some((a@, b)),
        None => None,
    }
}

/// Relies on `Pubkey::try_find_program_address` (solana-pubkey, re-exported by
/// anchor-lang): a function of the seeds and the program id alone, searching
/// bump seeds downwards from 255.
#[verifier::external_body]
fn find_program_address(seeds: &Vec<Vec<u8>>, program_id: &Key) -> (r: Option<(Key, u8)>)
    ensures
        derived_view(r) == program_address(seeds.deep_view(), program_id@),
{
    let parts: Vec<&[u8]> = seeds.iter().map(|s| s.as_slice()).collect();
    let program = anchor_lang::prelude::Pubkey::new_from_array(*program_id);
    anchor_lang::prelude::Pubkey::try_find_program_address(&parts, &program)
        .map(|(k, b)| (k.to_bytes(), b))
}

/// Most bytes in one seed.
pub const MAX_SEED_LEN: usize = 32;
/// Most seeds in one derivation, besides the bump seed that is appended.
pub const MAX_SEEDS: usize = 15;

/// A seed list that derivation accepts: not empty, not too many seeds, and
/// no seed too long.
pub open spec fn seeds_valid(seeds: Seq<Seq<u8>>) -> bool {
    &&& 0 < seeds.len() <= MAX_SEEDS
    &&& forall|i: int| 0 <= i < seeds.len() ==> (#[trigger] seeds[i]).len() <= MAX_SEED_LEN
}

/// Derives the address for a list of seeds; an invalid list gives `None`.
pub fn derive_address(seeds: &Vec<Vec<u8>>, program_id: &Key) -> (r: Option<(Key, u8)>)
    ensures
        !seeds_valid(seeds.deep_view()) ==> r is None,
        seeds_valid(seeds.deep_view()) ==> derived_view(r) == program_address(seeds.deep_view(), program_id@),
{
    if seeds.len() == 0 || seeds.len() > MAX_SEEDS {
        return None;
    }
    let mut i: usize = 0;
    while i < seeds.len()
        invariant
            i <= seeds@.len(),
            forall|j: int| 0 <= j < i ==> (#[trigger] seeds.deep_view()[j]).len() <= MAX_SEED_LEN,
        decreases seeds@.len() - i,
    {
        assert(seeds.deep_view()[i as int] == seeds@[i as int]@);
        if seeds[i].len() > MAX_SEED_LEN {
            return None;
        }
        i = i + 1;
    }
    find_program_address(seeds, program_id)
}

/// The little-endian bytes of the low `n` bytes of `v`.
pub open spec fn le_bytes(v: nat, n: nat) -> Seq<u8>
    decreases n,
{
    if n == 0 {
        seq![]
    } else {
        seq![(v % 256) as u8] + le_bytes(v / 256, (n - 1) as nat)
    }
}

/// The eight little-endian bytes of a signed 64-bit value, in two's complement.
pub open spec fn i64_le_bytes(v: i64) -> Seq<u8> {
    le_bytes((v as u64) as nat, 8)
}

/// Encodes `v` as eight little-endian bytes.
pub fn i64_to_le_bytes(v: i64) -> (r: Vec<u8>)
    ensures
        r@ == i64_le_bytes(v),
{
    let mut r: Vec<u8> = Vec::new();
    let mut rest: u64 = v as u64;
    let mut k: usize = 0;
    while k < 8
        invariant
            k <= 8,
            r@ + le_bytes(rest as nat, (8 - k) as nat) == i64_le_bytes(v),
        decreases 8 - k,
    {
        let ghost before = r@;
        r.push((rest % 256) as u8);
        proof {
            assert(le_bytes(rest as nat, (8 - k) as nat) == seq![(rest % 256) as u8] + le_bytes(
                (rest / 256) as nat,
                (8 - k - 1) as nat,
            ));
            assert(r@ == before + seq![(rest % 256) as u8]);
            assert(before + (seq![(rest % 256) as u8] + le_bytes((rest / 256) as nat, (8 - k - 1) as nat))
                == r@ + le_bytes((rest / 256) as nat, (8 - k - 1) as nat));
        }
        rest = rest / 256;
        k = k + 1;
    }
    proof {
        assert(le_bytes(rest as nat, 0) == Seq::<u8>::empty());
        assert(r@ + Seq::<u8>::empty() == r@);
    }
    r
}

/// The bytes of the namespace tag "post".
pub open spec fn post_tag() -> Seq<u8> {
    seq![112u8, 111u8, 115u8, 116u8]
}

/// The bytes of the namespace tag "user_profile".
pub open spec fn profile_tag() -> Seq<u8> {
    seq![117u8, 115u8, 101u8, 114u8, 95u8, 112u8, 114u8, 111u8, 102u8, 105u8, 108u8, 101u8]
}

/// The bytes of the namespace tag "follow".
pub open spec fn follow_tag() -> Seq<u8> {
    seq![102u8, 111u8, 108u8, 108u8, 111u8, 119u8]
}

/// The bytes of the namespace tag "like".
pub open spec fn like_tag() -> Seq<u8> {
    seq![108u8, 105u8, 107u8, 101u8]
}

/// The bytes of the namespace tag "chunk".
pub open spec fn chunk_tag() -> Seq<u8> {
    seq![99u8, 104u8, 117u8, 110u8, 107u8]
}

/// Seeds of a post: the tag, the author, and the timestamp's eight bytes.
pub open spec fn post_seeds(author: Seq<u8>, timestamp: i64) -> Seq<Seq<u8>> {
    seq![post_tag(), author, i64_le_bytes(timestamp)]
}

/// Seeds of a user profile: the tag and the user.
pub open spec fn profile_seeds(user: Seq<u8>) -> Seq<Seq<u8>> {
    seq![profile_tag(), user]
}

/// Seeds of a follow relation: the tag, the follower and the followed user.
pub open spec fn follow_seeds(follower: Seq<u8>, following: Seq<u8>) -> Seq<Seq<u8>> {
    seq![follow_tag(), follower, following]
}

/// Seeds of a like relation: the tag, the user and the post's address.
pub open spec fn like_seeds(user: Seq<u8>, post: Seq<u8>) -> Seq<Seq<u8>> {
    seq![like_tag(), user, post]
}

/// Seeds of an image chunk: the tag, the post's address and the chunk index.
pub open spec fn chunk_seeds(post: Seq<u8>, index: u8) -> Seq<Seq<u8>> {
    seq![chunk_tag(), post, seq![index]]
}

fn key_bytes(k: &Key) -> (r: Vec<u8>)
    ensures
        r@ == k@,
{
    let mut r: Vec<u8> = Vec::new();
    let mut i: usize = 0;
    while i < 32
        invariant
            i <= 32,
            r@ == k@.subrange(0, i as int),
        decreases 32 - i,
    {
        r.push(k[i]);
        assert(k@.subrange(0, i + 1) == k@.subrange(0, i as int).push(k@[i as int]));
        i = i + 1;
    }
    assert(k@.subrange(0, 32) == k@);
    r
}

/// Whether two keys hold the same bytes.
pub fn keys_equal(a: &Key, b: &Key) -> (r: bool)
    ensures
        r == (a@ == b@),
{
    let mut i: usize = 0;
    while i < 32
        invariant
            i <= 32,
            forall|j: int| 0 <= j < i ==> a@[j] == b@[j],
        decreases 32 - i,
    {
        if a[i] != b[i] {
            return false;
        }
        i = i + 1;
    }
    assert(a@ =~= b@);
    true
}

fn seed_list(parts: Vec<Vec<u8>>) -> (r: Vec<Vec<u8>>)
    ensures
        r.deep_view() == parts@.map_values(|v: Vec<u8>| v@),
{
    let r = parts;
    assert forall|i: int| 0 <= i < r@.len() implies #[trigger] r.deep_view()[i] == r@[i]@ by {
        assert(r.deep_view()[i] =~= r@[i]@);
    }
    assert(r.deep_view() =~= r@.map_values(|v: Vec<u8>| v@));
    r
}

/// Address of the post that `author` made at `timestamp`.
pub fn post_address(program_id: &Key, author: &Key, timestamp: i64) -> (r: Option<(Key, u8)>)
    ensures
        derived_view(r) == program_address(post_seeds(author@, timestamp), program_id@),
{
    let seeds = seed_list(vec![vec![112u8, 111u8, 115u8, 116u8], key_bytes(author), i64_to_le_bytes(timestamp)]);
    assert(seeds.deep_view() =~= post_seeds(author@, timestamp));
    find_program_address(&seeds, program_id)
}

/// Address of the profile of `user`.
pub fn profile_address(program_id: &Key, user: &Key) -> (r: Option<(Key, u8)>)
    ensures
        derived_view(r) == program_address(profile_seeds(user@), program_id@),
{
    let seeds = seed_list(vec![
        vec![117u8, 115u8, 101u8, 114u8, 95u8, 112u8, 114u8, 111u8, 102u8, 105u8, 108u8, 101u8],
        key_bytes(user),
    ]);
    assert(seeds.deep_view() =~= profile_seeds(user@));
    find_program_address(&seeds, program_id)
}

/// Address of the relation "`follower` follows `following`".
pub fn follow_address(program_id: &Key, follower: &Key, following: &Key) -> (r: Option<(Key, u8)>)
    ensures
        derived_view(r) == program_address(follow_seeds(follower@, following@), program_id@),
{
    let seeds = seed_list(vec![
        vec![102u8, 111u8, 108u8, 108u8, 111u8, 119u8],
        key_bytes(follower),
        key_bytes(following),
    ]);
    assert(seeds.deep_view() =~= follow_seeds(follower@, following@));
    find_program_address(&seeds, program_id)
}

/// Address of the relation "`user` likes the post at `post`".
pub fn like_address(program_id: &Key, user: &Key, post: &Key) -> (r: Option<(Key, u8)>)
    ensures
        derived_view(r) == program_address(like_seeds(user@, post@), program_id@),
{
    let seeds = seed_list(vec![vec![108u8, 105u8, 107u8, 101u8], key_bytes(user), key_bytes(post)]);
    assert(seeds.deep_view() =~= like_seeds(user@, post@));
    find_program_address(&seeds, program_id)
}

/// Address of chunk `index` of the post at `post`.
pub fn chunk_address(program_id: &Key, post: &Key, index: u8) -> (r: Option<(Key, u8)>)
    ensures
        derived_view(r) == program_address(chunk_seeds(post@, index), program_id@),
{
    let idx: Vec<u8> = vec![index];
    assert(idx@ =~= seq![index]);
    let seeds = seed_list(vec![vec![99u8, 104u8, 117u8, 110u8, 107u8], key_bytes(post), idx]);
    assert(seeds.deep_view() =~= chunk_seeds(post@, index));
    find_program_address(&seeds, program_id)
}

} // verus!
