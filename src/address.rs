use vstd::prelude::*;
use crate::error::Errors;

verus! {

/// A 32-byte account identifier: an asset, an account, a program or a
/// derived authority.
#[derive(Clone, Copy, Debug, PartialEq, Eq)]
pub struct Address {
    pub bytes: [u8; 32],
}

impl View for Address {
    type V = Seq<u8>;

    open spec fn view(&self) -> Seq<u8> {
        self.bytes@
    }
}

/// Byte-wise equality of two addresses.
pub fn same_address(a: &Address, b: &Address) -> (r: bool)
    ensures
        r == (a@ == b@),
{
    let mut i: usize = 0;
    while i < 32
        invariant
            0 <= i <= 32,
            a@.len() == 32,
            b@.len() == 32,
            forall|j: int| 0 <= j < i ==> a@[j] == b@[j],
        decreases 32 - i,
    {
        if a.bytes[i] != b.bytes[i] {
            return false;
        }
        i = i + 1;
    }
    proof {
        assert(a@ =~= b@);
    }
    true
}

/// `a` comes before `b` in byte-wise lexicographic order.
pub open spec fn bytes_before(a: Seq<u8>, b: Seq<u8>) -> bool {
    exists|i: int| 0 <= i < a.len() && i < b.len() && a[i] < b[i] && a.subrange(0, i) == b.subrange(0, i)
}

/// Whether `a` comes before `b` in byte-wise lexicographic order.
pub fn address_before(a: &Address, b: &Address) -> (r: bool)
    ensures
        r == bytes_before(a@, b@),
{
    let mut i: usize = 0;
    while i < 32
        invariant
            0 <= i <= 32,
            a@.len() == 32,
            b@.len() == 32,
            a@.subrange(0, i as int) == b@.subrange(0, i as int),
        decreases 32 - i,
    {
        if a.bytes[i] != b.bytes[i] {
            let r = a.bytes[i] < b.bytes[i];
            proof {
                let k = i as int;
                if !r {
                    assert forall|j: int| !(0 <= j < a@.len() && j < b@.len() && a@[j] < b@[j]
                        && a@.subrange(0, j) == b@.subrange(0, j)) by {
                        if 0 <= j < 32 && a@.subrange(0, j) == b@.subrange(0, j) {
                            if j < k {
                                assert(a@[j] == a@.subrange(0, k)[j]);
                                assert(b@[j] == b@.subrange(0, k)[j]);
                            } else if j > k {
                                assert(a@[k] == a@.subrange(0, j)[k]);
                                assert(b@[k] == b@.subrange(0, j)[k]);
                            }
                        }
                    }
                }
            }
            return r;
        }
        proof {
            assert(a@.subrange(0, i + 1) =~= a@.subrange(0, i as int).push(a@[i as int]));
            assert(b@.subrange(0, i + 1) =~= b@.subrange(0, i as int).push(b@[i as int]));
        }
        i = i + 1;
    }
    proof {
        assert(a@.subrange(0, 32) =~= a@);
        assert(b@.subrange(0, 32) =~= b@);
        assert(a@ == b@);
    }
    false
}

/// Byte order up to `n`: equal prefixes of length `n`, or a first
/// difference before `n` in one direction or the other.
proof fn lemma_prefix_order(a: Seq<u8>, b: Seq<u8>, n: int)
    requires
        a.len() == b.len(),
        0 <= n <= a.len(),
    ensures
        a.subrange(0, n) == b.subrange(0, n) || bytes_before(a, b) || bytes_before(b, a),
    decreases n,
{
    if n > 0 {
        lemma_prefix_order(a, b, n - 1);
        if a.subrange(0, n - 1) == b.subrange(0, n - 1) {
            let k = n - 1;
            if a[k] < b[k] {
                assert(0 <= k < a.len() && k < b.len() && a[k] < b[k] && a.subrange(0, k) == b.subrange(0, k));
            } else if b[k] < a[k] {
                assert(0 <= k < b.len() && k < a.len() && b[k] < a[k] && b.subrange(0, k) == a.subrange(0, k));
            } else {
                assert(a.subrange(0, n) =~= a.subrange(0, k).push(a[k]));
                assert(b.subrange(0, n) =~= b.subrange(0, k).push(b[k]));
            }
        }
    }
}

/// Both orders of a pair of assets give the same pool seeds, so a pair names
/// one pool whichever asset is given first.
pub proof fn lemma_pool_seeds_unordered(a: Seq<u8>, b: Seq<u8>)
    requires
        a.len() == b.len(),
    ensures
        pool_seed_seq(a, b) == pool_seed_seq(b, a),
{
    lemma_prefix_order(a, b, a.len() as int);
    if a.subrange(0, a.len() as int) == b.subrange(0, b.len() as int) {
        assert(a =~= a.subrange(0, a.len() as int));
        assert(b =~= b.subrange(0, b.len() as int));
    }
    if bytes_before(a, b) && bytes_before(b, a) {
        let i = choose|i: int| 0 <= i < a.len() && i < b.len() && a[i] < b[i] && a.subrange(0, i) == b.subrange(0, i);
        let j = choose|j: int| 0 <= j < b.len() && j < a.len() && b[j] < a[j] && b.subrange(0, j) == a.subrange(0, j);
        if i < j {
            assert(a[i] == a.subrange(0, j)[i]);
            assert(b[i] == b.subrange(0, j)[i]);
        } else if j < i {
            assert(a[j] == a.subrange(0, i)[j]);
            assert(b[j] == b.subrange(0, i)[j]);
        }
    }
}

/// The bytes of an address, as a seed.
fn address_seed(a: &Address) -> (r: Vec<u8>)
    ensures
        r@ == a@,
{
    let mut r: Vec<u8> = Vec::new();
    let mut i: usize = 0;
    while i < 32
        invariant
            0 <= i <= 32,
            a@.len() == 32,
            r@ == a@.subrange(0, i as int),
        decreases 32 - i,
    {
        r.push(a.bytes[i]);
        i = i + 1;
        proof {
            assert(r@ =~= a@.subrange(0, i as int));
        }
    }
    proof {
        assert(a@.subrange(0, 32) =~= a@);
    }
    r
}

/// The seed tag `"pool"`.
pub open spec fn pool_tag() -> Seq<u8> {
    seq![0x70u8, 0x6fu8, 0x6fu8, 0x6cu8]
}

/// The seed tag `"reserves"`.
pub open spec fn reserves_tag() -> Seq<u8> {
    seq![0x72u8, 0x65u8, 0x73u8, 0x65u8, 0x72u8, 0x76u8, 0x65u8, 0x73u8]
}

/// The seed tag `"mint"`.
pub open spec fn mint_tag() -> Seq<u8> {
    seq![0x6du8, 0x69u8, 0x6eu8, 0x74u8]
}

fn pool_tag_seed() -> (r: Vec<u8>)
    ensures
        r@ == pool_tag(),
{
    let mut r: Vec<u8> = Vec::new();
    r.push(0x70);
    r.push(0x6f);
    r.push(0x6f);
    r.push(0x6c);
    proof {
        assert(r@ =~= pool_tag());
    }
    r
}

fn reserves_tag_seed() -> (r: Vec<u8>)
    ensures
        r@ == reserves_tag(),
{
    let mut r: Vec<u8> = Vec::new();
    r.push(0x72);
    r.push(0x65);
    r.push(0x73);
    r.push(0x65);
    r.push(0x72);
    r.push(0x76);
    r.push(0x65);
    r.push(0x73);
    proof {
        assert(r@ =~= reserves_tag());
    }
    r
}

fn mint_tag_seed() -> (r: Vec<u8>)
    ensures
        r@ == mint_tag(),
{
    let mut r: Vec<u8> = Vec::new();
    r.push(0x6d);
    r.push(0x69);
    r.push(0x6e);
    r.push(0x74);
    proof {
        assert(r@ =~= mint_tag());
    }
    r
}

/// The seeds of a pool's record and authority: `"pool"`, then both assets,
/// the one that comes first in byte order first, so that both orders of a
/// pair name the same pool.
pub open spec fn pool_seed_seq(asset_a: Seq<u8>, asset_b: Seq<u8>) -> Seq<Seq<u8>> {
    if bytes_before(asset_b, asset_a) {
        seq![pool_tag(), asset_b, asset_a]
    } else {
        seq![pool_tag(), asset_a, asset_b]
    }
}

/// The seeds of a reserve account: `"reserves"`, its asset, then the pool.
pub open spec fn reserve_seed_seq(asset: Seq<u8>, pool: Seq<u8>) -> Seq<Seq<u8>> {
    seq![reserves_tag(), asset, pool]
}

/// The seeds of a pool's share mint: `"mint"`, then the pool.
pub open spec fn share_mint_seed_seq(pool: Seq<u8>) -> Seq<Seq<u8>> {
    seq![mint_tag(), pool]
}

/// What a list of byte-string seeds holds.
pub open spec fn seeds_view(seeds: Seq<Vec<u8>>) -> Seq<Seq<u8>> {
    seeds.map_values(|s: Vec<u8>| s@)
}

/// The seeds of a pool's record and authority.
pub fn pool_authority_seeds(asset_a: &Address, asset_b: &Address) -> (r: Vec<Vec<u8>>)
    ensures
        seeds_view(r@) == pool_seed_seq(asset_a@, asset_b@),
{
    let (first, second) = if address_before(asset_b, asset_a) {
        (asset_b, asset_a)
    } else {
        (asset_a, asset_b)
    };
    let mut r: Vec<Vec<u8>> = Vec::new();
    r.push(pool_tag_seed());
    r.push(address_seed(first));
    r.push(address_seed(second));
    proof {
        assert(seeds_view(r@) =~= pool_seed_seq(asset_a@, asset_b@));
    }
    r
}

/// The seeds of the reserve account of `asset` in the pool at `pool`.
pub fn reserve_authority_seeds(asset: &Address, pool: &Address) -> (r: Vec<Vec<u8>>)
    ensures
        seeds_view(r@) == reserve_seed_seq(asset@, pool@),
{
    let mut r: Vec<Vec<u8>> = Vec::new();
    r.push(reserves_tag_seed());
    r.push(address_seed(asset));
    r.push(address_seed(pool));
    proof {
        assert(seeds_view(r@) =~= reserve_seed_seq(asset@, pool@));
    }
    r
}

/// The seeds of the share mint of the pool at `pool`.
pub fn share_mint_seeds(pool: &Address) -> (r: Vec<Vec<u8>>)
    ensures
        seeds_view(r@) == share_mint_seed_seq(pool@),
{
    let mut r: Vec<Vec<u8>> = Vec::new();
    r.push(mint_tag_seed());
    r.push(address_seed(pool));
    proof {
        assert(seeds_view(r@) =~= share_mint_seed_seq(pool@));
    }
    r
}

/// The program-derived address of `seeds` under `program_id`, with its bump
/// seed, or `None` where no bump seed puts the address off the curve. It
/// depends on the seeds and the program alone.
pub uninterp spec fn program_address_of(seeds: Seq<Seq<u8>>, program_id: Seq<u8>) -> Option<(Seq<u8>, u8)>;

/// What a derivation result holds.
pub open spec fn derived_view(r: Option<(Address, u8)>) -> Option<(Seq<u8>, u8)> {
    match r {
        Some((k, bump)) => Some((k@, bump)),
        None => None,
    }
}

/// Relies on `Pubkey::try_find_program_address` (solana-program, re-exported by
/// anchor-lang): the derived address and bump seed are a function of the seeds
/// and the program id alone, and `None` comes back where no bump seed works.
#[verifier::external_body]
fn try_find_program_address(seeds: &Vec<Vec<u8>>, program_id: &Address) -> (r: Option<(Address, u8)>)
    ensures
        derived_view(r) == program_address_of(seeds_view(seeds@), program_id@),
{
    let slices: Vec<&[u8]> = seeds.iter().map(|s| s.as_slice()).collect();
    let program = anchor_lang::prelude::Pubkey::new_from_array(program_id.bytes);
    anchor_lang::prelude::Pubkey::try_find_program_address(&slices, &program)
        .map(|(k, bump)| (Address { bytes: k.to_bytes() }, bump))
}

/// Derives the address and bump seed of `seeds` under `program_id`; a seed
/// list with no viable bump is refused.
pub fn derive_program_address(seeds: &Vec<Vec<u8>>, program_id: &Address) -> (r: Result<(Address, u8), Errors>)
    ensures
        match program_address_of(seeds_view(seeds@), program_id@) {
            Some((k, bump)) => r matches Ok((rk, rb)) && rk@ == k && rb == bump,
            None => r == Err::<(Address, u8), Errors>(Errors::NoViableBump),
        },
{
    match try_find_program_address(seeds, program_id) {
        Some(found) => Ok(found),
        None => Err(Errors::NoViableBump),
    }
}

} // verus!
