//! Account addresses and the derivation of record addresses from seeds.

use anchor_lang::prelude::Pubkey;
use vstd::prelude::*;

verus! {

/// A 32-byte account address: an identity or the place of a record.
#[derive(Clone, Copy, Debug, PartialEq, Eq, Hash)]
pub struct Address {
    pub bytes: [u8; 32],
}

impl View for Address {
    type V = Seq<u8>;

    open spec fn view(&self) -> Seq<u8> {
        self.bytes@
    }
}

/// The address and bump seed that the runtime derives for a program from a
/// list of seeds, or `None` where it finds none. Both are fixed by the seeds
/// and the program id.
pub uninterp spec fn program_address(seeds: Seq<Seq<u8>>, program_id: Seq<u8>) -> Option<(Seq<u8>, u8)>;

/// The most seeds that an address is derived from, the bump seed among them.
pub const MAX_SEEDS: usize = 16;

/// The most bytes that one seed may hold.
pub const MAX_SEED_LEN: usize = 32;

/// Whether the seeds leave room for a bump seed and none of them is too long.
pub open spec fn seeds_in_bounds(seeds: Seq<Seq<u8>>) -> bool {
    &&& seeds.len() < MAX_SEEDS
    &&& forall|i: int| 0 <= i < seeds.len() ==> (#[trigger] seeds[i]).len() <= MAX_SEED_LEN
}

/// The byte strings held by a list of seeds.
pub open spec fn seed_bytes(seeds: Seq<Vec<u8>>) -> Seq<Seq<u8>> {
    Seq::new(seeds.len(), |i: int| seeds[i]@)
}

/// The bytes of a derived address and its bump seed.
pub open spec fn derived_bytes(r: Option<(Address, u8)>) -> Option<(Seq<u8>, u8)> {
    match r {
        Some((a, bump)) => Some((a@, bump)),
        None => None,
    }
}

/// Calls `Pubkey::try_find_program_address` of `anchor_lang`. Trusted: the
/// result is the runtime's derivation for these seeds and this program id,
/// which is a function of the two alone, and there is none where the seeds
/// are out of bounds.
#[verifier::external_body]
fn try_find_program_address(seeds: &Vec<Vec<u8>>, program_id: &Address) -> (r: Option<(Address, u8)>)
    ensures
        derived_bytes(r) == program_address(seed_bytes(seeds@), program_id@),
        !seeds_in_bounds(seed_bytes(seeds@)) ==> r is None,
{
    let parts: Vec<&[u8]> = seeds.iter().map(|s| s.as_slice()).collect();
    let id = Pubkey::new_from_array(program_id.bytes);
    Pubkey::try_find_program_address(&parts, &id).map(|(key, bump)| (Address { bytes: key.to_bytes() }, bump))
}

/// The tag that opens the seeds of a poll's address: the bytes of `poll`.
pub open spec fn poll_tag() -> Seq<u8> {
    seq![112u8, 111u8, 108u8, 108u8]
}

/// The tag that opens the seeds of a ballot's address: the bytes of `vote`.
pub open spec fn vote_tag() -> Seq<u8> {
    seq![118u8, 111u8, 116u8, 101u8]
}

/// The seeds of a poll's address: the tag, then the poll's id in little-endian bytes.
pub open spec fn poll_seeds(poll_id: u64) -> Seq<Seq<u8>> {
    seq![poll_tag(), vstd::bytes::spec_u64_to_le_bytes(poll_id)]
}

/// The seeds of a ballot's address: the tag, the poll's address, the voter.
pub open spec fn vote_seeds(poll: Address, voter: Address) -> Seq<Seq<u8>> {
    seq![vote_tag(), poll@, voter@]
}

/// The address derived for `program` from `seeds`, where there is one.
pub open spec fn derived(seeds: Seq<Seq<u8>>, program: Address) -> Option<Address> {
    match program_address(seeds, program@) {
        Some((bytes, _)) => Some(Address::of(bytes)),
        None => None,
    }
}

/// Where the poll with the given id is kept.
pub open spec fn poll_address(program: Address, poll_id: u64) -> Option<Address> {
    derived(poll_seeds(poll_id), program)
}

/// Where the ballot of `voter` on the poll at `poll` is kept.
pub open spec fn ballot_address(program: Address, poll: Address, voter: Address) -> Option<Address> {
    derived(vote_seeds(poll, voter), program)
}

/// Derives the address that belongs to `program` and `seeds`. There is none
/// where the seeds are out of bounds.
pub fn derive_address(seeds: &Vec<Vec<u8>>, program: &Address) -> (r: Option<Address>)
    ensures
        r == derived(seed_bytes(seeds@), *program),
        !seeds_in_bounds(seed_bytes(seeds@)) ==> r is None,
{
    match try_find_program_address(seeds, program) {
        Some((a, _)) => {
            proof {
                a.lemma_of_view();
            }
            Some(a)
        },
        None => None,
    }
}

/// Finds where the poll with the given id is kept.
pub fn find_poll_address(program: &Address, poll_id: u64) -> (r: Option<Address>)
    ensures
        r == poll_address(*program, poll_id),
{
    let mut seeds: Vec<Vec<u8>> = Vec::new();
    seeds.push(vec![112u8, 111u8, 108u8, 108u8]);
    seeds.push(vstd::bytes::u64_to_le_bytes(poll_id));
    assert(seed_bytes(seeds@) =~= poll_seeds(poll_id));
    derive_address(&seeds, program)
}

/// Finds where the ballot of `voter` on the poll at `poll` is kept.
pub fn find_ballot_address(program: &Address, poll: &Address, voter: &Address) -> (r: Option<Address>)
    ensures
        r == ballot_address(*program, *poll, *voter),
{
    let mut seeds: Vec<Vec<u8>> = Vec::new();
    seeds.push(vec![118u8, 111u8, 116u8, 101u8]);
    seeds.push(poll.to_vec());
    seeds.push(voter.to_vec());
    assert(seed_bytes(seeds@) =~= vote_seeds(*poll, *voter));
    derive_address(&seeds, program)
}

impl Address {
    /// The bytes of the address, in a vector.
    pub fn to_vec(&self) -> (r: Vec<u8>)
        ensures
            r@ == self@,
    {
        let mut out: Vec<u8> = Vec::new();
        let mut i: usize = 0;
        while i < 32
            invariant
                i <= 32,
                out@ =~= self.bytes@.subrange(0, i as int),
            decreases 32 - i,
        {
            out.push(self.bytes[i]);
            i += 1;
        }
        assert(out@ =~= self@);
        out
    }

    /// The address with the given bytes.
    pub open spec fn of(bytes: Seq<u8>) -> Address {
        choose|a: Address| a@ == bytes
    }

    /// An address is fixed by its bytes.
    pub proof fn lemma_of_view(self)
        ensures
            Address::of(self@) == self,
    {
        let a = Address::of(self@);
        assert(a@ == self@);
        assert(a.bytes =~= self.bytes);
    }

    /// Whether two addresses are the same.
    pub fn same(&self, other: &Address) -> (r: bool)
        ensures
            r == (*self == *other),
    {
        let mut i: usize = 0;
        while i < 32
            invariant
                i <= 32,
                forall|j: int| 0 <= j < i ==> self.bytes@[j] == other.bytes@[j],
            decreases 32 - i,
        {
            if self.bytes[i] != other.bytes[i] {
                return false;
            }
            i += 1;
        }
        assert(self.bytes =~= other.bytes);
        true
    }
}

} // verus!
