//! Identities and the derivation of record addresses from seeds.

use crate::error::Error;
use anchor_lang::prelude::Pubkey;
use anchor_lang::solana_program::hash::hash;
use vstd::prelude::*;

verus! {

/// Largest number of seed parts an address can be derived from; the
/// disambiguation byte takes one more slot.
pub const MAX_SEED_PARTS: usize = 15;

/// Largest length of one seed part, in bytes.
pub const MAX_SEED_PART_LEN: usize = 32;

/// A 32-byte identity: the address of a record, a principal, or a program.
#[derive(Clone, Copy, Debug, PartialEq, Eq, Hash)]
pub struct Address {
    pub bytes: [u8; 32],
}

impl View for Address {
    type V = Seq<u8>;

    open spec fn view(&self) -> Seq<u8> {
        self.bytes@
    }
}

impl Address {
    /// The identity that holds `bytes`.
    pub fn new(bytes: [u8; 32]) -> (a: Address)
        ensures
            a.bytes == bytes,
    {
        Address { bytes }
    }

    /// Whether two identities hold the same 32 bytes.
    pub fn same(&self, other: &Address) -> (r: bool)
        ensures
            r == (self@ == other@),
    {
        let mut i: usize = 0;
        while i < 32
            invariant
                i <= 32,
                forall|k: int| 0 <= k < i ==> self.bytes@[k] == other.bytes@[k],
            decreases 32 - i,
        {
            if self.bytes[i] != other.bytes[i] {
                return false;
            }
            i += 1;
        }
        assert(self.bytes@ =~= other.bytes@);
        true
    }

    /// The 32 bytes as a vector.
    pub fn to_vec(&self) -> (v: Vec<u8>)
        ensures
            v@ == self@,
    {
        copy_of(&self.bytes)
    }
}

/// The 32 bytes of an array as a vector.
fn copy_of(bytes: &[u8; 32]) -> (v: Vec<u8>)
    ensures
        v@ == bytes@,
{
    let mut v: Vec<u8> = Vec::new();
    let mut i: usize = 0;
    while i < 32
        invariant
            i <= 32,
            v@ == bytes@.subrange(0, i as int),
        decreases 32 - i,
    {
        v.push(bytes[i]);
        assert(v@ =~= bytes@.subrange(0, i + 1));
        i += 1;
    }
    assert(v@ =~= bytes@);
    v
}

/// The SHA-256 digest of a byte string.
pub uninterp spec fn sha256(data: Seq<u8>) -> Seq<u8>;

/// The address and disambiguation byte that the platform's search finds for
/// seed parts under an owning program, if it finds any.
pub uninterp spec fn program_address(parts: Seq<Seq<u8>>, owner: Seq<u8>) -> Option<(Seq<u8>, u8)>;

/// The seed parts of a derivation as byte strings.
pub open spec fn parts_of(seed_parts: Seq<Vec<u8>>) -> Seq<Seq<u8>> {
    seed_parts.map_values(|p: Vec<u8>| p@)
}

/// A derivation result as plain bytes.
pub open spec fn found_view(found: Option<(Address, u8)>) -> Option<(Seq<u8>, u8)> {
    match found {
        Some((address, bump)) => Some((address@, bump)),
        None => None,
    }
}

/// Whether the seed parts are few and short enough to derive an address from.
pub open spec fn seeds_fit(parts: Seq<Seq<u8>>) -> bool {
    &&& parts.len() <= MAX_SEED_PARTS
    &&& forall|i: int| 0 <= i < parts.len() ==> (#[trigger] parts[i]).len() <= MAX_SEED_PART_LEN
}

/// What `derive` returns: nothing for seeds that do not fit, else what the
/// platform's search finds.
pub open spec fn derived(parts: Seq<Seq<u8>>, owner: Seq<u8>) -> Option<(Seq<u8>, u8)> {
    if seeds_fit(parts) {
        program_address(parts, owner)
    } else {
        None
    }
}

/// `solana_program::hash::hash`: the SHA-256 digest of `data`, which the
/// contract only names.
#[verifier::external_body]
fn digest(data: &[u8]) -> (d: [u8; 32])
    ensures
        d@ == sha256(data@),
{
    hash(data).to_bytes()
}

/// `Pubkey::try_find_program_address`: scans the disambiguation byte from 255
/// downward for the first hash of the seeds, the byte and the owner that is no
/// curve point. The contract only names what the scan returns.
#[verifier::external_body]
fn try_find_program_address(seed_parts: &Vec<Vec<u8>>, owner: &Address) -> (found: Option<(Address, u8)>)
    requires
        seeds_fit(parts_of(seed_parts@)),
    ensures
        found_view(found) == program_address(parts_of(seed_parts@), owner@),
{
    let parts: Vec<&[u8]> = seed_parts.iter().map(|p| p.as_slice()).collect();
    let program = Pubkey::new_from_array(owner.bytes);
    match Pubkey::try_find_program_address(&parts, &program) {
        Some((address, bump)) => Some((Address { bytes: address.to_bytes() }, bump)),
        None => None,
    }
}

/// The SHA-256 digest of `data`, as a seed part.
pub fn content_hash(data: &[u8]) -> (h: Vec<u8>)
    ensures
        h@ == sha256(data@),
        h@.len() == 32,
{
    copy_of(&digest(data))
}

/// Whether every seed part is short enough and there are few enough of them.
fn check_seeds(seed_parts: &Vec<Vec<u8>>) -> (ok: bool)
    ensures
        ok == seeds_fit(parts_of(seed_parts@)),
{
    if seed_parts.len() > MAX_SEED_PARTS {
        return false;
    }
    let mut i: usize = 0;
    while i < seed_parts.len()
        invariant
            i <= seed_parts.len(),
            seed_parts.len() <= MAX_SEED_PARTS,
            forall|k: int| 0 <= k < i ==> (#[trigger] parts_of(seed_parts@)[k]).len() <= MAX_SEED_PART_LEN,
        decreases seed_parts.len() - i,
    {
        if seed_parts[i].len() > MAX_SEED_PART_LEN {
            assert(parts_of(seed_parts@)[i as int].len() > MAX_SEED_PART_LEN);
            return false;
        }
        i += 1;
    }
    true
}

/// Derives the address and disambiguation byte of a record from its seed
/// parts and the identity of the owning program.
pub fn derive(seed_parts: &Vec<Vec<u8>>, owner: &Address) -> (found: Option<(Address, u8)>)
    ensures
        found_view(found) == derived(parts_of(seed_parts@), owner@),
{
    if check_seeds(seed_parts) {
        try_find_program_address(seed_parts, owner)
    } else {
        None
    }
}

/// What the check of a supplied address against a derivation result gives:
/// the disambiguation byte where the result is the supplied address.
pub open spec fn verified_bump(supplied: Seq<u8>, found: Option<(Seq<u8>, u8)>) -> Result<
    u8,
    Error,
> {
    match found {
        None => Err(Error::NoViableAddress),
        Some((address, bump)) => if address == supplied {
            Ok(bump)
        } else {
            Err(Error::AddressMismatch)
        },
    }
}

/// Checks a supplied address against the result of deriving the address that
/// is expected in its place.
pub fn verify_address(supplied: &Address, found: Option<(Address, u8)>) -> (r: Result<u8, Error>)
    ensures
        r == verified_bump(supplied@, found_view(found)),
{
    match found {
        None => Err(Error::NoViableAddress),
        Some((address, bump)) => {
            if address.same(supplied) {
                Ok(bump)
            } else {
                Err(Error::AddressMismatch)
            }
        },
    }
}

/// Deriving twice from the same seed parts and owner gives the same address
/// and the same disambiguation byte.
pub proof fn lemma_derivation_is_deterministic(
    parts: Seq<Seq<u8>>,
    owner: Seq<u8>,
    again_parts: Seq<Seq<u8>>,
    again_owner: Seq<u8>,
)
    requires
        parts == again_parts,
        owner == again_owner,
    ensures
        derived(parts, owner) == derived(again_parts, again_owner),
{
}

} // verus!
