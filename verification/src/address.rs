//! Account addresses and the derivation of program-owned addresses.
//!
//! An [`Address`] is the 32-byte identity of an account on the ledger: a
//! participant's wallet, the configuration record, a ride's escrow record or
//! its custody account. Addresses of the program's own accounts are derived
//! from a fixed label and, for the per-ride accounts, the ride identifier, so
//! that anyone can locate them without an index.

use vstd::prelude::*;
use vstd::std_specs::cmp::PartialEqSpecImpl;
use vstd::string::StringSliceAdditionalSpecFns;
use vstd::utf8::encode_utf8;

verus! {

/// The identity of an account: 32 bytes.
#[derive(Clone, Copy, Debug)]
pub struct Address {
    pub bytes: [u8; 32],
}

impl View for Address {
    type V = Seq<u8>;

    open spec fn view(&self) -> Seq<u8> {
        self.bytes@
    }
}

impl Address {
    /// Wraps 32 bytes as an address.
    pub fn new(bytes: [u8; 32]) -> (address: Address)
        ensures
            address.bytes == bytes,
            address@ == bytes@,
    {
        Address { bytes }
    }

    /// The 32 bytes of the address.
    pub fn to_bytes(&self) -> (bytes: [u8; 32])
        ensures
            bytes == self.bytes,
            bytes@ == self@,
    {
        self.bytes
    }

    /// Two addresses are the same value exactly when they hold the same bytes.
    pub proof fn lemma_view_injective(a: Address, b: Address)
        ensures
            (a@ == b@) <==> (a == b),
    {
        if a@ == b@ {
            assert(a.bytes =~= b.bytes);
        }
    }
}

impl PartialEq for Address {
    fn eq(&self, other: &Address) -> (equal: bool) {
        let mut i: usize = 0;
        while i < 32
            invariant
                i <= 32,
                forall|j: int| 0 <= j < i ==> self.bytes@[j] == other.bytes@[j],
            decreases 32 - i,
        {
            if self.bytes[i] != other.bytes[i] {
                return false;
            }
            i = i + 1;
        }
        assert(self.bytes =~= other.bytes);
        true
    }
}

impl PartialEqSpecImpl for Address {
    open spec fn obeys_eq_spec() -> bool {
        true
    }

    open spec fn eq_spec(&self, other: &Address) -> bool {
        *self == *other
    }
}

impl Eq for Address {

}

/// The longest seed that an address can be derived from, in bytes.
pub const MAX_SEED_LEN: usize = 32;

/// The address that the outside derivation assigns to a list of seeds under a
/// program, together with the bump seed it settled on; `None` where the seeds
/// admit no address.
pub uninterp spec fn program_address(seeds: Seq<Seq<u8>>, program_id: Seq<u8>) -> Option<
    (Seq<u8>, u8),
>;

/// The byte strings that a list of seed slices stands for.
pub open spec fn seed_bytes(seeds: &[&[u8]]) -> Seq<Seq<u8>> {
    Seq::new(seeds@.len(), |i: int| seeds@[i]@)
}

/// Calls `Pubkey::try_find_program_address` of `solana_program`, as re-exported
/// by `anchor_lang`.
///
/// The contract names the outcome: the call is a pure function of the seeds
/// and the program id, and the address and bump it returns are those of
/// [`program_address`]. Nothing is claimed about which address that is, but
/// for one thing that the function documents: a seed of more than
/// [`MAX_SEED_LEN`] bytes has no address.
#[verifier::external_body]
pub(crate) fn try_find_program_address(seeds: &[&[u8]], program_id: &Address) -> (found: Option<
    (Address, u8),
>)
    ensures
        match found {
            Some((address, bump)) => program_address(seed_bytes(seeds), program_id@) == Some(
                (address@, bump),
            ),
            None => program_address(seed_bytes(seeds), program_id@) is None,
        },
        (exists|i: int| 0 <= i < seeds@.len() && (#[trigger] seeds@[i])@.len() > MAX_SEED_LEN)
            ==> found is None,
{
    let program = anchor_lang::solana_program::pubkey::Pubkey::new_from_array(program_id.bytes);
    match anchor_lang::solana_program::pubkey::Pubkey::try_find_program_address(seeds, &program) {
        Some((key, bump)) => Some((Address { bytes: key.to_bytes() }, bump)),
        None => None,
    }
}

/// What a derivation returned: the bytes of an address and a bump seed, or
/// nothing.
pub type Derived = Option<(Seq<u8>, u8)>;

/// What was found, as plain values.
pub open spec fn derived_view(found: Option<(Address, u8)>) -> Derived {
    match found {
        Some((address, bump)) => Some((address@, bump)),
        None => None,
    }
}

/// Seeds of the configuration record: the label `config`.
pub open spec fn config_seeds() -> Seq<Seq<u8>> {
    seq![encode_utf8("config"@)]
}

/// Seeds of a ride's escrow record: the label `ride` and the ride identifier.
pub open spec fn ride_seeds(ride_id: Seq<char>) -> Seq<Seq<u8>> {
    seq![encode_utf8("ride"@), encode_utf8(ride_id)]
}

/// Seeds of a ride's custody account: the label `vault` and the ride
/// identifier.
pub open spec fn vault_seeds(ride_id: Seq<char>) -> Seq<Seq<u8>> {
    seq![encode_utf8("vault"@), encode_utf8(ride_id)]
}

/// Locates the configuration record of a program.
pub fn find_config_address(program_id: &Address) -> (found: Option<(Address, u8)>)
    ensures
        derived_view(found) == program_address(config_seeds(), program_id@),
{
    let seeds: [&[u8]; 1] = ["config".as_bytes()];
    let seeds: &[&[u8]] = seeds.as_slice();
    proof {
        assert(seed_bytes(seeds) =~= config_seeds());
    }
    try_find_program_address(seeds, program_id)
}

/// Whether a ride identifier is too long to derive an address from: its
/// encoding takes more than [`MAX_SEED_LEN`] bytes.
pub open spec fn too_long(ride_id: Seq<char>) -> bool {
    encode_utf8(ride_id).len() > MAX_SEED_LEN
}

/// Locates the escrow record of a ride. An identifier that is too long has
/// none.
pub fn find_ride_address(ride_id: &str, program_id: &Address) -> (found: Option<(Address, u8)>)
    ensures
        derived_view(found) == program_address(ride_seeds(ride_id@), program_id@),
        too_long(ride_id@) ==> found is None,
{
    let seeds: [&[u8]; 2] = ["ride".as_bytes(), ride_id.as_bytes()];
    let seeds: &[&[u8]] = seeds.as_slice();
    proof {
        assert(seed_bytes(seeds) =~= ride_seeds(ride_id@));
        assert(seeds@[1]@ == encode_utf8(ride_id@));
    }
    try_find_program_address(seeds, program_id)
}

/// Locates the custody account of a ride. An identifier that is too long has
/// none.
pub fn find_vault_address(ride_id: &str, program_id: &Address) -> (found: Option<(Address, u8)>)
    ensures
        derived_view(found) == program_address(vault_seeds(ride_id@), program_id@),
        too_long(ride_id@) ==> found is None,
{
    let seeds: [&[u8]; 2] = ["vault".as_bytes(), ride_id.as_bytes()];
    let seeds: &[&[u8]] = seeds.as_slice();
    proof {
        assert(seed_bytes(seeds) =~= vault_seeds(ride_id@));
        assert(seeds@[1]@ == encode_utf8(ride_id@));
    }
    try_find_program_address(seeds, program_id)
}

} // verus!
