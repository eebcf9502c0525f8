//! Addresses and their derivation from seeds.
//!
//! A record lies at an address that is derived from the keys and names it
//! belongs to, so that whoever knows those can compute where it must lie.
//! The derivation itself is that of Solana's program addresses: it is
//! called here, and its result is given a name, [`program_address`], over
//! which the contracts of this crate are stated.

use anchor_lang::prelude::Pubkey;
use vstd::prelude::*;
use vstd::std_specs::cmp::PartialEqSpecImpl;
use vstd::string::StringSliceAdditionalSpecFns;
use vstd::utf8::encode_utf8;

verus! {

/// The address of an account: a principal's public key, or the place of a
/// record. Its view is its 32 bytes.
#[derive(Clone, Copy, Debug)]
pub struct Address {
    pub bytes: [u8; 32],
}

impl View for Address {
    type V = Seq<u8>;

    open spec fn view(&self) -> Seq<u8> {
        self.bytes@
    }
}

impl PartialEq for Address {
    fn eq(&self, other: &Self) -> (same: bool) {
        let mut i: usize = 0;
        while i < 32
            invariant
                i <= 32,
                forall|j: int| 0 <= j < i ==> self.bytes@[j] == other.bytes@[j],
            decreases 32 - i,
        {
            if self.bytes[i] != other.bytes[i] {
                return false;
            }
            i += 1;
        }
        assert(self.bytes =~= other.bytes);
        true
    }
}

impl PartialEqSpecImpl for Address {
    open spec fn obeys_eq_spec() -> bool {
        true
    }

    open spec fn eq_spec(&self, other: &Self) -> bool {
        *self == *other
    }
}

impl Eq for Address {

}

/// Two addresses are the same exactly when their bytes are.
pub proof fn lemma_address_by_bytes(a: Address, b: Address)
    ensures
        (a@ == b@) == (a == b),
{
    if a@ == b@ {
        assert(a.bytes =~= b.bytes);
    }
}

/// The scope of a grant that covers every namespace of its owner.
pub const ALL_SCOPES: &'static str = "all";

/// The seed that marks the address of a data record.
pub const DATA_SEED: &'static str = "data";

/// The seed that marks the address of a grant.
pub const AUTHORITIES_SEED: &'static str = "authorities";

/// What `Pubkey::try_find_program_address` returns for `seeds` under the
/// program `program_id`: the derived address with its bump seed, or `None`
/// where the seeds yield no address.
pub uninterp spec fn program_address(seeds: Seq<Seq<u8>>, program_id: Seq<u8>) -> Option<
    (Seq<u8>, u8),
>;

/// The bytes of each seed of a list.
pub open spec fn seed_views(seeds: Seq<&[u8]>) -> Seq<Seq<u8>> {
    Seq::new(seeds.len(), |i: int| seeds[i]@)
}

/// A derived address and its bump seed, the address as its bytes.
pub open spec fn found_view(found: Option<(Address, u8)>) -> Option<(Seq<u8>, u8)> {
    match found {
        Some((address, bump)) => Some((address@, bump)),
        None => None,
    }
}

/// The address that the seeds derive, without its bump seed.
pub open spec fn derived_key(seeds: Seq<Seq<u8>>, program_id: Address) -> Option<Seq<u8>> {
    match program_address(seeds, program_id@) {
        Some((key, _)) => Some(key),
        None => None,
    }
}

/// The seeds of the data record of `user` under `namespace`.
pub open spec fn data_record_seeds(user: Address, namespace: Seq<char>) -> Seq<Seq<u8>> {
    seq![user@, DATA_SEED.spec_bytes(), encode_utf8(namespace)]
}

/// The seeds of the grant that `user` gives to `authority` for `scope`.
pub open spec fn authority_record_seeds(
    user: Address,
    authority: Address,
    scope: Seq<char>,
) -> Seq<Seq<u8>> {
    seq![user@, AUTHORITIES_SEED.spec_bytes(), authority@, encode_utf8(scope)]
}

/// Where the data record of `user` under `namespace` lies, if anywhere.
pub open spec fn data_record_key(user: Address, namespace: Seq<char>, program_id: Address) -> Option<
    Seq<u8>,
> {
    derived_key(data_record_seeds(user, namespace), program_id)
}

/// Where the grant of `user` to `authority` for `scope` lies, if anywhere.
pub open spec fn authority_record_key(
    user: Address,
    authority: Address,
    scope: Seq<char>,
    program_id: Address,
) -> Option<Seq<u8>> {
    derived_key(authority_record_seeds(user, authority, scope), program_id)
}

/// Calls `Pubkey::try_find_program_address`, which searches the bump seeds
/// from 255 downwards for one that, hashed after `seeds` and before the
/// program id, gives an address off the ed25519 curve.
///
/// Trusted, not proved: that what comes back depends on the bytes of the
/// seeds and of the program id alone, so that it can be named by
/// [`program_address`]. Nothing is claimed of which address that is, nor of
/// when there is none.
#[verifier::external_body]
fn try_find_program_address(seeds: &[&[u8]], program_id: &Address) -> (found: Option<
    (Address, u8),
>)
    ensures
        found_view(found) == program_address(seed_views(seeds@), program_id@),
{
    match Pubkey::try_find_program_address(seeds, &Pubkey::new_from_array(program_id.bytes)) {
        Some((key, bump)) => Some((Address { bytes: key.to_bytes() }, bump)),
        None => None,
    }
}

/// Derives the address of the data record of `user` under `namespace`.
pub fn find_data_record_address(user: &Address, namespace: &str, program_id: &Address) -> (found:
    Option<(Address, u8)>)
    ensures
        found_view(found) == program_address(
            data_record_seeds(*user, namespace@),
            program_id@,
        ),
{
    let seeds: [&[u8]; 3] = [user.bytes.as_slice(), DATA_SEED.as_bytes(), namespace.as_bytes()];
    let seeds = seeds.as_slice();
    assert(seed_views(seeds@) =~= data_record_seeds(*user, namespace@));
    try_find_program_address(seeds, program_id)
}

/// Derives the address of the grant that `user` gives to `authority` for
/// `scope`.
pub fn find_authority_record_address(
    user: &Address,
    authority: &Address,
    scope: &str,
    program_id: &Address,
) -> (found: Option<(Address, u8)>)
    ensures
        found_view(found) == program_address(
            authority_record_seeds(*user, *authority, scope@),
            program_id@,
        ),
{
    let seeds: [&[u8]; 4] = [
        user.bytes.as_slice(),
        AUTHORITIES_SEED.as_bytes(),
        authority.bytes.as_slice(),
        scope.as_bytes(),
    ];
    let seeds = seeds.as_slice();
    assert(seed_views(seeds@) =~= authority_record_seeds(*user, *authority, scope@));
    try_find_program_address(seeds, program_id)
}

/// Whether a derivation gave the address `presented`.
pub fn is_derived(found: &Option<(Address, u8)>, presented: &Address) -> (same: bool)
    ensures
        same == (found_view(*found) matches Some((key, _)) && key == presented@),
{
    match found {
        Some((address, _)) => {
            proof {
                lemma_address_by_bytes(*address, *presented);
            }
            *address == *presented
        },
        None => false,
    }
}

} // verus!
