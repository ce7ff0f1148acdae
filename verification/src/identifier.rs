//! Identifier derivation: byte strings in, fixed-width content address out.
//!
//! Both the registry and the settlement ledger key their stores by a
//! Keccak-256 digest of an entity's defining inputs, so any party that knows
//! the inputs can reproduce the key.

use vstd::prelude::*;

verus! {

/// A 20-byte account identity.
pub type Address = [u8; 20];

/// A 32-byte word: a digest, a commitment, a nonce or half of a signature.
pub type Bytes32 = [u8; 32];

/// An unsigned 256-bit integer, held as its 32 big-endian bytes.
pub type Uint256 = [u8; 32];

/// The Keccak-256 digest of `data`.
///
/// Left uninterpreted: the permutation is not restated here. The only way
/// to learn a value of it is to call [`hash_concat`] or [`abi_encode_id`].
pub uninterp spec fn keccak256_digest(data: Seq<u8>) -> Seq<u8>;

/// The Solidity ABI encoding of the pair `(name, owner)`, encoded as one
/// value of type `(string, address)`.
///
/// Left uninterpreted: the layout rules of the ABI are not restated here.
pub uninterp spec fn abi_encoded_name_owner(name: Seq<char>, owner: Seq<u8>) -> Seq<u8>;

/// The identity that stands for "nobody": twenty zero bytes.
pub open spec fn zero_address() -> Seq<u8> {
    Seq::new(20, |i: int| 0u8)
}

/// The address under which the data source `name` of `owner` is stored.
pub open spec fn resource_id(name: Seq<char>, owner: Seq<u8>) -> Seq<u8> {
    keccak256_digest(abi_encoded_name_owner(name, owner))
}

/// The key of the replay guard for the payment of `commitment` by `payer`.
pub open spec fn settlement_key(commitment: Seq<u8>, payer: Seq<u8>) -> Seq<u8> {
    keccak256_digest(commitment + payer)
}

/// Calls `alloy_primitives::keccak256` (through the re-export of
/// `stylus_sdk`) and unwraps the `FixedBytes<32>` it returns.
///
/// Trusted: the result is the Keccak-256 digest of exactly the bytes given,
/// and depends on nothing else.
#[verifier::external_body]
fn keccak256(data: &[u8]) -> (digest: Bytes32)
    ensures
        digest@ == keccak256_digest(data@),
{
    stylus_sdk::alloy_primitives::keccak256(data).0
}

/// Calls `alloy_sol_types::SolValue::abi_encode` on the tuple
/// `(String, Address)`.
///
/// Trusted: the result is the ABI encoding of the pair as a single value,
/// and depends on nothing but the name's characters and the owner's bytes.
#[verifier::external_body]
fn abi_encode_name_owner(name: &str, owner: &Address) -> (encoded: Vec<u8>)
    ensures
        encoded@ == abi_encoded_name_owner(name@, owner@),
{
    let owner = stylus_sdk::alloy_primitives::Address::from(*owner);
    alloy_sol_types::SolValue::abi_encode(&(name.to_string(), owner))
}

/// Digest of the concatenation `a ‖ b`.
pub fn hash_concat(a: &[u8], b: &[u8]) -> (digest: Bytes32)
    ensures
        digest@ == keccak256_digest(a@ + b@),
{
    let mut data: Vec<u8> = Vec::new();
    data.extend_from_slice(a);
    data.extend_from_slice(b);
    assert(data@ =~= a@ + b@);
    keccak256(data.as_slice())
}

/// Identifier of the data source `name` registered by `owner`.
pub fn abi_encode_id(name: &str, owner: &Address) -> (id: Bytes32)
    ensures
        id@ == resource_id(name@, owner@),
{
    let encoded = abi_encode_name_owner(name, owner);
    keccak256(encoded.as_slice())
}

/// Whether two byte arrays hold the same bytes.
pub fn bytes_eq<const N: usize>(a: &[u8; N], b: &[u8; N]) -> (same: bool)
    ensures
        same == (a@ == b@),
{
    let mut i: usize = 0;
    while i < N
        invariant
            i <= N,
            forall|j: int| 0 <= j < i ==> a@[j] == b@[j],
        decreases N - i,
    {
        if a[i] != b[i] {
            return false;
        }
        i += 1;
    }
    assert(a@ =~= b@);
    true
}

/// Whether `address` is the zero identity.
pub fn is_zero_address(address: &Address) -> (zero: bool)
    ensures
        zero == (address@ == zero_address()),
{
    let mut i: usize = 0;
    while i < 20
        invariant
            i <= 20,
            forall|j: int| 0 <= j < i ==> address@[j] == 0u8,
        decreases 20 - i,
    {
        if address[i] != 0 {
            return false;
        }
        i += 1;
    }
    assert(address@ =~= zero_address());
    true
}

/// Resource identifiers are a function of name and owner: equal inputs
/// give equal identifiers, on every call.
pub proof fn resource_id_is_deterministic(
    name: Seq<char>,
    owner: Seq<u8>,
    same_name: Seq<char>,
    same_owner: Seq<u8>,
)
    requires
        name == same_name,
        owner == same_owner,
    ensures
        resource_id(name, owner) == resource_id(same_name, same_owner),
{
}

/// Settlement keys are a function of commitment and payer: equal inputs
/// give equal keys, on every call.
pub proof fn settlement_key_is_deterministic(
    commitment: Seq<u8>,
    payer: Seq<u8>,
    same_commitment: Seq<u8>,
    same_payer: Seq<u8>,
)
    requires
        commitment == same_commitment,
        payer == same_payer,
    ensures
        settlement_key(commitment, payer) == settlement_key(same_commitment, same_payer),
{
}

} // verus!
