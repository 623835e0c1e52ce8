//! Incoming Lightning contracts: a user offers a threshold-encrypted preimage
//! for sale, and a gateway buys it by funding a contract that the federation
//! then decrypts.
use vstd::prelude::*;
use crate::tiered::Amount;

verus! {

/// A SHA-256 digest.
#[derive(Clone, Copy, Debug, PartialEq, Eq, Hash)]
pub struct Sha256Hash(pub [u8; 32]);

/// The identifier of an offer: the payment hash it sells the preimage of.
#[derive(Clone, Copy, Debug, PartialEq, Eq, Hash)]
pub struct OfferId(pub [u8; 32]);

/// The identifier of a contract: its payment hash.
#[derive(Clone, Copy, Debug, PartialEq, Eq, Hash)]
pub struct ContractId(pub [u8; 32]);

/// A compressed secp256k1 public key.
#[derive(Clone, Copy, Debug, PartialEq, Eq, Hash)]
pub struct PublicKey(pub [u8; 33]);

/// The preimage, threshold-encrypted to the federation.
#[derive(Clone, Debug, PartialEq, Eq, Hash)]
pub struct EncryptedPreimage(pub Vec<u8>);

/// A preimage that decrypted to a public key.
#[derive(Clone, Copy, Debug, PartialEq, Eq, Hash)]
pub struct PreimageKey(pub [u8; 33]);

/// Where the decryption of a preimage stands.
#[derive(Clone, Copy, Debug, PartialEq, Eq, Hash)]
pub enum DecryptedPreimage {
    /// Decryption has not finished.
    Pending,
    /// Decryption gave a valid preimage.
    Valid(PreimageKey),
    /// Decryption gave no valid preimage.
    Invalid,
}

/// A transaction output: the transaction's id and the output's position.
#[derive(Clone, Copy, Debug, PartialEq, Eq, Hash)]
pub struct OutPoint {
    pub txid: [u8; 32],
    pub out_idx: u64,
}

/// An offer to sell the preimage of `hash` for `amount`.
#[derive(Clone, Debug, PartialEq, Eq, Hash)]
pub struct IncomingContractOffer {
    /// Amount for which the user is willing to sell the preimage.
    pub amount: Amount,
    pub hash: Sha256Hash,
    pub encrypted_preimage: EncryptedPreimage,
    pub expiry_time: Option<u64>,
}

impl IncomingContractOffer {
    pub fn id(&self) -> (r: OfferId)
        ensures
            r.0@ == self.hash.0@,
    {
        OfferId(self.hash.0)
    }
}

/// A contract that a gateway funds to buy the preimage of an offer.
#[derive(Clone, Debug, PartialEq, Eq, Hash)]
pub struct IncomingContract {
    /// Payment hash whose preimage is being sold.
    pub hash: Sha256Hash,
    /// Encrypted preimage as specified in the offer.
    pub encrypted_preimage: EncryptedPreimage,
    /// Status of the preimage's decryption.
    pub decrypted_preimage: DecryptedPreimage,
    /// Key that can unlock the contract if the decrypted preimage is invalid.
    pub gateway_key: PublicKey,
}

impl IncomingContract {
    pub fn contract_id(&self) -> (r: ContractId)
        ensures
            r.0@ == self.hash.0@,
    {
        ContractId(self.hash.0)
    }
}

/// An incoming contract with the output that funded it, which is unique
/// since such a contract is funded once.
#[derive(Clone, Debug, PartialEq, Eq, Hash)]
pub struct FundedIncomingContract {
    pub contract: IncomingContract,
    pub out_point: OutPoint,
}

/// A claim on the funds locked in a contract.
#[derive(Clone, Copy, Debug, PartialEq, Eq, Hash)]
pub struct LightningInput {
    pub contract_id: ContractId,
    pub amount: Amount,
    pub witness: Option<PreimageKey>,
}

/// An incoming contract together with the funds it holds.
#[derive(Clone, Debug, PartialEq, Eq, Hash)]
pub struct IncomingContractAccount {
    pub amount: Amount,
    pub contract: IncomingContract,
}

impl IncomingContractAccount {
    /// The input that claims all the account's funds; it needs no witness.
    pub fn claim(&self) -> (r: LightningInput)
        ensures
            r.contract_id.0@ == self.contract.hash.0@,
            r.amount == self.amount,
            r.witness is None,
    {
        LightningInput { contract_id: self.contract.contract_id(), amount: self.amount, witness: None }
    }
}

} // verus!
