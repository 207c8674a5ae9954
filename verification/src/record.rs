use crate::identity::Id;
use crate::identity::id_eq;
use vstd::prelude::*;

verus! {

/// One open deal: the terms fixed at creation and the derivation proofs
/// recorded so later transitions can rebuild the custody credential without
/// re-deriving it.
#[derive(Clone, Copy)]
pub struct EscrowAccount {
    /// The party who opened the escrow. Immutable after creation.
    pub maker: Id,
    /// The non-fungible asset held in custody. Immutable.
    pub asset_id: Id,
    /// The fungible asset kind expected as payment. Immutable.
    pub payment_asset_id: Id,
    /// How much of `payment_asset_id` completes the exchange. Immutable.
    pub price_amount: u64,
    /// The record's own derived address.
    pub escrow_address: Id,
    /// Derivation proof (bump) for `escrow_address`.
    pub escrow_bump: u8,
    /// The derived address of the vault holding the asset.
    pub vault_address: Id,
    /// Derivation proof (bump) for `vault_address`.
    pub vault_bump: u8,
}

/// The mathematical model of a record: every identity as its byte sequence.
pub ghost struct EscrowView {
    pub maker: Seq<u8>,
    pub asset_id: Seq<u8>,
    pub payment_asset_id: Seq<u8>,
    pub price_amount: u64,
    pub escrow_address: Seq<u8>,
    pub escrow_bump: u8,
    pub vault_address: Seq<u8>,
    pub vault_bump: u8,
}

impl View for EscrowAccount {
    type V = EscrowView;

    open spec fn view(&self) -> EscrowView {
        EscrowView {
            maker: self.maker@,
            asset_id: self.asset_id@,
            payment_asset_id: self.payment_asset_id@,
            price_amount: self.price_amount,
            escrow_address: self.escrow_address@,
            escrow_bump: self.escrow_bump,
            vault_address: self.vault_address@,
            vault_bump: self.vault_bump,
        }
    }
}

/// A delegated-signing credential: the stand-in signature that the lifecycle
/// controller presents when it moves assets out of custody. It is rebuilt
/// from the record's stored derivation proof; no private key is involved.
pub struct DelegatedCredential {
    /// The derived address the credential signs for.
    pub address: Id,
    /// The derivation proof recorded when the address was found.
    pub bump: u8,
}

impl EscrowAccount {
    /// Rebuild the delegated-signing credential of this record's custody
    /// authority from the stored derivation proof.
    pub fn signing_credential(&self) -> (c: DelegatedCredential)
        ensures
            c.address@ == self@.escrow_address,
            c.bump == self@.escrow_bump,
    {
        DelegatedCredential { address: self.escrow_address, bump: self.escrow_bump }
    }

    /// Authorization gate for Cancel: only the recorded maker may reclaim.
    pub fn may_cancel(&self, caller: &Id) -> (r: bool)
        ensures
            r <==> self@.maker == caller@,
    {
        id_eq(&self.maker, caller)
    }

    /// Identity-consistency gate for Exchange: the supplied maker identity
    /// must be the one recorded at creation.
    pub fn maker_matches(&self, maker: &Id) -> (r: bool)
        ensures
            r <==> self@.maker == maker@,
    {
        id_eq(&self.maker, maker)
    }

    /// Asset-consistency gate: a payment account offered to Exchange must
    /// hold the recorded payment asset kind.
    pub fn payment_asset_matches(&self, account_asset_id: &Id) -> (r: bool)
        ensures
            r <==> self@.payment_asset_id == account_asset_id@,
    {
        id_eq(&self.payment_asset_id, account_asset_id)
    }

    /// Asset-consistency gate: an asset account offered to Exchange must
    /// hold the escrowed asset kind.
    pub fn asset_matches(&self, account_asset_id: &Id) -> (r: bool)
        ensures
            r <==> self@.asset_id == account_asset_id@,
    {
        id_eq(&self.asset_id, account_asset_id)
    }
}

} // verus!
