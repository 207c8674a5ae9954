use crate::deriver::derive_escrow_address;
use crate::deriver::derive_vault_address;
use crate::deriver::derived_escrow;
use crate::deriver::derived_vault;
use crate::error::EscrowError;
use crate::identity::Id;
use crate::identity::id_eq;
use crate::lookup::find_by;
use crate::lookup::lemma_find_by_first;
use crate::lookup::lemma_find_by_none;
use crate::lookup::lemma_find_by_push;
use crate::lookup::lemma_find_by_remove;
use crate::lookup::lemma_find_by_update;
use crate::lookup::lemma_unique_by_push;
use crate::lookup::lemma_unique_by_remove;
use crate::lookup::lemma_unique_by_update;
use crate::lookup::unique_by;
use crate::record::EscrowAccount;
use crate::record::EscrowView;
use vstd::prelude::*;

verus! {

/// A holding account of the ledger: so many units of one asset kind, under
/// one authority. The authority is a party's identity, or, for a vault, the
/// owning escrow record's derived address.
#[derive(Clone, Copy)]
pub struct HoldingAccount {
    /// The account's own address.
    pub address: Id,
    /// Whose signature (or delegated credential) moves units out of it.
    pub owner: Id,
    /// The asset kind it holds.
    pub asset_id: Id,
    /// How many units it holds.
    pub amount: u64,
}

/// The mathematical model of a holding account.
pub ghost struct AccountView {
    pub address: Seq<u8>,
    pub owner: Seq<u8>,
    pub asset_id: Seq<u8>,
    pub amount: u64,
}

impl View for HoldingAccount {
    type V = AccountView;

    open spec fn view(&self) -> AccountView {
        AccountView {
            address: self.address@,
            owner: self.owner@,
            asset_id: self.asset_id@,
            amount: self.amount,
        }
    }
}

/// The ledger state one sequencer serializes: every open escrow record and
/// every holding account, each table keyed by address.
pub struct Market {
    /// The deriver namespace all custody addresses are derived under.
    pub namespace: Id,
    /// The open escrow records.
    pub escrows: Vec<EscrowAccount>,
    /// The holding accounts, vaults included.
    pub accounts: Vec<HoldingAccount>,
}

/// The mathematical model of the ledger state.
pub ghost struct MarketView {
    pub namespace: Seq<u8>,
    pub escrows: Seq<EscrowView>,
    pub accounts: Seq<AccountView>,
}

impl View for Market {
    type V = MarketView;

    open spec fn view(&self) -> MarketView {
        MarketView {
            namespace: self.namespace@,
            escrows: Seq::new(self.escrows@.len(), |i: int| self.escrows@[i]@),
            accounts: Seq::new(self.accounts@.len(), |i: int| self.accounts@[i]@),
        }
    }
}

/// The key the account table is looked up by.
pub open spec fn acct_key() -> spec_fn(AccountView) -> Seq<u8> {
    |a: AccountView| a.address
}

/// The key the escrow table is looked up by when an asset is opened.
pub open spec fn escrow_asset_key() -> spec_fn(EscrowView) -> Seq<u8> {
    |e: EscrowView| e.asset_id
}

/// The key the escrow table is looked up by when a record is addressed.
pub open spec fn escrow_addr_key() -> spec_fn(EscrowView) -> Seq<u8> {
    |e: EscrowView| e.escrow_address
}

/// The holding account at `address`, if any.
pub open spec fn find_acct(s: Seq<AccountView>, address: Seq<u8>) -> Option<AccountView> {
    find_by(s, acct_key(), address)
}

/// The open escrow record custodying `asset_id`, if any.
pub open spec fn find_escrow_by_asset(s: Seq<EscrowView>, asset_id: Seq<u8>) -> Option<EscrowView> {
    find_by(s, escrow_asset_key(), asset_id)
}

/// The open escrow record at `escrow_address`, if any.
pub open spec fn find_escrow_at(s: Seq<EscrowView>, escrow_address: Seq<u8>) -> Option<
    EscrowView,
> {
    find_by(s, escrow_addr_key(), escrow_address)
}

/// Account addresses are pairwise distinct: the sequencer treats each
/// address as one exclusive resource.
pub open spec fn accounts_unique(m: MarketView) -> bool {
    unique_by(m.accounts, acct_key())
}

/// At most one record per asset, and record addresses pairwise distinct.
pub open spec fn escrows_unique(m: MarketView) -> bool {
    unique_by(m.escrows, escrow_asset_key()) && unique_by(m.escrows, escrow_addr_key())
}

/// The record's vault exists, holds exactly one unit of the escrowed asset,
/// and answers only to the record's own address — never to a party's key.
pub open spec fn vault_backed(accounts: Seq<AccountView>, e: EscrowView) -> bool {
    match find_acct(accounts, e.vault_address) {
        Some(v) => v.asset_id == e.asset_id && v.owner == e.escrow_address && v.amount == 1,
        None => false,
    }
}

/// Every open record is backed by its vault.
pub open spec fn vaults_ok(m: MarketView) -> bool {
    forall|i: int| 0 <= i < m.escrows.len() ==> vault_backed(m.accounts, #[trigger] m.escrows[i])
}

/// Well-formedness of the ledger state: unique keys and backed vaults.
pub open spec fn wf(m: MarketView) -> bool {
    escrows_unique(m) && accounts_unique(m) && vaults_ok(m)
}

/// An identity that signs operations is external: it is no open record's
/// custody address. Custody addresses have no private key, so nothing can
/// sign as one.
pub open spec fn external_identity(escrows: Seq<EscrowView>, id: Seq<u8>) -> bool {
    find_escrow_at(escrows, id) is None
}

/// Why a transfer is rejected, or nothing when it goes through: both
/// accounts must exist and be distinct, the mover must be the source's
/// authority, the asset kinds must agree, the source must cover the amount
/// and the destination must be able to take it.
pub open spec fn transfer_error(
    accounts: Seq<AccountView>,
    from: Seq<u8>,
    to: Seq<u8>,
    authority: Seq<u8>,
    amount: u64,
) -> Option<EscrowError> {
    match (find_acct(accounts, from), find_acct(accounts, to)) {
        (Some(f), Some(t)) => if from == to {
            Some(EscrowError::PreconditionViolation)
        } else if f.owner != authority {
            Some(EscrowError::PreconditionViolation)
        } else if f.asset_id != t.asset_id {
            Some(EscrowError::PreconditionViolation)
        } else if f.amount < amount {
            Some(EscrowError::InsufficientBalance)
        } else if t.amount + amount > u64::MAX {
            Some(EscrowError::PreconditionViolation)
        } else {
            None
        },
        _ => Some(EscrowError::PreconditionViolation),
    }
}

/// Why closing an account is rejected, or nothing when it goes through: the
/// account must exist, be empty, and answer to the presented authority.
pub open spec fn close_error(
    accounts: Seq<AccountView>,
    address: Seq<u8>,
    authority: Seq<u8>,
) -> Option<EscrowError> {
    match find_acct(accounts, address) {
        Some(a) => if a.owner != authority {
            Some(EscrowError::PreconditionViolation)
        } else if a.amount != 0 {
            Some(EscrowError::PreconditionViolation)
        } else {
            None
        },
        None => Some(EscrowError::PreconditionViolation),
    }
}

/// Why an Open is rejected, or nothing when it goes through: the asset must
/// not be escrowed already, both derivations must land, the derived
/// addresses must be free, and the maker must own a funded holding account
/// of the asset.
pub open spec fn open_error(
    m: MarketView,
    maker: Seq<u8>,
    asset_id: Seq<u8>,
    source: Seq<u8>,
) -> Option<EscrowError> {
    if find_escrow_by_asset(m.escrows, asset_id) is Some {
        Some(EscrowError::AddressCollision)
    } else {
        match derived_escrow(asset_id, m.namespace) {
            None => Some(EscrowError::DerivationExhaustion),
            Some(ep) => if find_escrow_at(m.escrows, ep.0) is Some {
                Some(EscrowError::AddressCollision)
            } else {
                match derived_vault(ep.0, m.namespace) {
                    None => Some(EscrowError::DerivationExhaustion),
                    Some(vp) => if find_acct(m.accounts, vp.0) is Some {
                        Some(EscrowError::AddressCollision)
                    } else {
                        match find_acct(m.accounts, source) {
                            None => Some(EscrowError::PreconditionViolation),
                            Some(src) => if src.owner != maker {
                                Some(EscrowError::PreconditionViolation)
                            } else if src.asset_id != asset_id {
                                Some(EscrowError::PreconditionViolation)
                            } else if src.amount < 1 {
                                Some(EscrowError::InsufficientBalance)
                            } else {
                                None
                            },
                        }
                    },
                }
            },
        }
    }
}

/// What a successful Open does to the ledger: a record for the asset is
/// appended, its vault exists holding exactly one unit under the record's
/// own authority, the maker's source account gave that unit up, and nothing
/// else moved.
pub open spec fn open_effect(
    pre: MarketView,
    post: MarketView,
    maker: Seq<u8>,
    asset_id: Seq<u8>,
    payment_asset_id: Seq<u8>,
    price_amount: u64,
    source: Seq<u8>,
    ep: (Seq<u8>, u8),
    vp: (Seq<u8>, u8),
) -> bool {
    let rv = EscrowView {
        maker,
        asset_id,
        payment_asset_id,
        price_amount,
        escrow_address: ep.0,
        escrow_bump: ep.1,
        vault_address: vp.0,
        vault_bump: vp.1,
    };
    &&& post.namespace == pre.namespace
    &&& post.escrows == pre.escrows.push(rv)
    &&& find_escrow_by_asset(post.escrows, asset_id) == Some(rv)
    &&& find_escrow_at(post.escrows, ep.0) == Some(rv)
    &&& (forall|b: Seq<u8>|
        b != asset_id ==> find_escrow_by_asset(post.escrows, b) == find_escrow_by_asset(
            pre.escrows,
            b,
        ))
    &&& (forall|b: Seq<u8>|
        b != ep.0 ==> find_escrow_at(post.escrows, b) == find_escrow_at(pre.escrows, b))
    &&& find_acct(post.accounts, vp.0) == Some(
        (AccountView { address: vp.0, owner: ep.0, asset_id, amount: 1 }),
    )
    &&& (match find_acct(pre.accounts, source) {
        Some(src) => src.amount >= 1 && find_acct(post.accounts, source) == Some(
            (AccountView { amount: (src.amount - 1) as u64, ..src }),
        ),
        None => false,
    })
    &&& (forall|b: Seq<u8>|
        b != vp.0 && b != source ==> find_acct(post.accounts, b) == find_acct(pre.accounts, b))
}

/// Why a Cancel is rejected, or nothing when it goes through: the record
/// must exist, the caller must be its maker, the destination must be the
/// maker's own holding account of the escrowed asset, and the vault must be
/// intact — holding exactly one unit under the record's authority.
pub open spec fn cancel_error(
    m: MarketView,
    caller: Seq<u8>,
    escrow_address: Seq<u8>,
    destination: Seq<u8>,
) -> Option<EscrowError> {
    match find_escrow_at(m.escrows, escrow_address) {
        None => Some(EscrowError::PreconditionViolation),
        Some(rec) => if rec.maker != caller {
            Some(EscrowError::PreconditionViolation)
        } else {
            match find_acct(m.accounts, destination) {
                None => Some(EscrowError::PreconditionViolation),
                Some(d) => if d.asset_id != rec.asset_id {
                    Some(EscrowError::PreconditionViolation)
                } else if d.owner != rec.maker {
                    Some(EscrowError::PreconditionViolation)
                } else {
                    match find_acct(m.accounts, rec.vault_address) {
                        None => Some(EscrowError::PreconditionViolation),
                        Some(v) => if destination == rec.vault_address {
                            Some(EscrowError::PreconditionViolation)
                        } else if v.owner != rec.escrow_address {
                            Some(EscrowError::PreconditionViolation)
                        } else if v.asset_id != rec.asset_id {
                            Some(EscrowError::PreconditionViolation)
                        } else if v.amount < 1 {
                            Some(EscrowError::InsufficientBalance)
                        } else if v.amount != 1 {
                            Some(EscrowError::PreconditionViolation)
                        } else if d.amount + 1 > u64::MAX {
                            Some(EscrowError::PreconditionViolation)
                        } else {
                            None
                        },
                    }
                },
            }
        },
    }
}

/// What a successful Cancel does to the ledger: the unit went back to the
/// maker's destination account, the vault and the record are gone, and
/// nothing else moved.
pub open spec fn cancel_effect(
    pre: MarketView,
    post: MarketView,
    escrow_address: Seq<u8>,
    destination: Seq<u8>,
) -> bool {
    match (find_escrow_at(pre.escrows, escrow_address), find_acct(pre.accounts, destination)) {
        (Some(rec), Some(d)) => {
            &&& post.namespace == pre.namespace
            &&& find_escrow_at(post.escrows, escrow_address) is None
            &&& find_escrow_by_asset(post.escrows, rec.asset_id) is None
            &&& (forall|b: Seq<u8>|
                b != escrow_address ==> find_escrow_at(post.escrows, b) == find_escrow_at(
                    pre.escrows,
                    b,
                ))
            &&& (forall|b: Seq<u8>|
                b != rec.asset_id ==> find_escrow_by_asset(post.escrows, b)
                    == find_escrow_by_asset(pre.escrows, b))
            &&& find_acct(post.accounts, rec.vault_address) is None
            &&& d.amount + 1 <= u64::MAX
            &&& find_acct(post.accounts, destination) == Some(
                (AccountView { amount: (d.amount + 1) as u64, ..d }),
            )
            &&& (forall|b: Seq<u8>|
                b != rec.vault_address && b != destination ==> find_acct(post.accounts, b)
                    == find_acct(pre.accounts, b))
        },
        _ => false,
    }
}

/// Pairwise distinctness of the four account addresses an Exchange touches.
pub open spec fn distinct4(a: Seq<u8>, b: Seq<u8>, c: Seq<u8>, d: Seq<u8>) -> bool {
    a != b && a != c && a != d && b != c && b != d && c != d
}

/// Why an Exchange is rejected, or nothing when it goes through: the record
/// must exist; the taker's payment account must be the caller's, of the
/// payment asset, and cover the price; the maker's payment account must be
/// the recorded maker's, of the payment asset, able to take the price; the
/// taker's asset account must be the caller's, of the escrowed asset, able
/// to take the unit; the vault must be intact; and the four accounts must be
/// pairwise distinct.
pub open spec fn exchange_error(
    m: MarketView,
    caller: Seq<u8>,
    escrow_address: Seq<u8>,
    taker_payment: Seq<u8>,
    taker_asset: Seq<u8>,
    maker_payment: Seq<u8>,
) -> Option<EscrowError> {
    match find_escrow_at(m.escrows, escrow_address) {
        None => Some(EscrowError::PreconditionViolation),
        Some(rec) => match (
            find_acct(m.accounts, taker_payment),
            find_acct(m.accounts, maker_payment),
            find_acct(m.accounts, taker_asset),
            find_acct(m.accounts, rec.vault_address),
        ) {
            (Some(tp), Some(mp), Some(ta), Some(v)) => if !distinct4(
                taker_payment,
                maker_payment,
                taker_asset,
                rec.vault_address,
            ) {
                Some(EscrowError::PreconditionViolation)
            } else if tp.owner != caller {
                Some(EscrowError::PreconditionViolation)
            } else if tp.asset_id != rec.payment_asset_id {
                Some(EscrowError::PreconditionViolation)
            } else if mp.owner != rec.maker {
                Some(EscrowError::PreconditionViolation)
            } else if mp.asset_id != rec.payment_asset_id {
                Some(EscrowError::PreconditionViolation)
            } else if ta.owner != caller {
                Some(EscrowError::PreconditionViolation)
            } else if ta.asset_id != rec.asset_id {
                Some(EscrowError::PreconditionViolation)
            } else if v.owner != rec.escrow_address {
                Some(EscrowError::PreconditionViolation)
            } else if v.asset_id != rec.asset_id {
                Some(EscrowError::PreconditionViolation)
            } else if tp.amount < rec.price_amount {
                Some(EscrowError::InsufficientBalance)
            } else if mp.amount + rec.price_amount > u64::MAX {
                Some(EscrowError::PreconditionViolation)
            } else if v.amount < 1 {
                Some(EscrowError::InsufficientBalance)
            } else if v.amount != 1 {
                Some(EscrowError::PreconditionViolation)
            } else if ta.amount + 1 > u64::MAX {
                Some(EscrowError::PreconditionViolation)
            } else {
                None
            },
            _ => Some(EscrowError::PreconditionViolation),
        },
    }
}

/// What a successful Exchange does to the ledger: the taker paid the price
/// to the maker, took the unit out of custody, the vault and the record are
/// gone, and nothing else moved.
pub open spec fn exchange_effect(
    pre: MarketView,
    post: MarketView,
    escrow_address: Seq<u8>,
    taker_payment: Seq<u8>,
    taker_asset: Seq<u8>,
    maker_payment: Seq<u8>,
) -> bool {
    match find_escrow_at(pre.escrows, escrow_address) {
        Some(rec) => match (
            find_acct(pre.accounts, taker_payment),
            find_acct(pre.accounts, maker_payment),
            find_acct(pre.accounts, taker_asset),
        ) {
            (Some(tp), Some(mp), Some(ta)) => {
                &&& post.namespace == pre.namespace
                &&& find_escrow_at(post.escrows, escrow_address) is None
                &&& find_escrow_by_asset(post.escrows, rec.asset_id) is None
                &&& (forall|b: Seq<u8>|
                    b != escrow_address ==> find_escrow_at(post.escrows, b) == find_escrow_at(
                        pre.escrows,
                        b,
                    ))
                &&& (forall|b: Seq<u8>|
                    b != rec.asset_id ==> find_escrow_by_asset(post.escrows, b)
                        == find_escrow_by_asset(pre.escrows, b))
                &&& find_acct(post.accounts, rec.vault_address) is None
                &&& tp.amount >= rec.price_amount
                &&& mp.amount + rec.price_amount <= u64::MAX
                &&& ta.amount + 1 <= u64::MAX
                &&& find_acct(post.accounts, taker_payment) == Some(
                    (AccountView { amount: (tp.amount - rec.price_amount) as u64, ..tp }),
                )
                &&& find_acct(post.accounts, maker_payment) == Some(
                    (AccountView { amount: (mp.amount + rec.price_amount) as u64, ..mp }),
                )
                &&& find_acct(post.accounts, taker_asset) == Some(
                    (AccountView { amount: (ta.amount + 1) as u64, ..ta }),
                )
                &&& (forall|b: Seq<u8>|
                    b != taker_payment && b != maker_payment && b != taker_asset
                        && b != rec.vault_address ==> find_acct(post.accounts, b) == find_acct(
                        pre.accounts,
                        b,
                    ))
            },
            _ => false,
        },
        None => false,
    }
}

impl Market {
    /// An empty ledger under the given deriver namespace.
    pub fn new(namespace: Id) -> (m: Market)
        ensures
            m@.namespace == namespace@,
            m@.escrows.len() == 0,
            m@.accounts.len() == 0,
            wf(m@),
    {
        Market { namespace, escrows: Vec::new(), accounts: Vec::new() }
    }

    /// Index of the holding account at `address`, with what the lookup spec
    /// says about it.
    fn find_account_idx(&self, address: &Id) -> (r: Option<usize>)
        ensures
            match r {
                Some(i) => i < self@.accounts.len() && self@.accounts[i as int].address
                    == address@ && find_acct(self@.accounts, address@) == Some(
                    self@.accounts[i as int],
                ) && (forall|j: int|
                    0 <= j < i ==> (#[trigger] self@.accounts[j]).address != address@),
                None => find_acct(self@.accounts, address@) is None,
            },
    {
        let n = self.accounts.len();
        let mut i: usize = 0;
        while i < n
            invariant
                i <= n,
                n == self@.accounts.len(),
                forall|j: int| 0 <= j < i ==> (#[trigger] self@.accounts[j]).address != address@,
            decreases n - i,
        {
            if id_eq(&self.accounts[i].address, address) {
                proof {
                    assert(acct_key()(self@.accounts[i as int]) == address@);
                    assert forall|j: int| 0 <= j < i implies acct_key()(
                        #[trigger] self@.accounts[j],
                    ) != acct_key()(self@.accounts[i as int]) by {}
                    lemma_find_by_first(self@.accounts, acct_key(), i as int);
                }
                return Some(i);
            }
            i = i + 1;
        }
        proof {
            lemma_find_by_none(self@.accounts, acct_key(), address@);
        }
        None
    }

    /// The holding account at `address`, if any.
    pub fn holding(&self, address: &Id) -> (r: Option<HoldingAccount>)
        ensures
            match r {
                Some(a) => find_acct(self@.accounts, address@) == Some(a@),
                None => find_acct(self@.accounts, address@) is None,
            },
    {
        match self.find_account_idx(address) {
            Some(i) => Some(self.accounts[i]),
            None => None,
        }
    }

    /// The ledger's account-creation primitive: allocate a holding account
    /// for `asset_id` under `owner` with an opening balance. Rejected when
    /// the address is already occupied.
    pub fn create_account(
        &mut self,
        address: &Id,
        owner: &Id,
        asset_id: &Id,
        amount: u64,
    ) -> (r: Result<(), EscrowError>)
        requires
            accounts_unique(old(self)@),
        ensures
            final(self)@.namespace == old(self)@.namespace,
            final(self)@.escrows == old(self)@.escrows,
            accounts_unique(final(self)@),
            r is Err ==> final(self)@ == old(self)@,
            r matches Err(e) ==> e == EscrowError::AddressCollision,
            r is Ok <==> find_acct(old(self)@.accounts, address@) is None,
            r is Ok ==> find_acct(final(self)@.accounts, address@) == Some(
                (AccountView { address: address@, owner: owner@, asset_id: asset_id@, amount }),
            ) && (forall|b: Seq<u8>|
                b != address@ ==> find_acct(final(self)@.accounts, b) == find_acct(
                    old(self)@.accounts,
                    b,
                )),
    {
        if self.find_account_idx(address).is_some() {
            return Err(EscrowError::AddressCollision);
        }
        let account = HoldingAccount {
            address: *address,
            owner: *owner,
            asset_id: *asset_id,
            amount,
        };
        let ghost pre = self@.accounts;
        self.accounts.push(account);
        proof {
            assert(self@.accounts =~= pre.push(account@));
            lemma_find_by_none(pre, acct_key(), address@);
            lemma_unique_by_push(pre, acct_key(), account@);
            assert forall|b: Seq<u8>| true implies find_acct(self@.accounts, b) == (if find_acct(
                pre,
                b,
            ) is Some {
                find_acct(pre, b)
            } else if b == address@ {
                Some(account@)
            } else {
                None::<AccountView>
            }) by {
                lemma_find_by_push(pre, acct_key(), account@, b);
            }
        }
        Ok(())
    }

    /// The ledger's transfer primitive: move `amount` units between two
    /// distinct holding accounts of the same asset kind, authorized by the
    /// source's owner — a party's own identity, or the delegated credential
    /// address of an escrow record.
    pub fn transfer(
        &mut self,
        from: &Id,
        to: &Id,
        authority: &Id,
        amount: u64,
    ) -> (r: Result<(), EscrowError>)
        requires
            accounts_unique(old(self)@),
        ensures
            final(self)@.namespace == old(self)@.namespace,
            final(self)@.escrows == old(self)@.escrows,
            accounts_unique(final(self)@),
            r is Err ==> final(self)@ == old(self)@,
            r is Ok <==> transfer_error(old(self)@.accounts, from@, to@, authority@, amount)
                is None,
            r matches Err(e) ==> Some(e) == transfer_error(
                old(self)@.accounts,
                from@,
                to@,
                authority@,
                amount,
            ),
            r is Ok ==> (match (
                find_acct(old(self)@.accounts, from@),
                find_acct(old(self)@.accounts, to@),
            ) {
                (Some(f), Some(t)) => find_acct(final(self)@.accounts, from@) == Some(
                    (AccountView { amount: (f.amount - amount) as u64, ..f }),
                ) && find_acct(final(self)@.accounts, to@) == Some(
                    (AccountView { amount: (t.amount + amount) as u64, ..t }),
                ) && (forall|b: Seq<u8>|
                    b != from@ && b != to@ ==> find_acct(final(self)@.accounts, b) == find_acct(
                        old(self)@.accounts,
                        b,
                    )),
                _ => false,
            }),
    {
        let fi = match self.find_account_idx(from) {
            Some(i) => i,
            None => {
                return Err(EscrowError::PreconditionViolation);
            },
        };
        let ti = match self.find_account_idx(to) {
            Some(i) => i,
            None => {
                return Err(EscrowError::PreconditionViolation);
            },
        };
        if id_eq(from, to) {
            return Err(EscrowError::PreconditionViolation);
        }
        let f = self.accounts[fi];
        let t = self.accounts[ti];
        if !id_eq(&f.owner, authority) {
            return Err(EscrowError::PreconditionViolation);
        }
        if !id_eq(&f.asset_id, &t.asset_id) {
            return Err(EscrowError::PreconditionViolation);
        }
        if f.amount < amount {
            return Err(EscrowError::InsufficientBalance);
        }
        if t.amount > u64::MAX - amount {
            return Err(EscrowError::PreconditionViolation);
        }
        let ghost pre = self@.accounts;
        let new_f = HoldingAccount { amount: f.amount - amount, ..f };
        self.accounts[fi] = new_f;
        let ghost mid = self@.accounts;
        let new_t = HoldingAccount { amount: t.amount + amount, ..t };
        self.accounts[ti] = new_t;
        proof {
            assert(fi != ti);
            assert(mid =~= pre.update(fi as int, new_f@));
            assert(self@.accounts =~= mid.update(ti as int, new_t@));
            assert forall|j: int| 0 <= j < mid.len() implies (#[trigger] mid[j]).address
                == pre[j].address by {}
            assert forall|j: int| 0 <= j < ti implies (#[trigger] mid[j]).address != to@ by {}
            lemma_unique_by_update(pre, acct_key(), fi as int, new_f@);
            lemma_unique_by_update(mid, acct_key(), ti as int, new_t@);
            assert forall|b: Seq<u8>| true implies find_acct(self@.accounts, b) == (if b == to@ {
                Some(new_t@)
            } else if b == from@ {
                Some(new_f@)
            } else {
                find_acct(pre, b)
            }) by {
                lemma_find_by_update(pre, acct_key(), fi as int, new_f@, b);
                lemma_find_by_update(mid, acct_key(), ti as int, new_t@, b);
                assert(mid[ti as int].address == to@);
            }
        }
        Ok(())
    }

    /// The ledger's close primitive: reclaim an empty holding account's
    /// storage to `destination` (the reclaimed storage itself lies outside
    /// the balance model), authorized by the account's owner.
    #[allow(unused_variables)]
    pub fn close_account(
        &mut self,
        address: &Id,
        destination: &Id,
        authority: &Id,
    ) -> (r: Result<(), EscrowError>)
        requires
            accounts_unique(old(self)@),
        ensures
            final(self)@.namespace == old(self)@.namespace,
            final(self)@.escrows == old(self)@.escrows,
            accounts_unique(final(self)@),
            r is Err ==> final(self)@ == old(self)@,
            r is Ok <==> close_error(old(self)@.accounts, address@, authority@) is None,
            r matches Err(e) ==> Some(e) == close_error(old(self)@.accounts, address@, authority@),
            r is Ok ==> find_acct(final(self)@.accounts, address@) is None && (forall|b: Seq<u8>|
                b != address@ ==> find_acct(final(self)@.accounts, b) == find_acct(
                    old(self)@.accounts,
                    b,
                )),
    {
        let i = match self.find_account_idx(address) {
            Some(i) => i,
            None => {
                return Err(EscrowError::PreconditionViolation);
            },
        };
        let a = self.accounts[i];
        if !id_eq(&a.owner, authority) {
            return Err(EscrowError::PreconditionViolation);
        }
        if a.amount != 0 {
            return Err(EscrowError::PreconditionViolation);
        }
        let ghost pre = self@.accounts;
        self.accounts.remove(i);
        proof {
            assert(self@.accounts =~= pre.remove(i as int));
            assert forall|j: int| 0 <= j < pre.len() && j != i implies (#[trigger] pre[j]).address
                != pre[i as int].address by {}
            lemma_unique_by_remove(pre, acct_key(), i as int);
            assert forall|b: Seq<u8>| true implies find_acct(self@.accounts, b) == (if b
                == address@ {
                None::<AccountView>
            } else {
                find_acct(pre, b)
            }) by {
                lemma_find_by_remove(pre, acct_key(), i as int, b);
            }
        }
        Ok(())
    }

    /// Index of the escrow record custodying `asset_id`, with what the
    /// lookup spec says about it.
    fn find_escrow_idx_by_asset(&self, asset_id: &Id) -> (r: Option<usize>)
        ensures
            match r {
                Some(i) => i < self@.escrows.len() && self@.escrows[i as int].asset_id == asset_id@
                    && find_escrow_by_asset(self@.escrows, asset_id@) == Some(
                    self@.escrows[i as int],
                ),
                None => find_escrow_by_asset(self@.escrows, asset_id@) is None,
            },
    {
        let n = self.escrows.len();
        let mut i: usize = 0;
        while i < n
            invariant
                i <= n,
                n == self@.escrows.len(),
                forall|j: int| 0 <= j < i ==> (#[trigger] self@.escrows[j]).asset_id != asset_id@,
            decreases n - i,
        {
            if id_eq(&self.escrows[i].asset_id, asset_id) {
                proof {
                    assert(escrow_asset_key()(self@.escrows[i as int]) == asset_id@);
                    assert forall|j: int| 0 <= j < i implies escrow_asset_key()(
                        #[trigger] self@.escrows[j],
                    ) != escrow_asset_key()(self@.escrows[i as int]) by {}
                    lemma_find_by_first(self@.escrows, escrow_asset_key(), i as int);
                }
                return Some(i);
            }
            i = i + 1;
        }
        proof {
            lemma_find_by_none(self@.escrows, escrow_asset_key(), asset_id@);
        }
        None
    }

    /// Index of the escrow record at `escrow_address`, with what the lookup
    /// spec says about it.
    fn find_escrow_idx_at(&self, escrow_address: &Id) -> (r: Option<usize>)
        ensures
            match r {
                Some(i) => i < self@.escrows.len() && self@.escrows[i as int].escrow_address
                    == escrow_address@ && find_escrow_at(self@.escrows, escrow_address@) == Some(
                    self@.escrows[i as int],
                ),
                None => find_escrow_at(self@.escrows, escrow_address@) is None,
            },
    {
        let n = self.escrows.len();
        let mut i: usize = 0;
        while i < n
            invariant
                i <= n,
                n == self@.escrows.len(),
                forall|j: int|
                    0 <= j < i ==> (#[trigger] self@.escrows[j]).escrow_address != escrow_address@,
            decreases n - i,
        {
            if id_eq(&self.escrows[i].escrow_address, escrow_address) {
                proof {
                    assert(escrow_addr_key()(self@.escrows[i as int]) == escrow_address@);
                    assert forall|j: int| 0 <= j < i implies escrow_addr_key()(
                        #[trigger] self@.escrows[j],
                    ) != escrow_addr_key()(self@.escrows[i as int]) by {}
                    lemma_find_by_first(self@.escrows, escrow_addr_key(), i as int);
                }
                return Some(i);
            }
            i = i + 1;
        }
        proof {
            lemma_find_by_none(self@.escrows, escrow_addr_key(), escrow_address@);
        }
        None
    }

    /// The escrow record custodying `asset_id`, if one is open.
    pub fn escrow_for_asset(&self, asset_id: &Id) -> (r: Option<EscrowAccount>)
        ensures
            match r {
                Some(e) => find_escrow_by_asset(self@.escrows, asset_id@) == Some(e@),
                None => find_escrow_by_asset(self@.escrows, asset_id@) is None,
            },
    {
        match self.find_escrow_idx_by_asset(asset_id) {
            Some(i) => Some(self.escrows[i]),
            None => None,
        }
    }

    /// The escrow record at `escrow_address`, if one is open.
    pub fn escrow_at(&self, escrow_address: &Id) -> (r: Option<EscrowAccount>)
        ensures
            match r {
                Some(e) => find_escrow_at(self@.escrows, escrow_address@) == Some(e@),
                None => find_escrow_at(self@.escrows, escrow_address@) is None,
            },
    {
        match self.find_escrow_idx_at(escrow_address) {
            Some(i) => Some(self.escrows[i]),
            None => None,
        }
    }

    /// Open: derive the custody addresses for `asset_id`, allocate the
    /// record and its vault there, and move one unit of the asset from the
    /// maker's own holding account into the vault under the maker's own
    /// authority. Returns the new record's address.
    pub fn initialize(
        &mut self,
        maker: &Id,
        asset_id: &Id,
        payment_asset_id: &Id,
        price_amount: u64,
        source: &Id,
    ) -> (r: Result<Id, EscrowError>)
        requires
            accounts_unique(old(self)@),
            escrows_unique(old(self)@),
        ensures
            final(self)@.namespace == old(self)@.namespace,
            accounts_unique(final(self)@),
            escrows_unique(final(self)@),
            r is Err ==> final(self)@ == old(self)@,
            r is Ok <==> open_error(old(self)@, maker@, asset_id@, source@) is None,
            r matches Err(e) ==> Some(e) == open_error(old(self)@, maker@, asset_id@, source@),
            r matches Ok(ea) ==> (match derived_escrow(asset_id@, old(self)@.namespace) {
                Some(ep) => match derived_vault(ep.0, old(self)@.namespace) {
                    Some(vp) => ea@ == ep.0 && open_effect(
                        old(self)@,
                        final(self)@,
                        maker@,
                        asset_id@,
                        payment_asset_id@,
                        price_amount,
                        source@,
                        ep,
                        vp,
                    ),
                    None => false,
                },
                None => false,
            }),
            wf(old(self)@) && r is Ok ==> wf(final(self)@),
    {
        if self.find_escrow_idx_by_asset(asset_id).is_some() {
            return Err(EscrowError::AddressCollision);
        }
        let (escrow_address, escrow_bump) = match derive_escrow_address(asset_id, &self.namespace) {
            Some(p) => p,
            None => {
                return Err(EscrowError::DerivationExhaustion);
            },
        };
        if self.find_escrow_idx_at(&escrow_address).is_some() {
            return Err(EscrowError::AddressCollision);
        }
        let (vault_address, vault_bump) = match derive_vault_address(
            &escrow_address,
            &self.namespace,
        ) {
            Some(p) => p,
            None => {
                return Err(EscrowError::DerivationExhaustion);
            },
        };
        if self.find_account_idx(&vault_address).is_some() {
            return Err(EscrowError::AddressCollision);
        }
        let src = match self.find_account_idx(source) {
            Some(i) => self.accounts[i],
            None => {
                return Err(EscrowError::PreconditionViolation);
            },
        };
        if !id_eq(&src.owner, maker) {
            return Err(EscrowError::PreconditionViolation);
        }
        if !id_eq(&src.asset_id, asset_id) {
            return Err(EscrowError::PreconditionViolation);
        }
        if src.amount < 1 {
            return Err(EscrowError::InsufficientBalance);
        }
        let ghost pre = self@;
        let created = self.create_account(&vault_address, &escrow_address, asset_id, 0);
        proof {
            assert(created is Ok);
        }
        let ghost mid = self@;
        let moved = self.transfer(source, &vault_address, maker, 1);
        proof {
            assert(find_acct(mid.accounts, source@) == Some(src@));
            assert(moved is Ok);
        }
        let record = EscrowAccount {
            maker: *maker,
            asset_id: *asset_id,
            payment_asset_id: *payment_asset_id,
            price_amount,
            escrow_address,
            escrow_bump,
            vault_address,
            vault_bump,
        };
        let ghost mid2 = self@;
        let ghost pre_esc = self@.escrows;
        self.escrows.push(record);
        proof {
            assert(self@.escrows =~= pre_esc.push(record@));
            assert(pre_esc == pre.escrows);
            lemma_find_by_none(pre.escrows, escrow_asset_key(), asset_id@);
            lemma_find_by_none(pre.escrows, escrow_addr_key(), escrow_address@);
            lemma_unique_by_push(pre.escrows, escrow_asset_key(), record@);
            lemma_unique_by_push(pre.escrows, escrow_addr_key(), record@);
            assert forall|b: Seq<u8>| true implies find_escrow_by_asset(self@.escrows, b) == (
            if b == asset_id@ {
                Some(record@)
            } else {
                find_escrow_by_asset(pre.escrows, b)
            }) by {
                lemma_find_by_push(pre.escrows, escrow_asset_key(), record@, b);
                lemma_find_by_none(pre.escrows, escrow_asset_key(), b);
            }
            assert forall|b: Seq<u8>| true implies find_escrow_at(self@.escrows, b) == (if b
                == escrow_address@ {
                Some(record@)
            } else {
                find_escrow_at(pre.escrows, b)
            }) by {
                lemma_find_by_push(pre.escrows, escrow_addr_key(), record@, b);
                lemma_find_by_none(pre.escrows, escrow_addr_key(), b);
            }
            assert(find_acct(self@.accounts, vault_address@) == Some(
                (AccountView {
                    address: vault_address@,
                    owner: escrow_address@,
                    asset_id: asset_id@,
                    amount: 1u64,
                }),
            ));
            if wf(pre) {
                assert forall|i2: int| 0 <= i2 < self@.escrows.len() implies vault_backed(
                    self@.accounts,
                    #[trigger] self@.escrows[i2],
                ) by {
                    if i2 < pre.escrows.len() {
                        let e = pre.escrows[i2];
                        assert(vault_backed(pre.accounts, e));
                        assert(e.vault_address != vault_address@);
                        if e.vault_address == source@ {
                            assert(find_acct(pre.accounts, e.vault_address) == Some(src@));
                            assert(e.asset_id != asset_id@);
                            assert(false);
                        }
                        assert(find_acct(self@.accounts, e.vault_address) == find_acct(
                            pre.accounts,
                            e.vault_address,
                        ));
                    }
                }
            }
        }
        Ok(escrow_address)
    }

    /// Cancel: the maker — and nobody else — reclaims the escrowed unit.
    /// The controller signs the vault transfer and the vault closure with
    /// the delegated credential rebuilt from the record, moves the unit back
    /// into the maker's `destination` account, closes the vault with its
    /// storage reclaimed to the maker, and destroys the record.
    pub fn cancel(
        &mut self,
        caller: &Id,
        escrow_address: &Id,
        destination: &Id,
    ) -> (r: Result<(), EscrowError>)
        requires
            accounts_unique(old(self)@),
            escrows_unique(old(self)@),
        ensures
            final(self)@.namespace == old(self)@.namespace,
            accounts_unique(final(self)@),
            escrows_unique(final(self)@),
            r is Err ==> final(self)@ == old(self)@,
            r is Ok <==> cancel_error(old(self)@, caller@, escrow_address@, destination@) is None,
            r matches Err(e) ==> Some(e) == cancel_error(
                old(self)@,
                caller@,
                escrow_address@,
                destination@,
            ),
            r is Ok ==> cancel_effect(old(self)@, final(self)@, escrow_address@, destination@),
            wf(old(self)@) && r is Ok ==> wf(final(self)@),
    {
        let ei = match self.find_escrow_idx_at(escrow_address) {
            Some(i) => i,
            None => {
                return Err(EscrowError::PreconditionViolation);
            },
        };
        let rec = self.escrows[ei];
        if !rec.may_cancel(caller) {
            return Err(EscrowError::PreconditionViolation);
        }
        let d = match self.find_account_idx(destination) {
            Some(i) => self.accounts[i],
            None => {
                return Err(EscrowError::PreconditionViolation);
            },
        };
        if !rec.asset_matches(&d.asset_id) {
            return Err(EscrowError::PreconditionViolation);
        }
        if !id_eq(&d.owner, &rec.maker) {
            return Err(EscrowError::PreconditionViolation);
        }
        let v = match self.find_account_idx(&rec.vault_address) {
            Some(i) => self.accounts[i],
            None => {
                return Err(EscrowError::PreconditionViolation);
            },
        };
        if id_eq(destination, &rec.vault_address) {
            return Err(EscrowError::PreconditionViolation);
        }
        let credential = rec.signing_credential();
        if !id_eq(&v.owner, &credential.address) {
            return Err(EscrowError::PreconditionViolation);
        }
        if !rec.asset_matches(&v.asset_id) {
            return Err(EscrowError::PreconditionViolation);
        }
        if v.amount < 1 {
            return Err(EscrowError::InsufficientBalance);
        }
        if v.amount != 1 {
            return Err(EscrowError::PreconditionViolation);
        }
        if d.amount > u64::MAX - 1 {
            return Err(EscrowError::PreconditionViolation);
        }
        let ghost pre = self@;
        let moved = self.transfer(&rec.vault_address, destination, &credential.address, 1);
        proof {
            assert(moved is Ok);
        }
        let ghost m1 = self@;
        let closed = self.close_account(&rec.vault_address, &rec.maker, &credential.address);
        proof {
            assert(find_acct(m1.accounts, rec@.vault_address) == Some(
                (AccountView { amount: 0u64, ..v@ }),
            ));
            assert(closed is Ok);
        }
        let ghost m2 = self@;
        let ghost pre_esc = self@.escrows;
        self.escrows.remove(ei);
        proof {
            assert(self@.escrows =~= pre_esc.remove(ei as int));
            assert(pre_esc == pre.escrows);
            assert forall|j: int|
                0 <= j < pre.escrows.len() && j != ei implies escrow_asset_key()(
                #[trigger] pre.escrows[j],
            ) != escrow_asset_key()(pre.escrows[ei as int]) by {}
            assert forall|j: int|
                0 <= j < pre.escrows.len() && j != ei implies escrow_addr_key()(
                #[trigger] pre.escrows[j],
            ) != escrow_addr_key()(pre.escrows[ei as int]) by {}
            lemma_unique_by_remove(pre.escrows, escrow_asset_key(), ei as int);
            lemma_unique_by_remove(pre.escrows, escrow_addr_key(), ei as int);
            assert forall|b: Seq<u8>| true implies find_escrow_at(self@.escrows, b) == (if b
                == escrow_address@ {
                None::<EscrowView>
            } else {
                find_escrow_at(pre.escrows, b)
            }) by {
                lemma_find_by_remove(pre.escrows, escrow_addr_key(), ei as int, b);
            }
            assert forall|b: Seq<u8>| true implies find_escrow_by_asset(self@.escrows, b) == (
            if b == rec@.asset_id {
                None::<EscrowView>
            } else {
                find_escrow_by_asset(pre.escrows, b)
            }) by {
                lemma_find_by_remove(pre.escrows, escrow_asset_key(), ei as int, b);
            }
            if wf(pre) {
                assert forall|i2: int| 0 <= i2 < self@.escrows.len() implies vault_backed(
                    self@.accounts,
                    #[trigger] self@.escrows[i2],
                ) by {
                    let oi = if i2 < ei as int {
                        i2
                    } else {
                        i2 + 1
                    };
                    let e = pre.escrows[oi];
                    assert(self@.escrows[i2] == e);
                    assert(vault_backed(pre.accounts, e));
                    if e.vault_address == rec@.vault_address {
                        assert(find_acct(pre.accounts, e.vault_address) == Some(v@));
                        assert(e.escrow_address == rec@.escrow_address);
                        assert(false);
                    }
                    if e.vault_address == destination@ {
                        assert(find_acct(pre.accounts, e.vault_address) == Some(d@));
                        assert(e.asset_id == rec@.asset_id);
                        assert(false);
                    }
                    assert(find_acct(self@.accounts, e.vault_address) == find_acct(
                        pre.accounts,
                        e.vault_address,
                    ));
                }
            }
        }
        Ok(())
    }

    /// Exchange: the taker pays the recorded price to the maker and takes
    /// the escrowed unit out of custody, atomically. The payment moves under
    /// the taker's own authority; the unit moves and the vault closes under
    /// the delegated credential rebuilt from the record; the vault's storage
    /// is reclaimed to the maker, who originally paid for it; the record is
    /// destroyed.
    pub fn exchange(
        &mut self,
        caller: &Id,
        escrow_address: &Id,
        taker_payment: &Id,
        taker_asset: &Id,
        maker_payment: &Id,
    ) -> (r: Result<(), EscrowError>)
        requires
            accounts_unique(old(self)@),
            escrows_unique(old(self)@),
        ensures
            final(self)@.namespace == old(self)@.namespace,
            accounts_unique(final(self)@),
            escrows_unique(final(self)@),
            r is Err ==> final(self)@ == old(self)@,
            r is Ok <==> exchange_error(
                old(self)@,
                caller@,
                escrow_address@,
                taker_payment@,
                taker_asset@,
                maker_payment@,
            ) is None,
            r matches Err(e) ==> Some(e) == exchange_error(
                old(self)@,
                caller@,
                escrow_address@,
                taker_payment@,
                taker_asset@,
                maker_payment@,
            ),
            r is Ok ==> exchange_effect(
                old(self)@,
                final(self)@,
                escrow_address@,
                taker_payment@,
                taker_asset@,
                maker_payment@,
            ),
            wf(old(self)@) && r is Ok && external_identity(old(self)@.escrows, caller@) && (
            match find_escrow_at(old(self)@.escrows, escrow_address@) {
                Some(rec) => external_identity(old(self)@.escrows, rec.maker),
                None => true,
            }) ==> wf(final(self)@),
    {
        let ei = match self.find_escrow_idx_at(escrow_address) {
            Some(i) => i,
            None => {
                return Err(EscrowError::PreconditionViolation);
            },
        };
        let rec = self.escrows[ei];
        let tp = match self.find_account_idx(taker_payment) {
            Some(i) => self.accounts[i],
            None => {
                return Err(EscrowError::PreconditionViolation);
            },
        };
        let mp = match self.find_account_idx(maker_payment) {
            Some(i) => self.accounts[i],
            None => {
                return Err(EscrowError::PreconditionViolation);
            },
        };
        let ta = match self.find_account_idx(taker_asset) {
            Some(i) => self.accounts[i],
            None => {
                return Err(EscrowError::PreconditionViolation);
            },
        };
        let v = match self.find_account_idx(&rec.vault_address) {
            Some(i) => self.accounts[i],
            None => {
                return Err(EscrowError::PreconditionViolation);
            },
        };
        if id_eq(taker_payment, maker_payment) || id_eq(taker_payment, taker_asset) || id_eq(
            taker_payment,
            &rec.vault_address,
        ) || id_eq(maker_payment, taker_asset) || id_eq(maker_payment, &rec.vault_address) || id_eq(
            taker_asset,
            &rec.vault_address,
        ) {
            return Err(EscrowError::PreconditionViolation);
        }
        if !id_eq(&tp.owner, caller) {
            return Err(EscrowError::PreconditionViolation);
        }
        if !rec.payment_asset_matches(&tp.asset_id) {
            return Err(EscrowError::PreconditionViolation);
        }
        if !id_eq(&mp.owner, &rec.maker) {
            return Err(EscrowError::PreconditionViolation);
        }
        if !rec.payment_asset_matches(&mp.asset_id) {
            return Err(EscrowError::PreconditionViolation);
        }
        if !id_eq(&ta.owner, caller) {
            return Err(EscrowError::PreconditionViolation);
        }
        if !rec.asset_matches(&ta.asset_id) {
            return Err(EscrowError::PreconditionViolation);
        }
        let credential = rec.signing_credential();
        if !id_eq(&v.owner, &credential.address) {
            return Err(EscrowError::PreconditionViolation);
        }
        if !rec.asset_matches(&v.asset_id) {
            return Err(EscrowError::PreconditionViolation);
        }
        if tp.amount < rec.price_amount {
            return Err(EscrowError::InsufficientBalance);
        }
        if mp.amount > u64::MAX - rec.price_amount {
            return Err(EscrowError::PreconditionViolation);
        }
        if v.amount < 1 {
            return Err(EscrowError::InsufficientBalance);
        }
        if v.amount != 1 {
            return Err(EscrowError::PreconditionViolation);
        }
        if ta.amount > u64::MAX - 1 {
            return Err(EscrowError::PreconditionViolation);
        }
        let ghost pre = self@;
        let paid = self.transfer(taker_payment, maker_payment, caller, rec.price_amount);
        proof {
            assert(paid is Ok);
        }
        let ghost m1 = self@;
        let handed_over = self.transfer(&rec.vault_address, taker_asset, &credential.address, 1);
        proof {
            assert(find_acct(m1.accounts, rec@.vault_address) == Some(v@));
            assert(find_acct(m1.accounts, taker_asset@) == Some(ta@));
            assert(handed_over is Ok);
        }
        let ghost m2 = self@;
        let closed = self.close_account(&rec.vault_address, &rec.maker, &credential.address);
        proof {
            assert(find_acct(m2.accounts, rec@.vault_address) == Some(
                (AccountView { amount: 0u64, ..v@ }),
            ));
            assert(closed is Ok);
        }
        let ghost m3 = self@;
        let ghost pre_esc = self@.escrows;
        self.escrows.remove(ei);
        proof {
            assert(self@.escrows =~= pre_esc.remove(ei as int));
            assert(pre_esc == pre.escrows);
            assert forall|j: int|
                0 <= j < pre.escrows.len() && j != ei implies escrow_asset_key()(
                #[trigger] pre.escrows[j],
            ) != escrow_asset_key()(pre.escrows[ei as int]) by {}
            assert forall|j: int|
                0 <= j < pre.escrows.len() && j != ei implies escrow_addr_key()(
                #[trigger] pre.escrows[j],
            ) != escrow_addr_key()(pre.escrows[ei as int]) by {}
            lemma_unique_by_remove(pre.escrows, escrow_asset_key(), ei as int);
            lemma_unique_by_remove(pre.escrows, escrow_addr_key(), ei as int);
            assert forall|b: Seq<u8>| true implies find_escrow_at(self@.escrows, b) == (if b
                == escrow_address@ {
                None::<EscrowView>
            } else {
                find_escrow_at(pre.escrows, b)
            }) by {
                lemma_find_by_remove(pre.escrows, escrow_addr_key(), ei as int, b);
            }
            assert forall|b: Seq<u8>| true implies find_escrow_by_asset(self@.escrows, b) == (
            if b == rec@.asset_id {
                None::<EscrowView>
            } else {
                find_escrow_by_asset(pre.escrows, b)
            }) by {
                lemma_find_by_remove(pre.escrows, escrow_asset_key(), ei as int, b);
            }
            if wf(pre) && external_identity(pre.escrows, caller@) && external_identity(
                pre.escrows,
                rec@.maker,
            ) {
                lemma_find_by_none(pre.escrows, escrow_addr_key(), caller@);
                lemma_find_by_none(pre.escrows, escrow_addr_key(), rec@.maker);
                assert forall|i2: int| 0 <= i2 < self@.escrows.len() implies vault_backed(
                    self@.accounts,
                    #[trigger] self@.escrows[i2],
                ) by {
                    let oi = if i2 < ei as int {
                        i2
                    } else {
                        i2 + 1
                    };
                    let e = pre.escrows[oi];
                    assert(self@.escrows[i2] == e);
                    assert(vault_backed(pre.accounts, e));
                    if e.vault_address == rec@.vault_address {
                        assert(find_acct(pre.accounts, e.vault_address) == Some(v@));
                        assert(e.escrow_address == rec@.escrow_address);
                        assert(false);
                    }
                    if e.vault_address == taker_payment@ {
                        assert(find_acct(pre.accounts, e.vault_address) == Some(tp@));
                        assert(e.escrow_address == caller@);
                        assert(false);
                    }
                    if e.vault_address == maker_payment@ {
                        assert(find_acct(pre.accounts, e.vault_address) == Some(mp@));
                        assert(e.escrow_address == rec@.maker);
                        assert(false);
                    }
                    if e.vault_address == taker_asset@ {
                        assert(find_acct(pre.accounts, e.vault_address) == Some(ta@));
                        assert(e.escrow_address == caller@);
                        assert(false);
                    }
                    assert(find_acct(self@.accounts, e.vault_address) == find_acct(
                        pre.accounts,
                        e.vault_address,
                    ));
                }
            }
        }
        Ok(())
    }
}

} // verus!
