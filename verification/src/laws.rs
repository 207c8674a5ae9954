use crate::error::EscrowError;
use crate::market::MarketView;
use crate::market::cancel_effect;
use crate::market::cancel_error;
use crate::market::exchange_effect;
use crate::market::exchange_error;
use crate::market::find_acct;
use crate::market::find_escrow_at;
use crate::market::find_escrow_by_asset;
use crate::market::open_effect;
use crate::market::open_error;
use vstd::prelude::*;

verus! {

/// Law: at most one escrow record per asset exists at a time. While a
/// record for `asset_id` is open, a second Open for it is rejected with an
/// address collision, whoever asks and whatever source account they offer.
pub proof fn lemma_uniqueness(m: MarketView, maker: Seq<u8>, asset_id: Seq<u8>, source: Seq<u8>)
    requires
        find_escrow_by_asset(m.escrows, asset_id) is Some,
    ensures
        open_error(m, maker, asset_id, source) == Some(EscrowError::AddressCollision),
{
}

/// Law: only the recorded maker may cancel. A Cancel presented by any other
/// identity is rejected as a precondition violation, whatever destination it
/// names; rejection changes nothing, by Cancel's own contract.
pub proof fn lemma_cancel_authorization(
    m: MarketView,
    caller: Seq<u8>,
    escrow_address: Seq<u8>,
    destination: Seq<u8>,
)
    requires
        match find_escrow_at(m.escrows, escrow_address) {
            Some(rec) => rec.maker != caller,
            None => false,
        },
    ensures
        cancel_error(m, caller, escrow_address, destination) == Some(
            EscrowError::PreconditionViolation,
        ),
{
}

/// Law: Exchange is all-or-nothing. When the vault is corrupt — missing,
/// answering to something other than the record's own address, holding the
/// wrong asset kind, or not holding exactly one unit — the operation is
/// rejected even where its payment leg alone would have gone through, and a
/// rejected Exchange changes nothing, by Exchange's own contract.
pub proof fn lemma_exchange_atomicity(
    m: MarketView,
    caller: Seq<u8>,
    escrow_address: Seq<u8>,
    taker_payment: Seq<u8>,
    taker_asset: Seq<u8>,
    maker_payment: Seq<u8>,
)
    requires
        match find_escrow_at(m.escrows, escrow_address) {
            Some(rec) => match find_acct(m.accounts, rec.vault_address) {
                Some(v) => v.owner != rec.escrow_address || v.asset_id != rec.asset_id
                    || v.amount != 1,
                None => true,
            },
            None => false,
        },
    ensures
        exchange_error(m, caller, escrow_address, taker_payment, taker_asset, maker_payment)
            is Some,
{
}

/// Law: an Open followed at once by the maker's Cancel of that record is a
/// round trip. The maker's source holding is back at its balance before the
/// Open, neither a record nor a vault for the asset remains, and nothing
/// else moved.
pub proof fn lemma_cancel_round_trip(
    m0: MarketView,
    m1: MarketView,
    m2: MarketView,
    maker: Seq<u8>,
    asset_id: Seq<u8>,
    payment_asset_id: Seq<u8>,
    price_amount: u64,
    source: Seq<u8>,
    ep: (Seq<u8>, u8),
    vp: (Seq<u8>, u8),
)
    requires
        open_effect(m0, m1, maker, asset_id, payment_asset_id, price_amount, source, ep, vp),
        cancel_effect(m1, m2, ep.0, source),
    ensures
        find_acct(m2.accounts, source) == find_acct(m0.accounts, source),
        find_escrow_by_asset(m2.escrows, asset_id) is None,
        find_escrow_at(m2.escrows, ep.0) is None,
        find_acct(m2.accounts, vp.0) is None,
        forall|b: Seq<u8>|
            b != source && b != vp.0 ==> find_acct(m2.accounts, b) == find_acct(m0.accounts, b),
        forall|b: Seq<u8>|
            b != asset_id ==> find_escrow_by_asset(m2.escrows, b) == find_escrow_by_asset(
                m0.escrows,
                b,
            ),
        forall|b: Seq<u8>|
            b != ep.0 ==> find_escrow_at(m2.escrows, b) == find_escrow_at(m0.escrows, b),
{
}

/// Law: a completed Exchange conserves value. The taker's asset holding
/// grows by exactly one unit, the maker's payment holding by exactly the
/// recorded price, the taker's payment holding shrinks by exactly that
/// price, and no other holding moves — only the closed vault's storage
/// reclaim, which lies outside the balance model, goes beside it.
pub proof fn lemma_exchange_conservation(
    pre: MarketView,
    post: MarketView,
    escrow_address: Seq<u8>,
    taker_payment: Seq<u8>,
    taker_asset: Seq<u8>,
    maker_payment: Seq<u8>,
)
    requires
        exchange_effect(pre, post, escrow_address, taker_payment, taker_asset, maker_payment),
    ensures
        match (
            find_escrow_at(pre.escrows, escrow_address),
            find_acct(pre.accounts, taker_payment),
            find_acct(pre.accounts, maker_payment),
            find_acct(pre.accounts, taker_asset),
        ) {
            (Some(rec), Some(tp), Some(mp), Some(ta)) => {
                &&& (match find_acct(post.accounts, taker_asset) {
                    Some(a) => a.amount == ta.amount + 1,
                    None => false,
                })
                &&& (match find_acct(post.accounts, maker_payment) {
                    Some(a) => a.amount == mp.amount + rec.price_amount,
                    None => false,
                })
                &&& (match find_acct(post.accounts, taker_payment) {
                    Some(a) => a.amount == tp.amount - rec.price_amount,
                    None => false,
                })
                &&& (forall|b: Seq<u8>|
                    b != taker_payment && b != maker_payment && b != taker_asset
                        && b != rec.vault_address ==> find_acct(post.accounts, b) == find_acct(
                        pre.accounts,
                        b,
                    ))
            },
            _ => false,
        },
{
}

} // verus!
