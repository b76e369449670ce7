//! Redeeming the winnings of resolved markets.

use vstd::prelude::*;
use vstd::string::*;

verus! {

/// Whether `text` begins with `prefix`.
pub fn begins_with(text: &str, prefix: &str) -> (answer: bool)
    ensures
        answer == prefix@.is_prefix_of(text@),
{
    let len: usize = prefix.unicode_len();
    if text.unicode_len() < len {
        return false;
    }
    let mut i: usize = 0;
    while i < len
        invariant
            i <= len,
            len == prefix@.len(),
            len <= text@.len(),
            forall|j: int| 0 <= j < i ==> prefix@[j] == text@[j],
        decreases len - i,
    {
        if prefix.get_char(i) != text.get_char(i) {
            assert(prefix@[i as int] != text@.subrange(0, len as int)[i as int]);
            return false;
        }
        i = i + 1;
    }
    assert(prefix@ =~= text@.subrange(0, len as int));
    true
}

/// A condition ID with "0x" in front.
pub open spec fn hex_id_of(condition_id: Seq<char>) -> Seq<char> {
    if "0x"@.is_prefix_of(condition_id) {
        condition_id
    } else {
        "0x"@ + condition_id
    }
}

/// A condition ID with "0x" in front, put there where it is missing.
pub fn hex_id(condition_id: &str) -> (id: String)
    ensures
        id@ == hex_id_of(condition_id@),
{
    if begins_with(condition_id, "0x") {
        condition_id.to_owned()
    } else {
        let mut id: String = "0x".to_owned();
        id.append(condition_id);
        id
    }
}

/// Redeeming takes a proxy wallet, and none is configured.
#[derive(Clone, Copy, Debug, PartialEq, Eq, Structural)]
pub struct MissingProxyWallet;

/// Which conditions are to be redeemed.
pub enum RedeemTargets {
    /// The one that was asked for.
    One { condition_id: String },
    /// All that the exchange lists for the wallet.
    AllRedeemable,
}

/// What a request to redeem asks for.
pub struct RedeemPlan {
    pub proxy_wallet: String,
    pub targets: RedeemTargets,
}

/// What to redeem, and for which wallet.
pub fn redeem_plan(proxy_wallet_address: &Option<String>, condition_id: &Option<String>) -> (plan:
    Result<RedeemPlan, MissingProxyWallet>)
    ensures
        plan is Ok <==> proxy_wallet_address is Some,
        plan is Ok ==> plan->Ok_0.proxy_wallet@ == proxy_wallet_address->0@,
        plan is Ok ==> match (plan->Ok_0.targets, *condition_id) {
            (RedeemTargets::One { condition_id: target }, Some(id)) => target@ == hex_id_of(id@),
            (RedeemTargets::AllRedeemable, None) => true,
            _ => false,
        },
{
    match proxy_wallet_address {
        Some(proxy) => {
            let targets: RedeemTargets = match condition_id {
                Some(id) => RedeemTargets::One { condition_id: hex_id(id.as_str()) },
                None => RedeemTargets::AllRedeemable,
            };
            Ok(RedeemPlan { proxy_wallet: proxy.clone(), targets })
        },
        None => Err(MissingProxyWallet),
    }
}

/// How many requests succeeded and how many failed.
pub fn redeem_tally(successes: &Vec<bool>) -> (tally: (usize, usize))
    ensures
        tally.0 == successes@.filter(|success: bool| success).len(),
        tally.1 == successes@.filter(|success: bool| !success).len(),
        tally.0 + tally.1 == successes@.len(),
{
    let mut succeeded: usize = 0;
    let mut failed: usize = 0;
    let mut i: usize = 0;
    let ghost good = |success: bool| success;
    let ghost bad = |success: bool| !success;
    proof {
        reveal(Seq::filter);
        assert(successes@.take(0) =~= Seq::<bool>::empty());
    }
    while i < successes.len()
        invariant
            i <= successes@.len(),
            good == (|success: bool| success),
            bad == (|success: bool| !success),
            succeeded == successes@.take(i as int).filter(good).len(),
            failed == successes@.take(i as int).filter(bad).len(),
            succeeded + failed == i,
        decreases successes@.len() - i,
    {
        proof {
            reveal(Seq::filter);
            assert(successes@.take(i + 1).drop_last() =~= successes@.take(i as int));
        }
        if successes[i] {
            succeeded = succeeded + 1;
        } else {
            failed = failed + 1;
        }
        i = i + 1;
    }
    assert(successes@.take(successes@.len() as int) =~= successes@);
    (succeeded, failed)
}

/// Completing an ID twice is the same as completing it once.
pub proof fn hex_ids_are_stable(condition_id: Seq<char>)
    ensures
        "0x"@.is_prefix_of(hex_id_of(condition_id)),
        hex_id_of(hex_id_of(condition_id)) == hex_id_of(condition_id),
{
    assert("0x"@ =~= ("0x"@ + condition_id).subrange(0, "0x"@.len() as int));
}

/// Completing an ID keeps it: an ID with "0x" in front stays as it is, and another one is what
/// follows a "0x" that was put there.
pub proof fn hex_ids_keep_the_id(condition_id: Seq<char>)
    ensures
        "0x"@.is_prefix_of(condition_id) ==> hex_id_of(condition_id) == condition_id,
        !"0x"@.is_prefix_of(condition_id) ==> hex_id_of(condition_id).len() == condition_id.len()
            + 2 && hex_id_of(condition_id).skip(2) == condition_id,
        "0x"@.is_prefix_of(hex_id_of(condition_id)),
{
    reveal_strlit("0x");
    hex_ids_are_stable(condition_id);
    assert(("0x"@ + condition_id).skip(2) =~= condition_id);
}

} // verus!
