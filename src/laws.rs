//! Properties of the wallet program that span several operations or every
//! reachable state.

use vstd::prelude::*;

use crate::program::{endorsements_of, transaction_ok, valid_wallet, WalletProgram};
use crate::types::{
    Errors, Identity, SignTheTransaction, TransactionExecuted, TransactionKey, TransactionSigned,
    WalletCreated, MAX_USERS,
};

verus! {

/// The results of a run of endorsements.
pub type SignResult = Result<(TransactionSigned, Option<TransactionExecuted>), Errors>;

/// Every stored wallet has a threshold between one and its member count, and
/// its creator among its members.
pub proof fn law_wallet_shape(p: WalletProgram, i: int)
    requires
        p.wf(),
        0 <= i < p.wallets@.len(),
    ensures
        1 <= p.wallets@[i].threshold <= p.wallets@[i].users@.len(),
        p.wallets@[i].users@.contains(p.wallets@[i].created_by),
{
    assert(valid_wallet(p.wallets@[i]));
}

/// Creating a wallet with no members, or with a threshold of zero or above
/// the member count, always fails and changes nothing.
pub proof fn law_bad_shape_rejected(
    pre: WalletProgram,
    signer: Identity,
    name: Seq<char>,
    threshold: u64,
    users: Seq<Identity>,
    post: WalletProgram,
    r: Result<WalletCreated, Errors>,
)
    requires
        WalletProgram::create_wallet_spec(pre, signer, name, threshold, users, post, r),
        users.len() == 0 || threshold == 0 || threshold > users.len(),
    ensures
        r == Err::<WalletCreated, Errors>(Errors::InvalidUsers) || r == Err::<
            WalletCreated,
            Errors,
        >(Errors::InvalidThreshold),
        users.len() == 0 ==> r == Err::<WalletCreated, Errors>(Errors::InvalidUsers),
        post == pre,
{
}

/// The id of a created wallet is the derived key of its owner and name,
/// whatever the store held before and whatever its members and threshold.
pub proof fn law_wallet_id_derived(
    pre1: WalletProgram,
    pre2: WalletProgram,
    signer: Identity,
    name: Seq<char>,
    threshold1: u64,
    threshold2: u64,
    users1: Seq<Identity>,
    users2: Seq<Identity>,
    post1: WalletProgram,
    post2: WalletProgram,
    r1: Result<WalletCreated, Errors>,
    r2: Result<WalletCreated, Errors>,
)
    requires
        WalletProgram::create_wallet_spec(pre1, signer, name, threshold1, users1, post1, r1),
        WalletProgram::create_wallet_spec(pre2, signer, name, threshold2, users2, post2, r2),
        r1 is Ok,
        r2 is Ok,
    ensures
        r1->Ok_0.wallet@ == r2->Ok_0.wallet@,
        r1->Ok_0.wallet@ == (signer, name),
{
}

/// After a wallet is created, a second creation by the same owner with the
/// same name fails with `AlreadyExists`, whatever members and threshold it
/// names, as long as they pass the shape checks.
pub proof fn law_duplicate_wallet_rejected(
    pre: WalletProgram,
    signer: Identity,
    name: Seq<char>,
    threshold: u64,
    users: Seq<Identity>,
    post: WalletProgram,
    r: Result<WalletCreated, Errors>,
    threshold2: u64,
    users2: Seq<Identity>,
)
    requires
        WalletProgram::create_wallet_spec(pre, signer, name, threshold, users, post, r),
        r is Ok,
        1 <= users2.len() <= MAX_USERS,
        users2.no_duplicates(),
        1 <= threshold2 <= users2.len(),
        users2.contains(signer),
    ensures
        post.create_wallet_error(signer, name, threshold2, users2) == Some(Errors::AlreadyExists),
{
    let n = post.wallets@.len() - 1;
    assert(post.wallets@[n].key() == (signer, name));
}

/// An endorsement never lowers the endorsement count of any proposal.
pub proof fn law_count_non_decreasing(
    pre: WalletProgram,
    ctx: SignTheTransaction,
    now: u64,
    post: WalletProgram,
    r: SignResult,
    t: int,
)
    requires
        WalletProgram::sign_spec(pre, ctx, now, post, r),
        0 <= t < pre.transactions@.len(),
    ensures
        post.transactions@.len() == pre.transactions@.len(),
        post.transactions@[t].completed_signers >= pre.transactions@[t].completed_signers,
        post.transactions@[t].key() == pre.transactions@[t].key(),
        post.transactions@[t].threshold == pre.transactions@[t].threshold,
{
}

/// Endorsements keep the number, keys and thresholds of stored proposals.
proof fn lemma_proposal_kept(
    states: Seq<WalletProgram>,
    calls: Seq<SignTheTransaction>,
    times: Seq<u64>,
    results: Seq<SignResult>,
    t: int,
    k: int,
)
    requires
        states.len() == calls.len() + 1,
        times.len() == calls.len(),
        results.len() == calls.len(),
        forall|j: int|
            0 <= j < calls.len() ==> #[trigger] WalletProgram::sign_spec(
                states[j],
                calls[j],
                times[j],
                states[j + 1],
                results[j],
            ),
        0 <= t < states[0].transactions@.len(),
        0 <= k < states.len(),
    ensures
        states[k].transactions@.len() == states[0].transactions@.len(),
        states[k].transactions@[t].key() == states[0].transactions@[t].key(),
        states[k].transactions@[t].threshold == states[0].transactions@[t].threshold,
    decreases k,
{
    if k > 0 {
        let j = k - 1;
        lemma_proposal_kept(states, calls, times, results, t, j);
        assert(WalletProgram::sign_spec(states[j], calls[j], times[j], states[j + 1], results[j]));
        law_count_non_decreasing(states[j], calls[j], times[j], states[j + 1], results[j], t);
    }
}

/// Over any run of endorsements, the endorsement count of a proposal never
/// goes down.
pub proof fn law_count_non_decreasing_over_run(
    states: Seq<WalletProgram>,
    calls: Seq<SignTheTransaction>,
    times: Seq<u64>,
    results: Seq<SignResult>,
    t: int,
)
    requires
        states.len() == calls.len() + 1,
        times.len() == calls.len(),
        results.len() == calls.len(),
        forall|k: int|
            0 <= k < calls.len() ==> #[trigger] WalletProgram::sign_spec(
                states[k],
                calls[k],
                times[k],
                states[k + 1],
                results[k],
            ),
        0 <= t < states[0].transactions@.len(),
    ensures
        forall|a: int, b: int|
            0 <= a <= b < states.len() ==> #[trigger] states[b].transactions@[t].completed_signers
                >= #[trigger] states[a].transactions@[t].completed_signers,
    decreases calls.len(),
{
    if calls.len() > 0 {
        let n = calls.len() - 1;
        law_count_non_decreasing_over_run(
            states.drop_last(),
            calls.drop_last(),
            times.drop_last(),
            results.drop_last(),
            t,
        );
        lemma_proposal_kept(states, calls, times, results, t, n);
        assert(WalletProgram::sign_spec(states[n], calls[n], times[n], states[n + 1], results[n]));
        law_count_non_decreasing(states[n], calls[n], times[n], states[n + 1], results[n], t);
        assert forall|a: int, b: int|
            0 <= a <= b < states.len() implies #[trigger] states[b].transactions@[t].completed_signers
            >= #[trigger] states[a].transactions@[t].completed_signers by {
            if b == states.len() - 1 && a < b {
                assert(states.drop_last()[a] == states[a]);
                assert(states.drop_last()[n] == states[n]);
            } else if b < states.len() - 1 {
                assert(states.drop_last()[a] == states[a]);
                assert(states.drop_last()[b] == states[b]);
            }
        }
    }
}

/// In every reachable state the endorsement count of a proposal is the number
/// of stored endorsements of it.
pub proof fn law_count_is_endorsements(p: WalletProgram, t: int)
    requires
        p.wf(),
        0 <= t < p.transactions@.len(),
    ensures
        p.transactions@[t].completed_signers == endorsements_of(
            p.signatures@,
            p.transactions@[t].key(),
        ),
{
}

/// In every reachable state a signer has endorsed a given proposal at most once.
pub proof fn law_one_endorsement_per_signer(p: WalletProgram, i: int, j: int)
    requires
        p.wf(),
        0 <= i < p.signatures@.len(),
        0 <= j < p.signatures@.len(),
        i != j,
    ensures
        !(p.signatures@[i].signer == p.signatures@[j].signer
            && p.signatures@[i].wallet_transaction_account@
            == p.signatures@[j].wallet_transaction_account@),
{
}

/// Once a signer's endorsement of a proposal is stored, a further endorsement
/// of that proposal by the same signer fails with `AlreadyExists`.
pub proof fn law_second_endorsement_rejected(p: WalletProgram, i: int, ctx: SignTheTransaction)
    requires
        p.wf(),
        0 <= i < p.signatures@.len(),
        ctx.signer == p.signatures@[i].signer,
        ctx.wallet_account@ == p.signatures@[i].wallet_account@,
        ctx.wallet_transaction_account@ == p.signatures@[i].wallet_transaction_account@,
    ensures
        p.sign_error(ctx) == Some(Errors::AlreadyExists),
{
    let s = p.signatures@[i];
    assert(p.signature_ok(s));
    assert(p.signatures@[i].key() == (ctx.signer, ctx.wallet_account@, ctx.wallet_transaction_account@));
    let k = p.transaction_index(s.wallet_transaction_account@);
    assert(p.transactions@[k].key() == s.wallet_transaction_account@);
}

/// An endorsement step carries out the transfer of the proposal with key `k`.
pub open spec fn executes(r: SignResult, k: TransactionKey) -> bool {
    &&& r is Ok
    &&& r->Ok_0.1 is Some
    &&& r->Ok_0.1->Some_0.transaction@ == k
}

/// An endorsement moves funds only when it carries out a transfer, which
/// happens exactly on the endorsement that brings the count to the threshold;
/// a carried-out proposal stays so.
pub proof fn law_execution_step(
    pre: WalletProgram,
    ctx: SignTheTransaction,
    now: u64,
    post: WalletProgram,
    r: SignResult,
    t: int,
)
    requires
        pre.wf(),
        WalletProgram::sign_spec(pre, ctx, now, post, r),
        0 <= t < pre.transactions@.len(),
    ensures
        post.transactions@.len() == pre.transactions@.len(),
        post.transactions@[t].key() == pre.transactions@[t].key(),
        pre.transactions@[t].executed ==> post.transactions@[t].executed,
        executes(r, pre.transactions@[t].key()) <==> !pre.transactions@[t].executed
            && post.transactions@[t].executed,
        executes(r, pre.transactions@[t].key()) ==> pre.transactions@[t].completed_signers + 1
            == pre.transactions@[t].threshold,
        !executes(r, ctx.wallet_transaction_account@) ==> post.wallet_lamports
            == pre.wallet_lamports && post.user_lamports == pre.user_lamports,
{
    pre.lemma_transaction_index(t);
    assert(transaction_ok(pre.transactions@[t]));
}

/// Over any run of endorsements between reachable states, the transfer of a
/// proposal is carried out at most once, however many endorsements arrive
/// after its quorum.
pub proof fn law_transfer_at_most_once(
    states: Seq<WalletProgram>,
    calls: Seq<SignTheTransaction>,
    times: Seq<u64>,
    results: Seq<SignResult>,
    t: int,
)
    requires
        states.len() == calls.len() + 1,
        times.len() == calls.len(),
        results.len() == calls.len(),
        forall|k: int| 0 <= k < states.len() ==> (#[trigger] states[k]).wf(),
        forall|k: int|
            0 <= k < calls.len() ==> #[trigger] WalletProgram::sign_spec(
                states[k],
                calls[k],
                times[k],
                states[k + 1],
                results[k],
            ),
        0 <= t < states[0].transactions@.len(),
    ensures
        forall|a: int, b: int|
            0 <= a < b < calls.len() ==> !(executes(
                #[trigger] results[a],
                states[0].transactions@[t].key(),
            ) && executes(#[trigger] results[b], states[0].transactions@[t].key())),
{
    let key = states[0].transactions@[t].key();
    assert forall|a: int, b: int|
        0 <= a < b < calls.len() implies !(executes(#[trigger] results[a], key) && executes(
            #[trigger] results[b],
            key,
        )) by {
        if executes(results[a], key) {
            lemma_proposal_kept(states, calls, times, results, t, a);
            assert(states[a].wf());
            law_execution_step(states[a], calls[a], times[a], states[a + 1], results[a], t);
            lemma_proposal_kept(states, calls, times, results, t, a + 1);
            lemma_executed_stays(states, calls, times, results, t, a + 1, b);
            lemma_proposal_kept(states, calls, times, results, t, b);
            assert(states[b].wf());
            law_execution_step(states[b], calls[b], times[b], states[b + 1], results[b], t);
        }
    }
}

/// A carried-out proposal stays carried out along a run of endorsements.
proof fn lemma_executed_stays(
    states: Seq<WalletProgram>,
    calls: Seq<SignTheTransaction>,
    times: Seq<u64>,
    results: Seq<SignResult>,
    t: int,
    a: int,
    b: int,
)
    requires
        states.len() == calls.len() + 1,
        times.len() == calls.len(),
        results.len() == calls.len(),
        forall|k: int| 0 <= k < states.len() ==> (#[trigger] states[k]).wf(),
        forall|k: int|
            0 <= k < calls.len() ==> #[trigger] WalletProgram::sign_spec(
                states[k],
                calls[k],
                times[k],
                states[k + 1],
                results[k],
            ),
        0 <= t < states[0].transactions@.len(),
        0 <= a <= b < states.len(),
        states[a].transactions@[t].executed,
    ensures
        states[b].transactions@[t].executed,
    decreases b - a,
{
    if a < b {
        let j = b - 1;
        lemma_executed_stays(states, calls, times, results, t, a, j);
        lemma_proposal_kept(states, calls, times, results, t, j);
        assert(states[j].wf());
        assert(WalletProgram::sign_spec(states[j], calls[j], times[j], states[j + 1], results[j]));
        law_execution_step(states[j], calls[j], times[j], states[j + 1], results[j], t);
    }
}

/// Over any run of endorsements between reachable states that takes a
/// proposal from below its threshold to its threshold or past it, some step
/// carries out its transfer; with `law_transfer_at_most_once`, exactly one.
pub proof fn law_transfer_at_least_once(
    states: Seq<WalletProgram>,
    calls: Seq<SignTheTransaction>,
    times: Seq<u64>,
    results: Seq<SignResult>,
    t: int,
)
    requires
        states.len() == calls.len() + 1,
        times.len() == calls.len(),
        results.len() == calls.len(),
        forall|k: int| 0 <= k < states.len() ==> (#[trigger] states[k]).wf(),
        forall|k: int|
            0 <= k < calls.len() ==> #[trigger] WalletProgram::sign_spec(
                states[k],
                calls[k],
                times[k],
                states[k + 1],
                results[k],
            ),
        0 <= t < states[0].transactions@.len(),
        states[0].transactions@[t].completed_signers < states[0].transactions@[t].threshold,
        states.last().transactions@[t].completed_signers >= states[0].transactions@[t].threshold,
    ensures
        exists|k: int|
            0 <= k < calls.len() && executes(
                #[trigger] results[k],
                states[0].transactions@[t].key(),
            ),
    decreases calls.len(),
{
    let n = calls.len() - 1;
    let key = states[0].transactions@[t].key();
    assert(states[0].wf());
    assert(transaction_ok(states[0].transactions@[t]));
    lemma_proposal_kept(states, calls, times, results, t, n);
    lemma_proposal_kept(states, calls, times, results, t, n + 1);
    assert(states[n + 1].wf());
    assert(transaction_ok(states[n + 1].transactions@[t]));
    assert(states[n].wf());
    assert(transaction_ok(states[n].transactions@[t]));
    assert(WalletProgram::sign_spec(states[n], calls[n], times[n], states[n + 1], results[n]));
    law_execution_step(states[n], calls[n], times[n], states[n + 1], results[n], t);
    if !states[n].transactions@[t].executed {
        assert(executes(results[n], key));
    } else {
        let s2 = states.drop_last();
        assert(s2.last() == states[n]);
        assert forall|k: int| 0 <= k < s2.len() implies (#[trigger] s2[k]).wf() by {
            assert(s2[k] == states[k]);
        }
        assert forall|k: int| 0 <= k < calls.drop_last().len() implies #[trigger] WalletProgram::sign_spec(
            s2[k],
            calls.drop_last()[k],
            times.drop_last()[k],
            s2[k + 1],
            results.drop_last()[k],
        ) by {
            assert(s2[k] == states[k]);
            assert(s2[k + 1] == states[k + 1]);
            assert(WalletProgram::sign_spec(states[k], calls[k], times[k], states[k + 1], results[k]));
        }
        law_transfer_at_least_once(s2, calls.drop_last(), times.drop_last(), results.drop_last(), t);
        let k = choose|k: int|
            0 <= k < calls.drop_last().len() && executes(#[trigger] results.drop_last()[k], key);
        assert(results.drop_last()[k] == results[k]);
    }
}

} // verus!
