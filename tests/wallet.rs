use multi_signature_wallet::{
    CreateTransaction, CreateWallet, Errors, Identity, SignTheTransaction, SignatureId,
    TransactionId, TransferSolToWallet, WalletId, WalletProgram,
};

const A: Identity = Identity(1);
const B: Identity = Identity(2);
const C: Identity = Identity(3);
const D: Identity = Identity(4);
const R: Identity = Identity(9);

fn name(s: &str) -> String {
    s.to_string()
}

/// A program with wallet `{A, B, C}`, threshold 2, holding `funds`.
fn setup(funds: u64) -> (WalletProgram, WalletId) {
    let mut p = WalletProgram::new();
    let ev = p
        .create_multi_signature_wallet(CreateWallet { signer: A }, name("team"), 2, vec![A, B, C])
        .unwrap();
    if funds > 0 {
        p.credit(D, funds).unwrap();
        let ctx = TransferSolToWallet { signer: D, wallet_account: ev.wallet.clone() };
        p.transfer_sol_to_wallet(ctx, funds).unwrap();
    }
    (p, ev.wallet)
}

fn propose(p: &mut WalletProgram, w: &WalletId, by: Identity, amount: u64) -> TransactionId {
    p.create_multi_signature_transaction(
        CreateTransaction { wallet_account: w.clone(), reciever: R, signer: by },
        name("pay"),
        amount,
        1000,
    )
    .unwrap()
    .transaction
}

fn sign(
    w: &WalletId,
    t: &TransactionId,
    signer: Identity,
    reciever: Identity,
) -> SignTheTransaction {
    SignTheTransaction {
        wallet_account: w.clone(),
        wallet_transaction_account: t.clone(),
        signer,
        reciever,
    }
}

fn wallet_id(owner: Identity, n: &str) -> WalletId {
    WalletId { owner, name: name(n) }
}

#[test]
fn create_wallet_records_members_and_threshold() {
    let mut p = WalletProgram::new();
    let ev = p
        .create_multi_signature_wallet(CreateWallet { signer: A }, name("team"), 2, vec![A, B, C])
        .unwrap();
    assert_eq!(ev.wallet, wallet_id(A, "team"));
    assert_eq!(ev.users, vec![A, B, C]);
    assert_eq!(ev.threshold, 2);
    let w = &p.wallets[0];
    assert_eq!(w.name, "team");
    assert_eq!(w.created_by, A);
    assert_eq!(w.threshold, 2);
    assert_eq!(p.wallet_balance(&wallet_id(A, "team")), Some(0));
    assert_eq!(p.wallet_balance(&wallet_id(B, "team")), None);
}

#[test]
fn create_wallet_rejects_empty_members() {
    let mut p = WalletProgram::new();
    let r = p.create_multi_signature_wallet(CreateWallet { signer: A }, name("w"), 1, vec![]);
    assert_eq!(r.unwrap_err(), Errors::InvalidUsers);
    assert!(p.wallets.is_empty());
}

#[test]
fn create_wallet_rejects_too_many_or_repeated_members() {
    let mut p = WalletProgram::new();
    let six = vec![A, B, C, D, R, Identity(10)];
    let r = p.create_multi_signature_wallet(CreateWallet { signer: A }, name("w"), 1, six);
    assert_eq!(r.unwrap_err(), Errors::InvalidUsers);
    let r = p.create_multi_signature_wallet(CreateWallet { signer: A }, name("w"), 1, vec![A, B, A]);
    assert_eq!(r.unwrap_err(), Errors::InvalidUsers);
    let five = vec![A, B, C, D, R];
    assert!(p.create_multi_signature_wallet(CreateWallet { signer: A }, name("w"), 5, five).is_ok());
}

#[test]
fn create_wallet_rejects_threshold_out_of_range() {
    let mut p = WalletProgram::new();
    let r = p.create_multi_signature_wallet(CreateWallet { signer: A }, name("w"), 0, vec![A, B]);
    assert_eq!(r.unwrap_err(), Errors::InvalidThreshold);
    let r = p.create_multi_signature_wallet(CreateWallet { signer: A }, name("w"), 3, vec![A, B]);
    assert_eq!(r.unwrap_err(), Errors::InvalidThreshold);
    assert!(p.wallets.is_empty());
}

#[test]
fn create_wallet_requires_creator_membership() {
    let mut p = WalletProgram::new();
    let r = p.create_multi_signature_wallet(CreateWallet { signer: D }, name("w"), 1, vec![A, B]);
    assert_eq!(r.unwrap_err(), Errors::SignerNotIncluded);
}

#[test]
fn second_wallet_with_same_owner_and_name_fails() {
    let mut p = WalletProgram::new();
    let ctx = CreateWallet { signer: A };
    let first = p.create_multi_signature_wallet(ctx, name("w"), 1, vec![A, B]).unwrap();
    assert_eq!(first.wallet, wallet_id(A, "w"));
    let r = p.create_multi_signature_wallet(ctx, name("w"), 1, vec![A, B]);
    assert_eq!(r.unwrap_err(), Errors::AlreadyExists);
    let r = p.create_multi_signature_wallet(ctx, name("w"), 2, vec![A, C]);
    assert_eq!(r.unwrap_err(), Errors::AlreadyExists);
    assert_eq!(p.wallets.len(), 1);
    // Another name, or another owner, is a different key.
    assert!(p.create_multi_signature_wallet(ctx, name("v"), 1, vec![A, B]).is_ok());
    let other = CreateWallet { signer: B };
    assert!(p.create_multi_signature_wallet(other, name("w"), 1, vec![A, B]).is_ok());
}

#[test]
fn deposit_moves_funds_into_wallet() {
    let (mut p, w) = setup(0);
    p.credit(D, 500).unwrap();
    assert_eq!(p.balance_of(D), 500);
    p.transfer_sol_to_wallet(TransferSolToWallet { signer: D, wallet_account: w.clone() }, 200).unwrap();
    assert_eq!(p.balance_of(D), 300);
    assert_eq!(p.wallet_balance(&w), Some(200));
}

#[test]
fn deposit_errors() {
    let (mut p, w) = setup(0);
    p.credit(D, 50).unwrap();
    let ctx = TransferSolToWallet { signer: D, wallet_account: w.clone() };
    assert_eq!(p.transfer_sol_to_wallet(ctx.clone(), 0).unwrap_err(), Errors::InvalidAmount);
    assert_eq!(p.transfer_sol_to_wallet(ctx.clone(), 51).unwrap_err(), Errors::InsufficientBalance);
    let missing = TransferSolToWallet { signer: D, wallet_account: wallet_id(A, "missing") };
    assert_eq!(p.transfer_sol_to_wallet(missing, 10).unwrap_err(), Errors::NotFound);
    assert_eq!(p.balance_of(D), 50);
    assert_eq!(p.wallet_balance(&w), Some(0));
}

#[test]
fn deposit_overflow_is_refused() {
    let (mut p, w) = setup(u64::MAX);
    p.credit(D, 1).unwrap();
    let ctx = TransferSolToWallet { signer: D, wallet_account: w.clone() };
    assert_eq!(p.transfer_sol_to_wallet(ctx, 1).unwrap_err(), Errors::Overflow);
    assert_eq!(p.credit(D, u64::MAX).unwrap_err(), Errors::Overflow);
    assert_eq!(p.balance_of(D), 1);
}

#[test]
fn propose_records_snapshot() {
    let (mut p, w) = setup(1000);
    let t = propose(&mut p, &w, A, 100);
    assert_eq!(
        t,
        TransactionId { created_by: A, wallet: w.clone(), receiver: R, name: name("pay") }
    );
    let txn = &p.transactions[0];
    assert_eq!(txn.amount, 100);
    assert_eq!(txn.threshold, 2);
    assert_eq!(txn.completed_signers, 0);
    assert_eq!(txn.reciever, R);
    assert_eq!(txn.created_by, A);
    assert_eq!(txn.time_stamp, 1000);
    assert!(!txn.executed);
}

#[test]
fn propose_zero_amount_fails_without_record() {
    let (mut p, w) = setup(1000);
    let ctx = CreateTransaction { wallet_account: w.clone(), reciever: R, signer: A };
    let r = p.create_multi_signature_transaction(ctx, name("pay"), 0, 1);
    assert_eq!(r.unwrap_err(), Errors::InvalidAmount);
    assert!(p.transactions.is_empty());
}

#[test]
fn propose_errors() {
    let (mut p, w) = setup(1000);
    let missing = CreateTransaction { wallet_account: wallet_id(A, "missing"), reciever: R, signer: A };
    let r = p.create_multi_signature_transaction(missing, name("pay"), 10, 1);
    assert_eq!(r.unwrap_err(), Errors::NotFound);
    let outsider = CreateTransaction { wallet_account: w.clone(), reciever: R, signer: D };
    let r = p.create_multi_signature_transaction(outsider, name("pay"), 10, 1);
    assert_eq!(r.unwrap_err(), Errors::UnauthorizedUser);
    let ctx = CreateTransaction { wallet_account: w.clone(), reciever: R, signer: A };
    let r = p.create_multi_signature_transaction(ctx.clone(), name("pay"), 1001, 1);
    assert_eq!(r.unwrap_err(), Errors::InsufficientBalance);
    assert!(p.create_multi_signature_transaction(ctx.clone(), name("pay"), 1000, 1).is_ok());
    let r = p.create_multi_signature_transaction(ctx, name("pay"), 5, 2);
    assert_eq!(r.unwrap_err(), Errors::AlreadyExists);
    assert_eq!(p.transactions.len(), 1);
}

#[test]
fn quorum_scenario_transfers_once() {
    let (mut p, w) = setup(1000);
    let t = propose(&mut p, &w, A, 100);
    let (signed, executed) = p.sign_the_transaction(sign(&w, &t, A, R), 1).unwrap();
    assert_eq!(signed.signer, A);
    assert_eq!(signed.transaction, t);
    assert_eq!(
        signed.transaction_signature,
        SignatureId { signer: A, wallet: w.clone(), transaction: t.clone() }
    );
    assert!(executed.is_none());
    assert_eq!(p.transactions[0].completed_signers, 1);
    assert_eq!(p.wallet_balance(&w), Some(1000));
    assert_eq!(p.balance_of(R), 0);
    let (_, executed) = p.sign_the_transaction(sign(&w, &t, B, R), 2).unwrap();
    let ev = executed.unwrap();
    assert_eq!(ev.transaction, t);
    assert_eq!(ev.wallet, w);
    assert_eq!(p.transactions[0].completed_signers, 2);
    assert!(p.transactions[0].executed);
    assert_eq!(p.wallet_balance(&w), Some(900));
    assert_eq!(p.balance_of(R), 100);
}

#[test]
fn endorsements_after_quorum_move_no_funds() {
    let (mut p, w) = setup(1000);
    let t = propose(&mut p, &w, A, 100);
    let mut executions = 0;
    for s in [A, B, C] {
        let (_, executed) = p.sign_the_transaction(sign(&w, &t, s, R), 1).unwrap();
        if executed.is_some() {
            executions += 1;
        }
    }
    assert_eq!(executions, 1);
    assert_eq!(p.transactions[0].completed_signers, 3);
    assert_eq!(p.wallet_balance(&w), Some(900));
    assert_eq!(p.balance_of(R), 100);
}

#[test]
fn mismatched_receiver_at_quorum_fails() {
    let (mut p, w) = setup(1000);
    let t = propose(&mut p, &w, A, 100);
    p.sign_the_transaction(sign(&w, &t, A, R), 1).unwrap();
    let r = p.sign_the_transaction(sign(&w, &t, B, D), 2);
    assert_eq!(r.unwrap_err(), Errors::InvalidReceiver);
    assert_eq!(p.transactions[0].completed_signers, 1);
    assert_eq!(p.signatures.len(), 1);
    assert_eq!(p.wallet_balance(&w), Some(1000));
    assert_eq!(p.balance_of(D), 0);
    assert_eq!(p.balance_of(R), 0);
}

#[test]
fn receiver_is_only_checked_at_quorum() {
    let (mut p, w) = setup(1000);
    let t = propose(&mut p, &w, A, 100);
    assert!(p.sign_the_transaction(sign(&w, &t, A, D), 1).is_ok());
    assert_eq!(p.transactions[0].completed_signers, 1);
}

#[test]
fn non_member_endorsement_fails() {
    let (mut p, w) = setup(1000);
    let t = propose(&mut p, &w, A, 100);
    let r = p.sign_the_transaction(sign(&w, &t, D, R), 1);
    assert_eq!(r.unwrap_err(), Errors::UnauthorizedUser);
    assert_eq!(p.transactions[0].completed_signers, 0);
    assert!(p.signatures.is_empty());
}

#[test]
fn second_endorsement_by_same_signer_fails() {
    let (mut p, w) = setup(1000);
    let t = propose(&mut p, &w, A, 100);
    p.sign_the_transaction(sign(&w, &t, A, R), 1).unwrap();
    let r = p.sign_the_transaction(sign(&w, &t, A, R), 2);
    assert_eq!(r.unwrap_err(), Errors::AlreadyExists);
    assert_eq!(p.transactions[0].completed_signers, 1);
    assert_eq!(p.signatures.len(), 1);
}

#[test]
fn endorsement_lookup_errors() {
    let (mut p, w) = setup(1000);
    let t = propose(&mut p, &w, A, 100);
    let r = p.sign_the_transaction(sign(&wallet_id(A, "missing"), &t, A, R), 1);
    assert_eq!(r.unwrap_err(), Errors::NotFound);
    let missing_t = TransactionId {
        created_by: B,
        wallet: w.clone(),
        receiver: R,
        name: name("pay"),
    };
    let r = p.sign_the_transaction(sign(&w, &missing_t, A, R), 1);
    assert_eq!(r.unwrap_err(), Errors::NotFound);
    let other = p
        .create_multi_signature_wallet(CreateWallet { signer: A }, name("other"), 1, vec![A])
        .unwrap()
        .wallet;
    let r = p.sign_the_transaction(sign(&other, &t, A, R), 1);
    assert_eq!(r.unwrap_err(), Errors::MismatchedWalletAndTxn);
}

#[test]
fn execution_rechecks_wallet_balance() {
    let (mut p, w) = setup(100);
    let t1 = propose(&mut p, &w, A, 100);
    let t2 = p
        .create_multi_signature_transaction(
            CreateTransaction { wallet_account: w.clone(), reciever: R, signer: B },
            name("pay"),
            100,
            1,
        )
        .unwrap()
        .transaction;
    p.sign_the_transaction(sign(&w, &t1, A, R), 1).unwrap();
    p.sign_the_transaction(sign(&w, &t1, B, R), 1).unwrap();
    assert_eq!(p.wallet_balance(&w), Some(0));
    p.sign_the_transaction(sign(&w, &t2, A, R), 1).unwrap();
    let r = p.sign_the_transaction(sign(&w, &t2, B, R), 1);
    assert_eq!(r.unwrap_err(), Errors::InsufficientBalance);
    assert_eq!(p.transactions[1].completed_signers, 1);
    assert_eq!(p.balance_of(R), 100);
}

#[test]
fn receiver_overflow_at_execution_is_refused() {
    let (mut p, w) = setup(10);
    p.credit(R, u64::MAX - 5).unwrap();
    let t = propose(&mut p, &w, A, 10);
    p.sign_the_transaction(sign(&w, &t, A, R), 1).unwrap();
    let r = p.sign_the_transaction(sign(&w, &t, B, R), 1);
    assert_eq!(r.unwrap_err(), Errors::Overflow);
    assert_eq!(p.wallet_balance(&w), Some(10));
}

#[test]
fn threshold_one_executes_on_first_endorsement() {
    let mut p = WalletProgram::new();
    let w = p
        .create_multi_signature_wallet(CreateWallet { signer: A }, name("solo"), 1, vec![A])
        .unwrap()
        .wallet;
    p.credit(A, 40).unwrap();
    p.transfer_sol_to_wallet(TransferSolToWallet { signer: A, wallet_account: w.clone() }, 40).unwrap();
    let t = propose(&mut p, &w, A, 40);
    let (_, executed) = p.sign_the_transaction(sign(&w, &t, A, R), 1).unwrap();
    assert!(executed.is_some());
    assert_eq!(p.wallet_balance(&w), Some(0));
    assert_eq!(p.balance_of(R), 40);
}

#[test]
fn error_messages() {
    assert_eq!(Errors::InvalidThreshold.message(), "Please provide a valid threshold");
    assert_eq!(Errors::UnauthorizedUser.message(), "Unauthorized user");
}

#[test]
fn wallet_id_depends_only_on_owner_and_name() {
    let mut p1 = WalletProgram::new();
    let mut p2 = WalletProgram::new();
    p2.create_multi_signature_wallet(CreateWallet { signer: B }, name("x"), 1, vec![B]).unwrap();
    let a = p1
        .create_multi_signature_wallet(CreateWallet { signer: A }, name("w"), 1, vec![A])
        .unwrap();
    let b = p2
        .create_multi_signature_wallet(CreateWallet { signer: A }, name("w"), 2, vec![A, C])
        .unwrap();
    assert_eq!(a.wallet, b.wallet);
    assert_eq!(a.wallet, wallet_id(A, "w"));
}

#[test]
fn long_names_are_refused() {
    let mut p = WalletProgram::new();
    let long = "n".repeat(33);
    let r = p.create_multi_signature_wallet(CreateWallet { signer: A }, long.clone(), 1, vec![A]);
    assert_eq!(r.unwrap_err(), Errors::InvalidName);
    let r = p.create_multi_signature_wallet(CreateWallet { signer: A }, long.clone(), 1, vec![]);
    assert_eq!(r.unwrap_err(), Errors::InvalidUsers);
    let ok = "n".repeat(32);
    let w = p.create_multi_signature_wallet(CreateWallet { signer: A }, ok, 1, vec![A]).unwrap();
    p.credit(A, 10).unwrap();
    let ctx = TransferSolToWallet { signer: A, wallet_account: w.wallet.clone() };
    p.transfer_sol_to_wallet(ctx, 10).unwrap();
    let ctx = CreateTransaction { wallet_account: w.wallet.clone(), reciever: R, signer: A };
    let r = p.create_multi_signature_transaction(ctx.clone(), long, 5, 1);
    assert_eq!(r.unwrap_err(), Errors::InvalidName);
    let r = p.create_multi_signature_transaction(ctx, "n".repeat(40), 0, 1);
    assert_eq!(r.unwrap_err(), Errors::InvalidAmount);
    assert!(p.transactions.is_empty());
}

#[test]
fn mismatched_receiver_after_execution_fails() {
    let (mut p, w) = setup(1000);
    let t = propose(&mut p, &w, A, 100);
    p.sign_the_transaction(sign(&w, &t, A, R), 1).unwrap();
    p.sign_the_transaction(sign(&w, &t, B, R), 1).unwrap();
    assert!(p.transactions[0].executed);
    let r = p.sign_the_transaction(sign(&w, &t, C, D), 1);
    assert_eq!(r.unwrap_err(), Errors::InvalidReceiver);
    assert_eq!(p.transactions[0].completed_signers, 2);
    assert_eq!(p.signatures.len(), 2);
    assert_eq!(p.wallet_balance(&w), Some(900));
    assert_eq!(p.balance_of(D), 0);
}
