use std::collections::HashMap;
use vstd::prelude::*;

use crate::types::{
    derive_signature_id, derive_transaction_id, derive_wallet_id, CreateTransaction,
    CreateWallet, Errors, Identity, SignTheTransaction, SignatureKey, TransactionCreated,
    TransactionExecuted, TransactionId, TransactionKey, TransactionSignature, TransactionSigned,
    TransferSolToWallet, WalletAccount, WalletCreated, WalletId, WalletKey, WalletTransaction,
    MAX_NAME_LEN, MAX_USERS,
};

verus! {

broadcast use vstd::std_specs::hash::group_hash_axioms;

/// The store of wallets, proposals and endorsements, together with the ledger
/// of balances that transfers move. Every record is addressed by its derived
/// key, which is also its id; no two records of a kind share a key.
pub struct WalletProgram {
    pub wallets: Vec<WalletAccount>,
    pub transactions: Vec<WalletTransaction>,
    pub signatures: Vec<TransactionSignature>,
    /// Custodied balance of each wallet, in the order of `wallets`.
    pub wallet_lamports: Vec<u64>,
    /// Balance of each participant, by identity; absent means zero.
    pub user_lamports: HashMap<u64, u64>,
}

/// How many of `sigs` endorse the proposal with key `t`.
pub open spec fn endorsements_of(sigs: Seq<TransactionSignature>, t: TransactionKey) -> nat
    decreases sigs.len(),
{
    if sigs.len() == 0 {
        0
    } else {
        endorsements_of(sigs.drop_last(), t) + if sigs.last().wallet_transaction_account@ == t {
            1nat
        } else {
            0nat
        }
    }
}

/// No endorsement of `t` among `sigs` means a count of zero.
proof fn lemma_no_endorsements(sigs: Seq<TransactionSignature>, t: TransactionKey)
    requires
        forall|i: int| 0 <= i < sigs.len() ==> (#[trigger] sigs[i]).wallet_transaction_account@ != t,
    ensures
        endorsements_of(sigs, t) == 0,
    decreases sigs.len(),
{
    if sigs.len() > 0 {
        let rest = sigs.drop_last();
        assert forall|i: int| 0 <= i < rest.len() implies (
        #[trigger] rest[i]).wallet_transaction_account@ != t by {
            assert(rest[i] == sigs[i]);
        }
        lemma_no_endorsements(rest, t);
    }
}

/// A wallet shape that creation accepts.
pub open spec fn valid_wallet(w: WalletAccount) -> bool {
    &&& 1 <= w.threshold <= w.users@.len() <= MAX_USERS
    &&& w.users@.contains(w.created_by)
    &&& w.users@.no_duplicates()
}

/// Proposal `txn` after one more endorsement; `execute` marks it carried out.
pub open spec fn endorsed(txn: WalletTransaction, execute: bool) -> WalletTransaction {
    WalletTransaction {
        name: txn.name,
        wallet_account: txn.wallet_account,
        reciever: txn.reciever,
        amount: txn.amount,
        threshold: txn.threshold,
        completed_signers: (txn.completed_signers + 1) as u64,
        time_stamp: txn.time_stamp,
        created_by: txn.created_by,
        executed: txn.executed || execute,
    }
}

impl WalletProgram {
    /// Balance held by `who` outside any wallet.
    pub open spec fn user_balance(self, who: Identity) -> nat {
        if self.user_lamports@.contains_key(who.0) {
            self.user_lamports@[who.0] as nat
        } else {
            0
        }
    }

    /// A wallet with key `k` is stored.
    pub open spec fn has_wallet(self, k: WalletKey) -> bool {
        exists|i: int| 0 <= i < self.wallets@.len() && #[trigger] self.wallets@[i].key() == k
    }

    /// Where the wallet with key `k` is stored.
    pub open spec fn wallet_index(self, k: WalletKey) -> int {
        choose|i: int| 0 <= i < self.wallets@.len() && #[trigger] self.wallets@[i].key() == k
    }

    /// A proposal with key `k` is stored.
    pub open spec fn has_transaction(self, k: TransactionKey) -> bool {
        exists|i: int|
            0 <= i < self.transactions@.len() && #[trigger] self.transactions@[i].key() == k
    }

    /// Where the proposal with key `k` is stored.
    pub open spec fn transaction_index(self, k: TransactionKey) -> int {
        choose|i: int|
            0 <= i < self.transactions@.len() && #[trigger] self.transactions@[i].key() == k
    }

    /// An endorsement with key `k` is stored.
    pub open spec fn has_signature(self, k: SignatureKey) -> bool {
        exists|i: int| 0 <= i < self.signatures@.len() && #[trigger] self.signatures@[i].key() == k
    }

    /// No two wallets share a key.
    pub open spec fn wallet_keys_unique(self) -> bool {
        forall|i: int, j: int|
            0 <= i < self.wallets@.len() && 0 <= j < self.wallets@.len() && i != j
                ==> #[trigger] self.wallets@[i].key() != #[trigger] self.wallets@[j].key()
    }

    /// No two proposals share a key.
    pub open spec fn transaction_keys_unique(self) -> bool {
        forall|i: int, j: int|
            0 <= i < self.transactions@.len() && 0 <= j < self.transactions@.len() && i != j
                ==> #[trigger] self.transactions@[i].key() != #[trigger] self.transactions@[j].key()
    }

    /// The invariant of the store.
    pub open spec fn wf(self) -> bool {
        &&& self.wallet_lamports@.len() == self.wallets@.len()
        &&& forall|i: int| 0 <= i < self.wallets@.len() ==> valid_wallet(#[trigger] self.wallets@[i])
        &&& self.wallet_keys_unique()
        &&& forall|i: int|
            0 <= i < self.transactions@.len() ==> transaction_ok(#[trigger] self.transactions@[i])
        &&& self.transaction_keys_unique()
        &&& forall|i: int|
            0 <= i < self.signatures@.len() ==> self.signature_ok(#[trigger] self.signatures@[i])
        &&& forall|i: int, j: int|
            0 <= i < self.signatures@.len() && 0 <= j < self.signatures@.len() && i != j ==> !(
            #[trigger] self.signatures@[i].signer == #[trigger] self.signatures@[j].signer
                && self.signatures@[i].wallet_transaction_account@
                == self.signatures@[j].wallet_transaction_account@)
        &&& forall|i: int|
            0 <= i < self.transactions@.len() ==> (#[trigger] self.transactions@[i]).completed_signers
                == endorsements_of(self.signatures@, self.transactions@[i].key())
    }

    /// A stored endorsement refers to a stored proposal of its wallet, and its
    /// signer is a member of that wallet.
    pub open spec fn signature_ok(self, s: TransactionSignature) -> bool {
        &&& self.has_transaction(s.wallet_transaction_account@)
        &&& s.wallet_transaction_account@.1 == s.wallet_account@
        &&& self.has_wallet(s.wallet_account@)
        &&& self.wallets@[self.wallet_index(s.wallet_account@)].users@.contains(s.signer)
    }

    /// A stored wallet is found by its key.
    pub proof fn lemma_wallet_index(self, i: int)
        requires
            self.wallet_keys_unique(),
            0 <= i < self.wallets@.len(),
        ensures
            self.has_wallet(self.wallets@[i].key()),
            self.wallet_index(self.wallets@[i].key()) == i,
    {
        let k = self.wallets@[i].key();
        assert(self.wallets@[i].key() == k);
        let j = self.wallet_index(k);
        assert(self.wallets@[j].key() == k);
    }

    /// A stored proposal is found by its key.
    pub proof fn lemma_transaction_index(self, i: int)
        requires
            self.transaction_keys_unique(),
            0 <= i < self.transactions@.len(),
        ensures
            self.has_transaction(self.transactions@[i].key()),
            self.transaction_index(self.transactions@[i].key()) == i,
    {
        let k = self.transactions@[i].key();
        assert(self.transactions@[i].key() == k);
        let j = self.transaction_index(k);
        assert(self.transactions@[j].key() == k);
    }

    /// The error wallet creation reports, or `None` when it succeeds.
    pub open spec fn create_wallet_error(
        self,
        signer: Identity,
        name: Seq<char>,
        threshold: u64,
        users: Seq<Identity>,
    ) -> Option<Errors> {
        if users.len() == 0 || users.len() > MAX_USERS || !users.no_duplicates() {
            Some(Errors::InvalidUsers)
        } else if threshold == 0 || threshold > users.len() {
            Some(Errors::InvalidThreshold)
        } else if !users.contains(signer) {
            Some(Errors::SignerNotIncluded)
        } else if name.len() > MAX_NAME_LEN {
            Some(Errors::InvalidName)
        } else if self.has_wallet((signer, name)) {
            Some(Errors::AlreadyExists)
        } else {
            None
        }
    }

    /// What `create_multi_signature_wallet` does: from `pre` to `post`, returning `r`.
    pub open spec fn create_wallet_spec(
        pre: WalletProgram,
        signer: Identity,
        name: Seq<char>,
        threshold: u64,
        users: Seq<Identity>,
        post: WalletProgram,
        r: Result<WalletCreated, Errors>,
    ) -> bool {
        match pre.create_wallet_error(signer, name, threshold, users) {
            Some(e) => r == Err::<WalletCreated, Errors>(e) && post == pre,
            None => {
                &&& r is Ok
                &&& r->Ok_0.wallet@ == (signer, name)
                &&& r->Ok_0.users@ == users
                &&& r->Ok_0.threshold == threshold
                &&& post.wallets@.len() == pre.wallets@.len() + 1
                &&& post.wallets@.drop_last() == pre.wallets@
                &&& post.wallets@.last().name@ == name
                &&& post.wallets@.last().created_by == signer
                &&& post.wallets@.last().users@ == users
                &&& post.wallets@.last().threshold == threshold
                &&& post.wallet_lamports@ == pre.wallet_lamports@.push(0)
                &&& post.transactions == pre.transactions
                &&& post.signatures == pre.signatures
                &&& post.user_lamports == pre.user_lamports
            },
        }
    }

    /// The error proposing a transfer reports, or `None` when it succeeds.
    pub open spec fn create_transaction_error(
        self,
        ctx: CreateTransaction,
        name: Seq<char>,
        amount: u64,
    ) -> Option<Errors> {
        let wk = ctx.wallet_account@;
        let w = self.wallet_index(wk);
        if amount == 0 {
            Some(Errors::InvalidAmount)
        } else if !self.has_wallet(wk) {
            Some(Errors::NotFound)
        } else if !self.wallets@[w].users@.contains(ctx.signer) {
            Some(Errors::UnauthorizedUser)
        } else if self.wallet_lamports@[w] < amount {
            Some(Errors::InsufficientBalance)
        } else if name.len() > MAX_NAME_LEN {
            Some(Errors::InvalidName)
        } else if self.has_transaction((ctx.signer, wk, ctx.reciever, name)) {
            Some(Errors::AlreadyExists)
        } else {
            None
        }
    }

    /// What `create_multi_signature_transaction` does.
    pub open spec fn create_transaction_spec(
        pre: WalletProgram,
        ctx: CreateTransaction,
        name: Seq<char>,
        amount: u64,
        now: u64,
        post: WalletProgram,
        r: Result<TransactionCreated, Errors>,
    ) -> bool {
        match pre.create_transaction_error(ctx, name, amount) {
            Some(e) => r == Err::<TransactionCreated, Errors>(e) && post == pre,
            None => {
                let t = post.transactions@.last();
                &&& r is Ok
                &&& r->Ok_0.transaction@ == (ctx.signer, ctx.wallet_account@, ctx.reciever, name)
                &&& r->Ok_0.wallet == ctx.wallet_account
                &&& post.transactions@.len() == pre.transactions@.len() + 1
                &&& post.transactions@.drop_last() == pre.transactions@
                &&& t.name@ == name
                &&& t.wallet_account == ctx.wallet_account
                &&& t.reciever == ctx.reciever
                &&& t.amount == amount
                &&& t.threshold == pre.wallets@[pre.wallet_index(ctx.wallet_account@)].threshold
                &&& t.completed_signers == 0
                &&& t.time_stamp == now
                &&& t.created_by == ctx.signer
                &&& !t.executed
                &&& post.wallets == pre.wallets
                &&& post.signatures == pre.signatures
                &&& post.wallet_lamports == pre.wallet_lamports
                &&& post.user_lamports == pre.user_lamports
            },
        }
    }

    /// Endorsing proposal `t` now brings its count to its threshold or past it.
    pub open spec fn past_quorum(self, t: int) -> bool {
        self.transactions@[t].completed_signers + 1 >= self.transactions@[t].threshold
    }

    /// Endorsing proposal `t` now carries its transfer out: the quorum is met
    /// and the transfer has not been carried out yet.
    pub open spec fn reaches_quorum(self, t: int) -> bool {
        self.past_quorum(t) && !self.transactions@[t].executed
    }

    /// The error an endorsement reports, or `None` when it succeeds.
    pub open spec fn sign_error(self, ctx: SignTheTransaction) -> Option<Errors> {
        let wk = ctx.wallet_account@;
        let tk = ctx.wallet_transaction_account@;
        let w = self.wallet_index(wk);
        let t = self.transaction_index(tk);
        let txn = self.transactions@[t];
        if !self.has_wallet(wk) || !self.has_transaction(tk) {
            Some(Errors::NotFound)
        } else if !self.wallets@[w].users@.contains(ctx.signer) {
            Some(Errors::UnauthorizedUser)
        } else if txn.wallet_account@ != wk {
            Some(Errors::MismatchedWalletAndTxn)
        } else if self.has_signature((ctx.signer, wk, tk)) {
            Some(Errors::AlreadyExists)
        } else if txn.completed_signers == u64::MAX {
            Some(Errors::Overflow)
        } else if self.past_quorum(t) && ctx.reciever != txn.reciever {
            Some(Errors::InvalidReceiver)
        } else if self.reaches_quorum(t) && self.wallet_lamports@[w] < txn.amount {
            Some(Errors::InsufficientBalance)
        } else if self.reaches_quorum(t) && self.user_balance(txn.reciever) + txn.amount
            > u64::MAX {
            Some(Errors::Overflow)
        } else {
            None
        }
    }

    /// What `sign_the_transaction` does.
    pub open spec fn sign_spec(
        pre: WalletProgram,
        ctx: SignTheTransaction,
        now: u64,
        post: WalletProgram,
        r: Result<(TransactionSigned, Option<TransactionExecuted>), Errors>,
    ) -> bool {
        let w = pre.wallet_index(ctx.wallet_account@);
        let t = pre.transaction_index(ctx.wallet_transaction_account@);
        let txn = pre.transactions@[t];
        let q = pre.reaches_quorum(t);
        match pre.sign_error(ctx) {
            Some(e) => r == Err::<(TransactionSigned, Option<TransactionExecuted>), Errors>(e)
                && post == pre,
            None => {
                &&& r is Ok
                &&& r->Ok_0.0 == (TransactionSigned {
                    transaction: ctx.wallet_transaction_account,
                    wallet: ctx.wallet_account,
                    signer: ctx.signer,
                    transaction_signature: crate::types::SignatureId {
                        signer: ctx.signer,
                        wallet: ctx.wallet_account,
                        transaction: ctx.wallet_transaction_account,
                    },
                })
                &&& r->Ok_0.1 == if q {
                    Some(
                        TransactionExecuted {
                            transaction: ctx.wallet_transaction_account,
                            wallet: ctx.wallet_account,
                        },
                    )
                } else {
                    None
                }
                &&& post.signatures@ == pre.signatures@.push(
                    TransactionSignature {
                        signer: ctx.signer,
                        wallet_account: ctx.wallet_account,
                        wallet_transaction_account: ctx.wallet_transaction_account,
                        timestamp: now,
                    },
                )
                &&& post.transactions@ == pre.transactions@.update(t, endorsed(txn, q))
                &&& post.wallets == pre.wallets
                &&& if q {
                    &&& post.wallet_lamports@ == pre.wallet_lamports@.update(
                        w,
                        (pre.wallet_lamports@[w] - txn.amount) as u64,
                    )
                    &&& post.user_lamports@ == pre.user_lamports@.insert(
                        txn.reciever.0,
                        (pre.user_balance(txn.reciever) + txn.amount) as u64,
                    )
                } else {
                    &&& post.wallet_lamports == pre.wallet_lamports
                    &&& post.user_lamports == pre.user_lamports
                }
            },
        }
    }

    /// The error a deposit reports, or `None` when it succeeds.
    pub open spec fn deposit_error(self, ctx: TransferSolToWallet, amount: u64) -> Option<Errors> {
        let w = self.wallet_index(ctx.wallet_account@);
        if amount == 0 {
            Some(Errors::InvalidAmount)
        } else if !self.has_wallet(ctx.wallet_account@) {
            Some(Errors::NotFound)
        } else if self.user_balance(ctx.signer) < amount {
            Some(Errors::InsufficientBalance)
        } else if self.wallet_lamports@[w] + amount > u64::MAX {
            Some(Errors::Overflow)
        } else {
            None
        }
    }

    /// What `transfer_sol_to_wallet` does.
    pub open spec fn deposit_spec(
        pre: WalletProgram,
        ctx: TransferSolToWallet,
        amount: u64,
        post: WalletProgram,
        r: Result<(), Errors>,
    ) -> bool {
        let w = pre.wallet_index(ctx.wallet_account@);
        match pre.deposit_error(ctx, amount) {
            Some(e) => r == Err::<(), Errors>(e) && post == pre,
            None => {
                &&& r is Ok
                &&& post.wallet_lamports@ == pre.wallet_lamports@.update(
                    w,
                    (pre.wallet_lamports@[w] + amount) as u64,
                )
                &&& post.user_lamports@ == pre.user_lamports@.insert(
                    ctx.signer.0,
                    (pre.user_balance(ctx.signer) - amount) as u64,
                )
                &&& post.wallets == pre.wallets
                &&& post.transactions == pre.transactions
                &&& post.signatures == pre.signatures
            },
        }
    }
}

/// A stored proposal's amount is positive and it is marked executed exactly
/// when its count has reached its threshold.
pub open spec fn transaction_ok(t: WalletTransaction) -> bool {
    &&& t.amount > 0
    &&& t.threshold >= 1
    &&& t.executed <==> t.completed_signers >= t.threshold
}

/// `who` is one of `users`.
fn contains_identity(users: &Vec<Identity>, who: Identity) -> (r: bool)
    ensures
        r == users@.contains(who),
{
    let mut i: usize = 0;
    while i < users.len()
        invariant
            i <= users@.len(),
            forall|k: int| 0 <= k < i ==> users@[k] != who,
        decreases users@.len() - i,
    {
        if users[i] == who {
            assert(users@[i as int] == who);
            return true;
        }
        i += 1;
    }
    false
}

/// No member appears twice in `users`.
fn all_distinct(users: &Vec<Identity>) -> (r: bool)
    ensures
        r == users@.no_duplicates(),
{
    let mut i: usize = 0;
    while i < users.len()
        invariant
            i <= users@.len(),
            forall|a: int, b: int| 0 <= a < b < users@.len() && a < i ==> users@[a] != users@[b],
        decreases users@.len() - i,
    {
        let mut j: usize = i + 1;
        while j < users.len()
            invariant
                i < j <= users@.len(),
                forall|a: int, b: int| 0 <= a < b < users@.len() && a < i ==> users@[a] != users@[b],
                forall|b: int| i < b < j ==> users@[i as int] != users@[b],
            decreases users@.len() - j,
        {
            if users[i] == users[j] {
                return false;
            }
            j += 1;
        }
        i += 1;
    }
    true
}

/// A copy of `users`, element by element.
fn copy_identities(users: &Vec<Identity>) -> (r: Vec<Identity>)
    ensures
        r@ == users@,
{
    let mut out: Vec<Identity> = Vec::new();
    let mut i: usize = 0;
    while i < users.len()
        invariant
            i <= users@.len(),
            out@ == users@.subrange(0, i as int),
        decreases users@.len() - i,
    {
        out.push(users[i]);
        i += 1;
        assert(out@ == users@.subrange(0, i as int));
    }
    out
}


impl WalletProgram {
    /// An empty store and ledger.
    pub fn new() -> (r: WalletProgram)
        ensures
            r.wf(),
            r.wallets@.len() == 0,
            r.transactions@.len() == 0,
            r.signatures@.len() == 0,
            r.user_lamports@ == Map::<u64, u64>::empty(),
    {
        WalletProgram {
            wallets: Vec::new(),
            transactions: Vec::new(),
            signatures: Vec::new(),
            wallet_lamports: Vec::new(),
            user_lamports: HashMap::new(),
        }
    }

    /// Balance held by `who` outside any wallet.
    pub fn balance_of(&self, who: Identity) -> (r: u64)
        ensures
            r == self.user_balance(who),
    {
        match self.user_lamports.get(&who.0) {
            Some(v) => *v,
            None => 0,
        }
    }

    /// Credits `amount` to `who` from outside the program. Fails with
    /// `Overflow` when the balance would exceed `u64::MAX`.
    pub fn credit(&mut self, who: Identity, amount: u64) -> (r: Result<(), Errors>)
        requires
            old(self).wf(),
        ensures
            final(self).wf(),
            r is Err <==> old(self).user_balance(who) + amount > u64::MAX,
            r is Err ==> r == Err::<(), Errors>(Errors::Overflow) && *final(self) == *old(self),
            r is Ok ==> final(self).user_lamports@ == old(self).user_lamports@.insert(
                who.0,
                (old(self).user_balance(who) + amount) as u64,
            ),
            r is Ok ==> final(self).wallets == old(self).wallets && final(self).transactions
                == old(self).transactions && final(self).signatures == old(self).signatures
                && final(self).wallet_lamports == old(self).wallet_lamports,
    {
        let bal = self.balance_of(who);
        match bal.checked_add(amount) {
            None => Err(Errors::Overflow),
            Some(n) => {
                self.user_lamports.insert(who.0, n);
                Ok(())
            },
        }
    }

    /// Where the wallet with id `id` is stored, if it is.
    fn find_wallet(&self, id: &WalletId) -> (r: Option<usize>)
        requires
            self.wallet_keys_unique(),
        ensures
            r is None <==> !self.has_wallet(id@),
            r matches Some(i) ==> i == self.wallet_index(id@) && i < self.wallets@.len(),
    {
        let mut i: usize = 0;
        while i < self.wallets.len()
            invariant
                i <= self.wallets@.len(),
                self.wallet_keys_unique(),
                forall|k: int| 0 <= k < i ==> #[trigger] self.wallets@[k].key() != id@,
            decreases self.wallets@.len() - i,
        {
            if self.wallets[i].created_by == id.owner && self.wallets[i].name == id.name {
                proof {
                    self.lemma_wallet_index(i as int);
                }
                return Some(i);
            }
            i += 1;
        }
        None
    }

    /// Where the proposal with id `id` is stored, if it is.
    fn find_transaction(&self, id: &TransactionId) -> (r: Option<usize>)
        requires
            self.transaction_keys_unique(),
        ensures
            r is None <==> !self.has_transaction(id@),
            r matches Some(i) ==> i == self.transaction_index(id@) && i < self.transactions@.len(),
    {
        let mut i: usize = 0;
        while i < self.transactions.len()
            invariant
                i <= self.transactions@.len(),
                self.transaction_keys_unique(),
                forall|k: int| 0 <= k < i ==> #[trigger] self.transactions@[k].key() != id@,
            decreases self.transactions@.len() - i,
        {
            let t = &self.transactions[i];
            if t.created_by == id.created_by && t.wallet_account.same(&id.wallet) && t.reciever
                == id.receiver && t.name == id.name {
                proof {
                    self.lemma_transaction_index(i as int);
                }
                return Some(i);
            }
            i += 1;
        }
        None
    }

    /// Whether an endorsement by `signer` of proposal `transaction` in `wallet` is stored.
    fn find_signature(&self, signer: Identity, wallet: &WalletId, transaction: &TransactionId) -> (r:
        bool)
        ensures
            r == self.has_signature((signer, wallet@, transaction@)),
    {
        let mut i: usize = 0;
        while i < self.signatures.len()
            invariant
                i <= self.signatures@.len(),
                forall|k: int|
                    0 <= k < i ==> #[trigger] self.signatures@[k].key() != (
                        signer,
                        wallet@,
                        transaction@,
                    ),
            decreases self.signatures@.len() - i,
        {
            let g = &self.signatures[i];
            if g.signer == signer && g.wallet_account.same(wallet)
                && g.wallet_transaction_account.same(transaction) {
                assert(self.signatures@[i as int].key() == (signer, wallet@, transaction@));
                return true;
            }
            i += 1;
        }
        false
    }

    /// Custodied balance of the wallet with id `wallet`, or `None` when there
    /// is no such wallet.
    pub fn wallet_balance(&self, wallet: &WalletId) -> (r: Option<u64>)
        requires
            self.wf(),
        ensures
            self.has_wallet(wallet@) ==> r == Some(
                self.wallet_lamports@[self.wallet_index(wallet@)],
            ),
            !self.has_wallet(wallet@) ==> r is None,
    {
        match self.find_wallet(wallet) {
            Some(i) => Some(self.wallet_lamports[i]),
            None => None,
        }
    }

    /// Registers a wallet owned by `ctx.signer` with the given members and
    /// threshold; its id is the derived key `(ctx.signer, name)`. Fails with
    /// `InvalidUsers` when `users` is empty, has more than `MAX_USERS` members
    /// or repeats one; with `InvalidThreshold` when `threshold` is zero or
    /// above the member count; with `SignerNotIncluded` when the signer is not
    /// a member; with `InvalidName` when `name` is longer than `MAX_NAME_LEN`
    /// characters; with `AlreadyExists` when the signer already owns a wallet
    /// of this name.
    pub fn create_multi_signature_wallet(
        &mut self,
        ctx: CreateWallet,
        name: String,
        threshold: u64,
        users: Vec<Identity>,
    ) -> (r: Result<WalletCreated, Errors>)
        requires
            old(self).wf(),
        ensures
            final(self).wf(),
            WalletProgram::create_wallet_spec(
                *old(self),
                ctx.signer,
                name@,
                threshold,
                users@,
                *final(self),
                r,
            ),
    {
        if users.len() == 0 || users.len() > MAX_USERS || !all_distinct(&users) {
            return Err(Errors::InvalidUsers);
        }
        if threshold == 0 || threshold > users.len() as u64 {
            return Err(Errors::InvalidThreshold);
        }
        if !contains_identity(&users, ctx.signer) {
            return Err(Errors::SignerNotIncluded);
        }
        if name.as_str().unicode_len() > MAX_NAME_LEN {
            return Err(Errors::InvalidName);
        }
        let id = derive_wallet_id(ctx.signer, &name);
        if self.find_wallet(&id).is_some() {
            return Err(Errors::AlreadyExists);
        }
        let event = WalletCreated { wallet: id, users: copy_identities(&users), threshold };
        let wallet = WalletAccount { name, created_by: ctx.signer, users, threshold };
        self.wallets.push(wallet);
        self.wallet_lamports.push(0);
        proof {
            let pre = *old(self);
            assert(self.wallets@.drop_last() == pre.wallets@);
            assert forall|i: int, j: int|
                0 <= i < self.wallets@.len() && 0 <= j < self.wallets@.len() && i != j
                    implies #[trigger] self.wallets@[i].key() != #[trigger] self.wallets@[j].key() by {
                if i < pre.wallets@.len() && j < pre.wallets@.len() {
                    assert(pre.wallets@[i].key() != pre.wallets@[j].key());
                } else if i < pre.wallets@.len() {
                    assert(pre.wallets@[i].key() == self.wallets@[i].key());
                } else {
                    assert(pre.wallets@[j].key() == self.wallets@[j].key());
                }
            }
            assert forall|i: int| 0 <= i < self.signatures@.len() implies self.signature_ok(
                #[trigger] self.signatures@[i],
            ) by {
                let s = self.signatures@[i];
                assert(pre.signature_ok(s));
                let wi = pre.wallet_index(s.wallet_account@);
                assert(pre.wallets@[wi].key() == s.wallet_account@);
                assert(self.wallets@[wi] == pre.wallets@[wi]);
                self.lemma_wallet_index(wi);
                let ti = pre.transaction_index(s.wallet_transaction_account@);
                assert(self.transactions@[ti].key() == s.wallet_transaction_account@);
            }
        }
        Ok(event)
    }

    /// Proposes a transfer of `amount` from wallet `ctx.wallet_account` to
    /// `ctx.reciever`, stamped with `now`; its id is the derived key
    /// `(ctx.signer, ctx.wallet_account, ctx.reciever, name)`. Fails with
    /// `InvalidAmount` for a zero amount; `NotFound` when there is no such
    /// wallet; `UnauthorizedUser` when the signer is not a member;
    /// `InsufficientBalance` when the wallet holds less than `amount` (an
    /// advisory check: the balance is checked again when the transfer is
    /// carried out); `InvalidName` when `name` is longer than `MAX_NAME_LEN`
    /// characters; `AlreadyExists` when a proposal with that key exists.
    pub fn create_multi_signature_transaction(
        &mut self,
        ctx: CreateTransaction,
        name: String,
        amount: u64,
        now: u64,
    ) -> (r: Result<TransactionCreated, Errors>)
        requires
            old(self).wf(),
        ensures
            final(self).wf(),
            WalletProgram::create_transaction_spec(
                *old(self),
                ctx,
                name@,
                amount,
                now,
                *final(self),
                r,
            ),
    {
        if amount == 0 {
            return Err(Errors::InvalidAmount);
        }
        let w = match self.find_wallet(&ctx.wallet_account) {
            Some(w) => w,
            None => {
                return Err(Errors::NotFound);
            },
        };
        if !contains_identity(&self.wallets[w].users, ctx.signer) {
            return Err(Errors::UnauthorizedUser);
        }
        if self.wallet_lamports[w] < amount {
            return Err(Errors::InsufficientBalance);
        }
        if name.as_str().unicode_len() > MAX_NAME_LEN {
            return Err(Errors::InvalidName);
        }
        let id = derive_transaction_id(ctx.signer, &ctx.wallet_account, ctx.reciever, &name);
        if self.find_transaction(&id).is_some() {
            return Err(Errors::AlreadyExists);
        }
        let threshold = self.wallets[w].threshold;
        let t = WalletTransaction {
            name,
            wallet_account: ctx.wallet_account.duplicate(),
            reciever: ctx.reciever,
            amount,
            threshold,
            completed_signers: 0,
            time_stamp: now,
            created_by: ctx.signer,
            executed: false,
        };
        self.transactions.push(t);
        proof {
            let pre = *old(self);
            let n = pre.transactions@.len() as int;
            assert(self.transactions@.drop_last() == pre.transactions@);
            assert(self.transactions@[n].key() == id@);
            assert(valid_wallet(pre.wallets@[w as int]));
            assert forall|i: int, j: int|
                0 <= i < self.transactions@.len() && 0 <= j < self.transactions@.len() && i != j
                    implies #[trigger] self.transactions@[i].key()
                != #[trigger] self.transactions@[j].key() by {
                if i < n && j < n {
                    assert(pre.transactions@[i].key() != pre.transactions@[j].key());
                } else if i < n {
                    assert(pre.transactions@[i].key() == self.transactions@[i].key());
                } else {
                    assert(pre.transactions@[j].key() == self.transactions@[j].key());
                }
            }
            assert forall|i: int| 0 <= i < self.signatures@.len() implies (
            #[trigger] self.signatures@[i]).wallet_transaction_account@ != id@ by {
                assert(pre.signature_ok(pre.signatures@[i]));
            }
            lemma_no_endorsements(self.signatures@, id@);
            assert forall|i: int| 0 <= i < self.transactions@.len() implies (
            #[trigger] self.transactions@[i]).completed_signers == endorsements_of(
                self.signatures@,
                self.transactions@[i].key(),
            ) by {
                if i < n {
                    assert(self.transactions@[i] == pre.transactions@[i]);
                }
            }
            assert forall|i: int| 0 <= i < self.transactions@.len() implies transaction_ok(
                #[trigger] self.transactions@[i],
            ) by {
                if i < n {
                    assert(self.transactions@[i] == pre.transactions@[i]);
                }
            }
            assert forall|i: int| 0 <= i < self.signatures@.len() implies self.signature_ok(
                #[trigger] self.signatures@[i],
            ) by {
                let s = self.signatures@[i];
                assert(pre.signature_ok(s));
                let ti = pre.transaction_index(s.wallet_transaction_account@);
                assert(pre.transactions@[ti].key() == s.wallet_transaction_account@);
                assert(self.transactions@[ti] == pre.transactions@[ti]);
                assert(self.transactions@[ti].key() == s.wallet_transaction_account@);
                assert(self.has_transaction(s.wallet_transaction_account@));
                assert(self.wallets == pre.wallets);
            }
        }
        Ok(TransactionCreated { transaction: id, wallet: ctx.wallet_account })
    }

    /// Deposits `amount` from `ctx.signer`'s balance into wallet
    /// `ctx.wallet_account`; anyone may deposit into any wallet. Fails with
    /// `InvalidAmount` for a zero amount; `NotFound` when there is no such
    /// wallet; `InsufficientBalance` when the signer holds less than `amount`;
    /// `Overflow` when the wallet's balance would exceed `u64::MAX`.
    pub fn transfer_sol_to_wallet(&mut self, ctx: TransferSolToWallet, amount: u64) -> (r: Result<
        (),
        Errors,
    >)
        requires
            old(self).wf(),
        ensures
            final(self).wf(),
            WalletProgram::deposit_spec(*old(self), ctx, amount, *final(self), r),
    {
        if amount == 0 {
            return Err(Errors::InvalidAmount);
        }
        let w = match self.find_wallet(&ctx.wallet_account) {
            Some(w) => w,
            None => {
                return Err(Errors::NotFound);
            },
        };
        let bal = self.balance_of(ctx.signer);
        if bal < amount {
            return Err(Errors::InsufficientBalance);
        }
        let held = self.wallet_lamports[w];
        if held > u64::MAX - amount {
            return Err(Errors::Overflow);
        }
        self.wallet_lamports.set(w, held + amount);
        self.user_lamports.insert(ctx.signer.0, bal - amount);
        proof {
            let pre = *old(self);
            assert forall|i: int| 0 <= i < self.signatures@.len() implies self.signature_ok(
                #[trigger] self.signatures@[i],
            ) by {
                let s = self.signatures@[i];
                assert(pre.signature_ok(s));
                let ti = pre.transaction_index(s.wallet_transaction_account@);
                assert(self.transactions@[ti].key() == s.wallet_transaction_account@);
                let wi = pre.wallet_index(s.wallet_account@);
                assert(self.wallets@[wi].key() == s.wallet_account@);
            }
        }
        Ok(())
    }

    /// Records `ctx.signer`'s endorsement of proposal
    /// `ctx.wallet_transaction_account`, stamped with `now`, and counts it;
    /// the endorsement's id is the derived key `(signer, wallet, proposal)`.
    /// When this endorsement brings the count to the proposal's threshold, the
    /// transfer is carried out in the same step and the proposal is marked as
    /// executed; later endorsements are still recorded and counted but move no
    /// funds again.
    ///
    /// Fails, changing nothing, with `NotFound` when the wallet or the proposal
    /// is missing; `UnauthorizedUser` when the signer is not a member;
    /// `MismatchedWalletAndTxn` when the proposal belongs to another wallet;
    /// `AlreadyExists` when the signer endorsed it already; `Overflow` when the
    /// count is at `u64::MAX`; `InvalidReceiver` when the count reaches or
    /// passes the threshold and `ctx.reciever` is not the proposal's receiver;
    /// and, when the transfer is due, `InsufficientBalance` when the wallet
    /// holds less than the amount and `Overflow` when the receiver's balance
    /// would exceed `u64::MAX`.
    pub fn sign_the_transaction(&mut self, ctx: SignTheTransaction, now: u64) -> (r: Result<
        (TransactionSigned, Option<TransactionExecuted>),
        Errors,
    >)
        requires
            old(self).wf(),
        ensures
            final(self).wf(),
            WalletProgram::sign_spec(*old(self), ctx, now, *final(self), r),
    {
        let ow = self.find_wallet(&ctx.wallet_account);
        let ot = self.find_transaction(&ctx.wallet_transaction_account);
        let (w, t) = match (ow, ot) {
            (Some(w), Some(t)) => (w, t),
            _ => {
                return Err(Errors::NotFound);
            },
        };
        if !contains_identity(&self.wallets[w].users, ctx.signer) {
            return Err(Errors::UnauthorizedUser);
        }
        if !self.transactions[t].wallet_account.same(&ctx.wallet_account) {
            return Err(Errors::MismatchedWalletAndTxn);
        }
        if self.find_signature(ctx.signer, &ctx.wallet_account, &ctx.wallet_transaction_account) {
            return Err(Errors::AlreadyExists);
        }
        let count = self.transactions[t].completed_signers;
        if count == u64::MAX {
            return Err(Errors::Overflow);
        }
        let amount = self.transactions[t].amount;
        let receiver = self.transactions[t].reciever;
        let past = count + 1 >= self.transactions[t].threshold;
        if past && ctx.reciever != receiver {
            return Err(Errors::InvalidReceiver);
        }
        let quorum = past && !self.transactions[t].executed;
        let mut receiver_balance: u64 = 0;
        if quorum {
            if self.wallet_lamports[w] < amount {
                return Err(Errors::InsufficientBalance);
            }
            receiver_balance = self.balance_of(receiver);
            if receiver_balance > u64::MAX - amount {
                return Err(Errors::Overflow);
            }
        }
        let sig_id = derive_signature_id(
            ctx.signer,
            &ctx.wallet_account,
            &ctx.wallet_transaction_account,
        );
        let old_txn = &self.transactions[t];
        let updated = WalletTransaction {
            name: old_txn.name.clone(),
            wallet_account: old_txn.wallet_account.duplicate(),
            reciever: old_txn.reciever,
            amount: old_txn.amount,
            threshold: old_txn.threshold,
            completed_signers: count + 1,
            time_stamp: old_txn.time_stamp,
            created_by: old_txn.created_by,
            executed: old_txn.executed || quorum,
        };
        self.transactions.set(t, updated);
        self.signatures.push(
            TransactionSignature {
                signer: ctx.signer,
                wallet_account: ctx.wallet_account.duplicate(),
                wallet_transaction_account: ctx.wallet_transaction_account.duplicate(),
                timestamp: now,
            },
        );
        if quorum {
            let held = self.wallet_lamports[w];
            self.wallet_lamports.set(w, held - amount);
            self.user_lamports.insert(receiver.0, receiver_balance + amount);
        }
        proof {
            let pre = *old(self);
            let tk = ctx.wallet_transaction_account@;
            let ti = t as int;
            assert(pre.transactions@[ti].key() == tk);
            assert(self.transactions@[ti].key() == tk);
            assert(self.signatures@.drop_last() == pre.signatures@);
            assert forall|i: int| 0 <= i < self.transactions@.len() implies (
            #[trigger] self.transactions@[i]).key() == pre.transactions@[i].key() by {}
            assert forall|i: int, j: int|
                0 <= i < self.transactions@.len() && 0 <= j < self.transactions@.len() && i != j
                    implies #[trigger] self.transactions@[i].key()
                != #[trigger] self.transactions@[j].key() by {
                assert(pre.transactions@[i].key() != pre.transactions@[j].key());
            }
            assert forall|i: int| 0 <= i < self.transactions@.len() implies transaction_ok(
                #[trigger] self.transactions@[i],
            ) by {
                assert(transaction_ok(pre.transactions@[i]));
            }
            assert forall|i: int| 0 <= i < self.transactions@.len() implies (
            #[trigger] self.transactions@[i]).completed_signers == endorsements_of(
                self.signatures@,
                self.transactions@[i].key(),
            ) by {
                assert(pre.transactions@[i].completed_signers == endorsements_of(
                    pre.signatures@,
                    pre.transactions@[i].key(),
                ));
                if i != ti {
                    assert(pre.transactions@[i].key() != pre.transactions@[ti].key());
                }
            }
            assert forall|i: int| 0 <= i < self.signatures@.len() implies self.signature_ok(
                #[trigger] self.signatures@[i],
            ) by {
                let s = self.signatures@[i];
                assert(self.wallets == pre.wallets);
                if i < pre.signatures@.len() {
                    assert(pre.signatures@[i] == s);
                    assert(pre.signature_ok(s));
                    let k = pre.transaction_index(s.wallet_transaction_account@);
                    assert(pre.transactions@[k].key() == s.wallet_transaction_account@);
                    assert(self.transactions@[k].key() == s.wallet_transaction_account@);
                    assert(self.has_transaction(s.wallet_transaction_account@));
                } else {
                    assert(s.wallet_transaction_account@ == tk);
                    assert(self.transactions@[ti].key() == s.wallet_transaction_account@);
                    assert(self.has_transaction(s.wallet_transaction_account@));
                    assert(pre.has_wallet(ctx.wallet_account@));
                    assert(pre.wallet_index(ctx.wallet_account@) == w as int);
                    assert(pre.wallets@[w as int].users@.contains(ctx.signer));
                }
            }
            assert forall|i: int, j: int|
                0 <= i < self.signatures@.len() && 0 <= j < self.signatures@.len() && i != j
                    implies !(#[trigger] self.signatures@[i].signer
                == #[trigger] self.signatures@[j].signer
                && self.signatures@[i].wallet_transaction_account@
                == self.signatures@[j].wallet_transaction_account@) by {
                let n = pre.signatures@.len() as int;
                if i < n && j < n {
                    assert(!(pre.signatures@[i].signer == pre.signatures@[j].signer
                        && pre.signatures@[i].wallet_transaction_account@
                        == pre.signatures@[j].wallet_transaction_account@));
                } else if i < n {
                    assert(pre.signature_ok(pre.signatures@[i]));
                    if self.signatures@[i].signer == ctx.signer
                        && self.signatures@[i].wallet_transaction_account@ == tk {
                        assert(pre.signatures@[i].key() == (ctx.signer, ctx.wallet_account@, tk));
                    }
                } else if j < n {
                    assert(pre.signature_ok(pre.signatures@[j]));
                    if self.signatures@[j].signer == ctx.signer
                        && self.signatures@[j].wallet_transaction_account@ == tk {
                        assert(pre.signatures@[j].key() == (ctx.signer, ctx.wallet_account@, tk));
                    }
                }
            }
        }
        Ok(
            (
                TransactionSigned {
                    transaction: ctx.wallet_transaction_account.duplicate(),
                    wallet: ctx.wallet_account.duplicate(),
                    signer: ctx.signer,
                    transaction_signature: sig_id,
                },
                if quorum {
                    Some(
                        TransactionExecuted {
                            transaction: ctx.wallet_transaction_account.duplicate(),
                            wallet: ctx.wallet_account.duplicate(),
                        },
                    )
                } else {
                    None
                },
            ),
        )
    }
}

} // verus!
