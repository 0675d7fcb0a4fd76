use vstd::prelude::*;

verus! {

/// Largest number of members a wallet may have.
pub const MAX_USERS: usize = 5;

/// Largest length, in characters, of a wallet or proposal name.
pub const MAX_NAME_LEN: usize = 32;

/// An already-authenticated participant (a signer, a member, a receiver).
#[derive(Clone, Copy, Debug, PartialEq, Eq, Structural)]
pub struct Identity(pub u64);

/// The derived key of a wallet, in the wallet namespace: its creator and its
/// name. It is the wallet's id.
#[derive(Clone, Debug, PartialEq, Eq)]
pub struct WalletId {
    pub owner: Identity,
    pub name: String,
}

/// The derived key of a proposal, in the proposal namespace: its creator, its
/// wallet, its receiver and its name. It is the proposal's id.
#[derive(Clone, Debug, PartialEq, Eq)]
pub struct TransactionId {
    pub created_by: Identity,
    pub wallet: WalletId,
    pub receiver: Identity,
    pub name: String,
}

/// The derived key of an endorsement, in the endorsement namespace: its
/// signer, its wallet and its proposal. It is the endorsement's id.
#[derive(Clone, Debug, PartialEq, Eq)]
pub struct SignatureId {
    pub signer: Identity,
    pub wallet: WalletId,
    pub transaction: TransactionId,
}

/// A wallet key as a mathematical value.
pub type WalletKey = (Identity, Seq<char>);

/// A proposal key as a mathematical value.
pub type TransactionKey = (Identity, WalletKey, Identity, Seq<char>);

/// An endorsement key as a mathematical value.
pub type SignatureKey = (Identity, WalletKey, TransactionKey);

impl View for WalletId {
    type V = WalletKey;

    open spec fn view(&self) -> WalletKey {
        (self.owner, self.name@)
    }
}

impl View for TransactionId {
    type V = TransactionKey;

    open spec fn view(&self) -> TransactionKey {
        (self.created_by, self.wallet@, self.receiver, self.name@)
    }
}

impl View for SignatureId {
    type V = SignatureKey;

    open spec fn view(&self) -> SignatureKey {
        (self.signer, self.wallet@, self.transaction@)
    }
}

/// Derives the key of the wallet that `owner` names `name`.
pub fn derive_wallet_id(owner: Identity, name: &String) -> (r: WalletId)
    ensures
        r@ == (owner, name@),
        r == (WalletId { owner, name: *name }),
{
    WalletId { owner, name: name.clone() }
}

/// Derives the key of the proposal that `created_by` names `name`, paying
/// `receiver` out of `wallet`.
pub fn derive_transaction_id(
    created_by: Identity,
    wallet: &WalletId,
    receiver: Identity,
    name: &String,
) -> (r: TransactionId)
    ensures
        r@ == (created_by, wallet@, receiver, name@),
        r == (TransactionId { created_by, wallet: *wallet, receiver, name: *name }),
{
    TransactionId { created_by, wallet: wallet.duplicate(), receiver, name: name.clone() }
}

/// Derives the key of `signer`'s endorsement of `transaction` in `wallet`.
pub fn derive_signature_id(
    signer: Identity,
    wallet: &WalletId,
    transaction: &TransactionId,
) -> (r: SignatureId)
    ensures
        r@ == (signer, wallet@, transaction@),
        r == (SignatureId { signer, wallet: *wallet, transaction: *transaction }),
{
    SignatureId { signer, wallet: wallet.duplicate(), transaction: transaction.duplicate() }
}

impl WalletId {
    /// A copy of the key.
    pub fn duplicate(&self) -> (r: WalletId)
        ensures
            r == *self,
    {
        WalletId { owner: self.owner, name: self.name.clone() }
    }

    /// Whether two keys are the same.
    pub fn same(&self, o: &WalletId) -> (r: bool)
        ensures
            r == (self@ == o@),
    {
        self.owner == o.owner && self.name == o.name
    }
}

impl TransactionId {
    /// A copy of the key.
    pub fn duplicate(&self) -> (r: TransactionId)
        ensures
            r == *self,
    {
        TransactionId {
            created_by: self.created_by,
            wallet: self.wallet.duplicate(),
            receiver: self.receiver,
            name: self.name.clone(),
        }
    }

    /// Whether two keys are the same.
    pub fn same(&self, o: &TransactionId) -> (r: bool)
        ensures
            r == (self@ == o@),
    {
        self.created_by == o.created_by && self.wallet.same(&o.wallet) && self.receiver
            == o.receiver && self.name == o.name
    }
}

/// Accounts taking part in wallet creation.
#[derive(Clone, Copy, Debug, PartialEq, Eq, Structural)]
pub struct CreateWallet {
    pub signer: Identity,
}

/// Accounts taking part in proposing a transfer.
#[derive(Clone, Debug, PartialEq, Eq)]
pub struct CreateTransaction {
    pub wallet_account: WalletId,
    pub reciever: Identity,
    pub signer: Identity,
}

/// Accounts taking part in endorsing a proposal.
#[derive(Clone, Debug, PartialEq, Eq)]
pub struct SignTheTransaction {
    pub wallet_account: WalletId,
    pub wallet_transaction_account: TransactionId,
    pub signer: Identity,
    pub reciever: Identity,
}

/// Accounts taking part in a deposit into a wallet.
#[derive(Clone, Debug, PartialEq, Eq)]
pub struct TransferSolToWallet {
    pub signer: Identity,
    pub wallet_account: WalletId,
}

/// A wallet: a fixed member set and the number of endorsements a transfer needs.
#[derive(Debug)]
pub struct WalletAccount {
    pub name: String,
    pub created_by: Identity,
    pub users: Vec<Identity>,
    pub threshold: u64,
}

/// A proposed transfer out of a wallet.
#[derive(Debug)]
pub struct WalletTransaction {
    pub name: String,
    pub wallet_account: WalletId,
    pub reciever: Identity,
    pub amount: u64,
    /// The wallet's threshold, copied when the proposal was made.
    pub threshold: u64,
    /// The number of endorsements recorded for this proposal.
    pub completed_signers: u64,
    pub time_stamp: u64,
    pub created_by: Identity,
    /// Set once, when the transfer is carried out.
    pub executed: bool,
}

/// One member's endorsement of one proposal.
#[derive(Debug)]
pub struct TransactionSignature {
    pub signer: Identity,
    pub wallet_account: WalletId,
    pub wallet_transaction_account: TransactionId,
    pub timestamp: u64,
}

impl WalletAccount {
    /// The wallet's derived key.
    pub open spec fn key(self) -> WalletKey {
        (self.created_by, self.name@)
    }
}

impl WalletTransaction {
    /// The proposal's derived key.
    pub open spec fn key(self) -> TransactionKey {
        (self.created_by, self.wallet_account@, self.reciever, self.name@)
    }
}

impl TransactionSignature {
    /// The endorsement's derived key.
    pub open spec fn key(self) -> SignatureKey {
        (self.signer, self.wallet_account@, self.wallet_transaction_account@)
    }
}

/// Emitted when a wallet is created.
#[derive(Debug)]
pub struct WalletCreated {
    pub wallet: WalletId,
    pub users: Vec<Identity>,
    pub threshold: u64,
}

/// Emitted when a transfer is proposed.
#[derive(Debug)]
pub struct TransactionCreated {
    pub transaction: TransactionId,
    pub wallet: WalletId,
}

/// Emitted when a member endorses a proposal.
#[derive(Debug)]
pub struct TransactionSigned {
    pub transaction: TransactionId,
    pub wallet: WalletId,
    pub signer: Identity,
    pub transaction_signature: SignatureId,
}

/// Emitted when a proposal's transfer is carried out.
#[derive(Debug)]
pub struct TransactionExecuted {
    pub transaction: TransactionId,
    pub wallet: WalletId,
}

/// Why an operation was refused. A refused operation changes nothing.
#[derive(Clone, Copy, Debug, PartialEq, Eq, Structural)]
pub enum Errors {
    /// The member list is empty, longer than `MAX_USERS`, or repeats a member.
    InvalidUsers,
    /// The threshold is zero or larger than the number of members.
    InvalidThreshold,
    /// The creator of a wallet is not among its members.
    SignerNotIncluded,
    /// A transfer or deposit of zero.
    InvalidAmount,
    /// The paying side does not hold the amount.
    InsufficientBalance,
    /// The caller is not a member of the wallet.
    UnauthorizedUser,
    /// The proposal belongs to another wallet.
    MismatchedWalletAndTxn,
    /// The receiver named at quorum differs from the proposal's receiver.
    InvalidReceiver,
    /// A record with the same derived key exists already.
    AlreadyExists,
    /// No wallet or proposal under the given id.
    NotFound,
    /// A balance or counter would exceed `u64::MAX`.
    Overflow,
    /// A wallet or proposal name longer than `MAX_NAME_LEN` characters.
    InvalidName,
}

impl Errors {
    /// The text of the error's message.
    pub open spec fn message_text(self) -> Seq<char> {
        match self {
            Errors::InvalidUsers => "Please enter a valid number of users"@,
            Errors::InvalidThreshold => "Please provide a valid threshold"@,
            Errors::SignerNotIncluded => "Signer must be included in the users"@,
            Errors::InvalidAmount => "Amount must be greater than 0"@,
            Errors::InsufficientBalance => "You have insufficient balance"@,
            Errors::UnauthorizedUser => "Unauthorized user"@,
            Errors::MismatchedWalletAndTxn => "This transaction is not related to this wallet"@,
            Errors::InvalidReceiver => {
                "Receiver must be the same as in the transaction that was proposed"@
            },
            Errors::AlreadyExists => "An account with this key exists already"@,
            Errors::NotFound => "No such account"@,
            Errors::Overflow => "Arithmetic overflow"@,
            Errors::InvalidName => "Name must be at most 32 characters long"@,
        }
    }

    /// A human-readable message for the error.
    pub fn message(&self) -> (r: String)
        ensures
            r@ == self.message_text(),
    {
        match self {
            Errors::InvalidUsers => String::from_str("Please enter a valid number of users"),
            Errors::InvalidThreshold => String::from_str("Please provide a valid threshold"),
            Errors::SignerNotIncluded => String::from_str("Signer must be included in the users"),
            Errors::InvalidAmount => String::from_str("Amount must be greater than 0"),
            Errors::InsufficientBalance => String::from_str("You have insufficient balance"),
            Errors::UnauthorizedUser => String::from_str("Unauthorized user"),
            Errors::MismatchedWalletAndTxn => String::from_str(
                "This transaction is not related to this wallet",
            ),
            Errors::InvalidReceiver => String::from_str(
                "Receiver must be the same as in the transaction that was proposed",
            ),
            Errors::AlreadyExists => String::from_str("An account with this key exists already"),
            Errors::NotFound => String::from_str("No such account"),
            Errors::Overflow => String::from_str("Arithmetic overflow"),
            Errors::InvalidName => String::from_str("Name must be at most 32 characters long"),
        }
    }
}

} // verus!
