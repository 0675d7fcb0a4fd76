//! A threshold multi-signature wallet: wallets owned jointly by a fixed set of
//! members release funds to a recipient once a quorum of members has endorsed
//! the proposed transfer.

pub mod laws;
pub mod program;
pub mod types;

pub use program::{valid_wallet, WalletProgram};
pub use types::{
    derive_signature_id, derive_transaction_id, derive_wallet_id, CreateTransaction,
    CreateWallet, Errors, Identity, SignTheTransaction, SignatureId, SignatureKey,
    TransactionCreated, TransactionExecuted, TransactionId, TransactionKey, TransactionSignature,
    TransactionSigned, TransferSolToWallet, WalletAccount, WalletCreated, WalletId, WalletKey,
    WalletTransaction, MAX_NAME_LEN, MAX_USERS,
};
