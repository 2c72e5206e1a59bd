pub mod text;
pub mod hashing;
pub mod amount;
pub mod crypto;
pub mod block;
pub mod validation;
pub mod ledger;
pub mod transaction;
pub mod receipts;
pub mod chain;
pub mod node;
pub mod practical;
pub mod validators;
pub mod addresses;
pub mod routing;
pub mod messages;
