pub mod bytes;
pub mod crypto;
pub mod time;
pub mod slip;
pub mod transaction;
pub mod merkle;
pub mod block;
pub mod burnfee;
