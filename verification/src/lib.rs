//! On-ledger logic of a poll-and-vote program.
//!
//! Anyone may create a poll with a title and up to four options, and anyone
//! may cast one vote per poll. Every record lives at an address derived from
//! what the record stands for, so a record is found again, and checked,
//! without any index:
//!
//! * [`address`] derives the addresses;
//! * [`state`] holds the records and their byte layouts, on [`text`] and
//!   [`bytes`];
//! * [`instruction`] reads the instructions from their bytes;
//! * [`rules`] holds what the two transactions decide, on plain values;
//! * [`processor`] holds the transactions themselves, create-poll and
//!   cast-vote;
//! * [`laws`] proves what holds of them, whatever they are handed;
//! * [`error`] names what can go wrong.
pub mod address;
pub mod bytes;
pub mod error;
pub mod instruction;
pub mod laws;
pub mod processor;
pub mod rules;
pub mod state;
pub mod text;
