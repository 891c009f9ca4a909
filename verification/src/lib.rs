//! Downward message passing from a hub chain to its recipient chains, and
//! what the chain keeps beside it.
//!
//! - [`dmp`]: a bounded mailbox per recipient, the acceptance check on what a
//!   recipient claims to have processed, pruning, and the cleanup when a
//!   recipient leaves.
//! - [`mqc`]: the hash chain over everything ever queued for a recipient.
//! - [`fee`]: the fixed-point delivery fee factor, which rises while a
//!   mailbox is congested and relaxes as it drains.
//! - [`staking`]: primitives of staking, among them the paging of the stake
//!   that backs a validator.
//! - [`stealth`]: the book of pending stealth transfers.

pub mod dmp;
pub mod fee;
pub mod mqc;
pub mod staking;
pub mod stealth;
