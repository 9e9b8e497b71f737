//! Runs actions from any thread on data that only one owner thread may touch.
//!
//! Threads submit one-shot actions to a [`bridge::BridgeHandle`], which queues
//! them in submission order; the owner thread takes them one at a time, runs
//! each on the payload held in a [`cell::OwnershipCell`], and records its
//! result, which the submitting thread then collects.

pub mod bridge;
pub mod bridge_laws;
pub mod cell;
pub mod drain;
pub mod fnbox;
