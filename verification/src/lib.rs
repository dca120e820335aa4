//! Studio Commons: community-owned creative infrastructure whose money rules
//! (costs first, exact conservation, earned expansion) are stated as contracts
//! and proved.

pub mod utils;
pub mod compliance;
pub mod membership;
pub mod economics;
pub mod governance;
pub mod network;
pub mod payments;
pub mod production;
pub mod cci;
pub mod treasury;
pub mod analytics;
