//! One constructor for each kind of operation. Every constructor checks its
//! own arguments and nothing else.

pub mod allow_trust;
pub mod bump_sequence;
pub mod change_trust;
pub mod claim_claimable_balance;
pub mod create_account;
pub mod end_sponsoring_future_reserves;
pub mod manage_data;
pub mod manage_sell_offer;
pub mod payment;
pub mod set_options;
pub mod source;
