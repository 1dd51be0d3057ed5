//! Core of a Tendermint-style Byzantine-fault-tolerant consensus engine:
//! the per-round state machine, the vote and proposal keepers, the proposer
//! selection and the driver that sequences them.

pub mod driver;
pub mod hash;
pub mod input;
pub mod output;
pub mod proposal_keeper;
pub mod proposer;
pub mod round;
pub mod state;
pub mod state_machine;
pub mod transition;
pub mod types;
pub mod validator_set;
pub mod value_builder;
pub mod vote_keeper;
