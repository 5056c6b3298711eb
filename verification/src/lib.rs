//! A tracker of students and of the assets that they hold inside a rollup.

pub mod abi;
pub mod advance;
pub mod asking;
pub mod basics;
pub mod decision;
pub mod document;
pub mod dotenv;
pub mod hex;
pub mod input;
pub mod inspect;
pub mod laws;
pub mod ledger;
pub mod message;
pub mod request;
pub mod round_trips;
pub mod showing;
pub mod state;
pub mod statement;
pub mod student;
pub mod telling;
pub mod text;
pub mod verdicts;
