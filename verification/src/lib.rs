//! Verified core of a prediction-market trading platform: the order books
//! and the matching engine, trade settlement, the live market feed, the
//! validation rules for requests, and the decisions the services make.
use vstd::prelude::*;

pub mod decimal;
pub mod error;
pub mod validation;
pub mod text;
pub mod model;
pub mod orderbook;
pub mod matching;
pub mod engine;
pub mod book_laws;
pub mod book_invariant;
pub mod fill_laws;
pub mod settlement;
pub mod feed;
pub mod feed_laws;
pub mod cdc;
pub mod util;
pub mod auth;
pub mod market;
pub mod wallet;
pub mod config;

verus! {

} // verus!
