//! Live player-to-hero assignments of a match in progress.
//!
//! A run asks the match API where the match is broadcast ([`network`]),
//! opens the broadcast with bounded retry ([`network::Connector`]), feeds
//! every entity report of the stream to the [`visitor::MatchDataVisitor`],
//! which keeps one record per player, lets the [`poller::Poller`] decide
//! after each packet whether the scan is over, and at the end splits the
//! records into the two teams ([`assemble`]). Reading the network and
//! decoding the stream are the caller's part: the library takes what was
//! read as plain values and says what to do next. Where the API is reached
//! through the platform's own client, [`platform`] reads what that client
//! left behind.

pub mod assemble;
pub mod constants;
pub mod display;
pub mod error;
pub mod network;
pub mod platform;
pub mod poller;
pub mod text;
pub mod types;
pub mod utils;
pub mod visitor;
