//! Notifications: text messages, calls and dynamic DNS events, announced on the channels
//! that a user configured.
//!
//! The crate decides what is sent where, and what an answer means. It reads the clocks of the
//! system, and does no other input or output: a delivery is a row of [`delivery::Step`]s.
//! Whoever drives it sends the requests, hands back what came of them, and asks for the next
//! step until the delivery is over.
//!
//! - [`sender`] forwards a notification to one channel after the other, follows up on
//!   answers, and keeps the access tokens of WeCom ([`token_cache`]).
//! - [`channels`] holds one module for each channel: its address, its payload, and what its
//!   configuration must have.
//! - [`templates`] fills the templates of notifications, with times as [`clock`] and
//!   [`calendar`] show them.
//! - [`reply`] judges the answers of the services.
//! - [`encoding`] and [`signing`] encode and sign; [`json`], [`json_layout`] and [`text`] say
//!   what the values, texts and strings of other crates hold.
//! - [`laws`], [`channel_laws`], [`reply_laws`], [`template_laws`], [`default_template_laws`],
//!   [`clock_laws`] and [`text_laws`] state what holds of all this together.
pub mod calendar;
pub mod channel_laws;
pub mod channels;
pub mod clock;
pub mod clock_laws;
pub mod config;
pub mod default_template_laws;
pub mod delivery;
pub mod encoding;
pub mod json;
pub mod json_layout;
pub mod laws;
pub mod models;
pub mod reply;
pub mod reply_laws;
pub mod sender;
pub mod signing;
pub mod template_laws;
pub mod templates;
pub mod text;
pub mod text_laws;
pub mod token_cache;
