//! Reconstructs game sessions, players and combat events from the text log
//! of a multiplayer game server, one line at a time.
//!
//! A log is folded into a [`game::GameState`]: the sessions so far, the
//! start of the current one, the latest instant that was accepted, and the
//! name registry of the current session. Folding never changes the state it
//! is given; each step gives a new one.
//!
//! - [`instant`]: points in time, and the timestamp tokens of the log.
//! - [`names`]: the name registry, which brings the short name and the full
//!   name of a player together.
//! - [`player`], [`game`]: the data, each type with its mathematical view.
//! - [`handlers`]: the events of a session: map load, spawn, damage, down,
//!   revive, end of match.
//! - [`capture`], [`amount`]: taking messages apart.
//! - [`parse`]: from a line to the state after it.
//! - [`fold`]: from a log to the state after it.
//! - [`stats`]: lifetime totals over all sessions.
//! - [`laws`]: what holds of the folding, whatever the log.
//! - [`strmap`], [`strset`], [`text`]: collections keyed by strings.
//!
//! Hit points are whole numbers of millionths of a point. Counters are
//! `u32`; an event that a full counter cannot count is an error, as is an
//! event that names a player or a session that is not there.

pub mod amount;
pub mod capture;
pub mod error;
pub mod fold;
pub mod game;
pub mod handlers;
pub mod instant;
pub mod laws;
pub mod names;
pub mod parse;
pub mod player;
pub mod stats;
pub mod strmap;
pub mod strset;
pub mod text;
