//! Dispo: the rules of a Discord hand-cricket bot, as a verified library.
//!
//! The library holds every decision the bot makes: which players are
//! engaged in a match, how match options are read from a command's
//! arguments, how a duo match and a team match are set up, how the
//! scoreboard and the leaderboard are written, and how command errors
//! are answered.  The Discord, database and timer plumbing lives in `app/`.
pub mod commands;
pub mod duo;
pub mod emojis;
pub mod hc;
pub mod models;
pub mod options;
pub mod rank;
pub mod replies;
pub mod scoreboard;
pub mod status;
pub mod team;
pub mod text;
