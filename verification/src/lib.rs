//! A verified two-player chess rules engine together with the user-record
//! bookkeeping of a chat-bot moderator.
//!
//! The chess engine owns the board state, validates proposed moves against
//! per-piece movement constraints and path blocking, detects check, and
//! applies or rolls back moves. Its behaviour is pinned down by the
//! specifications on the public operations in [`chess`].

pub mod chess;
pub mod chess_domain_data;
pub mod member;
