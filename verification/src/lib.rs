//! A small discussion forum: sessions, CSRF tokens, topics, threads and the
//! HTML pages that show them.

pub mod auth;
pub mod config;
pub mod error;
pub mod handlers;
pub mod html;
pub mod seed;
pub mod slug;
pub mod text;
pub mod timestamp;
pub mod views;
