//! Core of a real-time chat service: a session and room broker that tracks
//! which users are connected, which conversation rooms they have joined,
//! and routes messages to the current members of a room, together with the
//! data model and the decision logic of the surrounding request handlers.

pub mod auth;
pub mod broker;
pub mod config;
pub mod error;
pub mod frame;
pub mod handlers;
pub mod models;
pub mod payload;
pub mod services;

pub use error::AppError;
