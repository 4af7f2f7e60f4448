//! Client library for the Lettermint email service: request construction,
//! response and error interpretation, and webhook signature verification.

pub mod text;
pub mod strmap;
pub mod external;
pub mod error;
pub mod json;
pub mod webhook;
pub mod client;
pub mod endpoints;
pub mod email;
pub mod laws;

pub use client::{ApiClient, EmailClient, Lettermint};
pub use email::{EmailBuilder, EmailSettings};
pub use error::{Error, Result};
pub use webhook::Webhook;
