//! A small library for sending push notifications through a third-party
//! notification provider: it assembles a notification request from a message
//! and optional metadata, encodes it as a multipart form, sniffs the MIME
//! type of an optional attachment from its content bytes, parses the
//! provider's JSON response, and decides whether an incoming relay request
//! is authorized and small enough to forward.

pub mod form;
pub mod json;
pub mod notification;
pub mod numeric;
pub mod pushover;
pub mod relay;
pub mod response;
pub mod support;
pub mod wrapped;
