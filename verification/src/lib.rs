//! A verified core for a small chat bot that surfaces "tomorrow's daily
//! fractals" from a game's public REST API.
//!
//! The library holds everything that can be stated and proved: the data
//! model for dailies and achievements, a canonical JSON codec for those
//! records, the fractal resolution pipeline (ID extraction, query
//! building, fixed-index category selection), and the stateless message
//! dispatcher. Network, file and chat-gateway I/O live outside, in the
//! surrounding application, which feeds this library plain values.

pub mod model;
pub mod errors;
pub mod text;
pub mod numbers;
pub mod codec;
pub mod pipeline;
pub mod dispatch;
