//! Ingestion core for the NWS EMWIN telecommunications gateway feeds.
//!
//! Several remote feeds each republish, on their own schedule, a compressed
//! batch of named products. This crate holds the rules by which those feeds are
//! polled and merged: what a conditional request carries and what its answer
//! means, how often a failed retrieval is retried, how a batch is listed and
//! unpacked, which product names count as new, and in what order products
//! reach the consumer. Every function here is verified against its contract;
//! timers, sockets and tasks belong to the caller.

pub mod archive;
pub mod clock;
pub mod cycle;
pub mod error;
pub mod fetch;
pub mod product;
pub mod state;
pub mod stream;
pub mod text;

pub use cycle::{Action, Event, FeedDescriptor, FetchCycle, Phase};
pub use error::{Error, HttpFailure};
pub use fetch::{ConditionalHeaders, Disposition, FetchState, Outcome, Reply};
pub use product::Product;
pub use state::StreamState;
pub use stream::{Fetchable, ImageSource, ImageStream, Source, Stream, TextSource, TextStream};
