//! Bridge protocol core of an embedded HTTP front door.
//!
//! The front door accepts HTTP traffic, turns each request into length-prefixed
//! bridge frames, hands them to a co-located application runtime and streams the
//! answer back. This crate holds the verified part of that work. It decides and
//! computes; reading, writing and waiting are left to the caller, who reports
//! what happened and is told what to do next.
//!
//! - [`wire`], [`header`], [`request`], [`response`], [`request_reader`]: the
//!   codec of the frames, and [`round_trip`] with what holds between its two
//!   directions.
//! - [`frame_io`]: frames on a byte stream, written in slices and read in pieces.
//! - [`emitter`], [`receiver`], [`tunnel`]: the steps of one exchange, and
//!   [`streaming`] with what holds of a body that is cut into chunks.
//! - [`pool`], [`direct`], [`exchange`]: the bookkeeping of the two carriers and
//!   the rules for trying again and for starting a tunnel.
//! - [`http_glue`], [`config`], [`tls`], [`messages`]: what HTTP and the
//!   embedder see of all this.

pub mod limits;
pub mod error;
pub mod wire;
pub mod header;
pub mod request;
pub mod response;
pub mod request_reader;
pub mod round_trip;
pub mod frame_io;
pub mod emitter;
pub mod receiver;
pub mod tunnel;
pub mod streaming;
pub mod pool;
pub mod direct;
pub mod exchange;
pub mod http_glue;
pub mod config;
pub mod tls;
pub mod messages;
