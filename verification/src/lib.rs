//! Verified core of a UDP-to-web telemetry relay.
//!
//! Three components make up the core: a broadcast hub that fans text payloads
//! out to pools of subscribers ([`hub`]), a UDP ingestion pipeline that
//! decodes datagrams into measurement records and batches them over a fixed
//! time window ([`pipeline`]), and a windowed throughput estimator used for
//! diagnostics ([`rate`]). The measurement codec and the JSON rendering of
//! the directory are outside collaborators, held to exact contracts at the
//! boundary ([`wire`], [`json`]).
//!
//! The hub and the pipeline are written as step functions over plain state:
//! the surrounding runtime owns the sockets, clocks and subscriber channels,
//! performs one action at a time, and hands the outcome back to the next
//! step. Everything that decides — membership, batching, windowing, socket
//! lifecycle, throughput accounting — is here, with contracts.

pub mod hub;
pub mod json;
pub mod pipeline;
pub mod rate;
pub mod wire;
