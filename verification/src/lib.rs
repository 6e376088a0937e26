//! A line-oriented JSON-RPC protocol engine for a weather tool server.
//!
//! The crate verifies the protocol core: framing of newline-delimited
//! requests, the method dispatch table, the tool registry, the
//! notification rule that decides whether a reply is emitted at all,
//! and a JSON codec that decodes incoming lines and serializes
//! responses without loss.  The weather collaborator itself — HTTP and
//! report formatting — lives outside, behind the fetch plans the
//! dispatcher hands out.

pub mod json;
pub mod text;
pub mod parse;
pub mod conv;
pub mod decode;
pub mod protocol;
pub mod dispatch;
pub mod weather;
pub mod laws;
pub mod roundtrip;

pub use json::Json;
pub use json::JsonVal;
pub use protocol::{Request, Response, RpcError, ErrCode, LineStep};
pub use dispatch::{Outcome, FetchPlan, ForecastKind};
