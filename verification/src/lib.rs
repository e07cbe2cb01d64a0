//! Spark collection for Umamusume career results: decoding of the game's
//! msgpack responses, spark decoding, submission planning and the JSON
//! payloads sent to the worker API.

pub mod msgpack;
pub mod text;
pub mod extract;
pub mod worker;
pub mod plugin;
pub mod il2cpp;
pub mod sdk;
pub mod laws;
