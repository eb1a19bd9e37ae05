//! Client-side core of a Rest.li-style media upload pipeline: request
//! shaping and query tunneling, response normalization, upload
//! registration (direct and multipart), part-by-part byte-range plans,
//! finalize payloads, and availability polling.
use vstd::prelude::*;

pub mod asset_upload;
pub mod client;
pub mod command_tree;
pub mod errors;
pub mod flow;
pub mod headers;
pub mod json;
pub mod params;
pub mod strutil;
pub mod uploads;

verus! {

} // verus!
