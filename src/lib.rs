//! Selector-addressed remote procedure calls over a multiplexed RPC transport.
//!
//! The library holds the closed catalogue of remote methods and their selector
//! paths, the construction of request and response frames, and the chunked
//! streaming of binary payloads. Sending frames is left to the caller, which
//! hands each outcome back to the library where a decision depends on it.
use vstd::prelude::*;

pub mod caller;
pub mod method;
pub mod response;
pub mod rpc;
pub mod stream;

pub use caller::{
    blob_create_wants_req, blobs_get_req, create_feed_stream_req, create_history_stream_req,
    friends_block_req, friends_follow_req, friends_hops_req, friends_isblocking_req,
    friends_isfollowing_req, get_req, getsubset_req, invite_create_req, invite_use_req, latest_req,
    publish_req, whoami_req,
};
pub use method::{str_eq, ApiMethod};
pub use response::{blobs_get_res, feed_res, get_res, publish_res, whoami_res, whoami_res_from_json};
pub use rpc::{ApiError, Body, BodyType, JsonValue, Request, RequestNo, Response, RpcType, TransportError};
pub use stream::{split_chunks, BlobStream, StreamFrame, StreamState, MAX_RPC_BODY_LEN};
