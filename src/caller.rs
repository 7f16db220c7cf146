use vstd::prelude::*;

use crate::method::{rpc_type_of, ApiMethod};
use crate::rpc::{field, is_object, is_str, is_str_array, JsonValue, Request};

verus! {

/// Whether `r` is a request for method `m`, answered as `m` declares.
pub open spec fn is_request_for(r: Request, m: ApiMethod) -> bool {
    r.method == m && r.rpc_type == rpc_type_of(m)
}

/// Whether `v` is the empty argument list.
pub open spec fn is_no_args(v: JsonValue) -> bool {
    is_str_array(v, Seq::empty())
}

fn request(method: ApiMethod, args: JsonValue, opts: Option<JsonValue>) -> (r: Request)
    ensures
        is_request_for(r, method),
        r.args == args,
        r.opts == opts,
{
    Request { method, rpc_type: method.rpc_type(), args, opts }
}

fn no_args() -> (r: JsonValue)
    ensures
        is_no_args(r),
{
    JsonValue::Array(Vec::new())
}

fn string_of(s: &str) -> (r: JsonValue)
    ensures
        is_str(r, s@),
{
    JsonValue::Str(String::from_str(s))
}

/// The `["partialReplication", "getSubset"]` request for `query`.
pub fn getsubset_req(query: JsonValue, opts: Option<JsonValue>) -> (r: Request)
    ensures
        is_request_for(r, ApiMethod::GetSubset),
        r.args == query,
        r.opts == opts,
{
    request(ApiMethod::GetSubset, query, opts)
}

/// The `["publish"]` request for the message `msg`.
pub fn publish_req(msg: JsonValue) -> (r: Request)
    ensures
        is_request_for(r, ApiMethod::Publish),
        r.args == msg,
        r.opts is None,
{
    request(ApiMethod::Publish, msg, None)
}

/// The `["friends", "block"]` request.
pub fn friends_block_req() -> (r: Request)
    ensures
        is_request_for(r, ApiMethod::FriendsBlock),
        is_no_args(r.args),
        r.opts is None,
{
    request(ApiMethod::FriendsBlock, no_args(), None)
}

/// The arguments `{"source": src_id, "dest": dest_id}`.
fn source_dest(src_id: &str, dest_id: &str) -> (r: JsonValue)
    ensures
        is_object(r, seq!["source"@, "dest"@]),
        is_str(field(r, 0), src_id@),
        is_str(field(r, 1), dest_id@),
{
    let fields = vec![
        (String::from_str("source"), string_of(src_id)),
        (String::from_str("dest"), string_of(dest_id)),
    ];
    JsonValue::Object(fields)
}

/// The `["friends", "isFollowing"]` request: does `src_id` follow `dest_id`?
pub fn friends_isfollowing_req(src_id: &str, dest_id: &str) -> (r: Request)
    ensures
        is_request_for(r, ApiMethod::FriendsIsFollowing),
        is_object(r.args, seq!["source"@, "dest"@]),
        is_str(field(r.args, 0), src_id@),
        is_str(field(r.args, 1), dest_id@),
        r.opts is None,
{
    request(ApiMethod::FriendsIsFollowing, source_dest(src_id, dest_id), None)
}

/// The `["friends", "isBlocking"]` request: does `src_id` block `dest_id`?
pub fn friends_isblocking_req(src_id: &str, dest_id: &str) -> (r: Request)
    ensures
        is_request_for(r, ApiMethod::FriendsIsBlocking),
        is_object(r.args, seq!["source"@, "dest"@]),
        is_str(field(r.args, 0), src_id@),
        is_str(field(r.args, 1), dest_id@),
        r.opts is None,
{
    request(ApiMethod::FriendsIsBlocking, source_dest(src_id, dest_id), None)
}

/// The `["friends", "follow"]` request: follow `ssb_id` when `state` holds,
/// stop following it otherwise.
pub fn friends_follow_req(ssb_id: &str, state: bool) -> (r: Request)
    ensures
        is_request_for(r, ApiMethod::FriendsFollow),
        is_str_array(r.args, seq![ssb_id@]),
        r.opts matches Some(o) && is_object(o, seq!["state"@]) && field(o, 0) == JsonValue::Bool(
            state,
        ),
{
    let args = JsonValue::Array(vec![string_of(ssb_id)]);
    let opts = JsonValue::Object(vec![(String::from_str("state"), JsonValue::Bool(state))]);
    request(ApiMethod::FriendsFollow, args, Some(opts))
}

/// The `["friends", "hops"]` request with the options `opts` as its arguments.
pub fn friends_hops_req(opts: JsonValue) -> (r: Request)
    ensures
        is_request_for(r, ApiMethod::FriendsHops),
        r.args == opts,
        r.opts is None,
{
    request(ApiMethod::FriendsHops, opts, None)
}

/// The `["invite", "create"]` request for an invite usable `uses` times.
pub fn invite_create_req(uses: i32) -> (r: Request)
    ensures
        is_request_for(r, ApiMethod::InviteCreate),
        is_object(r.args, seq!["uses"@]),
        field(r.args, 0) == JsonValue::Int(uses as i64),
        r.opts is None,
{
    let args = JsonValue::Object(vec![(String::from_str("uses"), JsonValue::Int(uses as i64))]);
    request(ApiMethod::InviteCreate, args, None)
}

/// The `["invite", "use"]` request for the invite `invite_link`.
pub fn invite_use_req(invite_link: &str) -> (r: Request)
    ensures
        is_request_for(r, ApiMethod::InviteUse),
        is_str_array(r.args, seq![invite_link@]),
        r.opts is None,
{
    request(ApiMethod::InviteUse, JsonValue::Array(vec![string_of(invite_link)]), None)
}

/// The `["whoami"]` request.
pub fn whoami_req() -> (r: Request)
    ensures
        is_request_for(r, ApiMethod::WhoAmI),
        is_no_args(r.args),
        r.opts is None,
{
    request(ApiMethod::WhoAmI, no_args(), None)
}

/// The `["get"]` request for the message `msg_id`.
pub fn get_req(msg_id: &str) -> (r: Request)
    ensures
        is_request_for(r, ApiMethod::Get),
        is_str(r.args, msg_id@),
        r.opts is None,
{
    request(ApiMethod::Get, string_of(msg_id), None)
}

/// The `["createHistoryStream"]` request with the arguments `args`.
pub fn create_history_stream_req(args: JsonValue) -> (r: Request)
    ensures
        is_request_for(r, ApiMethod::CreateHistoryStream),
        r.args == args,
        r.opts is None,
{
    request(ApiMethod::CreateHistoryStream, args, None)
}

/// The `["createFeedStream"]` request with the arguments `args`.
pub fn create_feed_stream_req(args: JsonValue) -> (r: Request)
    ensures
        is_request_for(r, ApiMethod::CreateFeedStream),
        r.args == args,
        r.opts is None,
{
    request(ApiMethod::CreateFeedStream, args, None)
}

/// The `["latest"]` request.
pub fn latest_req() -> (r: Request)
    ensures
        is_request_for(r, ApiMethod::Latest),
        is_no_args(r.args),
        r.opts is None,
{
    request(ApiMethod::Latest, no_args(), None)
}

/// The `["blobs", "get"]` request with the arguments `args`.
pub fn blobs_get_req(args: JsonValue) -> (r: Request)
    ensures
        is_request_for(r, ApiMethod::BlobsGet),
        r.args == args,
        r.opts is None,
{
    request(ApiMethod::BlobsGet, args, None)
}

/// The `["blobs", "createWants"]` request.
pub fn blob_create_wants_req() -> (r: Request)
    ensures
        is_request_for(r, ApiMethod::BlobsCreateWants),
        is_no_args(r.args),
        r.opts is None,
{
    request(ApiMethod::BlobsCreateWants, no_args(), None)
}

} // verus!
