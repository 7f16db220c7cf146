use ssb_api::{ApiMethod, Body, JsonValue, RpcType};

const ALL: [ApiMethod; 16] = [
    ApiMethod::GetSubset,
    ApiMethod::Publish,
    ApiMethod::FriendsFollow,
    ApiMethod::FriendsBlock,
    ApiMethod::FriendsIsFollowing,
    ApiMethod::FriendsIsBlocking,
    ApiMethod::FriendsHops,
    ApiMethod::InviteCreate,
    ApiMethod::InviteUse,
    ApiMethod::WhoAmI,
    ApiMethod::Get,
    ApiMethod::CreateHistoryStream,
    ApiMethod::CreateFeedStream,
    ApiMethod::Latest,
    ApiMethod::BlobsGet,
    ApiMethod::BlobsCreateWants,
];

#[test]
fn every_selector_resolves_back_to_its_method() {
    for m in ALL {
        assert_eq!(ApiMethod::from_selector(m.selector()), Some(m));
    }
}

#[test]
fn selectors_are_pairwise_distinct() {
    for (i, a) in ALL.iter().enumerate() {
        for b in ALL.iter().skip(i + 1) {
            assert_ne!(a.selector(), b.selector());
        }
    }
}

#[test]
fn friends_block_selector_round_trip() {
    assert_eq!(ApiMethod::FriendsBlock.selector(), &["friends", "block"]);
    assert_eq!(
        ApiMethod::from_selector(&["friends", "block"]),
        Some(ApiMethod::FriendsBlock)
    );
}

#[test]
fn known_selectors() {
    assert_eq!(
        ApiMethod::GetSubset.selector(),
        &["partialReplication", "getSubset"]
    );
    assert_eq!(ApiMethod::Publish.selector(), &["publish"]);
    assert_eq!(ApiMethod::BlobsCreateWants.selector(), &["blobs", "createWants"]);
    assert_eq!(ApiMethod::from_selector(&["whoami"]), Some(ApiMethod::WhoAmI));
    assert_eq!(
        ApiMethod::from_selector(&["createHistoryStream"]),
        Some(ApiMethod::CreateHistoryStream)
    );
}

#[test]
fn unknown_selectors_resolve_to_none() {
    assert_eq!(ApiMethod::from_selector(&[]), None);
    assert_eq!(ApiMethod::from_selector(&["friends"]), None);
    assert_eq!(ApiMethod::from_selector(&["friends", "block", "extra"]), None);
    assert_eq!(ApiMethod::from_selector(&["Friends", "block"]), None);
    assert_eq!(ApiMethod::from_selector(&["friends.block"]), None);
    assert_eq!(ApiMethod::from_selector(&["friends", "get"]), None);
    assert_eq!(ApiMethod::from_selector(&["blobs", "block"]), None);
    assert_eq!(ApiMethod::from_selector(&["publish", ""]), None);
}

#[test]
fn rpc_body_is_classified_by_its_name() {
    let body = Body {
        name: vec!["invite".to_string(), "use".to_string()],
        rpc_type: RpcType::Async,
        args: JsonValue::Null,
    };
    assert_eq!(ApiMethod::from_rpc_body(&body), Some(ApiMethod::InviteUse));
    let unknown = Body {
        name: vec!["invite".to_string(), "revoke".to_string()],
        rpc_type: RpcType::Async,
        args: JsonValue::Null,
    };
    assert_eq!(ApiMethod::from_rpc_body(&unknown), None);
}

#[test]
fn call_kinds_are_fixed_per_method() {
    assert_eq!(ApiMethod::GetSubset.rpc_type(), RpcType::Source);
    assert_eq!(ApiMethod::Publish.rpc_type(), RpcType::Async);
    assert_eq!(ApiMethod::FriendsHops.rpc_type(), RpcType::Source);
    assert_eq!(ApiMethod::BlobsGet.rpc_type(), RpcType::Source);
    assert_eq!(ApiMethod::WhoAmI.rpc_type(), RpcType::Async);
}

#[test]
fn string_equality_is_exact() {
    assert!(ssb_api::str_eq("friends", "friends"));
    assert!(!ssb_api::str_eq("friends", "friend"));
    assert!(!ssb_api::str_eq("a", "b"));
    assert!(ssb_api::str_eq("", ""));
}
