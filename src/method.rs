use vstd::prelude::*;

use crate::rpc::{names_of, Body, RpcType};

verus! {

/// The closed catalogue of remote methods.
#[derive(Debug, Clone, Copy, PartialEq, Eq, Structural)]
pub enum ApiMethod {
    GetSubset,
    Publish,
    FriendsFollow,
    FriendsBlock,
    FriendsIsFollowing,
    FriendsIsBlocking,
    FriendsHops,
    InviteCreate,
    InviteUse,
    WhoAmI,
    Get,
    CreateHistoryStream,
    CreateFeedStream,
    Latest,
    BlobsGet,
    BlobsCreateWants,
}

/// The selector path of a method, segment by segment.
pub open spec fn selector_of(m: ApiMethod) -> Seq<Seq<char>> {
    match m {
        ApiMethod::GetSubset => seq!["partialReplication"@, "getSubset"@],
        ApiMethod::Publish => seq!["publish"@],
        ApiMethod::FriendsFollow => seq!["friends"@, "follow"@],
        ApiMethod::FriendsBlock => seq!["friends"@, "block"@],
        ApiMethod::FriendsIsFollowing => seq!["friends"@, "isFollowing"@],
        ApiMethod::FriendsIsBlocking => seq!["friends"@, "isBlocking"@],
        ApiMethod::FriendsHops => seq!["friends"@, "hops"@],
        ApiMethod::InviteCreate => seq!["invite"@, "create"@],
        ApiMethod::InviteUse => seq!["invite"@, "use"@],
        ApiMethod::WhoAmI => seq!["whoami"@],
        ApiMethod::Get => seq!["get"@],
        ApiMethod::CreateHistoryStream => seq!["createHistoryStream"@],
        ApiMethod::CreateFeedStream => seq!["createFeedStream"@],
        ApiMethod::Latest => seq!["latest"@],
        ApiMethod::BlobsGet => seq!["blobs"@, "get"@],
        ApiMethod::BlobsCreateWants => seq!["blobs"@, "createWants"@],
    }
}

/// How each method is answered: the streaming methods with `Source`, the
/// others with a single response.
pub open spec fn rpc_type_of(m: ApiMethod) -> RpcType {
    match m {
        ApiMethod::GetSubset => RpcType::Source,
        ApiMethod::FriendsHops => RpcType::Source,
        ApiMethod::CreateHistoryStream => RpcType::Source,
        ApiMethod::CreateFeedStream => RpcType::Source,
        ApiMethod::BlobsGet => RpcType::Source,
        ApiMethod::BlobsCreateWants => RpcType::Source,
        _ => RpcType::Async,
    }
}

/// Whether some method of the catalogue has the selector `s`.
pub open spec fn is_registered(s: Seq<Seq<char>>) -> bool {
    exists|m: ApiMethod| selector_of(m) == s
}

/// The method whose selector is `s`, if there is one.
pub open spec fn method_of(s: Seq<Seq<char>>) -> Option<ApiMethod> {
    if is_registered(s) {
        Some(choose|m: ApiMethod| selector_of(m) == s)
    } else {
        None
    }
}

/// The segments of an executable selector, as character sequences.
pub open spec fn segments_of(s: Seq<&str>) -> Seq<Seq<char>> {
    s.map_values(|x: &str| x@)
}

/// A few measurements of a selector that already tell the methods apart:
/// its number of segments, the length and first character of its first
/// segment, and the length of its last segment.
pub open spec fn fingerprint(s: Seq<Seq<char>>) -> (int, int, char, int) {
    (s.len() as int, s[0].len() as int, s[0][0], s[s.len() - 1].len() as int)
}

proof fn lemma_fingerprint(m: ApiMethod)
    ensures
        fingerprint(selector_of(m)) == match m {
            ApiMethod::GetSubset => (2int, 18int, 'p', 9int),
            ApiMethod::Publish => (1, 7, 'p', 7),
            ApiMethod::FriendsFollow => (2, 7, 'f', 6),
            ApiMethod::FriendsBlock => (2, 7, 'f', 5),
            ApiMethod::FriendsIsFollowing => (2, 7, 'f', 11),
            ApiMethod::FriendsIsBlocking => (2, 7, 'f', 10),
            ApiMethod::FriendsHops => (2, 7, 'f', 4),
            ApiMethod::InviteCreate => (2, 6, 'i', 6),
            ApiMethod::InviteUse => (2, 6, 'i', 3),
            ApiMethod::WhoAmI => (1, 6, 'w', 6),
            ApiMethod::Get => (1, 3, 'g', 3),
            ApiMethod::CreateHistoryStream => (1, 19, 'c', 19),
            ApiMethod::CreateFeedStream => (1, 16, 'c', 16),
            ApiMethod::Latest => (1, 6, 'l', 6),
            ApiMethod::BlobsGet => (2, 5, 'b', 3),
            ApiMethod::BlobsCreateWants => (2, 5, 'b', 11),
        },
{
    reveal_strlit("partialReplication");
    reveal_strlit("getSubset");
    reveal_strlit("publish");
    reveal_strlit("friends");
    reveal_strlit("follow");
    reveal_strlit("block");
    reveal_strlit("isFollowing");
    reveal_strlit("isBlocking");
    reveal_strlit("hops");
    reveal_strlit("invite");
    reveal_strlit("create");
    reveal_strlit("use");
    reveal_strlit("whoami");
    reveal_strlit("get");
    reveal_strlit("createHistoryStream");
    reveal_strlit("createFeedStream");
    reveal_strlit("latest");
    reveal_strlit("blobs");
    reveal_strlit("createWants");
}

/// No two methods share a selector.
pub proof fn lemma_selector_injective(a: ApiMethod, b: ApiMethod)
    ensures
        selector_of(a) == selector_of(b) ==> a == b,
{
    lemma_fingerprint(a);
    lemma_fingerprint(b);
}

/// Resolving the selector of any method gives that method back.
pub proof fn lemma_selector_round_trip(m: ApiMethod)
    ensures
        method_of(selector_of(m)) == Some(m),
{
    assert(is_registered(selector_of(m)));
    let c = choose|c: ApiMethod| selector_of(c) == selector_of(m);
    lemma_selector_injective(c, m);
}

/// Character-wise equality of two strings.
pub fn str_eq(a: &str, b: &str) -> (r: bool)
    ensures
        r == (a@ == b@),
{
    let n = a.unicode_len();
    if n != b.unicode_len() {
        return false;
    }
    let mut i: usize = 0;
    while i < n
        invariant
            n == a@.len(),
            n == b@.len(),
            i <= n,
            forall|j: int| 0 <= j < i ==> a@[j] == b@[j],
        decreases n - i,
    {
        if a.get_char(i) != b.get_char(i) {
            return false;
        }
        i += 1;
    }
    assert(a@ =~= b@);
    true
}

proof fn lemma_resolves(m: ApiMethod, s: Seq<Seq<char>>)
    requires
        s =~= selector_of(m),
    ensures
        method_of(s) == Some(m),
{
    lemma_selector_round_trip(m);
}

/// A selector that differs from every method's selector in its length, its
/// first segment or its second one resolves to no method.
proof fn lemma_no_match(v: Seq<Seq<char>>)
    requires
        v.len() == 1 ==> {
            &&& v[0] != "publish"@
            &&& v[0] != "whoami"@
            &&& v[0] != "get"@
            &&& v[0] != "createHistoryStream"@
            &&& v[0] != "createFeedStream"@
            &&& v[0] != "latest"@
        },
        v.len() == 2 ==> {
            &&& !(v[0] == "partialReplication"@ && v[1] == "getSubset"@)
            &&& !(v[0] == "friends"@ && v[1] == "follow"@)
            &&& !(v[0] == "friends"@ && v[1] == "block"@)
            &&& !(v[0] == "friends"@ && v[1] == "isFollowing"@)
            &&& !(v[0] == "friends"@ && v[1] == "isBlocking"@)
            &&& !(v[0] == "friends"@ && v[1] == "hops"@)
            &&& !(v[0] == "invite"@ && v[1] == "create"@)
            &&& !(v[0] == "invite"@ && v[1] == "use"@)
            &&& !(v[0] == "blobs"@ && v[1] == "get"@)
            &&& !(v[0] == "blobs"@ && v[1] == "createWants"@)
        },
    ensures
        method_of(v) == None::<ApiMethod>,
{
    assert forall|m: ApiMethod| selector_of(m) != v by {
        if selector_of(m) == v {
            assert(selector_of(m)[0] == v[0]);
            assert(selector_of(m).len() == 2 ==> selector_of(m)[1] == v[1]);
        }
    }
}

impl ApiMethod {
    /// The selector path of this method.
    pub fn selector(&self) -> (r: &'static [&'static str])
        ensures
            segments_of(r@) == selector_of(*self),
    {
        let r: &'static [&'static str] = match self {
            ApiMethod::GetSubset => &["partialReplication", "getSubset"],
            ApiMethod::Publish => &["publish"],
            ApiMethod::FriendsFollow => &["friends", "follow"],
            ApiMethod::FriendsBlock => &["friends", "block"],
            ApiMethod::FriendsIsFollowing => &["friends", "isFollowing"],
            ApiMethod::FriendsIsBlocking => &["friends", "isBlocking"],
            ApiMethod::FriendsHops => &["friends", "hops"],
            ApiMethod::InviteCreate => &["invite", "create"],
            ApiMethod::InviteUse => &["invite", "use"],
            ApiMethod::WhoAmI => &["whoami"],
            ApiMethod::Get => &["get"],
            ApiMethod::CreateHistoryStream => &["createHistoryStream"],
            ApiMethod::CreateFeedStream => &["createFeedStream"],
            ApiMethod::Latest => &["latest"],
            ApiMethod::BlobsGet => &["blobs", "get"],
            ApiMethod::BlobsCreateWants => &["blobs", "createWants"],
        };
        assert(segments_of(r@) =~= selector_of(*self));
        r
    }

    /// How this method is answered.
    pub fn rpc_type(&self) -> (r: RpcType)
        ensures
            r == rpc_type_of(*self),
    {
        match self {
            ApiMethod::GetSubset => RpcType::Source,
            ApiMethod::FriendsHops => RpcType::Source,
            ApiMethod::CreateHistoryStream => RpcType::Source,
            ApiMethod::CreateFeedStream => RpcType::Source,
            ApiMethod::BlobsGet => RpcType::Source,
            ApiMethod::BlobsCreateWants => RpcType::Source,
            _ => RpcType::Async,
        }
    }

    /// The method whose selector is `s`, matched segment by segment.
    pub fn from_selector(s: &[&str]) -> (r: Option<Self>)
        ensures
            r == method_of(segments_of(s@)),
    {
        let found = if s.len() == 1 {
            let a = s[0];
            if str_eq(a, "publish") {
                Some(ApiMethod::Publish)
            } else if str_eq(a, "whoami") {
                Some(ApiMethod::WhoAmI)
            } else if str_eq(a, "get") {
                Some(ApiMethod::Get)
            } else if str_eq(a, "createHistoryStream") {
                Some(ApiMethod::CreateHistoryStream)
            } else if str_eq(a, "createFeedStream") {
                Some(ApiMethod::CreateFeedStream)
            } else if str_eq(a, "latest") {
                Some(ApiMethod::Latest)
            } else {
                proof {
                    lemma_no_match(segments_of(s@));
                }
                None
            }
        } else if s.len() == 2 {
            let a = s[0];
            let b = s[1];
            if str_eq(a, "partialReplication") && str_eq(b, "getSubset") {
                Some(ApiMethod::GetSubset)
            } else if str_eq(a, "friends") && str_eq(b, "follow") {
                Some(ApiMethod::FriendsFollow)
            } else if str_eq(a, "friends") && str_eq(b, "block") {
                Some(ApiMethod::FriendsBlock)
            } else if str_eq(a, "friends") && str_eq(b, "isFollowing") {
                Some(ApiMethod::FriendsIsFollowing)
            } else if str_eq(a, "friends") && str_eq(b, "isBlocking") {
                Some(ApiMethod::FriendsIsBlocking)
            } else if str_eq(a, "friends") && str_eq(b, "hops") {
                Some(ApiMethod::FriendsHops)
            } else if str_eq(a, "invite") && str_eq(b, "create") {
                Some(ApiMethod::InviteCreate)
            } else if str_eq(a, "invite") && str_eq(b, "use") {
                Some(ApiMethod::InviteUse)
            } else if str_eq(a, "blobs") && str_eq(b, "get") {
                Some(ApiMethod::BlobsGet)
            } else if str_eq(a, "blobs") && str_eq(b, "createWants") {
                Some(ApiMethod::BlobsCreateWants)
            } else {
                proof {
                    lemma_no_match(segments_of(s@));
                }
                None
            }
        } else {
            proof {
                lemma_no_match(segments_of(s@));
            }
            None
        };
        proof {
            if let Some(m) = found {
                lemma_resolves(m, segments_of(s@));
            }
        }
        found
    }

    /// The method that an inbound request body names.
    pub fn from_rpc_body(body: &Body) -> (r: Option<Self>)
        ensures
            r == method_of(names_of(body.name@)),
    {
        let mut selector: Vec<&str> = Vec::new();
        let mut i: usize = 0;
        while i < body.name.len()
            invariant
                i <= body.name@.len(),
                selector@.len() == i,
                forall|j: int| 0 <= j < i ==> selector@[j]@ == body.name@[j]@,
            decreases body.name@.len() - i,
        {
            selector.push(body.name[i].as_str());
            i += 1;
        }
        assert(segments_of(selector@) =~= names_of(body.name@));
        Self::from_selector(selector.as_slice())
    }
}

/// A selector outside the catalogue resolves to no method.
pub proof fn lemma_unregistered_selector(s: Seq<Seq<char>>)
    requires
        forall|m: ApiMethod| selector_of(m) != s,
    ensures
        method_of(s) == None::<ApiMethod>,
{
}

} // verus!
