use vstd::prelude::*;
use crate::crypto::{b64_decode, b64_decode_of, b64_encode, b64_encode_of, sha1_digest, sha1_of};

verus! {

/// ASCII lower-casing of a single byte: upper-case letters map to their
/// lower-case counterparts, every other byte is unchanged.
pub open spec fn lower_byte(b: u8) -> u8 {
    if 65 <= b <= 90 {
        (b + 32) as u8
    } else {
        b
    }
}

/// ASCII lower-casing of a byte sequence.
pub open spec fn lower(s: Seq<u8>) -> Seq<u8> {
    s.map_values(|b: u8| lower_byte(b))
}

/// Case-insensitive equality of two ASCII byte sequences.
pub open spec fn eq_ci(a: Seq<u8>, b: Seq<u8>) -> bool {
    lower(a) == lower(b)
}

/// Executable ASCII lower-casing of one byte.
pub fn to_lower_byte(b: u8) -> (r: u8)
    ensures
        r == lower_byte(b),
{
    if 65 <= b && b <= 90 {
        b + 32
    } else {
        b
    }
}

/// The fixed GUID that the protocol appends to the client's key before
/// hashing, as ASCII bytes.
pub const ACCEPT_GUID: [u8; 36] = [
    50, 53, 56, 69, 65, 70, 65, 53, 45, 69, 57, 49, 52, 45, 52, 55, 68, 65, 45, 57, 53, 67, 65,
    45, 67, 53, 65, 66, 48, 68, 67, 56, 53, 66, 49, 49,
];

/// The bytes of "GET". Methods are compared case-sensitively.
pub const METHOD_GET: [u8; 3] = [71, 69, 84];

/// The bytes of "upgrade": the `Upgrade` header's name, and the token
/// looked for in the `Connection` header.
pub const TOKEN_UPGRADE: [u8; 7] = [117, 112, 103, 114, 97, 100, 101];

/// The bytes of "connection".
pub const HEADER_CONNECTION: [u8; 10] = [99, 111, 110, 110, 101, 99, 116, 105, 111, 110];

/// The bytes of "sec-websocket-version".
pub const HEADER_WS_VERSION: [u8; 21] = [
    115, 101, 99, 45, 119, 101, 98, 115, 111, 99, 107, 101, 116, 45, 118, 101, 114, 115, 105,
    111, 110,
];

/// The bytes of "sec-websocket-key".
pub const HEADER_WS_KEY: [u8; 17] = [
    115, 101, 99, 45, 119, 101, 98, 115, 111, 99, 107, 101, 116, 45, 107, 101, 121,
];

/// The bytes of "websocket".
pub const VALUE_WEBSOCKET: [u8; 9] = [119, 101, 98, 115, 111, 99, 107, 101, 116];

/// The bytes of "Upgrade", as written in the 101 response.
pub const RESP_UPGRADE: [u8; 7] = [85, 112, 103, 114, 97, 100, 101];

/// The bytes of "Connection", as written in the 101 response.
pub const RESP_CONNECTION: [u8; 10] = [67, 111, 110, 110, 101, 99, 116, 105, 111, 110];

/// The bytes of "Sec-WebSocket-Accept".
pub const RESP_ACCEPT: [u8; 20] = [
    83, 101, 99, 45, 87, 101, 98, 83, 111, 99, 107, 101, 116, 45, 65, 99, 99, 101, 112, 116,
];

/// The bytes of "13".
pub const VALUE_13: [u8; 2] = [49, 51];

/// One HTTP header: a name (looked up case-insensitively) and its raw value.
pub struct Header {
    pub name: Vec<u8>,
    pub value: Vec<u8>,
}

/// A parsed HTTP request, reduced to what upgrade negotiation reads.
pub struct HandshakeRequest {
    pub method: Vec<u8>,
    pub path: Vec<u8>,
    pub version_major: u8,
    pub version_minor: u8,
    pub headers: Vec<Header>,
}

/// The first validation rule that a rejected request broke.
#[derive(Clone, Copy, PartialEq, Eq, Structural, Debug)]
pub enum RejectReason {
    /// The method is not GET.
    BadMethod,
    /// The HTTP version is below 1.1.
    BadHttpVersion,
    /// No `Upgrade: websocket` header.
    NoUpgradeHeader,
    /// No `Connection` header containing the token "Upgrade".
    NoConnectionUpgrade,
    /// `Sec-WebSocket-Version` is missing or is not "13".
    BadWsVersion,
    /// `Sec-WebSocket-Key` is missing, empty, or not base64 of 16 bytes.
    BadKey,
}

/// The result of evaluating one upgrade request.
pub enum HandshakeOutcome {
    /// Switch protocols: respond 101 with this `Sec-WebSocket-Accept` value.
    Accepted { accept_key: Vec<u8> },
    /// Refuse: respond with this status (always 400) and reason.
    Rejected { status: u16, reason: RejectReason },
}

/// The value of the first header whose name equals `lname` up to ASCII
/// case, if any.
pub open spec fn spec_lookup(headers: Seq<Header>, lname: Seq<u8>) -> Option<Seq<u8>>
    decreases headers.len(),
{
    if headers.len() == 0 {
        None
    } else if eq_ci(headers[0].name@, lname) {
        Some(headers[0].value@)
    } else {
        spec_lookup(headers.skip(1), lname)
    }
}

/// A horizontal-whitespace byte (space or tab).
pub open spec fn is_ws(b: u8) -> bool {
    b == 32 || b == 9
}

/// Leading whitespace removed.
pub open spec fn trim_front(s: Seq<u8>) -> Seq<u8>
    decreases s.len(),
{
    if s.len() > 0 && is_ws(s[0]) {
        trim_front(s.skip(1))
    } else {
        s
    }
}

/// Trailing whitespace removed.
pub open spec fn trim_back(s: Seq<u8>) -> Seq<u8>
    decreases s.len(),
{
    if s.len() > 0 && is_ws(s[s.len() - 1]) {
        trim_back(s.take(s.len() - 1))
    } else {
        s
    }
}

/// Both ends trimmed of spaces and tabs.
pub open spec fn trim(s: Seq<u8>) -> Seq<u8> {
    trim_back(trim_front(s))
}

/// The segment of `s` from `i` to `j` is one comma-delimited element whose
/// trimmed body equals "upgrade" up to ASCII case.
pub open spec fn upgrade_token_at(s: Seq<u8>, i: int, j: int) -> bool {
    &&& 0 <= i <= j <= s.len()
    &&& (i == 0 || s[i - 1] == 44)
    &&& (j == s.len() || s[j] == 44)
    &&& (forall|k: int| i <= k < j ==> s[k] != 44)
    &&& eq_ci(trim(s.subrange(i, j)), TOKEN_UPGRADE@)
}

/// Some comma-separated element of `s` is the token "Upgrade", compared
/// case-insensitively after trimming.
pub open spec fn has_upgrade_token(s: Seq<u8>) -> bool {
    exists|i: int, j: int| upgrade_token_at(s, i, j)
}

/// The request's method is GET.
pub open spec fn method_ok(r: HandshakeRequest) -> bool {
    r.method@ == METHOD_GET@
}

/// The request's HTTP version is at least 1.1.
pub open spec fn version_ok(r: HandshakeRequest) -> bool {
    r.version_major > 1 || (r.version_major == 1 && r.version_minor >= 1)
}

/// An `Upgrade` header is present and equals "websocket" up to case.
pub open spec fn upgrade_header_ok(r: HandshakeRequest) -> bool {
    match spec_lookup(r.headers@, TOKEN_UPGRADE@) {
        Some(v) => eq_ci(v, VALUE_WEBSOCKET@),
        None => false,
    }
}

/// A `Connection` header is present and contains the token "Upgrade".
pub open spec fn connection_header_ok(r: HandshakeRequest) -> bool {
    match spec_lookup(r.headers@, HEADER_CONNECTION@) {
        Some(v) => has_upgrade_token(v),
        None => false,
    }
}

/// A `Sec-WebSocket-Version` header is present and equals "13".
pub open spec fn ws_version_ok(r: HandshakeRequest) -> bool {
    spec_lookup(r.headers@, HEADER_WS_VERSION@) == Some(VALUE_13@)
}

/// A `Sec-WebSocket-Key` header is present, non-empty, and is base64 for
/// exactly 16 bytes.
pub open spec fn key_ok(r: HandshakeRequest) -> bool {
    match spec_lookup(r.headers@, HEADER_WS_KEY@) {
        Some(k) => k.len() > 0 && match b64_decode_of(k) {
            Some(d) => d.len() == 16,
            None => false,
        },
        None => false,
    }
}

/// All the rules an upgrade request must pass to be accepted.
pub open spec fn valid_upgrade(r: HandshakeRequest) -> bool {
    &&& method_ok(r)
    &&& version_ok(r)
    &&& upgrade_header_ok(r)
    &&& connection_header_ok(r)
    &&& ws_version_ok(r)
    &&& key_ok(r)
}

/// The first rule, in the order they are checked, that the request broke.
/// Meaningful only when `!valid_upgrade(r)`.
pub open spec fn spec_reject_reason(r: HandshakeRequest) -> RejectReason {
    if !method_ok(r) {
        RejectReason::BadMethod
    } else if !version_ok(r) {
        RejectReason::BadHttpVersion
    } else if !upgrade_header_ok(r) {
        RejectReason::NoUpgradeHeader
    } else if !connection_header_ok(r) {
        RejectReason::NoConnectionUpgrade
    } else if !ws_version_ok(r) {
        RejectReason::BadWsVersion
    } else {
        RejectReason::BadKey
    }
}

/// The HTTP status a request earns: 101 when it is a valid upgrade,
/// 400 otherwise.
pub open spec fn spec_status(r: HandshakeRequest) -> int {
    if valid_upgrade(r) {
        101
    } else {
        400
    }
}

/// The accept-key value owed for a given client key: base64 of the SHA-1
/// digest of the key followed by the fixed GUID.
pub open spec fn spec_accept_key(key: Seq<u8>) -> Seq<u8> {
    b64_encode_of(sha1_of(key + ACCEPT_GUID@))
}

/// Exact equality of `v[a..b]` with a fixed byte string.
pub fn range_eq<const N: usize>(v: &Vec<u8>, a: usize, b: usize, w: &[u8; N]) -> (r: bool)
    requires
        a <= b <= v@.len(),
    ensures
        r == (v@.subrange(a as int, b as int) == w@),
{
    if b - a != N {
        proof {
            assert(v@.subrange(a as int, b as int).len() != w@.len());
        }
        return false;
    }
    let mut t: usize = 0;
    while t < N
        invariant
            a <= b <= v@.len(),
            b - a == N,
            t <= N,
            forall|s: int| 0 <= s < t ==> v@[a + s] == w@[s],
        decreases N - t,
    {
        if v[a + t] != w[t] {
            proof {
                assert(v@.subrange(a as int, b as int)[t as int] != w@[t as int]);
            }
            return false;
        }
        t = t + 1;
    }
    proof {
        assert(v@.subrange(a as int, b as int) =~= w@);
    }
    true
}

/// Case-insensitive equality of `v[a..b]` with a fixed byte string.
pub fn range_eq_ci<const N: usize>(v: &Vec<u8>, a: usize, b: usize, w: &[u8; N]) -> (r: bool)
    requires
        a <= b <= v@.len(),
    ensures
        r == eq_ci(v@.subrange(a as int, b as int), w@),
{
    if b - a != N {
        proof {
            assert(lower(v@.subrange(a as int, b as int)).len() != lower(w@).len());
        }
        return false;
    }
    let mut t: usize = 0;
    while t < N
        invariant
            a <= b <= v@.len(),
            b - a == N,
            t <= N,
            forall|s: int| 0 <= s < t ==> lower_byte(v@[a + s]) == lower_byte(w@[s]),
        decreases N - t,
    {
        if to_lower_byte(v[a + t]) != to_lower_byte(w[t]) {
            proof {
                assert(lower(v@.subrange(a as int, b as int))[t as int] != lower(w@)[t as int]);
            }
            return false;
        }
        t = t + 1;
    }
    proof {
        assert(lower(v@.subrange(a as int, b as int)) =~= lower(w@));
    }
    true
}

/// Index of the first header whose name equals `lname` up to ASCII case.
pub fn find_header<const N: usize>(headers: &Vec<Header>, lname: &[u8; N]) -> (r: Option<usize>)
    ensures
        match r {
            Some(i) => i < headers@.len() && spec_lookup(headers@, lname@) == Some(
                headers@[i as int].value@,
            ),
            None => spec_lookup(headers@, lname@) is None,
        },
{
    let mut i: usize = 0;
    proof {
        assert(headers@.skip(0) =~= headers@);
    }
    while i < headers.len()
        invariant
            i <= headers@.len(),
            spec_lookup(headers@, lname@) == spec_lookup(headers@.skip(i as int), lname@),
        decreases headers@.len() - i,
    {
        let h = &headers[i];
        let nl = h.name.len();
        let m = range_eq_ci(&h.name, 0, nl, lname);
        proof {
            assert(h.name@.subrange(0, nl as int) =~= h.name@);
            assert(headers@.skip(i as int)[0] == headers@[i as int]);
        }
        if m {
            return Some(i);
        }
        proof {
            assert(headers@.skip(i as int).skip(1) =~= headers@.skip(i as int + 1));
        }
        i = i + 1;
    }
    proof {
        assert(headers@.skip(i as int) =~= Seq::<Header>::empty());
    }
    None
}

/// Executable whitespace test.
fn is_ws_byte(b: u8) -> (r: bool)
    ensures
        r == is_ws(b),
{
    b == 32 || b == 9
}

/// Whether the comma-delimited segment `v[i..j]`, trimmed, is the token
/// "Upgrade" up to ASCII case.
fn segment_is_upgrade(v: &Vec<u8>, i: usize, j: usize) -> (r: bool)
    requires
        i <= j <= v@.len(),
    ensures
        r == eq_ci(trim(v@.subrange(i as int, j as int)), TOKEN_UPGRADE@),
{
    let mut a = i;
    while a < j && is_ws_byte(v[a])
        invariant
            i <= a <= j <= v@.len(),
            trim_front(v@.subrange(i as int, j as int)) == trim_front(
                v@.subrange(a as int, j as int),
            ),
        decreases j - a,
    {
        proof {
            assert(v@.subrange(a as int, j as int)[0] == v@[a as int]);
            assert(v@.subrange(a as int, j as int).skip(1) =~= v@.subrange(a as int + 1, j as int));
        }
        a = a + 1;
    }
    proof {
        assert(trim_front(v@.subrange(a as int, j as int)) == v@.subrange(a as int, j as int));
    }
    let mut b = j;
    while b > a && is_ws_byte(v[b - 1])
        invariant
            i <= a <= b <= j <= v@.len(),
            trim_back(v@.subrange(a as int, j as int)) == trim_back(
                v@.subrange(a as int, b as int),
            ),
        decreases b,
    {
        proof {
            let s = v@.subrange(a as int, b as int);
            assert(s[s.len() - 1] == v@[b as int - 1]);
            assert(s.take(s.len() - 1) =~= v@.subrange(a as int, b as int - 1));
        }
        b = b - 1;
    }
    proof {
        assert(trim_back(v@.subrange(a as int, b as int)) == v@.subrange(a as int, b as int));
        assert(trim(v@.subrange(i as int, j as int)) == v@.subrange(a as int, b as int));
    }
    range_eq_ci(v, a, b, &TOKEN_UPGRADE)
}

/// Whether some comma-separated element of `v` is the token "Upgrade".
pub fn contains_upgrade_token(v: &Vec<u8>) -> (r: bool)
    ensures
        r == has_upgrade_token(v@),
{
    let n = v.len();
    let mut start: usize = 0;
    let mut k: usize = 0;
    while k < n
        invariant
            n == v@.len(),
            start <= k <= n,
            start == 0 || (start >= 1 && v@[start as int - 1] == 44),
            forall|m: int| start <= m < k ==> v@[m] != 44,
            forall|i: int, j: int| j < k ==> !upgrade_token_at(v@, i, j),
        decreases n - k,
    {
        if v[k] == 44 {
            let m = segment_is_upgrade(v, start, k);
            if m {
                proof {
                    assert(upgrade_token_at(v@, start as int, k as int));
                }
                return true;
            }
            proof {
                assert forall|i: int| !upgrade_token_at(v@, i, k as int) by {
                    if upgrade_token_at(v@, i, k as int) {
                        if i < start as int {
                            assert(v@[start as int - 1] == 44);
                            assert(false);
                        } else if i > start as int {
                            assert(v@[i - 1] == 44);
                            assert(false);
                        } else {
                            assert(false);
                        }
                    }
                }
            }
            start = k + 1;
        } else {
            proof {
                assert forall|i: int| !upgrade_token_at(v@, i, k as int) by {
                    if upgrade_token_at(v@, i, k as int) {
                        assert(v@[k as int] == 44);
                        assert(false);
                    }
                }
            }
        }
        k = k + 1;
    }
    let m = segment_is_upgrade(v, start, n);
    if m {
        proof {
            assert(upgrade_token_at(v@, start as int, n as int));
        }
        return true;
    }
    proof {
        assert forall|i: int, j: int| !upgrade_token_at(v@, i, j) by {
            if upgrade_token_at(v@, i, j) {
                assert(j <= n);
                if j < n {
                    assert(false);
                } else {
                    if i < start as int {
                        assert(v@[start as int - 1] == 44);
                        assert(false);
                    } else if i > start as int {
                        assert(v@[i - 1] == 44);
                        assert(false);
                    } else {
                        assert(false);
                    }
                }
            }
        }
    }
    false
}

/// Append a copy of `src` to `dst`.
fn extend_bytes(dst: &mut Vec<u8>, src: &Vec<u8>)
    ensures
        final(dst)@ == old(dst)@ + src@,
{
    let mut i: usize = 0;
    while i < src.len()
        invariant
            i <= src@.len(),
            dst@ == old(dst)@ + src@.take(i as int),
        decreases src@.len() - i,
    {
        dst.push(src[i]);
        proof {
            assert(old(dst)@ + src@.take(i as int) + seq![src@[i as int]] =~= old(dst)@
                + src@.take(i as int + 1));
        }
        i = i + 1;
    }
    proof {
        assert(src@.take(src@.len() as int) =~= src@);
    }
}

/// A fixed byte string materialised as a vector.
pub fn bytes_of<const N: usize>(w: &[u8; N]) -> (r: Vec<u8>)
    ensures
        r@ == w@,
{
    let mut r: Vec<u8> = Vec::new();
    let mut i: usize = 0;
    while i < N
        invariant
            i <= N,
            w@.len() == N,
            r@ == w@.take(i as int),
        decreases N - i,
    {
        r.push(w[i]);
        proof {
            assert(w@.take(i as int) + seq![w@[i as int]] =~= w@.take(i as int + 1));
        }
        i = i + 1;
    }
    proof {
        assert(w@.take(N as int) =~= w@);
    }
    r
}

/// The `Sec-WebSocket-Accept` value owed for a client key.
pub fn accept_key_value(key: &Vec<u8>) -> (r: Vec<u8>)
    ensures
        r@ == spec_accept_key(key@),
{
    let mut acc: Vec<u8> = Vec::new();
    extend_bytes(&mut acc, key);
    let g = bytes_of(&ACCEPT_GUID);
    extend_bytes(&mut acc, &g);
    proof {
        assert(Seq::<u8>::empty() + key@ + ACCEPT_GUID@ =~= key@ + ACCEPT_GUID@);
    }
    let dig = sha1_digest(&acc);
    b64_encode(&dig)
}

/// The headers of the 101 response owed for an accepted upgrade:
/// `Upgrade: websocket`, `Connection: Upgrade`, and the computed
/// `Sec-WebSocket-Accept` value.
pub fn accepted_response_headers(accept_key: &Vec<u8>) -> (r: Vec<Header>)
    ensures
        r@.len() == 3,
        r@[0].name@ == RESP_UPGRADE@ && r@[0].value@ == VALUE_WEBSOCKET@,
        r@[1].name@ == RESP_CONNECTION@ && r@[1].value@ == RESP_UPGRADE@,
        r@[2].name@ == RESP_ACCEPT@ && r@[2].value@ == accept_key@,
{
    let mut r: Vec<Header> = Vec::new();
    r.push(Header { name: bytes_of(&RESP_UPGRADE), value: bytes_of(&VALUE_WEBSOCKET) });
    r.push(Header { name: bytes_of(&RESP_CONNECTION), value: bytes_of(&RESP_UPGRADE) });
    let mut ak: Vec<u8> = Vec::new();
    extend_bytes(&mut ak, accept_key);
    r.push(Header { name: bytes_of(&RESP_ACCEPT), value: ak });
    proof {
        assert(Seq::<u8>::empty() + accept_key@ =~= accept_key@);
    }
    r
}

/// Evaluate one upgrade request: accept exactly the valid ones, carrying
/// the computed accept key; reject every other with status 400 and the
/// first rule broken.
pub fn negotiate(req: &HandshakeRequest) -> (r: HandshakeOutcome)
    ensures
        (r is Accepted) <==> valid_upgrade(*req),
        (r matches HandshakeOutcome::Accepted { accept_key } ==> accept_key@ == spec_accept_key(
            spec_lookup(req.headers@, HEADER_WS_KEY@)->Some_0,
        )),
        (r matches HandshakeOutcome::Rejected { status, reason } ==> status == 400 && spec_status(
            *req,
        ) == 400 && reason == spec_reject_reason(*req)),
{
    let ml = req.method.len();
    let m_ok = range_eq(&req.method, 0, ml, &METHOD_GET);
    proof {
        assert(req.method@.subrange(0, ml as int) =~= req.method@);
    }
    if !m_ok {
        return HandshakeOutcome::Rejected { status: 400, reason: RejectReason::BadMethod };
    }
    if !(req.version_major > 1 || (req.version_major == 1 && req.version_minor >= 1)) {
        return HandshakeOutcome::Rejected { status: 400, reason: RejectReason::BadHttpVersion };
    }
    let up_ok = match find_header(&req.headers, &TOKEN_UPGRADE) {
        Some(i) => {
            let v = &req.headers[i].value;
            let vl = v.len();
            let e = range_eq_ci(v, 0, vl, &VALUE_WEBSOCKET);
            proof {
                assert(v@.subrange(0, vl as int) =~= v@);
            }
            e
        },
        None => false,
    };
    if !up_ok {
        return HandshakeOutcome::Rejected { status: 400, reason: RejectReason::NoUpgradeHeader };
    }
    let conn_ok = match find_header(&req.headers, &HEADER_CONNECTION) {
        Some(i) => contains_upgrade_token(&req.headers[i].value),
        None => false,
    };
    if !conn_ok {
        return HandshakeOutcome::Rejected {
            status: 400,
            reason: RejectReason::NoConnectionUpgrade,
        };
    }
    let ver_ok = match find_header(&req.headers, &HEADER_WS_VERSION) {
        Some(i) => {
            let v = &req.headers[i].value;
            let vl = v.len();
            let e = range_eq(v, 0, vl, &VALUE_13);
            proof {
                assert(v@.subrange(0, vl as int) =~= v@);
            }
            e
        },
        None => false,
    };
    if !ver_ok {
        return HandshakeOutcome::Rejected { status: 400, reason: RejectReason::BadWsVersion };
    }
    match find_header(&req.headers, &HEADER_WS_KEY) {
        Some(i) => {
            let kv = &req.headers[i].value;
            if kv.len() == 0 {
                return HandshakeOutcome::Rejected { status: 400, reason: RejectReason::BadKey };
            }
            match b64_decode(kv) {
                Some(d) => {
                    if d.len() != 16 {
                        return HandshakeOutcome::Rejected {
                            status: 400,
                            reason: RejectReason::BadKey,
                        };
                    }
                    let ak = accept_key_value(kv);
                    HandshakeOutcome::Accepted { accept_key: ak }
                },
                None => HandshakeOutcome::Rejected { status: 400, reason: RejectReason::BadKey },
            }
        },
        None => HandshakeOutcome::Rejected { status: 400, reason: RejectReason::BadKey },
    }
}

/// A request with no `Sec-WebSocket-Key` header is never a valid upgrade:
/// with the contract of `negotiate`, it is always answered with status 400.
pub proof fn lemma_missing_key_rejected(req: HandshakeRequest)
    requires
        spec_lookup(req.headers@, HEADER_WS_KEY@) is None,
    ensures
        !valid_upgrade(req),
        spec_status(req) == 400,
{
}

/// Any two malformed requests are rejected alike: both earn status 400,
/// whatever their malformations, and neither is accepted.
pub proof fn lemma_uniform_rejection(r1: HandshakeRequest, r2: HandshakeRequest)
    requires
        !valid_upgrade(r1),
        !valid_upgrade(r2),
    ensures
        spec_status(r1) == 400,
        spec_status(r2) == 400,
        spec_status(r1) == spec_status(r2),
{
}

} // verus!
