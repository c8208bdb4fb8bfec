//! Handoffs: where a command sends its caller for a connection in real
//! time, instead of an answer.

use vstd::prelude::*;
use crate::json::JsonValue;
use crate::text::chars_of;
use crate::text::chars_eq;
use crate::text::lowercase;
use crate::text::str_eq;
use crate::text::to_lowercase;

verus! {

/// The protocols of a handoff.
#[derive(Debug, Clone, PartialEq, Eq)]
pub enum HandoffProtocol {
    /// WebSocket.
    Websocket,
    /// A WebRTC peer connection.
    Webrtc,
    /// Server-sent events.
    Sse,
    /// HTTP streaming.
    HttpStream,
    /// Another protocol, by its name.
    Custom(String),
}

impl HandoffProtocol {
    /// The name of the protocol.
    pub open spec fn name(self) -> Seq<char> {
        match self {
            HandoffProtocol::Websocket => "websocket"@,
            HandoffProtocol::Webrtc => "webrtc"@,
            HandoffProtocol::Sse => "sse"@,
            HandoffProtocol::HttpStream => "http-stream"@,
            HandoffProtocol::Custom(s) => s@,
        }
    }

    /// The name of the protocol.
    pub fn as_str(&self) -> (r: &str)
        ensures
            r@ == self.name(),
    {
        match self {
            HandoffProtocol::Websocket => "websocket",
            HandoffProtocol::Webrtc => "webrtc",
            HandoffProtocol::Sse => "sse",
            HandoffProtocol::HttpStream => "http-stream",
            HandoffProtocol::Custom(s) => s.as_str(),
        }
    }
}

/// One header: a name and a value.
#[derive(Debug, Clone)]
pub struct Header {
    pub name: String,
    pub value: String,
}

/// Headers by name, held as the entries that set them: where a name is set
/// twice, the later entry counts.
#[derive(Debug, Clone)]
pub struct HeaderMap {
    pub entries: Vec<Header>,
}

/// The map that headers stand for.
pub open spec fn headers_view(entries: Seq<Header>) -> Map<Seq<char>, Seq<char>>
    decreases entries.len(),
{
    if entries.len() == 0 {
        Map::empty()
    } else {
        headers_view(entries.drop_last()).insert(entries.last().name@, entries.last().value@)
    }
}

impl View for HeaderMap {
    type V = Map<Seq<char>, Seq<char>>;

    open spec fn view(&self) -> Map<Seq<char>, Seq<char>> {
        headers_view(self.entries@)
    }
}

/// A name is in the map of some headers exactly when one of them has it.
pub proof fn lemma_headers_dom(entries: Seq<Header>, name: Seq<char>)
    ensures
        headers_view(entries).dom().contains(name) <==> exists|i: int|
            0 <= i < entries.len() && #[trigger] entries[i].name@ == name,
    decreases entries.len(),
{
    if entries.len() > 0 {
        let rest = entries.drop_last();
        lemma_headers_dom(rest, name);
        assert(headers_view(entries) == headers_view(rest).insert(
            entries.last().name@,
            entries.last().value@,
        ));
        if headers_view(entries).dom().contains(name) {
            if entries.last().name@ == name {
                assert(entries[entries.len() - 1].name@ == name);
            } else {
                let i = choose|i: int| 0 <= i < rest.len() && #[trigger] rest[i].name@ == name;
                assert(entries[i].name@ == name);
            }
        }
        if exists|i: int| 0 <= i < entries.len() && #[trigger] entries[i].name@ == name {
            let i = choose|i: int| 0 <= i < entries.len() && #[trigger] entries[i].name@ == name;
            if i < entries.len() - 1 {
                assert(rest[i].name@ == name);
            }
        }
    }
}

/// The place of the header that decides the value of `name`: the last with
/// that name.
pub fn find_header(entries: &Vec<Header>, name: &Vec<char>) -> (r: Option<usize>)
    ensures
        r is Some <==> headers_view(entries@).dom().contains(name@),
        r matches Some(i) ==> i < entries.len() && entries@[i as int].name@ == name@
            && headers_view(entries@)[name@] == entries@[i as int].value@,
{
    let mut i: usize = entries.len();
    proof {
        assert(entries@.take(i as int) =~= entries@);
    }
    while i > 0
        invariant
            i <= entries.len(),
            headers_view(entries@).dom().contains(name@) == headers_view(
                entries@.take(i as int),
            ).dom().contains(name@),
            headers_view(entries@).dom().contains(name@) ==> headers_view(entries@)[name@]
                == headers_view(entries@.take(i as int))[name@],
        decreases i,
    {
        i -= 1;
        let held = chars_of(entries[i].name.as_str());
        proof {
            let upto = entries@.take(i + 1);
            assert(upto.drop_last() =~= entries@.take(i as int));
            assert(upto.last() == entries@[i as int]);
            assert(headers_view(upto) == headers_view(upto.drop_last()).insert(
                upto.last().name@,
                upto.last().value@,
            ));
        }
        if chars_eq(&held, name) {
            return Some(i);
        }
    }
    proof {
        assert(headers_view(entries@.take(0)) == Map::<Seq<char>, Seq<char>>::empty());
    }
    None
}

impl HeaderMap {
    /// No headers.
    pub fn new() -> (r: HeaderMap)
        ensures
            r@ == Map::<Seq<char>, Seq<char>>::empty(),
    {
        let entries: Vec<Header> = Vec::new();
        proof {
            assert(headers_view(entries@) == Map::<Seq<char>, Seq<char>>::empty());
        }
        HeaderMap { entries }
    }

    /// Sets the header `name` to `value`.
    pub fn insert(&mut self, name: &str, value: &str)
        ensures
            final(self)@ == old(self)@.insert(name@, value@),
    {
        let header = Header { name: String::from_str(name), value: String::from_str(value) };
        proof {
            let all = self.entries@.push(header);
            assert(all.drop_last() =~= self.entries@);
            assert(headers_view(all) == headers_view(all.drop_last()).insert(
                all.last().name@,
                all.last().value@,
            ));
        }
        self.entries.push(header);
    }

    /// The value of the header `name`.
    pub fn get(&self, name: &str) -> (r: Option<&String>)
        ensures
            r is Some <==> self@.dom().contains(name@),
            r matches Some(v) ==> v@ == self@[name@],
    {
        let wanted = chars_of(name);
        match find_header(&self.entries, &wanted) {
            Some(i) => Some(&self.entries[i].value),
            None => None,
        }
    }

    /// Whether two header maps set the same headers to the same values.
    pub fn same(&self, other: &HeaderMap) -> (r: bool)
        ensures
            r == (self@ == other@),
    {
        let a = &self.entries;
        let b = &other.entries;
        let mut i: usize = 0;
        while i < a.len()
            invariant
                i <= a.len(),
                a@ == self.entries@,
                b@ == other.entries@,
                forall|j: int|
                    0 <= j < i ==> headers_view(b@).dom().contains((#[trigger] a@[j]).name@)
                        && headers_view(b@)[a@[j].name@] == headers_view(a@)[a@[j].name@],
            decreases a.len() - i,
        {
            let name = chars_of(a[i].name.as_str());
            proof {
                lemma_headers_dom(a@, name@);
            }
            match (find_header(a, &name), find_header(b, &name)) {
                (Some(x), Some(y)) => {
                    if !str_eq(a[x].value.as_str(), b[y].value.as_str()) {
                        return false;
                    }
                },
                _ => {
                    return false;
                },
            }
            i += 1;
        }
        let mut j: usize = 0;
        while j < b.len()
            invariant
                j <= b.len(),
                a@ == self.entries@,
                b@ == other.entries@,
                forall|k: int|
                    0 <= k < j ==> headers_view(a@).dom().contains((#[trigger] b@[k]).name@),
                forall|k: int|
                    0 <= k < a.len() ==> headers_view(b@).dom().contains(
                        (#[trigger] a@[k]).name@,
                    ) && headers_view(b@)[a@[k].name@] == headers_view(a@)[a@[k].name@],
            decreases b.len() - j,
        {
            let name = chars_of(b[j].name.as_str());
            if find_header(a, &name).is_none() {
                proof {
                    lemma_headers_dom(b@, name@);
                }
                return false;
            }
            j += 1;
        }
        proof {
            let ma = headers_view(a@);
            let mb = headers_view(b@);
            assert forall|k: Seq<char>| #[trigger] ma.dom().contains(k) implies mb.dom().contains(
                k,
            ) && ma[k] == mb[k] by {
                lemma_headers_dom(a@, k);
                let x = choose|x: int| 0 <= x < a@.len() && #[trigger] a@[x].name@ == k;
                assert(mb.dom().contains(a@[x].name@));
            }
            assert forall|k: Seq<char>| #[trigger] mb.dom().contains(k) implies ma.dom().contains(
                k,
            ) by {
                lemma_headers_dom(b@, k);
                let y = choose|y: int| 0 <= y < b@.len() && #[trigger] b@[y].name@ == k;
                assert(ma.dom().contains(b@[y].name@));
            }
            assert(ma =~= mb);
        }
        true
    }
}

impl PartialEq for HeaderMap {
    fn eq(&self, other: &HeaderMap) -> (r: bool) {
        self.same(other)
    }
}

impl vstd::std_specs::cmp::PartialEqSpecImpl for HeaderMap {
    open spec fn obeys_eq_spec() -> bool {
        true
    }

    open spec fn eq_spec(&self, other: &HeaderMap) -> bool {
        self@ == other@
    }
}

impl Eq for HeaderMap {

}

/// What the caller needs to be let in.
#[derive(Debug, Clone, PartialEq, Eq)]
pub struct HandoffCredentials {
    /// A token: a JWT, an API key or the like.
    pub token: Option<String>,
    /// Headers to send with the connection.
    pub headers: Option<HeaderMap>,
    /// A session to come back to.
    pub session_id: Option<String>,
}

impl Default for HandoffCredentials {
    fn default() -> (r: HandoffCredentials)
        ensures
            r.token is None,
            r.headers is None,
            r.session_id is None,
    {
        HandoffCredentials { token: None, headers: None, session_id: None }
    }
}

impl HandoffCredentials {
    /// Credentials that hold nothing.
    pub fn new() -> (r: HandoffCredentials)
        ensures
            r.token is None,
            r.headers is None,
            r.session_id is None,
    {
        HandoffCredentials { token: None, headers: None, session_id: None }
    }

    /// The same credentials with a token.
    pub fn with_token(self, token: &str) -> (r: HandoffCredentials)
        ensures
            r.token is Some,
            r.token->0@ == token@,
            r.headers == self.headers,
            r.session_id == self.session_id,
    {
        let mut r = self;
        r.token = Some(String::from_str(token));
        r
    }

    /// The same credentials with the given headers and no others.
    pub fn with_headers(self, headers: HeaderMap) -> (r: HandoffCredentials)
        ensures
            r.headers == Some(headers),
            r.token == self.token,
            r.session_id == self.session_id,
    {
        let mut r = self;
        r.headers = Some(headers);
        r
    }

    /// The same credentials with one more header.
    pub fn with_header(self, key: &str, value: &str) -> (r: HandoffCredentials)
        ensures
            r.headers is Some,
            r.headers->0@ == match self.headers {
                Some(h) => h@,
                None => Map::<Seq<char>, Seq<char>>::empty(),
            }.insert(key@, value@),
            r.token == self.token,
            r.session_id == self.session_id,
    {
        let HandoffCredentials { token, headers, session_id } = self;
        let mut map = match headers {
            Some(h) => h,
            None => HeaderMap::new(),
        };
        map.insert(key, value);
        HandoffCredentials { token, headers: Some(map), session_id }
    }

    /// The same credentials with a session.
    pub fn with_session_id(self, session_id: &str) -> (r: HandoffCredentials)
        ensures
            r.session_id is Some,
            r.session_id->0@ == session_id@,
            r.token == self.token,
            r.headers == self.headers,
    {
        let mut r = self;
        r.session_id = Some(String::from_str(session_id));
        r
    }
}

/// Whether and how the caller may connect again.
#[derive(Debug, Clone, Copy, PartialEq, Eq, Structural)]
pub struct ReconnectPolicy {
    /// Whether connecting again is allowed.
    pub allowed: bool,
    /// How often the caller may try.
    pub max_attempts: Option<u32>,
    /// How long to wait between two tries, in milliseconds.
    pub backoff_ms: Option<u32>,
}

impl Default for ReconnectPolicy {
    fn default() -> (r: ReconnectPolicy)
        ensures
            r.allowed,
            r.max_attempts == Some(3u32),
            r.backoff_ms == Some(1000u32),
    {
        ReconnectPolicy { allowed: true, max_attempts: Some(3), backoff_ms: Some(1000) }
    }
}

impl ReconnectPolicy {
    /// A policy without limits on tries and waiting.
    pub fn new(allowed: bool) -> (r: ReconnectPolicy)
        ensures
            r.allowed == allowed,
            r.max_attempts is None,
            r.backoff_ms is None,
    {
        ReconnectPolicy { allowed, max_attempts: None, backoff_ms: None }
    }

    /// The same policy with a limit on tries.
    pub fn with_max_attempts(self, max: u32) -> (r: ReconnectPolicy)
        ensures
            r.max_attempts == Some(max),
            r.allowed == self.allowed,
            r.backoff_ms == self.backoff_ms,
    {
        ReconnectPolicy {
            allowed: self.allowed,
            max_attempts: Some(max),
            backoff_ms: self.backoff_ms,
        }
    }

    /// The same policy with a wait between tries.
    pub fn with_backoff_ms(self, ms: u32) -> (r: ReconnectPolicy)
        ensures
            r.backoff_ms == Some(ms),
            r.allowed == self.allowed,
            r.max_attempts == self.max_attempts,
    {
        ReconnectPolicy {
            allowed: self.allowed,
            max_attempts: self.max_attempts,
            backoff_ms: Some(ms),
        }
    }

    /// The policy that forbids connecting again.
    pub fn no_reconnect() -> (r: ReconnectPolicy)
        ensures
            !r.allowed,
            r.max_attempts is None,
            r.backoff_ms is None,
    {
        ReconnectPolicy::new(false)
    }
}

/// More about the connection.
#[derive(Debug, Clone, PartialEq)]
pub struct HandoffMetadata {
    /// The latency to expect, in milliseconds.
    pub expected_latency: Option<u32>,
    /// What the endpoint can do.
    pub capabilities: Option<Vec<String>>,
    /// When the handoff ends, as an RFC 3339 timestamp.
    pub expires_at: Option<String>,
    /// Whether and how the caller may connect again.
    pub reconnect: Option<ReconnectPolicy>,
    /// A description for people.
    pub description: Option<String>,
}

impl Default for HandoffMetadata {
    fn default() -> (r: HandoffMetadata)
        ensures
            r.expected_latency is None,
            r.capabilities is None,
            r.expires_at is None,
            r.reconnect is None,
            r.description is None,
    {
        HandoffMetadata {
            expected_latency: None,
            capabilities: None,
            expires_at: None,
            reconnect: None,
            description: None,
        }
    }
}

impl HandoffMetadata {
    /// Metadata that holds nothing.
    pub fn new() -> (r: HandoffMetadata)
        ensures
            r.expected_latency is None,
            r.capabilities is None,
            r.expires_at is None,
            r.reconnect is None,
            r.description is None,
    {
        HandoffMetadata {
            expected_latency: None,
            capabilities: None,
            expires_at: None,
            reconnect: None,
            description: None,
        }
    }

    /// The same metadata with a latency.
    pub fn with_expected_latency(self, ms: u32) -> (r: HandoffMetadata)
        ensures
            r.expected_latency == Some(ms),
            r.capabilities == self.capabilities,
            r.expires_at == self.expires_at,
            r.reconnect == self.reconnect,
            r.description == self.description,
    {
        let mut r = self;
        r.expected_latency = Some(ms);
        r
    }

    /// The same metadata with the given capabilities and no others.
    pub fn with_capabilities(self, caps: Vec<String>) -> (r: HandoffMetadata)
        ensures
            r.capabilities == Some(caps),
            r.expected_latency == self.expected_latency,
            r.expires_at == self.expires_at,
            r.reconnect == self.reconnect,
            r.description == self.description,
    {
        let mut r = self;
        r.capabilities = Some(caps);
        r
    }

    /// The same metadata with one more capability, after those it has.
    pub fn with_capability(self, cap: &str) -> (r: HandoffMetadata)
        ensures
            r.capabilities is Some,
            r.capabilities->0@.len() == match self.capabilities {
                Some(c) => c@.len(),
                None => 0,
            } + 1,
            r.capabilities->0@.last()@ == cap@,
            self.capabilities matches Some(c) ==> r.capabilities->0@.drop_last() == c@,
            r.expected_latency == self.expected_latency,
            r.expires_at == self.expires_at,
            r.reconnect == self.reconnect,
            r.description == self.description,
    {
        let HandoffMetadata { expected_latency, capabilities, expires_at, reconnect, description } =
            self;
        let mut caps = match capabilities {
            Some(c) => c,
            None => Vec::new(),
        };
        let ghost before = caps@;
        caps.push(String::from_str(cap));
        proof {
            assert(caps@.drop_last() =~= before);
        }
        HandoffMetadata {
            expected_latency,
            capabilities: Some(caps),
            expires_at,
            reconnect,
            description,
        }
    }

    /// The same metadata with the time the handoff ends.
    pub fn with_expires_at(self, expires: &str) -> (r: HandoffMetadata)
        ensures
            r.expires_at is Some,
            r.expires_at->0@ == expires@,
            r.expected_latency == self.expected_latency,
            r.capabilities == self.capabilities,
            r.reconnect == self.reconnect,
            r.description == self.description,
    {
        let mut r = self;
        r.expires_at = Some(String::from_str(expires));
        r
    }

    /// The same metadata with a policy for connecting again.
    pub fn with_reconnect(self, policy: ReconnectPolicy) -> (r: HandoffMetadata)
        ensures
            r.reconnect == Some(policy),
            r.expected_latency == self.expected_latency,
            r.capabilities == self.capabilities,
            r.expires_at == self.expires_at,
            r.description == self.description,
    {
        let mut r = self;
        r.reconnect = Some(policy);
        r
    }

    /// The same metadata with a description.
    pub fn with_description(self, desc: &str) -> (r: HandoffMetadata)
        ensures
            r.description is Some,
            r.description->0@ == desc@,
            r.expected_latency == self.expected_latency,
            r.capabilities == self.capabilities,
            r.expires_at == self.expires_at,
            r.reconnect == self.reconnect,
    {
        let mut r = self;
        r.description = Some(String::from_str(desc));
        r
    }
}

/// All a caller needs to connect.
#[derive(Debug, Clone, PartialEq)]
pub struct HandoffResult {
    /// The protocol to speak.
    pub protocol: HandoffProtocol,
    /// Where to connect.
    pub endpoint: String,
    /// What the caller needs to be let in.
    pub credentials: Option<HandoffCredentials>,
    /// More about the connection.
    pub metadata: Option<HandoffMetadata>,
}

impl HandoffResult {
    /// A handoff to an endpoint.
    pub fn new(protocol: HandoffProtocol, endpoint: &str) -> (r: HandoffResult)
        ensures
            r.protocol == protocol,
            r.endpoint@ == endpoint@,
            r.credentials is None,
            r.metadata is None,
    {
        HandoffResult {
            protocol,
            endpoint: String::from_str(endpoint),
            credentials: None,
            metadata: None,
        }
    }

    /// A handoff to a WebSocket.
    pub fn websocket(endpoint: &str) -> (r: HandoffResult)
        ensures
            r.protocol == HandoffProtocol::Websocket,
            r.endpoint@ == endpoint@,
            r.credentials is None,
            r.metadata is None,
    {
        HandoffResult::new(HandoffProtocol::Websocket, endpoint)
    }

    /// A handoff to a WebRTC peer.
    pub fn webrtc(endpoint: &str) -> (r: HandoffResult)
        ensures
            r.protocol == HandoffProtocol::Webrtc,
            r.endpoint@ == endpoint@,
            r.credentials is None,
            r.metadata is None,
    {
        HandoffResult::new(HandoffProtocol::Webrtc, endpoint)
    }

    /// A handoff to server-sent events.
    pub fn sse(endpoint: &str) -> (r: HandoffResult)
        ensures
            r.protocol == HandoffProtocol::Sse,
            r.endpoint@ == endpoint@,
            r.credentials is None,
            r.metadata is None,
    {
        HandoffResult::new(HandoffProtocol::Sse, endpoint)
    }

    /// A handoff to an HTTP stream.
    pub fn http_stream(endpoint: &str) -> (r: HandoffResult)
        ensures
            r.protocol == HandoffProtocol::HttpStream,
            r.endpoint@ == endpoint@,
            r.credentials is None,
            r.metadata is None,
    {
        HandoffResult::new(HandoffProtocol::HttpStream, endpoint)
    }

    /// The same handoff with credentials.
    pub fn with_credentials(self, credentials: HandoffCredentials) -> (r: HandoffResult)
        ensures
            r.credentials == Some(credentials),
            r.protocol == self.protocol,
            r.endpoint == self.endpoint,
            r.metadata == self.metadata,
    {
        let mut r = self;
        r.credentials = Some(credentials);
        r
    }

    /// The same handoff with metadata.
    pub fn with_metadata(self, metadata: HandoffMetadata) -> (r: HandoffResult)
        ensures
            r.metadata == Some(metadata),
            r.protocol == self.protocol,
            r.endpoint == self.endpoint,
            r.credentials == self.credentials,
    {
        let mut r = self;
        r.metadata = Some(metadata);
        r
    }
}

/// Whether a document has the shape of a handoff: a `protocol` and an
/// `endpoint`.
pub fn is_handoff(value: &JsonValue) -> (r: bool)
    ensures
        r == (value@.member("protocol"@) is Some && value@.member("endpoint"@) is Some),
{
    value.get("protocol").is_some() && value.get("endpoint").is_some()
}

/// The text names one of the four protocols that have a name of their own,
/// in any case of letters.
pub open spec fn names_protocol(protocol: Seq<char>) -> bool {
    let lower = lowercase(protocol);
    lower == "websocket"@ || lower == "webrtc"@ || lower == "sse"@ || lower == "http-stream"@
}

/// Whether the text names a protocol.
pub fn is_handoff_protocol(protocol: &str) -> (r: bool)
    ensures
        r == names_protocol(protocol@),
{
    let lower = to_lowercase(protocol);
    str_eq(lower.as_str(), "websocket") || str_eq(lower.as_str(), "webrtc") || str_eq(
        lower.as_str(),
        "sse",
    ) || str_eq(lower.as_str(), "http-stream")
}

/// What a command says of itself as to handoffs.
pub trait HandoffCommandLike {
    /// The command says it is a handoff command.
    spec fn handoff_flag(&self) -> bool;

    /// The protocol that the command names.
    spec fn protocol_name(&self) -> Option<Seq<char>>;

    /// The tags of the command.
    spec fn tag_names(&self) -> Option<Seq<Seq<char>>>;

    /// Whether the command says it is a handoff command.
    fn is_handoff(&self) -> (r: bool)
        ensures
            r == self.handoff_flag(),
    ;

    /// The protocol that the command names.
    fn handoff_protocol(&self) -> (r: Option<&str>)
        ensures
            r is Some <==> self.protocol_name() is Some,
            r matches Some(p) ==> Some(p@) == self.protocol_name(),
    ;

    /// The tags of the command.
    fn tags(&self) -> (r: Option<&[String]>)
        ensures
            r is Some <==> self.tag_names() is Some,
            r matches Some(t) ==> self.tag_names() matches Some(names) && names.len() == t@.len()
                && forall|i: int| 0 <= i < t@.len() ==> (#[trigger] t@[i])@ == names[i],
    ;
}

/// A command is a handoff command where it says so, names a protocol, or
/// has the tag `handoff`.
pub open spec fn handoff_command<T: HandoffCommandLike>(command: &T) -> bool {
    command.handoff_flag() || command.protocol_name() is Some || (command.tag_names() matches Some(
        names,
    ) && names.contains("handoff"@))
}

/// Whether a command is a handoff command.
pub fn is_handoff_command<T: HandoffCommandLike>(command: &T) -> (r: bool)
    ensures
        r == handoff_command(command),
{
    if command.is_handoff() {
        return true;
    }
    if command.handoff_protocol().is_some() {
        return true;
    }
    match command.tags() {
        Some(tags) => {
            let ghost names = command.tag_names()->0;
            let mut i: usize = 0;
            while i < tags.len()
                invariant
                    i <= tags.len(),
                    command.tag_names() == Some(names),
                    !command.handoff_flag(),
                    command.protocol_name() is None,
                    names.len() == tags@.len(),
                    forall|j: int| 0 <= j < tags@.len() ==> (#[trigger] tags@[j])@ == names[j],
                    forall|j: int| 0 <= j < i ==> names[j] != "handoff"@,
                decreases tags.len() - i,
            {
                if str_eq(tags[i].as_str(), "handoff") {
                    assert(names[i as int] == "handoff"@);
                    return true;
                }
                i += 1;
            }
            false
        },
        None => false,
    }
}

/// The protocol of a handoff command; nothing for another command.
pub fn get_handoff_protocol<T: HandoffCommandLike>(command: &T) -> (r: Option<&str>)
    ensures
        r is Some <==> handoff_command(command) && command.protocol_name() is Some,
        r matches Some(p) ==> Some(p@) == command.protocol_name(),
{
    if is_handoff_command(command) {
        command.handoff_protocol()
    } else {
        None
    }
}

/// The instant that a timestamp in the form of RFC 3339 writes, as
/// `DateTime::parse_from_rfc3339` of the chrono crate reads it: the seconds
/// since the start of 1970 in universal time and the nanoseconds within the
/// second. Nothing for text that it does not read.
pub uninterp spec fn rfc3339_instant(text: Seq<char>) -> Option<(i64, u32)>;

/// `DateTime::parse_from_rfc3339` of the chrono crate, then `timestamp` and
/// `timestamp_subsec_nanos` of what it read. The contract names the result.
#[verifier::external_body]
pub(crate) fn parse_rfc3339(text: &str) -> (r: Option<(i64, u32)>)
    ensures
        r == rfc3339_instant(text@),
{
    match chrono::DateTime::parse_from_rfc3339(text) {
        Ok(t) => Some((t.timestamp(), t.timestamp_subsec_nanos())),
        Err(_) => None,
    }
}

/// `Utc::now` of the chrono crate, as seconds and nanoseconds. Nothing can
/// be said of the clock.
#[verifier::external_body]
pub(crate) fn current_instant() -> (r: (i64, u32)) {
    let now = chrono::Utc::now();
    (now.timestamp(), now.timestamp_subsec_nanos())
}

/// The first instant is before the second.
pub open spec fn earlier(a: (i64, u32), b: (i64, u32)) -> bool {
    a.0 < b.0 || (a.0 == b.0 && a.1 < b.1)
}

/// The instant at which a handoff ends, where it names one that can be
/// read.
pub open spec fn expiry(handoff: HandoffResult) -> Option<(i64, u32)> {
    match handoff.metadata {
        Some(HandoffMetadata { expires_at: Some(text), .. }) => rfc3339_instant(text@),
        _ => None,
    }
}

fn read_expiry(handoff: &HandoffResult) -> (r: Option<(i64, u32)>)
    ensures
        r == expiry(*handoff),
{
    match &handoff.metadata {
        Some(metadata) => match &metadata.expires_at {
            Some(text) => parse_rfc3339(text.as_str()),
            None => None,
        },
        None => None,
    }
}

/// Whether a handoff has ended at the instant `now`: it names an end that
/// can be read, and that end is before `now`.
pub fn is_handoff_expired_at(handoff: &HandoffResult, now: (i64, u32)) -> (r: bool)
    ensures
        r == (expiry(*handoff) matches Some(end) && earlier(end, now)),
{
    match read_expiry(handoff) {
        Some(end) => end.0 < now.0 || (end.0 == now.0 && end.1 < now.1),
        None => false,
    }
}

/// The whole seconds that a handoff has left at the instant `now`: the
/// difference of the two second counts, where the handoff names an end that
/// can be read and that end is after `now`.
pub fn get_handoff_ttl_at(handoff: &HandoffResult, now: (i64, u32)) -> (r: Option<u64>)
    ensures
        r == match expiry(*handoff) {
            Some(end) => if earlier(now, end) {
                Some((end.0 - now.0) as u64)
            } else {
                None
            },
            None => None,
        },
{
    match read_expiry(handoff) {
        Some(end) => {
            if now.0 < end.0 || (now.0 == end.0 && now.1 < end.1) {
                let left: i128 = end.0 as i128 - now.0 as i128;
                Some(left as u64)
            } else {
                None
            }
        },
        None => None,
    }
}

/// Whether a handoff has ended by the clock. A handoff that names no end, or
/// one that cannot be read, has not.
pub fn is_handoff_expired(handoff: &HandoffResult) -> (r: bool)
    ensures
        expiry(*handoff) is None ==> !r,
{
    match read_expiry(handoff) {
        Some(_) => is_handoff_expired_at(handoff, current_instant()),
        None => false,
    }
}

/// The whole seconds that a handoff has left by the clock. Nothing for a
/// handoff that names no end, or one that cannot be read.
pub fn get_handoff_ttl(handoff: &HandoffResult) -> (r: Option<u64>)
    ensures
        expiry(*handoff) is None ==> r is None,
{
    match read_expiry(handoff) {
        Some(_) => get_handoff_ttl_at(handoff, current_instant()),
        None => None,
    }
}

} // verus!
