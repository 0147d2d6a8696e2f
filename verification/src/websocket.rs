//! The League Client event socket: subscription names, the frames sent and received, and
//! the credentials header.

use vstd::prelude::*;
use crate::json::{
    first_key_index, json_from_str, json_i64, json_member_str, json_parse, json_str, member_index, JsonValue,
};
use crate::text::{
    concat2, concat3, matches_at, occurs_at, push_char, push_str, replace, replace_seq,
    starts_with, starts_with_seq,
};
use vstd::string::StringSliceAdditionalSpecFns;
use base64::Engine;

verus! {

/// An event of the client's event socket.
#[derive(Debug)]
pub struct LcuWebSocketEvent {
    pub uri: String,
    pub event_type: String,
    pub data: JsonValue,
}

/// A topic of the client's event socket.
#[derive(Debug, Clone, Copy, PartialEq, Eq)]
pub enum LcuSubscription {
    /// The JSON API events under a resource path.
    JsonApiEvent(&'static str),
}

/// `s` without its leading `c` characters (`str::trim_start_matches` with a `char`).
pub open spec fn strip_leading(s: Seq<char>, c: char) -> Seq<char>
    decreases s.len(),
{
    if s.len() > 0 && s[0] == c {
        strip_leading(s.drop_first(), c)
    } else {
        s
    }
}

/// The event name of a resource path: `OnJsonApiEvent_` and the path without its leading
/// slashes, with `/` turned into `_`.
pub open spec fn event_name_spec(path: Seq<char>) -> Seq<char> {
    "OnJsonApiEvent_"@ + replace_seq(strip_leading(path, '/'), "/"@, "_"@)
}

impl LcuSubscription {
    /// The name of the subscription on the event socket (see `event_name_spec`).
    pub fn event_name(&self) -> (r: String)
        ensures
            r@ == (match *self {
                LcuSubscription::JsonApiEvent(path) => event_name_spec(path@),
            }),
    {
        match self {
            LcuSubscription::JsonApiEvent(path) => {
                let n = path.unicode_len();
                let mut i: usize = 0;
                assert(path@.subrange(0, n as int) =~= path@);
                while i < n && path.get_char(i) == '/'
                    invariant
                        i <= n,
                        n == path@.len(),
                        strip_leading(path@, '/') == strip_leading(path@.subrange(i as int, n as int), '/'),
                    decreases n - i,
                {
                    assert(path@.subrange(i as int, n as int).drop_first() =~= path@.subrange(
                        i + 1,
                        n as int,
                    ));
                    i = i + 1;
                }
                let rest = path.substring_char(i, n);
                proof {
                    reveal_strlit("/");
                }
                let body = replace(rest, "/", "_");
                concat2("OnJsonApiEvent_", body.as_str())
            },
        }
    }

    /// The frame that subscribes to this topic: `[5,"<event name>"]`.
    pub fn subscribe_message(&self) -> (r: String)
        ensures
            r@ == "[5,\""@ + (match *self {
                LcuSubscription::JsonApiEvent(path) => event_name_spec(path@),
            }) + "\"]"@,
    {
        let name = self.event_name();
        concat3("[5,\"", name.as_str(), "\"]")
    }
}

/// Why the event socket failed.
#[derive(Clone, Copy, PartialEq, Eq, Structural)]
pub enum LcuWebSocketError {
    Unavailable,
    Authentication,
    Disconnected,
    Send,
    Unexpected,
}

impl LcuWebSocketError {
    /// The name of each error kind.
    pub open spec fn label(self) -> Seq<char> {
        match self {
            LcuWebSocketError::Unavailable => "Unavailable"@,
            LcuWebSocketError::Authentication => "Authentication"@,
            LcuWebSocketError::Disconnected => "Disconnected"@,
            LcuWebSocketError::Send => "Send"@,
            LcuWebSocketError::Unexpected => "Unexpected"@,
        }
    }

    /// The debug rendering, which names the kind and nothing else.
    pub fn debug_text(&self) -> (r: String)
        ensures
            r@ == "LcuWebSocketError(\""@ + self.label() + "\")"@,
    {
        let label = match self {
            LcuWebSocketError::Unavailable => "Unavailable",
            LcuWebSocketError::Authentication => "Authentication",
            LcuWebSocketError::Disconnected => "Disconnected",
            LcuWebSocketError::Send => "Send",
            LcuWebSocketError::Unexpected => "Unexpected",
        };
        concat3("LcuWebSocketError(\"", label, "\")")
    }
}

/// The resource path of a subscription name: after the `OnJsonApiEvent_` prefix, with
/// `_` turned into `/` and a leading `/`.
pub open spec fn uri_from_subscription_spec(subscription: Seq<char>) -> Option<Seq<char>> {
    let prefix = "OnJsonApiEvent_"@;
    if starts_with_seq(subscription, prefix) {
        Some(
            "/"@ + replace_seq(
                subscription.subrange(prefix.len() as int, subscription.len() as int),
                "_"@,
                "/"@,
            ),
        )
    } else {
        None
    }
}

/// The resource path of a subscription name (see `uri_from_subscription_spec`).
pub fn uri_from_lcu_subscription(subscription: &str) -> (r: Option<String>)
    ensures
        crate::text::opt_string_view(r) == uri_from_subscription_spec(subscription@),
{
    let prefix = "OnJsonApiEvent_";
    if !starts_with(subscription, prefix) {
        return None;
    }
    proof {
        reveal_strlit("_");
        reveal_strlit("OnJsonApiEvent_");
    }
    let n = subscription.unicode_len();
    let m = prefix.unicode_len();
    let path = subscription.substring_char(m, n);
    let body = replace(path, "_", "/");
    Some(concat2("/", body.as_str()))
}

/// The event of a frame's document: a JSON array whose first element is the opcode 8 and
/// whose third element is an object; its resource is the object's string `uri`, else the
/// one named by the subscription in the second element (when that is a string); its type
/// is the string `eventType` (empty when absent) and its data `data` (`null` when
/// absent). Anything else is no event.
pub open spec fn event_spec(doc: Option<JsonValue>) -> Option<(Seq<char>, Seq<char>, JsonValue)> {
    match doc {
        Some(JsonValue::Array(items)) => if items@.len() < 3 || json_i64(items@[0]) != Some(8i64) {
            None
        } else {
            match items@[2] {
                JsonValue::Object(m) => {
                    let payload = items@[2];
                    let uri = match json_member_str(payload, "uri"@) {
                        Some(u) => Some(u),
                        None => match json_str(items@[1]) {
                            Some(sub) => uri_from_subscription_spec(sub),
                            None => None,
                        },
                    };
                    match uri {
                        Some(u) => Some(
                            (
                                u,
                                match json_member_str(payload, "eventType"@) {
                                    Some(t) => t,
                                    None => Seq::empty(),
                                },
                                match first_key_index(m@, "data"@) {
                                    Some(k) => m@[k].1,
                                    None => JsonValue::Null,
                                },
                            ),
                        ),
                        None => None,
                    }
                },
                _ => None,
            }
        },
        _ => None,
    }
}

/// An event frame of the socket: the event of the document of `text` (see `event_spec`).
pub fn parse_lcu_websocket_event_text(text: &str) -> (r: Option<LcuWebSocketEvent>)
    ensures
        match event_spec(json_parse(text@)) {
            Some((uri, event_type, data)) => r matches Some(e) && e.uri@ == uri && e.event_type@
                == event_type && e.data == data,
            None => r is None,
        },
{
    let value = match json_from_str(text) {
        Some(v) => v,
        None => {
            return None;
        },
    };
    let mut items = match value {
        JsonValue::Array(items) => items,
        _ => {
            return None;
        },
    };
    let ghost all = items@;
    if items.len() == 0 {
        return None;
    }
    match items[0].as_i64() {
        Some(opcode) => if opcode != 8 {
            return None;
        },
        None => {
            return None;
        },
    }
    let subscription = if items.len() > 1 {
        match items[1].as_str() {
            Some(s) => Some(s.to_string()),
            None => None,
        }
    } else {
        None
    };
    if items.len() < 3 {
        return None;
    }
    let payload = items.remove(2);
    assert(payload == all[2]);
    let ghost payload_view = payload;
    let mut members = match payload {
        JsonValue::Object(m) => m,
        _ => {
            return None;
        },
    };
    let uri_member = match member_index(&members, "uri") {
        Some(k) => match members[k].1.as_str() {
            Some(u) => Some(u.to_string()),
            None => None,
        },
        None => None,
    };
    assert(crate::text::opt_string_view(uri_member) == json_member_str(payload_view, "uri"@));
    let uri = match uri_member {
        Some(u) => u,
        None => match subscription {
            Some(s) => match uri_from_lcu_subscription(s.as_str()) {
                Some(u) => u,
                None => {
                    return None;
                },
            },
            None => {
                return None;
            },
        },
    };
    let event_type = match member_index(&members, "eventType") {
        Some(k) => match members[k].1.as_str() {
            Some(t) => t.to_string(),
            None => String::new(),
        },
        None => String::new(),
    };
    let data = match member_index(&members, "data") {
        Some(k) => members.remove(k).1,
        None => JsonValue::Null,
    };
    Some(LcuWebSocketEvent { uri, event_type, data })
}

/// The character of a six-bit value in the standard base64 alphabet: `A`-`Z`, `a`-`z`,
/// `0`-`9`, `+`, `/`.
pub open spec fn base64_char(v: int) -> char {
    if v < 26 {
        (65 + v) as char
    } else if v < 52 {
        (97 + (v - 26)) as char
    } else if v < 62 {
        (48 + (v - 52)) as char
    } else if v == 62 {
        '+'
    } else {
        '/'
    }
}

/// Standard base64 with padding (RFC 4648, section 4): each group of three bytes becomes
/// four characters of six bits each, most significant first; a last group of one or two
/// bytes is filled with zero bits and padded with `=` to four characters.
pub open spec fn base64_standard(input: Seq<u8>) -> Seq<char>
    decreases input.len(),
{
    if input.len() == 0 {
        Seq::empty()
    } else if input.len() == 1 {
        let a = input[0] as int;
        seq![base64_char(a / 4), base64_char((a % 4) * 16), '=', '=']
    } else if input.len() == 2 {
        let a = input[0] as int;
        let b = input[1] as int;
        seq![base64_char(a / 4), base64_char((a % 4) * 16 + b / 16), base64_char((b % 16) * 4), '=']
    } else {
        let a = input[0] as int;
        let b = input[1] as int;
        let c = input[2] as int;
        seq![
            base64_char(a / 4),
            base64_char((a % 4) * 16 + b / 16),
            base64_char((b % 16) * 4 + c / 64),
            base64_char(c % 64),
        ] + base64_standard(input.subrange(3, input.len() as int))
    }
}

/// `STANDARD.encode` of the base64 crate: the standard alphabet with padding, as
/// `base64_standard` states it. Inputs so long that the encoded length overflows make the
/// crate panic and are left out.
#[verifier::external_body]
fn base64_encode(input: &[u8]) -> (r: String)
    requires
        input@.len() <= usize::MAX / 2,
    ensures
        r@ == base64_standard(input@),
{
    base64::engine::general_purpose::STANDARD.encode(input)
}

/// The `Authorization` header value for the client's local API: `Basic ` and the base64
/// of `riot:<password>` (UTF-8).
pub fn basic_auth_header(password: &str) -> (r: String)
    requires
        vstd::utf8::encode_utf8("riot:"@ + password@).len() <= usize::MAX / 2,
    ensures
        r@ == "Basic "@ + base64_standard(vstd::utf8::encode_utf8("riot:"@ + password@)),
{
    let credentials = concat2("riot:", password);
    let bytes = credentials.as_str().as_bytes();
    let encoded = base64_encode(bytes);
    concat2("Basic ", encoded.as_str())
}

/// `s` with every `a` replaced by `b`.
pub open spec fn swap_char(s: Seq<char>, a: char, b: char) -> Seq<char> {
    s.map_values(|c: char| if c == a {
        b
    } else {
        c
    })
}

/// Replacing a one-character pattern by a one-character text swaps that character.
proof fn lemma_replace_single(s: Seq<char>, a: char, b: char)
    ensures
        replace_seq(s, seq![a], seq![b]) == swap_char(s, a, b),
    decreases s.len(),
{
    if s.len() > 0 {
        lemma_replace_single(s.drop_first(), a, b);
        assert(s.subrange(1, s.len() as int) =~= s.drop_first());
        if s[0] == a {
            assert(s.subrange(0, 1) =~= seq![a]);
            assert(occurs_at(s, seq![a], 0));
        } else {
            assert(s.subrange(0, 1)[0] == s[0]);
            assert(!occurs_at(s, seq![a], 0));
        }
        assert(replace_seq(s, seq![a], seq![b]) =~= swap_char(s, a, b));
    }
}

/// The resource named by an event frame that carries only its subscription is the path
/// that was subscribed to, for a path with one leading slash and no underscore (an
/// underscore would come back as a slash).
pub proof fn lemma_subscription_uri_round_trip(path: Seq<char>)
    requires
        path.len() > 0,
        path[0] == '/',
        path.len() > 1 ==> path[1] != '/',
        forall|i: int| 0 <= i < path.len() ==> path[i] != '_',
    ensures
        uri_from_subscription_spec(event_name_spec(path)) == Some(path),
{
    reveal_strlit("/");
    reveal_strlit("_");
    reveal_strlit("OnJsonApiEvent_");
    assert("/"@ =~= seq!['/']);
    assert("_"@ =~= seq!['_']);
    let q = path.drop_first();
    assert(strip_leading(path, '/') == strip_leading(q, '/'));
    assert(strip_leading(q, '/') == q);
    lemma_replace_single(q, '/', '_');
    let body = swap_char(q, '/', '_');
    let name = event_name_spec(path);
    let prefix = "OnJsonApiEvent_"@;
    assert(name == prefix + body);
    assert(name.subrange(0, prefix.len() as int) =~= prefix);
    assert(name.subrange(prefix.len() as int, name.len() as int) =~= body);
    lemma_replace_single(body, '_', '/');
    assert(swap_char(body, '_', '/') =~= q);
    assert("/"@ + q =~= path);
}

} // verus!
