//! The Gazebo websocket protocol: connection status, text messages,
//! binary frames (`operation,topic,msgType,<payload>`), and the address the
//! viewer connects to.
use vstd::prelude::*;
use crate::gz_msgs::StringMsgV;
use crate::scene::SceneState;
use crate::text::{
    chars_of, contains, find, find_exec, index_of_char, index_of_char_from, is_prefix,
    lemma_find_contains, lemma_find_from, lemma_index_of_char, lemma_index_of_char_at, occurs_at, push_str, replace_all,
    replace_all_exec, str_contains, str_eq, str_starts_with, string_of, string_of_range, trim,
    trim_exec, trim_start_matches, trim_start_matches_exec,
};

verus! {

// ───────────────────────── outside calls ─────────────────────────

/// The compact JSON text of an array of strings, as `serde_json` writes it.
pub uninterp spec fn json_string_array(items: Seq<Seq<char>>) -> Seq<char>;

/// A string that JSON writes as it is between its quotes: no `"`, no `\`
/// and no control character below U+0020.
pub open spec fn json_plain(s: Seq<char>) -> bool {
    forall|i: int| 0 <= i < s.len() ==> s[i] != '"' && s[i] != '\\' && s[i] as u32 >= 32
}

/// The items, each between double quotes, joined by commas.
pub open spec fn json_quoted_list(items: Seq<Seq<char>>) -> Seq<char>
    decreases items.len(),
{
    if items.len() == 0 {
        seq![]
    } else if items.len() == 1 {
        seq!['"'] + items[0] + seq!['"']
    } else {
        json_quoted_list(items.drop_last()) + seq![','] + seq!['"'] + items.last() + seq!['"']
    }
}

/// The compact JSON array of plain strings: `[`, the quoted items joined by
/// commas, `]`.
pub open spec fn json_plain_array(items: Seq<Seq<char>>) -> Seq<char> {
    seq!['['] + json_quoted_list(items) + seq![']']
}

/// Calls `serde_json::Value::from(Vec<String>)` and `Value::to_string`:
/// the result is `json_string_array` of the items, a function of the items
/// alone. When no item needs escaping, it is the compact array text itself
/// (`[` + each item in double quotes, comma-separated + `]`), as serde_json's
/// compact formatter and its escape table (only `"`, `\` and control
/// characters are escaped) write it; how escaped characters are written is
/// left to `serde_json`.
#[verifier::external_body]
fn json_array_of_strings(items: Vec<String>) -> (r: String)
    ensures
        r@ == json_string_array(items@.map_values(|s: String| s@)),
        (forall|i: int| 0 <= i < items@.len() ==> json_plain(#[trigger] items@[i]@)) ==> r@
            == json_plain_array(items@.map_values(|s: String| s@)),
{
    serde_json::Value::from(items).to_string()
}

// ───────────────────────── messages ─────────────────────────

/// A message received from the websocket.
#[derive(Debug)]
pub enum WsMessage {
    Text(String),
    Binary(Vec<u8>),
}

/// The colour in which the connection status is shown.
#[derive(Clone, Copy, Debug, PartialEq, Eq, Structural)]
pub enum StatusColor {
    /// Scene loaded, or protobuf definitions received.
    Green,
    /// Connected.
    PaleGreen,
    /// An error, or the connection closed.
    Red,
    /// Anything else (e.g. connecting).
    Yellow,
}

/// The websocket session: the status line, the protobuf definitions once
/// received, and scene bytes waiting to be processed.
#[derive(Debug)]
pub struct GzWebSocket {
    pub status: String,
    pub protos: Option<String>,
    /// Binary scene data received from the websocket, ready for processing.
    pub scene_data: Option<Vec<u8>>,
}

/// The fields of a [`GzWebSocket`] by their contents.
pub struct GzWebSocketView {
    pub status: Seq<char>,
    pub protos: Option<Seq<char>>,
    pub scene_data: Option<Seq<u8>>,
}

impl View for GzWebSocket {
    type V = GzWebSocketView;

    open spec fn view(&self) -> GzWebSocketView {
        GzWebSocketView {
            status: self.status@,
            protos: match self.protos {
                Some(p) => Some(p@),
                None => None,
            },
            scene_data: match self.scene_data {
                Some(d) => Some(d@),
                None => None,
            },
        }
    }
}

/// How a text message from the server is read.
pub enum TextKind {
    /// `STATUS:...`: a status report of the connection.
    Status,
    /// `authorized`: the key was accepted.
    Authorized,
    /// `invalid`: the key was refused.
    InvalidKey,
    /// Anything else: the protobuf definitions, the first time.
    Other,
}

pub open spec fn text_kind(txt: Seq<char>) -> TextKind {
    if is_prefix("STATUS:"@, txt) {
        TextKind::Status
    } else if txt == "authorized"@ {
        TextKind::Authorized
    } else if txt == "invalid"@ {
        TextKind::InvalidKey
    } else {
        TextKind::Other
    }
}

/// The request for the protobuf definitions: the JSON array
/// `["protos","","",""]`.
pub open spec fn protos_request_text() -> Seq<char> {
    "[\"protos\",\"\",\"\",\"\"]"@
}

/// The session after the text message `txt`.
pub open spec fn after_text(v: GzWebSocketView, txt: Seq<char>) -> GzWebSocketView {
    match text_kind(txt) {
        TextKind::Status => GzWebSocketView {
            status: trim(replace_all(txt, "STATUS:"@, ""@)),
            ..v
        },
        TextKind::Authorized => GzWebSocketView { status: "Authorized, Requesting Protos..."@, ..v },
        TextKind::InvalidKey => GzWebSocketView { status: "Auth Failed: Invalid Key"@, ..v },
        TextKind::Other => if v.protos is None {
            GzWebSocketView { status: "Protos Received"@, protos: Some(txt), ..v }
        } else {
            v
        },
    }
}

/// The status line and its colour.
pub open spec fn status_display(v: GzWebSocketView, scene_loaded: bool) -> (Seq<char>, StatusColor) {
    if scene_loaded {
        ("WS: Scene Loaded"@, StatusColor::Green)
    } else if v.protos is Some {
        ("WS: Connected (Protos Loaded)"@, StatusColor::Green)
    } else {
        (
            "WS: "@ + v.status,
            if contains(v.status, "Connected"@) {
                StatusColor::PaleGreen
            } else if contains(v.status, "Error"@) || contains(v.status, "Closed"@) {
                StatusColor::Red
            } else {
                StatusColor::Yellow
            },
        )
    }
}

/// The request for the protobuf definitions, `["protos","","",""]`.
pub fn protos_request() -> (r: String)
    ensures
        r@ == protos_request_text(),
{
    let mut items: Vec<String> = Vec::new();
    items.push(string_of("protos"));
    items.push(string_of(""));
    items.push(string_of(""));
    items.push(string_of(""));
    let ghost views = seq!["protos"@, ""@, ""@, ""@];
    proof {
        reveal_strlit("protos");
        reveal_strlit("");
        reveal_strlit("[\"protos\",\"\",\"\",\"\"]");
        assert(items@.map_values(|s: String| s@) =~= views);
        assert forall|i: int| 0 <= i < items@.len() implies json_plain(#[trigger] items@[i]@) by {
            assert(items@[i]@ == views[i]);
        }
        reveal_with_fuel(json_quoted_list, 5);
        assert(json_plain_array(views) =~= protos_request_text());
    }
    json_array_of_strings(items)
}

/// A status report as the connection thread sends it: `STATUS: <detail>`.
pub fn status_report(detail: &str) -> (r: String)
    ensures
        r@ == "STATUS: "@ + detail@,
{
    let mut r = String::new();
    push_str(&mut r, "STATUS: ");
    push_str(&mut r, detail);
    r
}

impl GzWebSocket {
    /// A session that is connecting to `url`.
    pub fn connecting(url: &str) -> (ws: GzWebSocket)
        ensures
            ws@.status == "Connecting to "@ + url@ + "..."@,
            ws@.protos is None,
            ws@.scene_data is None,
    {
        let mut status = String::new();
        push_str(&mut status, "Connecting to ");
        push_str(&mut status, url);
        push_str(&mut status, "...");
        GzWebSocket { status, protos: None, scene_data: None }
    }

    /// A session whose socket could not be created.
    pub fn socket_failed() -> (ws: GzWebSocket)
        ensures
            ws@.status == "Failed to Create Socket"@,
            ws@.protos is None,
            ws@.scene_data is None,
    {
        GzWebSocket { status: string_of("Failed to Create Socket"), protos: None, scene_data: None }
    }

    /// Handles a text message from the server. Returns the message to send
    /// back, if any: the protobuf definitions request once the key is
    /// accepted.
    pub fn handle_text_message(&mut self, txt: String) -> (reply: Option<String>)
        ensures
            final(self)@ == after_text(old(self)@, txt@),
            text_kind(txt@) is Authorized ==> (reply matches Some(r) && r@ == protos_request_text()),
            !(text_kind(txt@) is Authorized) ==> reply is None,
    {
        if str_starts_with(txt.as_str(), "STATUS:") {
            let t = chars_of(txt.as_str());
            let pat = chars_of("STATUS:");
            let empty: Vec<char> = Vec::new();
            proof {
                reveal_strlit("");
                reveal_strlit("STATUS:");
                assert(empty@ =~= ""@);
            }
            let replaced = replace_all_exec(&t, &pat, &empty);
            let r = chars_of(replaced.as_str());
            self.status = trim_exec(&r);
            None
        } else if str_eq(txt.as_str(), "authorized") {
            let request = protos_request();
            self.status = string_of("Authorized, Requesting Protos...");
            Some(request)
        } else if str_eq(txt.as_str(), "invalid") {
            self.status = string_of("Auth Failed: Invalid Key");
            None
        } else {
            if self.protos.is_none() {
                self.protos = Some(txt);
                self.status = string_of("Protos Received");
            }
            None
        }
    }

    /// The status line to show and its colour.
    pub fn status_display(&self, scene_loaded: bool) -> (r: (String, StatusColor))
        ensures
            (r.0@, r.1) == status_display(self@, scene_loaded),
    {
        if scene_loaded {
            (string_of("WS: Scene Loaded"), StatusColor::Green)
        } else if self.protos.is_some() {
            (string_of("WS: Connected (Protos Loaded)"), StatusColor::Green)
        } else {
            let mut line = String::new();
            push_str(&mut line, "WS: ");
            push_str(&mut line, self.status.as_str());
            let color = if str_contains(self.status.as_str(), "Connected") {
                StatusColor::PaleGreen
            } else if str_contains(self.status.as_str(), "Error") || str_contains(
                self.status.as_str(),
                "Closed",
            ) {
                StatusColor::Red
            } else {
                StatusColor::Yellow
            };
            (line, color)
        }
    }
}

// ───────────────────────── binary frames ─────────────────────────

/// The byte `,` that separates the header fields of a binary frame.
pub open spec fn is_comma(b: u8) -> bool {
    b == 44u8
}

/// Index of the first comma in `s`, or `s.len()` when there is none.
pub open spec fn first_comma(s: Seq<u8>) -> int
    decreases s.len(),
{
    if s.len() == 0 {
        0
    } else if is_comma(s[0]) {
        0
    } else {
        1 + first_comma(s.drop_first())
    }
}

/// The four parts of a binary frame `operation,topic,msgType,<payload>`:
/// everything before the first comma, between the first and second, between
/// the second and third, and after the third. `None` when the data holds
/// fewer than three commas.
pub open spec fn frame_parts(data: Seq<u8>) -> Option<(Seq<u8>, Seq<u8>, Seq<u8>, Seq<u8>)> {
    let c0 = first_comma(data);
    let r0 = data.skip(c0 + 1);
    let c1 = first_comma(r0);
    let r1 = r0.skip(c1 + 1);
    let c2 = first_comma(r1);
    if c0 >= data.len() || c1 >= r0.len() || c2 >= r1.len() {
        None
    } else {
        Some((data.take(c0), r0.take(c1), r1.take(c2), r1.skip(c2 + 1)))
    }
}

/// The frame `operation,topic,msgType,<payload>` as bytes.
pub open spec fn frame_bytes(op: Seq<u8>, topic: Seq<u8>, ty: Seq<u8>, payload: Seq<u8>) -> Seq<u8> {
    op + seq![44u8] + topic + seq![44u8] + ty + seq![44u8] + payload
}

/// The UTF-8 bytes of `pub`.
pub open spec fn pub_bytes() -> Seq<u8> {
    seq![112u8, 117u8, 98u8]
}

/// The UTF-8 bytes of `worlds`.
pub open spec fn worlds_bytes() -> Seq<u8> {
    seq![119u8, 111u8, 114u8, 108u8, 100u8, 115u8]
}

/// The UTF-8 bytes of `scene`.
pub open spec fn scene_bytes() -> Seq<u8> {
    seq![115u8, 99u8, 101u8, 110u8, 101u8]
}

/// A binary message, sorted by its header.
#[derive(Debug)]
pub enum BinaryMessage {
    /// Fewer than three commas: no header.
    Malformed,
    /// `pub,worlds,...`: a `StringMsg_V` with the world names.
    Worlds { payload: Vec<u8> },
    /// `pub,scene,...`: a `Scene`.
    Scene { payload: Vec<u8> },
    /// A `pub` frame on another topic.
    UnhandledTopic { topic: Vec<u8> },
    /// A frame with another operation.
    UnhandledOperation { operation: Vec<u8> },
}

/// What a binary message with data `data` is. A header field is compared
/// with a word by its bytes, which is the same as comparing its UTF-8 text
/// with the word (bytes that are not UTF-8 match no word).
pub open spec fn binary_message_matches(data: Seq<u8>, m: BinaryMessage) -> bool {
    match frame_parts(data) {
        None => m is Malformed,
        Some((op, topic, _ty, payload)) => if op != pub_bytes() {
            m matches BinaryMessage::UnhandledOperation { operation } && operation@ == op
        } else if topic == worlds_bytes() {
            m matches BinaryMessage::Worlds { payload: p } && p@ == payload
        } else if topic == scene_bytes() {
            m matches BinaryMessage::Scene { payload: p } && p@ == payload
        } else {
            m matches BinaryMessage::UnhandledTopic { topic: t } && t@ == topic
        },
    }
}

/// Index of the first comma in `data` at or after `from`, or `data.len()`.
fn first_comma_from(data: &[u8], from: usize) -> (k: usize)
    requires
        from <= data@.len(),
    ensures
        k as int == from + first_comma(data@.skip(from as int)),
        k <= data@.len(),
{
    let mut k = from;
    while k < data.len() && data[k] != 44u8
        invariant
            from <= k <= data@.len(),
            first_comma(data@.skip(from as int)) == (k - from) + first_comma(data@.skip(k as int)),
        decreases data@.len() - k,
    {
        assert(data@.skip(k as int).drop_first() =~= data@.skip(k + 1));
        k = k + 1;
    }
    if k == data.len() {
        assert(data@.skip(k as int).len() == 0);
    } else {
        assert(data@.skip(k as int)[0] == data@[k as int]);
    }
    k
}

/// A copy of `data[from..to]`.
fn bytes_range(data: &[u8], from: usize, to: usize) -> (r: Vec<u8>)
    requires
        from <= to <= data@.len(),
    ensures
        r@ == data@.subrange(from as int, to as int),
{
    let mut r: Vec<u8> = Vec::new();
    let mut i = from;
    while i < to
        invariant
            from <= i <= to <= data@.len(),
            r@ == data@.subrange(from as int, i as int),
        decreases to - i,
    {
        r.push(data[i]);
        assert(data@.subrange(from as int, i + 1) =~= data@.subrange(from as int, i as int).push(
            data@[i as int],
        ));
        i = i + 1;
    }
    r
}

/// Are `a` and `b` the same bytes?
fn bytes_eq(a: &Vec<u8>, b: &Vec<u8>) -> (r: bool)
    ensures
        r == (a@ == b@),
{
    if a.len() != b.len() {
        return false;
    }
    let mut i: usize = 0;
    while i < a.len()
        invariant
            a.len() == b.len(),
            i <= a.len(),
            forall|k: int| 0 <= k < i ==> a@[k] == b@[k],
        decreases a.len() - i,
    {
        if a[i] != b[i] {
            return false;
        }
        i = i + 1;
    }
    assert(a@ =~= b@);
    true
}

/// `first_comma` lies within the data, finds a comma when below its
/// length, and no comma comes before it.
pub proof fn lemma_first_comma(s: Seq<u8>)
    ensures
        0 <= first_comma(s) <= s.len(),
        first_comma(s) < s.len() ==> is_comma(s[first_comma(s)]),
        forall|j: int| 0 <= j < first_comma(s) ==> !is_comma(#[trigger] s[j]),
    decreases s.len(),
{
    if s.len() > 0 && !is_comma(s[0]) {
        lemma_first_comma(s.drop_first());
        assert forall|j: int| 0 <= j < first_comma(s) implies !is_comma(#[trigger] s[j]) by {
            if j > 0 {
                assert(s[j] == s.drop_first()[j - 1]);
            }
        }
    }
}

/// Parses a binary websocket message in the gz-transport frame format
/// `operation,topic,msgType,<protobuf payload>` and sorts it by its header.
pub fn parse_binary_message(data: &[u8]) -> (m: BinaryMessage)
    ensures
        binary_message_matches(data@, m),
{
    let ghost d = data@;
    assert(d.skip(0) =~= d);
    let c0 = first_comma_from(data, 0);
    if c0 >= data.len() {
        return BinaryMessage::Malformed;
    }
    let ghost r0 = d.skip(c0 + 1);
    let c1 = first_comma_from(data, c0 + 1);
    proof {
        lemma_first_comma(r0);
        assert(first_comma(r0) == c1 - c0 - 1);
    }
    if c1 >= data.len() {
        return BinaryMessage::Malformed;
    }
    let ghost r1 = r0.skip(first_comma(r0) + 1);
    assert(r1 =~= d.skip(c1 + 1));
    let c2 = first_comma_from(data, c1 + 1);
    proof {
        lemma_first_comma(r1);
        assert(first_comma(r1) == c2 - c1 - 1);
    }
    if c2 >= data.len() {
        return BinaryMessage::Malformed;
    }
    let op = bytes_range(data, 0, c0);
    let topic = bytes_range(data, c0 + 1, c1);
    let payload = bytes_range(data, c2 + 1, data.len());
    proof {
        assert(d.take(c0 as int) =~= op@);
        assert(r0.take(first_comma(r0)) =~= topic@);
        assert(r1.skip(first_comma(r1) + 1) =~= payload@);
    }
    let pub_word: Vec<u8> = vec![112u8, 117u8, 98u8];
    let worlds_word: Vec<u8> = vec![119u8, 111u8, 114u8, 108u8, 100u8, 115u8];
    let scene_word: Vec<u8> = vec![115u8, 99u8, 101u8, 110u8, 101u8];
    assert(pub_word@ =~= pub_bytes());
    assert(worlds_word@ =~= worlds_bytes());
    assert(scene_word@ =~= scene_bytes());
    if !bytes_eq(&op, &pub_word) {
        BinaryMessage::UnhandledOperation { operation: op }
    } else if bytes_eq(&topic, &worlds_word) {
        BinaryMessage::Worlds { payload }
    } else if bytes_eq(&topic, &scene_word) {
        BinaryMessage::Scene { payload }
    } else {
        BinaryMessage::UnhandledTopic { topic }
    }
}

/// The first comma of `a , rest` is the one after `a`, when `a` holds none.
proof fn lemma_first_comma_after(a: Seq<u8>, rest: Seq<u8>)
    requires
        forall|i: int| 0 <= i < a.len() ==> !is_comma(#[trigger] a[i]),
    ensures
        first_comma(a + seq![44u8] + rest) == a.len(),
    decreases a.len(),
{
    let s = a + seq![44u8] + rest;
    if a.len() > 0 {
        assert(s[0] == a[0]);
        assert(s.drop_first() =~= a.drop_first() + seq![44u8] + rest);
        assert forall|i: int| 0 <= i < a.drop_first().len() implies !is_comma(
            #[trigger] a.drop_first()[i],
        ) by {
            assert(a.drop_first()[i] == a[i + 1]);
        }
        lemma_first_comma_after(a.drop_first(), rest);
    } else {
        assert(s[0] == 44u8);
    }
}

/// A frame built from an operation, a topic and a message type that hold no
/// comma, and any payload, parses back into those four parts.
pub proof fn lemma_frame_roundtrip(op: Seq<u8>, topic: Seq<u8>, ty: Seq<u8>, payload: Seq<u8>)
    requires
        forall|i: int| 0 <= i < op.len() ==> !is_comma(#[trigger] op[i]),
        forall|i: int| 0 <= i < topic.len() ==> !is_comma(#[trigger] topic[i]),
        forall|i: int| 0 <= i < ty.len() ==> !is_comma(#[trigger] ty[i]),
    ensures
        frame_parts(frame_bytes(op, topic, ty, payload)) == Some((op, topic, ty, payload)),
{
    let d = frame_bytes(op, topic, ty, payload);
    let rest0 = topic + seq![44u8] + ty + seq![44u8] + payload;
    let rest1 = ty + seq![44u8] + payload;
    assert(d =~= op + seq![44u8] + rest0);
    lemma_first_comma_after(op, rest0);
    let r0 = d.skip(op.len() as int + 1);
    assert(r0 =~= rest0);
    assert(rest0 =~= topic + seq![44u8] + rest1);
    lemma_first_comma_after(topic, rest1);
    let r1 = r0.skip(topic.len() as int + 1);
    assert(r1 =~= rest1);
    lemma_first_comma_after(ty, payload);
    assert(d.take(op.len() as int) =~= op);
    assert(r0.take(topic.len() as int) =~= topic);
    assert(r1.take(ty.len() as int) =~= ty);
    assert(r1.skip(ty.len() as int + 1) =~= payload);
}

// ───────────────────────── session updates ─────────────────────────

/// What to do after a message from the websocket.
#[derive(Debug)]
pub enum WsReaction {
    /// Nothing more to do.
    Done,
    /// Send this text back to the server.
    Send(String),
    /// Decode these bytes as a `StringMsg_V` and pass the result to
    /// [`GzWebSocket::apply_worlds`].
    DecodeWorlds(Vec<u8>),
    /// A binary message that was not used (no header, or an operation or
    /// topic that the viewer does not handle).
    Ignored(BinaryMessage),
}

impl GzWebSocket {
    /// Keeps received scene bytes for processing.
    pub fn receive_scene_data(&mut self, payload: Vec<u8>)
        ensures
            final(self)@.scene_data == Some(payload@),
            final(self)@.status == "Scene Received, Processing..."@,
            final(self)@.protos == old(self)@.protos,
    {
        self.scene_data = Some(payload);
        self.status = string_of("Scene Received, Processing...");
    }

    /// Takes the world name from a decoded list of worlds: the first entry,
    /// if there is one. Returns whether a name was taken.
    pub fn apply_worlds(&mut self, scene_state: &mut SceneState, worlds: &StringMsgV) -> (taken: bool)
        ensures
            taken == (worlds.data@.len() > 0),
            taken ==> final(scene_state)@.world_name == Some(worlds.data@[0]@),
            taken ==> final(self)@.status == "World: "@ + worlds.data@[0]@,
            !taken ==> final(scene_state)@ == old(scene_state)@ && final(self)@ == old(self)@,
            final(self)@.protos == old(self)@.protos,
            final(self)@.scene_data == old(self)@.scene_data,
            final(scene_state)@.loaded == old(scene_state)@.loaded,
            final(scene_state)@.scene_requested == old(scene_state)@.scene_requested,
            final(scene_state)@.worlds_requested == old(scene_state)@.worlds_requested,
    {
        if worlds.data.len() == 0 {
            return false;
        }
        let name = worlds.data[0].clone();
        let mut status = String::new();
        push_str(&mut status, "World: ");
        push_str(&mut status, name.as_str());
        scene_state.world_name = Some(name);
        self.status = status;
        true
    }

    /// Handles one message from the websocket: text messages update the
    /// session (see [`GzWebSocket::handle_text_message`]); binary frames on
    /// `pub,scene` keep the scene bytes, and those on `pub,worlds` are handed
    /// back for decoding.
    pub fn handle_message(&mut self, msg: WsMessage) -> (r: WsReaction)
        ensures
            msg matches WsMessage::Text(txt) ==> {
                &&& final(self)@ == after_text(old(self)@, txt@)
                &&& text_kind(txt@) is Authorized ==> (r matches WsReaction::Send(s) && s@
                    == protos_request_text())
                &&& !(text_kind(txt@) is Authorized) ==> r is Done
            },
            msg matches WsMessage::Binary(data) ==> match frame_parts(data@) {
                Some((op, topic, _ty, payload)) => if op == pub_bytes() && topic == scene_bytes() {
                    &&& r is Done
                    &&& final(self)@.scene_data == Some(payload)
                    &&& final(self)@.status == "Scene Received, Processing..."@
                    &&& final(self)@.protos == old(self)@.protos
                } else if op == pub_bytes() && topic == worlds_bytes() {
                    &&& r matches WsReaction::DecodeWorlds(p) && p@ == payload
                    &&& final(self)@ == old(self)@
                } else {
                    &&& r matches WsReaction::Ignored(m) && binary_message_matches(data@, m)
                    &&& final(self)@ == old(self)@
                },
                None => r matches WsReaction::Ignored(m) && m is Malformed && final(self)@ == old(
                    self,
                )@,
            },
    {
        match msg {
            WsMessage::Text(txt) => match self.handle_text_message(txt) {
                Some(reply) => WsReaction::Send(reply),
                None => WsReaction::Done,
            },
            WsMessage::Binary(data) => {
                let m = parse_binary_message(data.as_slice());
                match m {
                    BinaryMessage::Scene { payload } => {
                        self.receive_scene_data(payload);
                        WsReaction::Done
                    },
                    BinaryMessage::Worlds { payload } => WsReaction::DecodeWorlds(payload),
                    other => WsReaction::Ignored(other),
                }
            },
        }
    }
}

// ───────────────────────── connection address ─────────────────────────

/// The port given by a URL query string: the text after the first
/// `port=`, up to the next `&`; `None` when there is no `port=` or nothing
/// follows it.
pub open spec fn port_in_query(query: Seq<char>) -> Option<Seq<char>> {
    match find(query, "port="@) {
        Some(i) => {
            let rest = query.skip(i + "port="@.len());
            let value = rest.take(index_of_char(rest, '&'));
            if value.len() > 0 {
                Some(value)
            } else {
                None
            }
        },
        None => None,
    }
}

/// The port to connect to: the URL query parameter if it gives one, else
/// the run-time environment value if it is non-empty, else the compile-time
/// value, else `9002`.
pub open spec fn resolved_port(
    compile_time: Option<Seq<char>>,
    run_time: Option<Seq<char>>,
    query: Option<Seq<char>>,
) -> Seq<char> {
    let base = match compile_time {
        Some(p) => p,
        None => "9002"@,
    };
    let with_env = match run_time {
        Some(e) => if e.len() > 0 {
            e
        } else {
            base
        },
        None => base,
    };
    match query {
        Some(q) => match port_in_query(q) {
            Some(p) => p,
            None => with_env,
        },
        None => with_env,
    }
}

/// Which source gives the port: a `port=` value in the URL query takes
/// precedence; then a non-empty run-time value; then the compile-time value;
/// then `9002`.
pub proof fn lemma_port_precedence(
    compile_time: Option<Seq<char>>,
    run_time: Option<Seq<char>>,
    query: Option<Seq<char>>,
)
    ensures
        (query matches Some(q) && port_in_query(q) is Some) ==> resolved_port(
            compile_time,
            run_time,
            query,
        ) == port_in_query(query->0)->0,
        !(query matches Some(q) && port_in_query(q) is Some) && (run_time matches Some(e) && e.len()
            > 0) ==> resolved_port(compile_time, run_time, query) == run_time->0,
        !(query matches Some(q) && port_in_query(q) is Some) && !(run_time matches Some(e) && e.len()
            > 0) ==> resolved_port(compile_time, run_time, query) == match compile_time {
            Some(c) => c,
            None => "9002"@,
        },
{
}

/// The port given by the URL query string `query` (`?port=<port>`), if any.
pub fn port_from_query(query: &str) -> (r: Option<String>)
    ensures
        r matches Some(p) ==> port_in_query(query@) == Some(p@),
        r is None ==> port_in_query(query@) is None,
{
    let q = chars_of(query);
    let key = chars_of("port=");
    match find_exec(&q, &key) {
        Some(i) => {
            proof {
                lemma_find_contains(q@, key@);
                assert(occurs_at(q@, key@, i as int));
            }
            let kl = key.len();
            assert(i + kl <= q.len());
            let start = i + kl;
            let end = index_of_char_from(&q, '&', start);
            proof {
                let rest = q@.skip(start as int);
                lemma_index_of_char(rest, '&');
                assert(rest.take(index_of_char(rest, '&')) =~= q@.subrange(start as int, end as int));
            }
            if end > start {
                Some(string_of_range(&q, start, end))
            } else {
                None
            }
        },
        None => None,
    }
}

/// Resolves the websocket port. `compile_time` is the value baked in when
/// building, `run_time` the environment value at start (native builds), and
/// `query` the page's URL query string (browser builds); later sources take
/// precedence, and an empty value counts as none.
pub fn resolve_port(compile_time: Option<&str>, run_time: Option<&str>, query: Option<&str>) -> (r: String)
    ensures
        r@ == resolved_port(
            match compile_time {
                Some(p) => Some(p@),
                None => None,
            },
            match run_time {
                Some(p) => Some(p@),
                None => None,
            },
            match query {
                Some(p) => Some(p@),
                None => None,
            },
        ),
{
    let mut port = match compile_time {
        Some(p) => string_of(p),
        None => string_of("9002"),
    };
    if let Some(e) = run_time {
        let ev = chars_of(e);
        if ev.len() > 0 {
            port = string_of(e);
        }
    }
    if let Some(q) = query {
        if let Some(p) = port_from_query(q) {
            port = p;
        }
    }
    port
}

/// The websocket URL for `port`: `ws://localhost:<port>`.
pub fn websocket_url(port: &str) -> (r: String)
    ensures
        r@ == "ws://localhost:"@ + port@,
{
    let mut r = String::new();
    push_str(&mut r, "ws://localhost:");
    push_str(&mut r, port);
    r
}

/// The `host:port` address of a websocket URL: the URL without its leading
/// `ws://`s, then without its leading `wss://`s.
pub fn connect_address(url: &str) -> (r: String)
    ensures
        r@ == trim_start_matches(trim_start_matches(url@, "ws://"@), "wss://"@),
{
    let a = trim_start_matches_exec(url, "ws://");
    trim_start_matches_exec(a.as_str(), "wss://")
}

// ───────────────────────── the native connection thread ─────────────────────────

/// What a read from the native socket gave.
#[derive(Debug)]
pub enum SocketEvent {
    Text(String),
    Binary(Vec<u8>),
    Ping(Vec<u8>),
    Close,
    /// Any other frame (pong, raw frame).
    OtherFrame,
    /// Nothing to read yet.
    WouldBlock,
    /// A read error, with its text.
    Failed(String),
}

/// What the connection thread does next.
#[derive(Debug)]
pub enum SocketAction {
    /// Pass the message on to the session, and read on.
    Forward(WsMessage),
    /// Answer with a pong carrying these bytes, and read on.
    Pong(Vec<u8>),
    /// Wait a little (10 ms), and read on.
    Wait,
    /// Read on.
    Skip,
    /// Pass this status report on, and end the connection.
    Stop(WsMessage),
}

/// The connection thread's reaction to a read: text and binary frames are
/// passed on, pings answered, a close or an error reported as the status
/// (`STATUS: Closed`, `STATUS: Error: <error>`) before the thread ends.
pub fn socket_action(event: SocketEvent) -> (a: SocketAction)
    ensures
        event matches SocketEvent::Text(t) ==> (a matches SocketAction::Forward(WsMessage::Text(u))
            && u@ == t@),
        event matches SocketEvent::Binary(b) ==> (a matches SocketAction::Forward(
            WsMessage::Binary(c),
        ) && c@ == b@),
        event matches SocketEvent::Ping(b) ==> (a matches SocketAction::Pong(c) && c@ == b@),
        event is Close ==> (a matches SocketAction::Stop(WsMessage::Text(u)) && u@ == "STATUS: "@
            + "Closed"@),
        event is OtherFrame ==> a is Skip,
        event is WouldBlock ==> a is Wait,
        event matches SocketEvent::Failed(e) ==> (a matches SocketAction::Stop(WsMessage::Text(u))
            && u@ == "STATUS: "@ + ("Error: "@ + e@)),
{
    match event {
        SocketEvent::Text(t) => SocketAction::Forward(WsMessage::Text(t)),
        SocketEvent::Binary(b) => SocketAction::Forward(WsMessage::Binary(b)),
        SocketEvent::Ping(b) => SocketAction::Pong(b),
        SocketEvent::Close => SocketAction::Stop(WsMessage::Text(status_report("Closed"))),
        SocketEvent::OtherFrame => SocketAction::Skip,
        SocketEvent::WouldBlock => SocketAction::Wait,
        SocketEvent::Failed(e) => {
            let mut detail = string_of("Error: ");
            push_str(&mut detail, e.as_str());
            SocketAction::Stop(WsMessage::Text(status_report(detail.as_str())))
        },
    }
}


// ───────────────────────── laws ─────────────────────────

/// A text that starts with `STATUS:` is a status report; exactly
/// `authorized` is an accepted key; exactly `invalid` a refused one.
pub proof fn lemma_text_kinds(rest: Seq<char>)
    ensures
        text_kind("STATUS:"@ + rest) is Status,
        text_kind("authorized"@) is Authorized,
        text_kind("invalid"@) is InvalidKey,
{
    reveal_strlit("STATUS:");
    reveal_strlit("authorized");
    reveal_strlit("invalid");
    assert(("STATUS:"@ + rest).take(7) =~= "STATUS:"@);
    assert("authorized"@[0] != "STATUS:"@[0]);
    assert("invalid"@[0] != "STATUS:"@[0]);
    assert("authorized"@.take(7)[0] == "authorized"@[0]);
    assert("invalid"@.take(7)[0] == "invalid"@[0]);
    assert("invalid"@ != "authorized"@) by {
        assert("invalid"@[0] != "authorized"@[0]);
    }
}

/// The query `<pre>port=<value><post>`, whose first `port=` follows `<pre>`,
/// gives the port `<value>` when `<value>` is not empty, holds no `&`, and
/// `<post>` is empty or starts a new parameter with `&`; with an empty
/// `<value>` it gives none. A query without `port=` gives none.
pub proof fn lemma_query_port(query: Seq<char>, pre: Seq<char>, value: Seq<char>, post: Seq<char>)
    requires
        forall|i: int| 0 <= i < value.len() ==> value[i] != '&',
        post.len() == 0 || post[0] == '&',
    ensures
        query == pre + "port="@ + value + post && (forall|i: int| 0 <= i < pre.len() ==> !occurs_at(query, "port="@, i))
            ==> port_in_query(query) == (if value.len() > 0 {
            Some(value)
        } else {
            None::<Seq<char>>
        }),
        !contains(query, "port="@) ==> port_in_query(query) is None,
{
    lemma_find_contains(query, "port="@);
    if query == pre + "port="@ + value + post && (forall|i: int| 0 <= i < pre.len() ==> !occurs_at(query, "port="@, i)) {
        reveal_strlit("port=");
        let at = pre.len() as int;
        assert(query.subrange(at, at + 5) =~= "port="@);
        assert(occurs_at(query, "port="@, at));
        lemma_find_from(query, "port="@, 0);
        assert(find(query, "port="@) == Some(at));
        let rest = query.skip(at + 5);
        assert(rest =~= value + post);
        lemma_index_of_char_at(rest, '&', value.len() as int);
        assert(rest.take(value.len() as int) =~= value);
    }
}

/// The frames `pub,worlds,<type>,<payload>` and `pub,scene,<type>,<payload>`
/// carry the world names and the scene as their payload; a `pub` frame on
/// another comma-free topic is an unhandled topic, and a frame whose
/// comma-free operation is not `pub` an unhandled operation. A frame is read
/// as a message only in this way.
pub proof fn lemma_binary_frames(op: Seq<u8>, topic: Seq<u8>, ty: Seq<u8>, payload: Seq<u8>, m: BinaryMessage)
    requires
        forall|i: int| 0 <= i < op.len() ==> !is_comma(#[trigger] op[i]),
        forall|i: int| 0 <= i < topic.len() ==> !is_comma(#[trigger] topic[i]),
        forall|i: int| 0 <= i < ty.len() ==> !is_comma(#[trigger] ty[i]),
    ensures
        op == seq![112u8, 117u8, 98u8] && topic == seq![119u8, 111u8, 114u8, 108u8, 100u8, 115u8] ==> (
        binary_message_matches(frame_bytes(op, topic, ty, payload), m) <==> (m matches BinaryMessage::Worlds {
            payload: p,
        } && p@ == payload)),
        op == seq![112u8, 117u8, 98u8] && topic == seq![115u8, 99u8, 101u8, 110u8, 101u8] ==> (
        binary_message_matches(frame_bytes(op, topic, ty, payload), m) <==> (m matches BinaryMessage::Scene {
            payload: p,
        } && p@ == payload)),
        op == seq![112u8, 117u8, 98u8] && topic != seq![119u8, 111u8, 114u8, 108u8, 100u8, 115u8] && topic != seq![
            115u8,
            99u8,
            101u8,
            110u8,
            101u8,
        ] ==> (binary_message_matches(frame_bytes(op, topic, ty, payload), m) <==> (
        m matches BinaryMessage::UnhandledTopic { topic: t } && t@ == topic)),
        op != seq![112u8, 117u8, 98u8] ==> (binary_message_matches(frame_bytes(op, topic, ty, payload), m) <==> (
        m matches BinaryMessage::UnhandledOperation { operation: o } && o@ == op)),
{
    lemma_frame_roundtrip(op, topic, ty, payload);
    assert(pub_bytes() =~= seq![112u8, 117u8, 98u8]);
    assert(worlds_bytes() =~= seq![119u8, 111u8, 114u8, 108u8, 100u8, 115u8]);
    assert(scene_bytes() =~= seq![115u8, 99u8, 101u8, 110u8, 101u8]);
}

} // verus!
