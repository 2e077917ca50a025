//! The Discord rich-presence client: the activity shown, the JSON payloads
//! sent for it, the framing of the local IPC protocol and where its socket
//! may be found.

use vstd::prelude::*;
use crate::project::{join_path, path_joined};
use crate::text::{decimal, decimal_string, decimal_string_wide, digit_char, push_char};

verus! {

/// The protocol version sent in the handshake.
pub const RPC_VERSION: u32 = 1;

/// Opcode of the handshake frame.
pub const OP_HANDSHAKE: u32 = 0;
/// Opcode of an ordinary command frame.
pub const OP_FRAME: u32 = 1;
/// Opcode of the frame that closes the connection.
pub const OP_CLOSE: u32 = 2;

/// A link shown under the activity.
#[derive(Debug)]
pub struct Button {
    pub label: String,
    pub url: String,
}

/// What the user's profile shows about the session.
#[derive(Debug)]
pub struct Activity {
    pub state: Option<String>,
    pub details: Option<String>,
    pub large_image: Option<String>,
    pub large_text: Option<String>,
    pub small_image: Option<String>,
    pub small_text: Option<String>,
    pub start_timestamp: Option<u64>,
    pub buttons: Option<Vec<Button>>,
}

// ---------------------------------------------------------------------------
// JSON text
// ---------------------------------------------------------------------------

/// The lower-case hexadecimal digit of `d` (below 16).
pub open spec fn hex_digit(d: nat) -> char {
    if d < 10 {
        digit_char(d)
    } else if d == 10 { 'a' }
    else if d == 11 { 'b' }
    else if d == 12 { 'c' }
    else if d == 13 { 'd' }
    else if d == 14 { 'e' }
    else { 'f' }
}

/// How `c` is written inside a JSON string: a quote and a backslash behind a
/// backslash, the usual short escapes for backspace, tab, line feed, form
/// feed and carriage return, other control characters below U+0020 as
/// `\u00XX` in lower-case hex, and every other character as itself.
pub open spec fn json_char(c: char) -> Seq<char> {
    if c == '"' {
        seq!['\\', '"']
    } else if c == '\\' {
        seq!['\\', '\\']
    } else if c == '\u{8}' {
        seq!['\\', 'b']
    } else if c == '\t' {
        seq!['\\', 't']
    } else if c == '\n' {
        seq!['\\', 'n']
    } else if c == '\u{c}' {
        seq!['\\', 'f']
    } else if c == '\r' {
        seq!['\\', 'r']
    } else if (c as nat) < 0x20 {
        seq!['\\', 'u', '0', '0', hex_digit((c as nat) / 16), hex_digit((c as nat) % 16)]
    } else {
        seq![c]
    }
}

/// The characters of `s`, each escaped as in a JSON string.
pub open spec fn json_escaped(s: Seq<char>) -> Seq<char>
    decreases s.len(),
{
    if s.len() == 0 {
        Seq::empty()
    } else {
        json_escaped(s.drop_last()) + json_char(s.last())
    }
}

/// The JSON string literal serde_json writes for `s`: `s` escaped, between
/// double quotes.
pub open spec fn json_string(s: Seq<char>) -> Seq<char> {
    seq!['"'] + json_escaped(s) + seq!['"']
}

/// Writes `s` as a JSON string literal with `serde_json::to_string`, which
/// escapes quotes, backslashes and control characters below U+0020 and
/// copies every other character.
#[verifier::external_body]
fn quote_json(s: &str) -> (q: String)
    ensures
        q@ == json_string(s@),
{
    serde_json::to_string(s).unwrap_or_default()
}

/// `items` separated by commas.
pub open spec fn comma_joined(items: Seq<Seq<char>>) -> Seq<char>
    decreases items.len(),
{
    if items.len() == 0 {
        Seq::empty()
    } else if items.len() == 1 {
        items[0]
    } else {
        comma_joined(items.drop_last()).push(',') + items.last()
    }
}

/// A JSON object with the given `"key":value` members, written compactly.
pub open spec fn json_object(members: Seq<Seq<char>>) -> Seq<char> {
    seq!['{'] + comma_joined(members) + seq!['}']
}

/// A JSON array of the given values, written compactly.
pub open spec fn json_array(items: Seq<Seq<char>>) -> Seq<char> {
    seq!['['] + comma_joined(items) + seq![']']
}

/// One `"key":value` member.
pub open spec fn member(key: Seq<char>, value: Seq<char>) -> Seq<char> {
    json_string(key).push(':') + value
}

/// The member for an optional string field: none when it is absent.
pub open spec fn text_member(key: Seq<char>, value: Option<String>) -> Seq<Seq<char>> {
    match value {
        Some(v) => seq![member(key, json_string(v@))],
        None => Seq::empty(),
    }
}

pub open spec fn button_json(b: Button) -> Seq<char> {
    json_object(seq![member("label"@, json_string(b.label@)), member("url"@, json_string(b.url@))])
}

pub open spec fn asset_members(a: Activity) -> Seq<Seq<char>> {
    text_member("large_image"@, a.large_image) + text_member("large_text"@, a.large_text)
        + text_member("small_image"@, a.small_image) + text_member("small_text"@, a.small_text)
}

/// The members of an activity's JSON object, in the order serde_json's
/// sorted map writes them.
pub open spec fn activity_members(a: Activity) -> Seq<Seq<char>> {
    let assets = asset_members(a);
    (if assets.len() > 0 { seq![member("assets"@, json_object(assets))] } else { Seq::empty() })
        + (match a.buttons {
            Some(bs) => seq![member("buttons"@, json_array(bs@.map_values(|b: Button| button_json(b))))],
            None => Seq::empty(),
        })
        + text_member("details"@, a.details)
        + text_member("state"@, a.state)
        + (match a.start_timestamp {
            Some(ts) => seq![member("timestamps"@, json_object(seq![member("start"@, decimal(ts as nat))]))],
            None => Seq::empty(),
        })
}

/// Writes `members` as one JSON object.
fn write_object(members: &Vec<String>) -> (s: String)
    ensures
        s@ == json_object(members@.map_values(|m: String| m@)),
{
    let ghost views = members@.map_values(|m: String| m@);
    let mut s = String::new();
    push_char(&mut s, '{');
    let mut i: usize = 0;
    while i < members.len()
        invariant
            i <= members@.len(),
            views == members@.map_values(|m: String| m@),
            s@ == seq!['{'] + comma_joined(views.take(i as int)),
        decreases members.len() - i,
    {
        let ghost before = s@;
        if i > 0 {
            push_char(&mut s, ',');
        }
        s.append(members[i].as_str());
        proof {
            let t = views.take(i + 1);
            assert(t.drop_last() =~= views.take(i as int));
            assert(t.last() == members@[i as int]@);
            if i == 0 {
                assert(s@ =~= seq!['{'] + comma_joined(t));
            } else {
                assert(s@ =~= seq!['{'] + comma_joined(t));
            }
        }
        i += 1;
    }
    push_char(&mut s, '}');
    proof {
        assert(views.take(members@.len() as int) =~= views);
    }
    s
}

/// Writes `items` as one JSON array.
fn write_array(items: &Vec<String>) -> (s: String)
    ensures
        s@ == json_array(items@.map_values(|m: String| m@)),
{
    let ghost views = items@.map_values(|m: String| m@);
    let mut s = String::new();
    push_char(&mut s, '[');
    let mut i: usize = 0;
    while i < items.len()
        invariant
            i <= items@.len(),
            views == items@.map_values(|m: String| m@),
            s@ == seq!['['] + comma_joined(views.take(i as int)),
        decreases items.len() - i,
    {
        if i > 0 {
            push_char(&mut s, ',');
        }
        s.append(items[i].as_str());
        proof {
            let t = views.take(i + 1);
            assert(t.drop_last() =~= views.take(i as int));
            assert(t.last() == items@[i as int]@);
            assert(s@ =~= seq!['['] + comma_joined(t));
        }
        i += 1;
    }
    push_char(&mut s, ']');
    proof {
        assert(views.take(items@.len() as int) =~= views);
    }
    s
}

/// Writes the member `"key":value`.
fn write_member(key: &str, value: &str) -> (s: String)
    ensures
        s@ == member(key@, value@),
{
    let mut s = quote_json(key);
    push_char(&mut s, ':');
    s.append(value);
    s
}

/// Adds the member for an optional string field to `members`.
fn push_text_member(members: &mut Vec<String>, key: &str, value: &Option<String>)
    ensures
        final(members)@.map_values(|m: String| m@) == old(members)@.map_values(|m: String| m@)
            + text_member(key@, *value),
{
    let ghost before = members@;
    if let Some(v) = value {
        let q = quote_json(v.as_str());
        members.push(write_member(key, q.as_str()));
        assert(members@.map_values(|m: String| m@) =~= before.map_values(|m: String| m@)
            + text_member(key@, *value));
    } else {
        assert(members@.map_values(|m: String| m@) =~= before.map_values(|m: String| m@)
            + text_member(key@, *value));
    }
}

impl Activity {
    /// An activity that shows nothing.
    pub fn new() -> (a: Self)
        ensures
            a.state is None,
            a.details is None,
            a.large_image is None,
            a.large_text is None,
            a.small_image is None,
            a.small_text is None,
            a.start_timestamp is None,
            a.buttons is None,
    {
        Activity {
            state: None,
            details: None,
            large_image: None,
            large_text: None,
            small_image: None,
            small_text: None,
            start_timestamp: None,
            buttons: None,
        }
    }

    /// The activity as the JSON object Discord expects: each field that is
    /// set, the images and their captions gathered under `assets`, the start
    /// time under `timestamps`.
    pub fn to_json(&self) -> (s: String)
        ensures
            s@ == json_object(activity_members(*self)),
    {
        let mut assets: Vec<String> = Vec::new();
        push_text_member(&mut assets, "large_image", &self.large_image);
        push_text_member(&mut assets, "large_text", &self.large_text);
        push_text_member(&mut assets, "small_image", &self.small_image);
        push_text_member(&mut assets, "small_text", &self.small_text);
        let ghost asset_views = assets@.map_values(|m: String| m@);
        assert(asset_views =~= Seq::<Seq<char>>::empty() + text_member("large_image"@, self.large_image)
            + text_member("large_text"@, self.large_text) + text_member("small_image"@, self.small_image)
            + text_member("small_text"@, self.small_text));
        assert(asset_views =~= asset_members(*self));

        let mut members: Vec<String> = Vec::new();
        if assets.len() > 0 {
            let obj = write_object(&assets);
            members.push(write_member("assets", obj.as_str()));
        }
        let ghost m1 = members@.map_values(|m: String| m@);
        assert(m1 =~= (if asset_members(*self).len() > 0 {
            seq![member("assets"@, json_object(asset_members(*self)))]
        } else {
            Seq::empty()
        }));
        match &self.buttons {
            Some(bs) => {
                let mut items: Vec<String> = Vec::new();
                let mut i: usize = 0;
                while i < bs.len()
                    invariant
                        i <= bs@.len(),
                        items@.map_values(|m: String| m@) == bs@.take(i as int).map_values(|b: Button| button_json(b)),
                    decreases bs.len() - i,
                {
                    let mut pair: Vec<String> = Vec::new();
                    let ql = quote_json(bs[i].label.as_str());
                    pair.push(write_member("label", ql.as_str()));
                    let qu = quote_json(bs[i].url.as_str());
                    pair.push(write_member("url", qu.as_str()));
                    let obj = write_object(&pair);
                    assert(pair@.map_values(|m: String| m@) =~= seq![member("label"@, json_string(bs@[i as int].label@)),
                        member("url"@, json_string(bs@[i as int].url@))]);
                    let ghost before = items@.map_values(|m: String| m@);
                    items.push(obj);
                    assert(bs@.take(i + 1) =~= bs@.take(i as int).push(bs@[i as int]));
                    assert(items@.map_values(|m: String| m@) =~= before.push(button_json(bs@[i as int])));
                    assert(bs@.take(i + 1).map_values(|b: Button| button_json(b)) =~= bs@.take(i as int).map_values(
                        |b: Button| button_json(b)).push(button_json(bs@[i as int])));
                    i += 1;
                }
                assert(bs@.take(bs@.len() as int) =~= bs@);
                let arr = write_array(&items);
                members.push(write_member("buttons", arr.as_str()));
            },
            None => {},
        }
        let ghost m2 = members@.map_values(|m: String| m@);
        assert(m2 =~= m1 + match self.buttons {
            Some(bs) => seq![member("buttons"@, json_array(bs@.map_values(|b: Button| button_json(b))))],
            None => Seq::empty(),
        });
        push_text_member(&mut members, "details", &self.details);
        push_text_member(&mut members, "state", &self.state);
        let ghost m3 = members@.map_values(|m: String| m@);
        if let Some(ts) = self.start_timestamp {
            let digits = decimal_string(ts);
            let start = write_member("start", digits.as_str());
            let mut inner: Vec<String> = Vec::new();
            inner.push(start);
            assert(inner@.map_values(|m: String| m@) =~= seq![member("start"@, decimal(ts as nat))]);
            let obj = write_object(&inner);
            members.push(write_member("timestamps", obj.as_str()));
        }
        assert(members@.map_values(|m: String| m@) =~= m3 + match self.start_timestamp {
            Some(ts) => seq![member("timestamps"@, json_object(seq![member("start"@, decimal(ts as nat))]))],
            None => Seq::empty(),
        });
        assert(members@.map_values(|m: String| m@) =~= activity_members(*self));
        write_object(&members)
    }
}

// ---------------------------------------------------------------------------
// Payloads
// ---------------------------------------------------------------------------

/// The handshake payload: protocol version and application id.
pub open spec fn handshake_json(client_id: Seq<char>) -> Seq<char> {
    json_object(seq![member("client_id"@, json_string(client_id)), member("v"@, decimal(RPC_VERSION as nat))])
}

/// The `SET_ACTIVITY` command for process `pid`; without an activity it
/// clears the one shown.
pub open spec fn set_activity_json(pid: u32, activity: Option<Seq<char>>, nonce: Seq<char>) -> Seq<char> {
    let args = match activity {
        Some(a) => seq![member("activity"@, a), member("pid"@, decimal(pid as nat))],
        None => seq![member("pid"@, decimal(pid as nat))],
    };
    json_object(seq![member("args"@, json_object(args)), member("cmd"@, json_string("SET_ACTIVITY"@)),
        member("nonce"@, json_string(nonce))])
}

/// The handshake payload for `client_id`.
pub fn handshake_payload(client_id: &str) -> (s: String)
    ensures
        s@ == handshake_json(client_id@),
{
    let mut members: Vec<String> = Vec::new();
    let q = quote_json(client_id);
    members.push(write_member("client_id", q.as_str()));
    let v = decimal_string(RPC_VERSION as u64);
    members.push(write_member("v", v.as_str()));
    assert(members@.map_values(|m: String| m@) =~= seq![member("client_id"@, json_string(client_id@)),
        member("v"@, decimal(RPC_VERSION as nat))]);
    write_object(&members)
}

/// The command that shows `activity` (its JSON text) for process `pid`, or
/// clears what is shown when there is none.
pub fn set_activity_payload(pid: u32, activity: Option<&str>, nonce: &str) -> (s: String)
    ensures
        s@ == set_activity_json(pid, match activity { Some(a) => Some(a@), None => None }, nonce@),
{
    let mut args: Vec<String> = Vec::new();
    if let Some(a) = activity {
        args.push(write_member("activity", a));
    }
    let p = decimal_string(pid as u64);
    args.push(write_member("pid", p.as_str()));
    let ghost act = match activity { Some(a) => Some(a@), None => None::<Seq<char>> };
    assert(args@.map_values(|m: String| m@) =~= match act {
        Some(a) => seq![member("activity"@, a), member("pid"@, decimal(pid as nat))],
        None => seq![member("pid"@, decimal(pid as nat))],
    });
    let args_obj = write_object(&args);
    let mut members: Vec<String> = Vec::new();
    members.push(write_member("args", args_obj.as_str()));
    let cmd = quote_json("SET_ACTIVITY");
    members.push(write_member("cmd", cmd.as_str()));
    let n = quote_json(nonce);
    members.push(write_member("nonce", n.as_str()));
    assert(members@.map_values(|m: String| m@) =~= seq![member("args"@, json_object(args@.map_values(|m: String| m@))),
        member("cmd"@, json_string("SET_ACTIVITY"@)), member("nonce"@, json_string(nonce@))]);
    write_object(&members)
}

/// A nonce for one command: the time in nanoseconds followed by the process
/// id, both in decimal.
pub fn nonce(nanos: u128, pid: u32) -> (s: String)
    ensures
        s@ == decimal(nanos as nat) + decimal(pid as nat),
{
    let mut s = decimal_string_wide(nanos);
    let p = decimal_string(pid as u64);
    s.append(p.as_str());
    s
}

// ---------------------------------------------------------------------------
// Frames
// ---------------------------------------------------------------------------

/// The four little-endian bytes of `v`.
pub open spec fn le_bytes(v: u32) -> Seq<u8> {
    seq![(v % 0x100) as u8, ((v / 0x100) % 0x100) as u8, ((v / 0x1_0000) % 0x100) as u8, (v / 0x100_0000) as u8]
}

/// A frame: opcode and payload length, each as four little-endian bytes,
/// then the payload.
pub open spec fn frame_bytes(opcode: u32, payload: Seq<u8>) -> Seq<u8> {
    le_bytes(opcode) + le_bytes(payload.len() as u32) + payload
}

fn push_le(out: &mut Vec<u8>, v: u32)
    ensures
        final(out)@ == old(out)@ + le_bytes(v),
{
    out.push((v % 0x100) as u8);
    out.push(((v / 0x100) % 0x100) as u8);
    out.push(((v / 0x1_0000) % 0x100) as u8);
    out.push((v / 0x100_0000) as u8);
}

/// The frame that carries `payload` under `opcode`.
pub fn encode_frame(opcode: u32, payload: &[u8]) -> (f: Vec<u8>)
    requires
        payload@.len() <= u32::MAX,
    ensures
        f@ == frame_bytes(opcode, payload@),
{
    let mut f: Vec<u8> = Vec::new();
    push_le(&mut f, opcode);
    push_le(&mut f, payload.len() as u32);
    let mut i: usize = 0;
    let ghost head = f@;
    while i < payload.len()
        invariant
            i <= payload@.len(),
            f@ == head + payload@.take(i as int),
        decreases payload.len() - i,
    {
        f.push(payload[i]);
        assert(payload@.take(i + 1) =~= payload@.take(i as int).push(payload@[i as int]));
        i += 1;
    }
    assert(payload@.take(payload@.len() as int) =~= payload@);
    f
}

/// The value of four little-endian bytes.
pub open spec fn le_value(b: Seq<u8>) -> nat {
    b[0] as nat + 0x100 * (b[1] as nat) + 0x1_0000 * (b[2] as nat) + 0x100_0000 * (b[3] as nat)
}

/// The opcode and payload length a frame's eight header bytes give.
pub fn decode_header(header: &[u8]) -> (h: (u32, u32))
    requires
        header@.len() == 8,
    ensures
        h.0 == le_value(header@.subrange(0, 4)),
        h.1 == le_value(header@.subrange(4, 8)),
{
    let op = header[0] as u32 + 0x100 * (header[1] as u32) + 0x1_0000 * (header[2] as u32)
        + 0x100_0000 * (header[3] as u32);
    let len = header[4] as u32 + 0x100 * (header[5] as u32) + 0x1_0000 * (header[6] as u32)
        + 0x100_0000 * (header[7] as u32);
    (op, len)
}

/// The reason a received frame ends the connection: a close frame carries
/// its message, or a fixed text when it has none; other frames carry none.
pub fn close_reason(opcode: u32, message: Option<String>) -> (r: Option<String>)
    ensures
        opcode != OP_CLOSE ==> r is None,
        opcode == OP_CLOSE ==> r is Some,
        opcode == OP_CLOSE ==> match message {
            Some(m) => r->0 == m,
            None => r->0@ == "connection closed by discord"@,
        },
{
    if opcode == OP_CLOSE {
        match message {
            Some(m) => Some(m),
            None => Some(String::from_str("connection closed by discord")),
        }
    } else {
        None
    }
}

// ---------------------------------------------------------------------------
// Where the socket is
// ---------------------------------------------------------------------------

/// The values that are set, in order.
pub open spec fn present(env: Seq<Option<String>>) -> Seq<Seq<char>>
    decreases env.len(),
{
    if env.len() == 0 {
        Seq::empty()
    } else {
        present(env.drop_last()) + match env.last() {
            Some(d) => seq![d@],
            None => Seq::empty(),
        }
    }
}

/// The name of the `i`-th socket a Discord client may listen on.
pub open spec fn ipc_name(i: nat) -> Seq<char> {
    "discord-ipc-"@ + decimal(i)
}

/// Where socket `i` lies under `dir`: directly, in a snap's directory, in a
/// flatpak's directory.
pub open spec fn socket_places(dir: Seq<char>, i: nat) -> Seq<Seq<char>> {
    seq![
        path_joined(dir, ipc_name(i)),
        path_joined(path_joined(dir, "snap.discord"@), ipc_name(i)),
        path_joined(path_joined(path_joined(dir, "app"@), "com.discordapp.Discord"@), ipc_name(i)),
    ]
}

/// The places of sockets `0..n` under `dir`.
pub open spec fn dir_sockets(dir: Seq<char>, n: nat) -> Seq<Seq<char>>
    decreases n,
{
    if n == 0 { Seq::empty() } else { dir_sockets(dir, (n - 1) as nat) + socket_places(dir, (n - 1) as nat) }
}

/// The places of sockets `0..10` under each of `dirs`, directory by
/// directory.
pub open spec fn all_sockets(dirs: Seq<Seq<char>>) -> Seq<Seq<char>>
    decreases dirs.len(),
{
    if dirs.len() == 0 { Seq::empty() } else { all_sockets(dirs.drop_last()) + dir_sockets(dirs.last(), 10) }
}

/// The name of socket `i`.
fn ipc_socket_name(i: u64) -> (s: String)
    ensures
        s@ == ipc_name(i as nat),
{
    let mut s = String::from_str("discord-ipc-");
    let d = decimal_string(i);
    s.append(d.as_str());
    s
}

/// The places of sockets `0..10` under `dir`, appended to `out`.
fn push_dir_sockets(out: &mut Vec<String>, dir: &str)
    ensures
        final(out)@.map_values(|s: String| s@) == old(out)@.map_values(|s: String| s@) + dir_sockets(dir@, 10),
{
    let ghost start = out@.map_values(|s: String| s@);
    let mut i: u64 = 0;
    let snap = join_path(dir, "snap.discord");
    let app = join_path(dir, "app");
    let flatpak = join_path(app.as_str(), "com.discordapp.Discord");
    while i < 10
        invariant
            i <= 10,
            snap@ == path_joined(dir@, "snap.discord"@),
            flatpak@ == path_joined(path_joined(dir@, "app"@), "com.discordapp.Discord"@),
            out@.map_values(|s: String| s@) == start + dir_sockets(dir@, i as nat),
        decreases 10 - i,
    {
        let name = ipc_socket_name(i);
        let ghost before = out@.map_values(|s: String| s@);
        out.push(join_path(dir, name.as_str()));
        out.push(join_path(snap.as_str(), name.as_str()));
        out.push(join_path(flatpak.as_str(), name.as_str()));
        assert(out@.map_values(|s: String| s@) =~= before + socket_places(dir@, i as nat));
        assert(dir_sockets(dir@, (i + 1) as nat) == dir_sockets(dir@, i as nat) + socket_places(dir@, i as nat));
        i += 1;
    }
}

/// Where a Discord client's socket may be, in the order to try them: for
/// each directory that the environment names (`env_dirs`, the values of
/// `XDG_RUNTIME_DIR`, `TMPDIR`, `TMP` and `TEMP` that are set) and then
/// `/tmp`, the sockets `0..10` directly, under a snap and under a flatpak.
pub fn socket_paths(env_dirs: Vec<Option<String>>) -> (paths: Vec<String>)
    ensures
        paths@.map_values(|s: String| s@) == all_sockets(present(env_dirs@).push("/tmp"@)),
{
    let mut dirs: Vec<String> = Vec::new();
    let mut k: usize = 0;
    while k < env_dirs.len()
        invariant
            k <= env_dirs@.len(),
            dirs@.map_values(|s: String| s@) == present(env_dirs@.take(k as int)),
        decreases env_dirs.len() - k,
    {
        let ghost before = dirs@.map_values(|s: String| s@);
        if let Some(d) = &env_dirs[k] {
            dirs.push(d.clone());
        }
        assert(env_dirs@.take(k + 1).drop_last() =~= env_dirs@.take(k as int));
        assert(dirs@.map_values(|s: String| s@) =~= present(env_dirs@.take(k + 1)));
        k += 1;
    }
    assert(env_dirs@.take(env_dirs@.len() as int) =~= env_dirs@);
    let ghost before_tmp = dirs@.map_values(|s: String| s@);
    dirs.push(String::from_str("/tmp"));
    let ghost all = dirs@.map_values(|s: String| s@);
    assert(all =~= present(env_dirs@).push("/tmp"@));
    let mut paths: Vec<String> = Vec::new();
    let mut j: usize = 0;
    while j < dirs.len()
        invariant
            j <= dirs@.len(),
            all == dirs@.map_values(|s: String| s@),
            paths@.map_values(|s: String| s@) == all_sockets(all.take(j as int)),
        decreases dirs.len() - j,
    {
        push_dir_sockets(&mut paths, dirs[j].as_str());
        assert(all.take(j + 1).drop_last() =~= all.take(j as int));
        assert(all.take(j + 1).last() == dirs@[j as int]@);
        j += 1;
    }
    assert(all.take(all.len() as int) =~= all);
    paths
}

/// The JSON object `{"type": kind}`.
pub(crate) fn typed_object(kind: &str) -> (s: String)
    ensures
        s@ == json_object(seq![member("type"@, json_string(kind@))]),
{
    let mut members: Vec<String> = Vec::new();
    let q = quote_json(kind);
    members.push(write_member("type", q.as_str()));
    assert(members@.map_values(|m: String| m@) =~= seq![member("type"@, json_string(kind@))]);
    write_object(&members)
}

proof fn lemma_le_round_trip(v: u32)
    ensures
        le_value(le_bytes(v)) == v,
{
    let b0 = v % 0x100;
    let b1 = (v / 0x100) % 0x100;
    let b2 = (v / 0x1_0000) % 0x100;
    let b3 = v / 0x100_0000;
    assert(b0 + 0x100 * b1 + 0x1_0000 * b2 + 0x100_0000 * b3 == v) by (bit_vector)
        requires
            b0 == v % 0x100,
            b1 == (v / 0x100) % 0x100,
            b2 == (v / 0x1_0000) % 0x100,
            b3 == v / 0x100_0000;
    assert(b3 < 0x100) by (bit_vector)
        requires
            b3 == v / 0x100_0000;
}

/// A frame's header gives back the opcode and the payload's length it was
/// written with, and the payload follows it unchanged.
pub proof fn law_frame_round_trip(opcode: u32, payload: Seq<u8>)
    requires
        payload.len() <= u32::MAX,
    ensures
        le_value(frame_bytes(opcode, payload).subrange(0, 4)) == opcode,
        le_value(frame_bytes(opcode, payload).subrange(4, 8)) == payload.len(),
        frame_bytes(opcode, payload).subrange(8, 8 + payload.len() as int) == payload,
{
    let f = frame_bytes(opcode, payload);
    let n = payload.len() as u32;
    assert(f.subrange(0, 4) =~= le_bytes(opcode));
    assert(f.subrange(4, 8) =~= le_bytes(n));
    assert(f.subrange(8, 8 + payload.len() as int) =~= payload);
    lemma_le_round_trip(opcode);
    lemma_le_round_trip(n);
}

impl Activity {
    /// The activity a debugging session shows: the logo captioned
    /// `Checkpoint.ts`, the session's start time (seconds since the epoch),
    /// and a link to the project's repository.
    pub fn for_session(started: u64) -> (a: Self)
        ensures
            a.state is None,
            a.details is None,
            a.large_image matches Some(i) && i@ == "logo"@,
            a.large_text matches Some(t) && t@ == "Checkpoint.ts"@,
            a.small_image is None,
            a.small_text is None,
            a.start_timestamp == Some(started),
            a.buttons matches Some(bs) && bs@.len() == 1 && bs@[0].label@ == "GitHub"@
                && bs@[0].url@ == "https://github.com/ErenayDev/Checkpoint-ts"@,
    {
        let mut a = Activity::new();
        a.large_image = Some(String::from_str("logo"));
        a.large_text = Some(String::from_str("Checkpoint.ts"));
        a.start_timestamp = Some(started);
        let mut buttons: Vec<Button> = Vec::new();
        buttons.push(Button {
            label: String::from_str("GitHub"),
            url: String::from_str("https://github.com/ErenayDev/Checkpoint-ts"),
        });
        a.buttons = Some(buttons);
        a
    }
}

} // verus!
