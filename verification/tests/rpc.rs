use checkpoint_ts::rpc::{
    close_reason, decode_header, encode_frame, handshake_payload, nonce, set_activity_payload, socket_paths,
    Activity, Button, OP_CLOSE, OP_FRAME,
};

#[test]
fn empty_activity_is_an_empty_object() {
    assert_eq!(Activity::new().to_json(), "{}");
}

#[test]
fn activity_json_orders_and_groups_fields() {
    let mut a = Activity::new();
    a.state = Some(" Profiler".to_string());
    a.details = Some("say \"hi\"".to_string());
    a.large_image = Some("logo".to_string());
    a.small_text = Some("x".to_string());
    a.start_timestamp = Some(1700000000);
    a.buttons = Some(vec![Button { label: "GitHub".to_string(), url: "https://e.x".to_string() }]);
    let expected = [
        "{\"assets\":{\"large_image\":\"logo\",\"small_text\":\"x\"},",
        "\"buttons\":[{\"label\":\"GitHub\",\"url\":\"https://e.x\"}],",
        "\"details\":\"say \\\"hi\\\"\",",
        "\"state\":\" Profiler\",",
        "\"timestamps\":{\"start\":1700000000}}",
    ]
    .join("");
    assert_eq!(a.to_json(), expected);
    let parsed: serde_json::Value = serde_json::from_str(&a.to_json()).unwrap();
    assert_eq!(parsed["assets"]["large_image"], "logo");
}

#[test]
fn session_activity_shows_the_logo_and_link() {
    let a = Activity::for_session(5);
    assert_eq!(
        a.to_json(),
        "{\"assets\":{\"large_image\":\"logo\",\"large_text\":\"Checkpoint.ts\"},\"buttons\":[{\"label\":\"GitHub\",\"url\":\"https://github.com/ErenayDev/Checkpoint-ts\"}],\"timestamps\":{\"start\":5}}"
    );
}

#[test]
fn payloads_match_serde_output() {
    assert_eq!(handshake_payload("123"), "{\"client_id\":\"123\",\"v\":1}");
    let a = Activity::new().to_json();
    assert_eq!(
        set_activity_payload(42, Some(&a), "n1"),
        "{\"args\":{\"activity\":{},\"pid\":42},\"cmd\":\"SET_ACTIVITY\",\"nonce\":\"n1\"}"
    );
    assert_eq!(
        set_activity_payload(42, None, "n1"),
        "{\"args\":{\"pid\":42},\"cmd\":\"SET_ACTIVITY\",\"nonce\":\"n1\"}"
    );
}

#[test]
fn nonce_joins_time_and_pid() {
    assert_eq!(nonce(1234567890123456789012u128, 77), "123456789012345678901277");
}

#[test]
fn frames_round_trip() {
    let payload = b"{\"v\":1}".to_vec();
    let f = encode_frame(OP_FRAME, &payload);
    assert_eq!(&f[..8], &[1, 0, 0, 0, 7, 0, 0, 0]);
    assert_eq!(decode_header(&f[..8]), (OP_FRAME, 7));
    assert_eq!(&f[8..], &payload[..]);
    let big = vec![b'x'; 70000];
    let g = encode_frame(0x01020304, &big);
    assert_eq!(decode_header(&g[..8]), (0x01020304, 70000));
}

#[test]
fn close_frames_end_the_connection() {
    assert_eq!(close_reason(OP_FRAME, Some("x".to_string())), None);
    assert_eq!(close_reason(OP_CLOSE, Some("bye".to_string())).as_deref(), Some("bye"));
    assert_eq!(close_reason(OP_CLOSE, None).as_deref(), Some("connection closed by discord"));
}

#[test]
fn socket_paths_cover_every_directory() {
    let paths = socket_paths(vec![Some("/run/user/1000".to_string()), None, Some("/tmp/".to_string()), None]);
    assert_eq!(paths.len(), 3 * 30);
    assert_eq!(paths[0], "/run/user/1000/discord-ipc-0");
    assert_eq!(paths[1], "/run/user/1000/snap.discord/discord-ipc-0");
    assert_eq!(paths[2], "/run/user/1000/app/com.discordapp.Discord/discord-ipc-0");
    assert_eq!(paths[29], "/run/user/1000/app/com.discordapp.Discord/discord-ipc-9");
    assert_eq!(paths[30], "/tmp/discord-ipc-0");
    assert_eq!(paths[60], "/tmp/discord-ipc-0");
    assert_eq!(paths[89], "/tmp/app/com.discordapp.Discord/discord-ipc-9");
}

#[test]
fn activity_text_is_escaped_like_json() {
    let mut a = Activity::new();
    let tricky = "q\"b\\s/t\tn\nr\rf\u{c}b\u{8}z\u{0}\u{1f}\u{7f}é☃";
    a.state = Some(tricky.to_string());
    assert_eq!(
        a.to_json(),
        format!("{{\"state\":{}}}", serde_json::to_string(tricky).unwrap())
    );
    assert_eq!(
        a.to_json(),
        "{\"state\":\"q\\\"b\\\\s/t\\tn\\nr\\rf\\fb\\bz\\u0000\\u001f\u{7f}é☃\"}"
    );
    assert_eq!(handshake_payload("a\"b"), "{\"client_id\":\"a\\\"b\",\"v\":1}");
}
