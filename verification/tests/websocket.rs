use gz_viewer::gz_msgs::StringMsgV;
use gz_viewer::scene::SceneState;
use gz_viewer::websocket::{
    connect_address, parse_binary_message, port_from_query, protos_request, resolve_port,
    status_report, websocket_url, BinaryMessage, GzWebSocket, StatusColor, WsMessage, WsReaction,
};

fn session() -> GzWebSocket {
    GzWebSocket::connecting("ws://localhost:9002")
}

#[test]
fn protos_request_is_json_array() {
    assert_eq!(protos_request(), "[\"protos\",\"\",\"\",\"\"]");
}

#[test]
fn connecting_status() {
    let ws = session();
    assert_eq!(ws.status, "Connecting to ws://localhost:9002...");
    assert!(ws.protos.is_none());
    assert!(ws.scene_data.is_none());
    assert_eq!(GzWebSocket::socket_failed().status, "Failed to Create Socket");
}

#[test]
fn status_message_is_trimmed() {
    let mut ws = session();
    let reply = ws.handle_text_message("STATUS: Connected".to_string());
    assert!(reply.is_none());
    assert_eq!(ws.status, "Connected");
    ws.handle_text_message(status_report("Error: refused"));
    assert_eq!(ws.status, "Error: refused");
}

#[test]
fn status_removes_every_marker() {
    let mut ws = session();
    ws.handle_text_message("STATUS:\t a STATUS:b \n".to_string());
    assert_eq!(ws.status, "a b");
}

#[test]
fn authorized_requests_protos() {
    let mut ws = session();
    let reply = ws.handle_text_message("authorized".to_string());
    assert_eq!(reply.as_deref(), Some("[\"protos\",\"\",\"\",\"\"]"));
    assert_eq!(ws.status, "Authorized, Requesting Protos...");
}

#[test]
fn invalid_key() {
    let mut ws = session();
    assert!(ws.handle_text_message("invalid".to_string()).is_none());
    assert_eq!(ws.status, "Auth Failed: Invalid Key");
}

#[test]
fn protos_are_kept_once() {
    let mut ws = session();
    ws.handle_text_message("package gz.msgs;".to_string());
    assert_eq!(ws.protos.as_deref(), Some("package gz.msgs;"));
    assert_eq!(ws.status, "Protos Received");
    ws.status = "World: w".to_string();
    ws.handle_text_message("something else".to_string());
    assert_eq!(ws.protos.as_deref(), Some("package gz.msgs;"));
    assert_eq!(ws.status, "World: w");
}

#[test]
fn status_display_colors() {
    let mut ws = session();
    assert_eq!(ws.status_display(false), ("WS: Connecting to ws://localhost:9002...".to_string(), StatusColor::Yellow));
    ws.status = "Connected".to_string();
    assert_eq!(ws.status_display(false).1, StatusColor::PaleGreen);
    ws.status = "Error: x".to_string();
    assert_eq!(ws.status_display(false).1, StatusColor::Red);
    ws.status = "Closed".to_string();
    assert_eq!(ws.status_display(false), ("WS: Closed".to_string(), StatusColor::Red));
    ws.protos = Some("p".to_string());
    assert_eq!(ws.status_display(false), ("WS: Connected (Protos Loaded)".to_string(), StatusColor::Green));
    assert_eq!(ws.status_display(true), ("WS: Scene Loaded".to_string(), StatusColor::Green));
}

#[test]
fn binary_frames() {
    match parse_binary_message(b"pub,worlds,gz.msgs.StringMsg_V,\x0a\x05hello") {
        BinaryMessage::Worlds { payload } => assert_eq!(payload, b"\x0a\x05hello".to_vec()),
        other => panic!("unexpected {:?}", other),
    }
    match parse_binary_message(b"pub,scene,gz.msgs.Scene,a,b,c") {
        BinaryMessage::Scene { payload } => assert_eq!(payload, b"a,b,c".to_vec()),
        other => panic!("unexpected {:?}", other),
    }
    match parse_binary_message(b"pub,clock,gz.msgs.Clock,") {
        BinaryMessage::UnhandledTopic { topic } => assert_eq!(topic, b"clock".to_vec()),
        other => panic!("unexpected {:?}", other),
    }
    match parse_binary_message(b"sub,scene,,xyz") {
        BinaryMessage::UnhandledOperation { operation } => assert_eq!(operation, b"sub".to_vec()),
        other => panic!("unexpected {:?}", other),
    }
    assert!(matches!(parse_binary_message(b"pub,scene"), BinaryMessage::Malformed));
    assert!(matches!(parse_binary_message(b"pub,scene,type"), BinaryMessage::Malformed));
    assert!(matches!(parse_binary_message(b""), BinaryMessage::Malformed));
    match parse_binary_message(b",,,") {
        BinaryMessage::UnhandledOperation { operation } => assert!(operation.is_empty()),
        other => panic!("unexpected {:?}", other),
    }
}

#[test]
fn handle_messages() {
    let mut ws = session();
    match ws.handle_message(WsMessage::Binary(b"pub,scene,gz.msgs.Scene,\x01\x02".to_vec())) {
        WsReaction::Done => {}
        other => panic!("unexpected {:?}", other),
    }
    assert_eq!(ws.scene_data, Some(vec![1u8, 2u8]));
    assert_eq!(ws.status, "Scene Received, Processing...");
    match ws.handle_message(WsMessage::Binary(b"pub,worlds,t,\x07".to_vec())) {
        WsReaction::DecodeWorlds(p) => assert_eq!(p, vec![7u8]),
        other => panic!("unexpected {:?}", other),
    }
    match ws.handle_message(WsMessage::Text("authorized".to_string())) {
        WsReaction::Send(s) => assert_eq!(s, "[\"protos\",\"\",\"\",\"\"]"),
        other => panic!("unexpected {:?}", other),
    }
    match ws.handle_message(WsMessage::Binary(b"oops".to_vec())) {
        WsReaction::Ignored(BinaryMessage::Malformed) => {}
        other => panic!("unexpected {:?}", other),
    }
}

#[test]
fn worlds_give_the_world_name() {
    let mut ws = session();
    let mut state = SceneState::default();
    let msg = StringMsgV { header: None, data: vec!["shapes".to_string(), "other".to_string()] };
    assert!(ws.apply_worlds(&mut state, &msg));
    assert_eq!(state.world_name.as_deref(), Some("shapes"));
    assert_eq!(ws.status, "World: shapes");
    let empty = StringMsgV { header: None, data: vec![] };
    let mut state2 = SceneState::default();
    assert!(!ws.apply_worlds(&mut state2, &empty));
    assert!(state2.world_name.is_none());
}

#[test]
fn port_resolution() {
    assert_eq!(resolve_port(None, None, None), "9002");
    assert_eq!(resolve_port(Some("9100"), None, None), "9100");
    assert_eq!(resolve_port(Some("9100"), Some(""), None), "9100");
    assert_eq!(resolve_port(Some("9100"), Some("9200"), None), "9200");
    assert_eq!(resolve_port(None, None, Some("?port=9300&x=1")), "9300");
    assert_eq!(resolve_port(Some("9100"), Some("9200"), Some("?port=9300")), "9300");
    assert_eq!(resolve_port(Some("9100"), None, Some("?port=&a=b")), "9100");
    assert_eq!(resolve_port(None, None, Some("?x=1")), "9002");
}

#[test]
fn query_port() {
    assert_eq!(port_from_query("?port=9090").as_deref(), Some("9090"));
    assert_eq!(port_from_query("?a=1&port=7&b=2").as_deref(), Some("7"));
    assert_eq!(port_from_query("?sport=5").as_deref(), Some("5"));
    assert_eq!(port_from_query("?port="), None);
    assert_eq!(port_from_query(""), None);
}

#[test]
fn urls_and_addresses() {
    assert_eq!(websocket_url("9002"), "ws://localhost:9002");
    assert_eq!(connect_address("ws://localhost:9002"), "localhost:9002");
    assert_eq!(connect_address("wss://host:1"), "host:1");
    assert_eq!(connect_address("ws://ws://h"), "h");
    assert_eq!(connect_address("host:1"), "host:1");
    assert_eq!(status_report("Connecting..."), "STATUS: Connecting...");
}
