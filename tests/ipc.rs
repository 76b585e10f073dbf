use dstl::ipc::{
    decode, decode_header, encode, exec_command, find_focused_node, fullscreen_command,
    get_focused_fullscreen_node_id, text_frame, IpcError, Node, GET_TREE, RUN_COMMAND,
};

fn node(id: i64, focused: bool, fullscreen: Option<u8>, nodes: Vec<Node>, floating: Vec<Node>) -> Node {
    Node { id, name: None, focused, fullscreen_mode: fullscreen, nodes, floating_nodes: floating }
}

fn node_from_json(v: &serde_json::Value) -> Node {
    let children = |key: &str| -> Vec<Node> {
        v[key].as_array().map(|a| a.iter().map(node_from_json).collect()).unwrap_or_default()
    };
    Node {
        id: v["id"].as_i64().unwrap(),
        name: v["name"].as_str().map(|s| s.to_string()),
        focused: v["focused"].as_bool().unwrap(),
        fullscreen_mode: v["fullscreen_mode"].as_u64().map(|m| m as u8),
        nodes: children("nodes"),
        floating_nodes: children("floating_nodes"),
    }
}

#[test]
fn encode_lays_out_header_and_payload() {
    let bytes = encode(RUN_COMMAND, &b"exec vim".to_vec());
    assert_eq!(&bytes[0..6], b"i3-ipc");
    assert_eq!(&bytes[6..10], &[8, 0, 0, 0]);
    assert_eq!(&bytes[10..14], &[0, 0, 0, 0]);
    assert_eq!(&bytes[14..], b"exec vim");
    let tree = encode(GET_TREE, &Vec::new());
    assert_eq!(tree, b"i3-ipc\x00\x00\x00\x00\x04\x00\x00\x00".to_vec());
}

#[test]
fn decode_reads_back_an_encoded_frame() {
    let payload: Vec<u8> = (0..300u32).map(|i| (i % 251) as u8).collect();
    let bytes = encode(7, &payload);
    assert_eq!(&bytes[6..10], &[44, 1, 0, 0]);
    let frame = decode(&bytes).unwrap();
    assert_eq!(frame.msg_type, 7);
    assert_eq!(frame.payload, payload);
}

#[test]
fn decode_reports_each_error() {
    assert_eq!(decode(&b"i3-ipc".to_vec()).err(), Some(IpcError::Truncated));
    assert_eq!(decode(&b"i3-ipX\x00\x00\x00\x00\x04\x00\x00\x00".to_vec()).err(), Some(IpcError::BadMagic));
    assert_eq!(decode(&b"i3-ipc\x02\x00\x00\x00\x04\x00\x00\x00{".to_vec()).err(), Some(IpcError::Truncated));
    assert_eq!(decode(&b"i3-ipc\x00\x00\x00\x00\x04\x00\x00\x00}".to_vec()).err(), Some(IpcError::TrailingBytes));
}

#[test]
fn decode_header_gives_length_and_type() {
    assert_eq!(decode_header(&b"i3-ipc\x10\x01\x00\x00\x04\x00\x00\x00".to_vec()), Ok((272, 4)));
    assert_eq!(decode_header(&b"i3-ipc\x10".to_vec()), Err(IpcError::Truncated));
    assert_eq!(decode_header(&b"xx-ipc\x10\x01\x00\x00\x04\x00\x00\x00".to_vec()), Err(IpcError::BadMagic));
}

#[test]
fn get_tree_round_trip_finds_fullscreen_node() {
    let request = text_frame(GET_TREE, "");
    let sent = decode(&request).unwrap();
    assert_eq!(sent.msg_type, GET_TREE);
    assert!(sent.payload.is_empty());
    let json = r#"{"id":1,"name":null,"focused":true,"fullscreen_mode":1,"nodes":[],"floating_nodes":[]}"#;
    let response = text_frame(GET_TREE, json);
    let received = decode(&response).unwrap();
    assert_eq!(received.msg_type, GET_TREE);
    let value: serde_json::Value = serde_json::from_slice(&received.payload).unwrap();
    let tree = node_from_json(&value);
    assert_eq!(get_focused_fullscreen_node_id(&tree), Some(1));
}

#[test]
fn focused_search_goes_depth_first_tiled_before_floating() {
    let tree = node(
        1,
        false,
        None,
        vec![node(2, false, None, vec![node(3, true, Some(0), vec![], vec![])], vec![])],
        vec![node(4, true, Some(1), vec![], vec![])],
    );
    assert_eq!(find_focused_node(&tree).map(|n| n.id), Some(3));
    assert_eq!(get_focused_fullscreen_node_id(&tree), None);
    let floating = node(1, false, None, vec![node(2, false, None, vec![], vec![])], vec![node(4, true, Some(2), vec![], vec![])]);
    assert_eq!(get_focused_fullscreen_node_id(&floating), Some(4));
    let none = node(1, false, Some(1), vec![], vec![]);
    assert!(find_focused_node(&none).is_none());
    let unknown_mode = node(9, true, None, vec![], vec![]);
    assert_eq!(get_focused_fullscreen_node_id(&unknown_mode), None);
}

#[test]
fn command_texts() {
    assert_eq!(exec_command("alacritty -e vim"), "exec alacritty -e vim");
    assert_eq!(fullscreen_command(true, Some(42)), "[con_id=42] fullscreen enable");
    assert_eq!(fullscreen_command(false, Some(-7)), "[con_id=-7] fullscreen disable");
    assert_eq!(fullscreen_command(true, Some(0)), "[con_id=0] fullscreen enable");
    assert_eq!(fullscreen_command(true, Some(1907)), "[con_id=1907] fullscreen enable");
    assert_eq!(fullscreen_command(false, Some(i64::MIN)), "[con_id=-9223372036854775808] fullscreen disable");
    assert_eq!(fullscreen_command(false, Some(i64::MAX)), "[con_id=9223372036854775807] fullscreen disable");
    assert_eq!(fullscreen_command(true, None), "fullscreen enable");
    assert_eq!(fullscreen_command(false, None), "fullscreen disable");
    let frame = text_frame(RUN_COMMAND, "fullscreen enable");
    assert_eq!(&frame[6..10], &[17, 0, 0, 0]);
    assert_eq!(&frame[14..], b"fullscreen enable");
}
