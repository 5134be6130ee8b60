use cln_plugin::channel::OutputChannel;
use cln_plugin::codec::{find_terminator, take_frame, FrameError, JsonCodec, JsonRpcCodec, TERMINATOR};
use cln_plugin::json::{find_member, Json};
use cln_plugin::messages::{response, GetManifestCall, InitCall, Message, Notification, Request};

fn round_trip(message: Message, again: Message) {
    let codec = JsonRpcCodec::new();
    let mut wire = Vec::new();
    codec.encode(message, &mut wire);
    assert_eq!(wire.last(), Some(&TERMINATOR));
    assert_eq!(wire.iter().filter(|b| **b == TERMINATOR).count(), 1);
    assert_eq!(codec.decode(&mut wire), Some(Ok(again)));
    assert!(wire.is_empty());
}

#[test]
fn getmanifest_round_trip() {
    round_trip(
        Message::Request(1, Request::Getmanifest(GetManifestCall {})),
        Message::Request(1, Request::Getmanifest(GetManifestCall {})),
    );
}

#[test]
fn init_round_trip() {
    let options = || {
        vec![
            ("greeting".to_string(), Json::String("line\none \"two\"".to_string())),
            ("count".to_string(), Json::Signed(-3)),
            ("big".to_string(), Json::Unsigned(u64::MAX)),
            ("loud".to_string(), Json::Bool(true)),
            ("none".to_string(), Json::Null),
        ]
    };
    round_trip(
        Message::Request(u64::MAX, Request::Init(InitCall { options: options() })),
        Message::Request(u64::MAX, Request::Init(InitCall { options: options() })),
    );
}

#[test]
fn custom_request_round_trip() {
    let params = || Json::Array(vec![Json::Unsigned(1), Json::Object(vec![]), Json::Array(vec![])]);
    round_trip(
        Message::Request(0, Request::Custom { method: "hello".to_string(), params: params() }),
        Message::Request(0, Request::Custom { method: "hello".to_string(), params: params() }),
    );
}

#[test]
fn notification_round_trip() {
    let params = || Json::Object(vec![("peer".to_string(), Json::String("\u{e9}\u{1F600}".to_string()))]);
    round_trip(
        Message::Notification(Notification { method: "connect".to_string(), params: params() }),
        Message::Notification(Notification { method: "connect".to_string(), params: params() }),
    );
}

#[test]
fn a_number_that_is_no_integer_is_carried_through() {
    let codec = JsonCodec::new();
    let mut wire = b"{\"a\":1.5,\"b\":-0.25e2,\"c\":18446744073709551616}\n".to_vec();
    let value = codec.decode(&mut wire).unwrap().unwrap();
    match find_member(
        match &value {
            Json::Object(members) => members,
            _ => panic!("no object"),
        },
        "a",
    ) {
        Some(Json::Real(n)) => assert_eq!(n.to_string(), "1.5"),
        other => panic!("unexpected {:?}", other),
    }
    assert_eq!(value.get("a").unwrap().as_i64(), None);
    assert_eq!(value.get("a").unwrap().as_u64(), None);
    let mut again = Vec::new();
    codec.encode(&value, &mut again);
    assert_eq!(
        String::from_utf8(again).unwrap(),
        "{\"a\":1.5,\"b\":-25.0,\"c\":1.8446744073709552e+19}\n"
    );
}

#[test]
fn integers_are_read_as_integers() {
    let codec = JsonCodec::new();
    let mut wire = b"[0,-1,9223372036854775807,9223372036854775808,18446744073709551615,-9223372036854775808]\n".to_vec();
    assert_eq!(
        codec.decode(&mut wire),
        Some(Ok(Json::Array(vec![
            Json::Unsigned(0),
            Json::Signed(-1),
            Json::Unsigned(9223372036854775807),
            Json::Unsigned(9223372036854775808),
            Json::Unsigned(u64::MAX),
            Json::Signed(i64::MIN),
        ])))
    );
    assert_eq!(Json::Unsigned(9223372036854775807).as_i64(), Some(i64::MAX));
    assert_eq!(Json::Unsigned(9223372036854775808).as_i64(), None);
    assert_eq!(Json::Signed(-1).as_u64(), None);
    assert_eq!(Json::Signed(5).as_u64(), Some(5));
    assert_eq!(Json::Unsigned(7).as_u64(), Some(7));
    assert_eq!(Json::String("7".to_string()).as_i64(), None);
}

#[test]
fn the_last_member_of_a_name_counts() {
    let value = Json::Object(vec![
        ("a".to_string(), Json::Unsigned(1)),
        ("b".to_string(), Json::Unsigned(2)),
        ("a".to_string(), Json::Unsigned(3)),
    ]);
    assert_eq!(value.get("a"), Some(&Json::Unsigned(3)));
    assert_eq!(value.get("b"), Some(&Json::Unsigned(2)));
    assert_eq!(value.get("c"), None);
    assert_eq!(Json::Array(vec![]).get("a"), None);
    assert_eq!(Json::Bool(true).as_bool(), Some(true));
    assert_eq!(Json::Null.as_bool(), None);
    assert_eq!(Json::String("x".to_string()).as_str(), Some(&"x".to_string()));
    assert_eq!(Json::Null.as_str(), None);
}

#[test]
fn decode_takes_one_frame_and_leaves_the_rest() {
    let codec = JsonRpcCodec::new();
    let mut wire = b"{\"method\":\"a\"}\n{\"method\":\"b\",\"id\":null}\n{\"meth".to_vec();
    assert_eq!(
        codec.decode(&mut wire),
        Some(Ok(Message::Notification(Notification { method: "a".to_string(), params: Json::Null })))
    );
    assert_eq!(wire, b"{\"method\":\"b\",\"id\":null}\n{\"meth".to_vec());
    assert_eq!(
        codec.decode(&mut wire),
        Some(Ok(Message::Notification(Notification { method: "b".to_string(), params: Json::Null })))
    );
    assert_eq!(codec.decode(&mut wire), None);
    assert_eq!(wire, b"{\"meth".to_vec());
    assert_eq!(codec.decode_eof(&mut wire), Some(Err(FrameError::Malformed)));
    assert!(wire.is_empty());
    assert_eq!(codec.decode_eof(&mut wire), None);
}

#[test]
fn what_is_no_message() {
    let codec = JsonRpcCodec::new();
    assert_eq!(codec.decode_frame(b""), Err(FrameError::Malformed));
    assert_eq!(codec.decode_frame(b"{\"method\":\"a\"} x"), Err(FrameError::Malformed));
    assert_eq!(codec.decode_frame(b"\xff"), Err(FrameError::Malformed));
    assert_eq!(codec.decode_frame(b"42"), Err(FrameError::Invalid));
    assert_eq!(codec.decode_frame(b"{\"id\":1}"), Err(FrameError::Invalid));
    assert_eq!(codec.decode_frame(b"{\"method\":7,\"id\":1}"), Err(FrameError::Invalid));
    assert_eq!(codec.decode_frame(b"{\"method\":\"a\",\"id\":-1}"), Err(FrameError::Invalid));
    assert_eq!(codec.decode_frame(b"{\"method\":\"a\",\"id\":1.5}"), Err(FrameError::Invalid));
    assert_eq!(codec.decode_frame(b"{\"method\":\"a\",\"id\":\"1\"}"), Err(FrameError::Invalid));
    assert_eq!(codec.decode_frame(b"{\"method\":\"init\",\"id\":1}"), Err(FrameError::Invalid));
    assert_eq!(
        codec.decode_frame(b"{\"method\":\"init\",\"params\":{\"options\":[]},\"id\":1}"),
        Err(FrameError::Invalid)
    );
    assert_eq!(
        codec.decode_frame(b"{\"method\":\"init\",\"params\":[],\"id\":1}"),
        Err(FrameError::Invalid)
    );
    assert_eq!(
        codec.decode_frame(b"{\"method\":\"getmanifest\",\"id\":1}"),
        Ok(Message::Request(1, Request::Getmanifest(GetManifestCall {})))
    );
    assert_eq!(
        codec.decode_frame(b" {\"id\" : 3, \"params\" : [1], \"method\" : \"x\"} "),
        Ok(Message::Request(
            3,
            Request::Custom { method: "x".to_string(), params: Json::Array(vec![Json::Unsigned(1)]) }
        ))
    );
}

#[test]
fn the_terminator_is_found_where_it_first_stands() {
    assert_eq!(find_terminator(b""), None);
    assert_eq!(find_terminator(b"abc"), None);
    assert_eq!(find_terminator(b"\n"), Some(0));
    assert_eq!(find_terminator(b"ab\ncd\n"), Some(2));
    let mut buf = b"ab\ncd\nef".to_vec();
    assert_eq!(take_frame(&mut buf), Some(b"ab".to_vec()));
    assert_eq!(buf, b"cd\nef".to_vec());
    assert_eq!(take_frame(&mut buf), Some(b"cd".to_vec()));
    assert_eq!(take_frame(&mut buf), None);
    assert_eq!(buf, b"ef".to_vec());
}

#[test]
fn a_response_carries_result_and_id() {
    let value = response(12, Json::Array(vec![Json::Bool(false)]));
    let mut wire = Vec::new();
    JsonCodec::new().encode(&value, &mut wire);
    assert_eq!(String::from_utf8(wire).unwrap(), "{\"jsonrpc\":\"2.0\",\"result\":[false],\"id\":12}\n");
}

#[test]
fn the_channel_holds_whole_frames() {
    let mut channel = OutputChannel::new();
    assert!(channel.take().is_empty());
    channel.write(&Json::String("a\nb".to_string()));
    channel.write(&Json::Object(vec![("k".to_string(), Json::Null)]));
    channel.whole_frames();
    let first = channel.take();
    assert_eq!(String::from_utf8(first).unwrap(), "\"a\\nb\"\n{\"k\":null}\n");
    assert!(channel.take().is_empty());
    channel.write(&Json::Unsigned(5));
    assert_eq!(channel.take(), b"5\n".to_vec());
}

#[test]
fn writes_in_any_order_come_apart_into_the_values_written() {
    let values = || vec![
        Json::String("one\ntwo".to_string()),
        Json::Array(vec![Json::Unsigned(1), Json::Signed(-2)]),
        Json::Object(vec![("a".to_string(), Json::String("\n\n".to_string()))]),
    ];
    for order in [[0usize, 1, 2], [2, 1, 0], [1, 0, 2], [1, 2, 0]] {
        let mut channel = OutputChannel::new();
        let all = values();
        for at in order {
            channel.write(&all[at]);
        }
        let mut wire = channel.take();
        let codec = JsonCodec::new();
        for at in order {
            assert_eq!(codec.decode(&mut wire), Some(Ok(values().remove(at))));
        }
        assert!(wire.is_empty());
    }
}
