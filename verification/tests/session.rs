use cln_plugin::channel::OutputChannel;
use cln_plugin::codec::FrameError;
use cln_plugin::engine::{EngineState, HookOutcome, Poll, SessionError};
use cln_plugin::json::Json;
use cln_plugin::options::{declare, TypedValue};
use cln_plugin::{Builder, Plugin};

fn greeting_plugin() -> (Plugin<()>, OutputChannel) {
    Builder::new(()).option(declare("greeting", TypedValue::String("hello".to_string()))).build()
}

#[test]
fn init() {
    let builder = Builder::new(());
    builder.build();
}

#[test]
fn getmanifest_answers_with_the_registered_options() {
    let (mut plugin, mut out) = greeting_plugin();
    let input = b"{\"jsonrpc\":\"2.0\",\"method\":\"getmanifest\",\"params\":{},\"id\":1}\n";
    let result = plugin.run(input, &mut out);
    assert_eq!(result, Ok(()));
    let expected = "{\"jsonrpc\":\"2.0\",\"result\":{\"options\":[{\"name\":\"greeting\",\"type\":\"string\",\"default\":\"hello\"}],\"rpcmethods\":[]},\"id\":1}\n";
    assert_eq!(String::from_utf8(out.take()).unwrap(), expected);
}

#[test]
fn init_assigns_the_value_and_acknowledges() {
    let (mut plugin, mut out) = greeting_plugin();
    let input =
        b"{\"jsonrpc\":\"2.0\",\"method\":\"init\",\"params\":{\"options\":{\"greeting\":\"hi\"}},\"id\":2}\n";
    let result = plugin.run(input, &mut out);
    assert_eq!(result, Ok(()));
    let options = plugin.options();
    assert_eq!(options.len(), 1);
    assert_eq!(options[0].value(), Some(&TypedValue::String("hi".to_string())));
    assert_eq!(
        String::from_utf8(out.take()).unwrap(),
        "{\"jsonrpc\":\"2.0\",\"result\":{},\"id\":2}\n"
    );
}

#[test]
fn init_with_a_value_of_the_wrong_kind_ends_the_session() {
    let (mut plugin, mut out) =
        Builder::new(()).option(declare("greeting", TypedValue::Boolean(false))).build();
    let input =
        b"{\"jsonrpc\":\"2.0\",\"method\":\"init\",\"params\":{\"options\":{\"greeting\":\"hi\"}},\"id\":2}\n";
    let result = plugin.run(input, &mut out);
    match result {
        Err(SessionError::TypeMismatch(mismatch)) => assert_eq!(mismatch.option, "greeting"),
        other => panic!("unexpected result {:?}", other),
    }
    assert!(out.take().is_empty());
    assert_eq!(plugin.options()[0].value(), None);
}

#[test]
fn a_truncated_frame_ends_the_session_without_output() {
    let (mut plugin, mut out) = greeting_plugin();
    let result = plugin.run(b"{\"jsonrpc\":\"2.0\",\"method\":\"getmani\n", &mut out);
    assert_eq!(result, Err(SessionError::Frame(FrameError::Malformed)));
    assert!(out.take().is_empty());
}

#[test]
fn a_stream_that_ends_inside_a_frame_is_malformed() {
    let (mut plugin, mut out) = greeting_plugin();
    let result = plugin.run(b"{\"jsonrpc\":\"2.0\",\"method\":\"getmanifest\"", &mut out);
    assert_eq!(result, Err(SessionError::Frame(FrameError::Malformed)));
    assert!(out.take().is_empty());
}

#[test]
fn nothing_is_read_after_a_malformed_frame() {
    let (mut plugin, mut out) = greeting_plugin();
    let input =
        b"not json\n{\"jsonrpc\":\"2.0\",\"method\":\"getmanifest\",\"params\":{},\"id\":1}\n";
    let result = plugin.run(input, &mut out);
    assert_eq!(result, Err(SessionError::Frame(FrameError::Malformed)));
    assert!(out.take().is_empty());
}

#[test]
fn a_json_value_that_is_no_message_is_invalid() {
    let (mut plugin, mut out) = greeting_plugin();
    let result = plugin.run(b"[1,2,3]\n", &mut out);
    assert_eq!(result, Err(SessionError::Frame(FrameError::Invalid)));
    assert!(out.take().is_empty());
}

#[test]
fn an_empty_stream_is_a_clean_end() {
    let (mut plugin, mut out) = greeting_plugin();
    assert_eq!(plugin.run(b"", &mut out), Ok(()));
    assert_eq!(plugin.outcome(), Some(Ok(())));
    assert!(out.take().is_empty());
}

#[test]
fn the_handshake_is_answered_in_the_order_of_the_requests() {
    let (mut plugin, mut out) = greeting_plugin();
    let input = b"{\"jsonrpc\":\"2.0\",\"method\":\"getmanifest\",\"params\":{},\"id\":1}\n{\"jsonrpc\":\"2.0\",\"method\":\"init\",\"params\":{\"options\":{\"greeting\":\"hi\"}},\"id\":2}\n{\"jsonrpc\":\"2.0\",\"method\":\"getmanifest\",\"params\":{},\"id\":3}\n";
    assert_eq!(plugin.run(input, &mut out), Ok(()));
    let manifest = "{\"options\":[{\"name\":\"greeting\",\"type\":\"string\",\"default\":\"hello\"}],\"rpcmethods\":[]}";
    let expected = format!(
        "{{\"jsonrpc\":\"2.0\",\"result\":{},\"id\":1}}\n{{\"jsonrpc\":\"2.0\",\"result\":{{}},\"id\":2}}\n{{\"jsonrpc\":\"2.0\",\"result\":{},\"id\":3}}\n",
        manifest, manifest
    );
    assert_eq!(String::from_utf8(out.take()).unwrap(), expected);
}

#[test]
fn a_request_without_a_hook_ends_the_session() {
    let (mut plugin, mut out) = greeting_plugin();
    let input = b"{\"jsonrpc\":\"2.0\",\"method\":\"ping\",\"params\":[],\"id\":7}\n";
    assert_eq!(
        plugin.run(input, &mut out),
        Err(SessionError::UnhandledMethod("ping".to_string()))
    );
    assert!(out.take().is_empty());
}

#[test]
fn a_notification_gets_no_response() {
    let (mut plugin, mut out) = greeting_plugin();
    let input = b"{\"jsonrpc\":\"2.0\",\"method\":\"connect\",\"params\":{\"peer\":1}}\n{\"jsonrpc\":\"2.0\",\"method\":\"getmanifest\",\"params\":{},\"id\":4}\n";
    assert_eq!(plugin.run(input, &mut out), Ok(()));
    let text = String::from_utf8(out.take()).unwrap();
    assert_eq!(text.matches('\n').count(), 1);
    assert!(text.ends_with(",\"id\":4}\n"));
}

#[test]
fn frames_are_taken_as_the_bytes_arrive() {
    let (mut plugin, mut out) = greeting_plugin();
    assert_eq!(plugin.poll(&mut out), Poll::Read);
    plugin.feed(b"{\"jsonrpc\":\"2.0\",\"method\":\"getmani");
    assert_eq!(plugin.poll(&mut out), Poll::Read);
    assert!(out.take().is_empty());
    plugin.feed(b"fest\",\"params\":{},\"id\":1}\n{\"jsonrpc\"");
    assert_eq!(plugin.poll(&mut out), Poll::Wrote);
    assert!(String::from_utf8(out.take()).unwrap().ends_with(",\"id\":1}\n"));
    assert_eq!(plugin.poll(&mut out), Poll::Read);
    assert_eq!(plugin.engine_state(), &EngineState::AwaitingFrame);
    plugin.end_input();
    assert_eq!(plugin.poll(&mut out), Poll::Closed);
    assert_eq!(plugin.outcome(), Some(Err(SessionError::Frame(FrameError::Malformed))));
    assert_eq!(plugin.poll(&mut out), Poll::Closed);
}

#[test]
fn a_hook_result_is_sent_with_the_id_of_its_request() {
    let (mut plugin, mut out) = greeting_plugin();
    plugin.feed(b"{\"jsonrpc\":\"2.0\",\"method\":\"hello\",\"params\":{\"name\":\"world\"},\"id\":9}\n");
    let poll = plugin.poll(&mut out);
    assert_eq!(
        poll,
        Poll::Request {
            method: "hello".to_string(),
            params: Json::Object(vec![("name".to_string(), Json::String("world".to_string()))]),
        }
    );
    assert_eq!(
        plugin.engine_state(),
        &EngineState::HandlingRequest { id: 9, method: "hello".to_string() }
    );
    assert_eq!(plugin.poll(&mut out), Poll::Pending);
    let done = plugin.complete_request(HookOutcome::Handled(Json::String("hi world".to_string())), &mut out);
    assert_eq!(done, Poll::Wrote);
    assert_eq!(
        String::from_utf8(out.take()).unwrap(),
        "{\"jsonrpc\":\"2.0\",\"result\":\"hi world\",\"id\":9}\n"
    );
    assert_eq!(plugin.engine_state(), &EngineState::AwaitingFrame);
}

#[test]
fn a_failed_hook_ends_the_session() {
    let (mut plugin, mut out) = greeting_plugin();
    plugin.feed(b"{\"jsonrpc\":\"2.0\",\"method\":\"hello\",\"params\":{},\"id\":9}\n");
    plugin.poll(&mut out);
    let done = plugin.complete_request(HookOutcome::Failed("no".to_string()), &mut out);
    assert_eq!(done, Poll::Closed);
    assert_eq!(plugin.outcome(), Some(Err(SessionError::Hook("no".to_string()))));
    assert!(out.take().is_empty());
    plugin.feed(b"{\"jsonrpc\":\"2.0\",\"method\":\"getmanifest\",\"params\":{},\"id\":1}\n");
    assert_eq!(plugin.poll(&mut out), Poll::Closed);
    assert!(out.take().is_empty());
}

#[test]
fn a_notification_waits_for_its_hook() {
    let (mut plugin, mut out) = greeting_plugin();
    plugin.feed(b"{\"jsonrpc\":\"2.0\",\"method\":\"connect\"}\n");
    assert_eq!(
        plugin.poll(&mut out),
        Poll::Notification { method: "connect".to_string(), params: Json::Null }
    );
    assert_eq!(plugin.engine_state(), &EngineState::HandlingNotification);
    assert_eq!(plugin.complete_request(HookOutcome::Unhandled, &mut out), Poll::Pending);
    assert_eq!(plugin.engine_state(), &EngineState::HandlingNotification);
    plugin.complete_notification();
    assert_eq!(plugin.engine_state(), &EngineState::AwaitingFrame);
    assert!(out.take().is_empty());
}

#[test]
fn the_manifest_does_not_change_with_the_session() {
    let (mut plugin, mut out) = Builder::new(())
        .option(declare("greeting", TypedValue::String("hello".to_string())))
        .option(declare("count", TypedValue::Integer(3)))
        .option(declare("loud", TypedValue::Boolean(false)))
        .build();
    let request = b"{\"jsonrpc\":\"2.0\",\"method\":\"getmanifest\",\"params\":{},\"id\":1}\n";
    plugin.feed(request);
    plugin.poll(&mut out);
    let first = out.take();
    assert_eq!(
        String::from_utf8(first.clone()).unwrap(),
        "{\"jsonrpc\":\"2.0\",\"result\":{\"options\":[{\"name\":\"greeting\",\"type\":\"string\",\"default\":\"hello\"},{\"name\":\"count\",\"type\":\"int\",\"default\":3},{\"name\":\"loud\",\"type\":\"bool\",\"default\":false}],\"rpcmethods\":[]},\"id\":1}\n"
    );
    plugin.feed(b"{\"jsonrpc\":\"2.0\",\"method\":\"init\",\"params\":{\"options\":{\"loud\":true,\"count\":-7}},\"id\":2}\n");
    assert_eq!(plugin.poll(&mut out), Poll::Wrote);
    out.take();
    let options = plugin.options();
    assert_eq!(options[0].value(), None);
    assert_eq!(options[1].value(), Some(&TypedValue::Integer(-7)));
    assert_eq!(options[2].value(), Some(&TypedValue::Boolean(true)));
    plugin.feed(request);
    plugin.poll(&mut out);
    assert_eq!(out.take(), first);
}
