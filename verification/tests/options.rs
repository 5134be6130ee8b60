use cln_plugin::json::Json;
use cln_plugin::logging::{forward, Level, LogEntry, LogLevel};
use cln_plugin::channel::OutputChannel;
use cln_plugin::messages::{GetManifestResponse, InitResponse, Message, Notification, RpcMethod};
use cln_plugin::options::{coerce, declare, OptionSet, TypeMismatch, TypedValue};
use cln_plugin::codec::JsonCodec;
use cln_plugin::Builder;

fn text(value: &Json) -> String {
    let mut wire = Vec::new();
    JsonCodec::new().encode(value, &mut wire);
    wire.pop();
    String::from_utf8(wire).unwrap()
}

#[test]
fn a_declared_option_has_no_value() {
    let option = declare("greeting", TypedValue::String("hello".to_string()));
    assert_eq!(option.name(), "greeting");
    assert_eq!(option.default(), &TypedValue::String("hello".to_string()));
    assert_eq!(option.value(), None);
    assert_eq!(option.clone(), option);
}

#[test]
fn a_value_of_the_declared_kind_is_taken() {
    let s = declare("s", TypedValue::String("x".to_string()));
    let i = declare("i", TypedValue::Integer(0));
    let b = declare("b", TypedValue::Boolean(false));
    assert_eq!(coerce(&s, &Json::String("hi".to_string())), Ok(TypedValue::String("hi".to_string())));
    assert_eq!(coerce(&i, &Json::Unsigned(42)), Ok(TypedValue::Integer(42)));
    assert_eq!(coerce(&i, &Json::Signed(-42)), Ok(TypedValue::Integer(-42)));
    assert_eq!(coerce(&i, &Json::Unsigned(i64::MAX as u64)), Ok(TypedValue::Integer(i64::MAX)));
    assert_eq!(coerce(&i, &Json::Signed(i64::MIN)), Ok(TypedValue::Integer(i64::MIN)));
    assert_eq!(coerce(&b, &Json::Bool(true)), Ok(TypedValue::Boolean(true)));
}

#[test]
fn a_value_of_another_kind_is_a_mismatch() {
    let s = declare("s", TypedValue::String("x".to_string()));
    let i = declare("i", TypedValue::Integer(0));
    let b = declare("b", TypedValue::Boolean(false));
    let mismatch = |name: &str| Err(TypeMismatch { option: name.to_string() });
    assert_eq!(coerce(&s, &Json::Unsigned(1)), mismatch("s"));
    assert_eq!(coerce(&s, &Json::Bool(true)), mismatch("s"));
    assert_eq!(coerce(&s, &Json::Null), mismatch("s"));
    assert_eq!(coerce(&i, &Json::String("1".to_string())), mismatch("i"));
    assert_eq!(coerce(&i, &Json::Bool(false)), mismatch("i"));
    assert_eq!(coerce(&i, &Json::Unsigned(i64::MAX as u64 + 1)), mismatch("i"));
    assert_eq!(coerce(&i, &Json::Array(vec![])), mismatch("i"));
    assert_eq!(coerce(&b, &Json::Unsigned(1)), mismatch("b"));
    assert_eq!(coerce(&b, &Json::String("true".to_string())), mismatch("b"));
    assert_eq!(coerce(&b, &Json::Object(vec![])), mismatch("b"));
}

#[test]
fn a_number_with_a_fraction_is_no_integer() {
    let i = declare("i", TypedValue::Integer(0));
    let mut wire = b"[1.5,1.0,1e3]\n".to_vec();
    let parsed = JsonCodec::new().decode(&mut wire).unwrap().unwrap();
    match parsed {
        Json::Array(items) => {
            assert_eq!(items.len(), 3);
            for item in items.iter() {
                assert_eq!(coerce(&i, item), Err(TypeMismatch { option: "i".to_string() }));
            }
        }
        other => panic!("unexpected {:?}", other),
    }
}

#[test]
fn assign_sets_the_value_or_leaves_the_option() {
    let mut option = declare("count", TypedValue::Integer(1));
    assert_eq!(option.assign(&Json::Unsigned(5)), Ok(()));
    assert_eq!(option.value(), Some(&TypedValue::Integer(5)));
    let before = option.clone();
    assert_eq!(
        option.assign(&Json::String("6".to_string())),
        Err(TypeMismatch { option: "count".to_string() })
    );
    assert_eq!(option, before);
    assert_eq!(option.assign(&Json::Signed(-1)), Ok(()));
    assert_eq!(option.value(), Some(&TypedValue::Integer(-1)));
    assert_eq!(option.default(), &TypedValue::Integer(1));
}

#[test]
fn the_manifest_entry_names_the_kind() {
    assert_eq!(
        text(&declare("s", TypedValue::String("x".to_string())).manifest_entry()),
        "{\"name\":\"s\",\"type\":\"string\",\"default\":\"x\"}"
    );
    assert_eq!(
        text(&declare("i", TypedValue::Integer(-4)).manifest_entry()),
        "{\"name\":\"i\",\"type\":\"int\",\"default\":-4}"
    );
    assert_eq!(
        text(&declare("b", TypedValue::Boolean(true)).manifest_entry()),
        "{\"name\":\"b\",\"type\":\"bool\",\"default\":true}"
    );
}

#[test]
fn the_entry_does_not_show_the_value() {
    let mut option = declare("s", TypedValue::String("x".to_string()));
    let before = text(&option.manifest_entry());
    option.assign(&Json::String("y".to_string())).unwrap();
    assert_eq!(text(&option.manifest_entry()), before);
}

#[test]
fn options_keep_the_order_of_registration() {
    let mut set = OptionSet::new();
    assert_eq!(set.len(), 0);
    assert!(!set.declares("a"));
    set.register(declare("b", TypedValue::Integer(1)));
    set.register(declare("a", TypedValue::Boolean(true)));
    assert_eq!(set.len(), 2);
    assert!(set.declares("a"));
    assert!(set.declares("b"));
    assert!(!set.declares("c"));
    let names: Vec<String> = set.to_vec().iter().map(|o| o.name().clone()).collect();
    assert_eq!(names, vec!["b".to_string(), "a".to_string()]);
    assert_eq!(set.manifest_entries().len(), 2);
}

#[test]
fn a_mismatch_changes_no_option() {
    let mut set = OptionSet::new();
    set.register(declare("a", TypedValue::Integer(1)));
    set.register(declare("b", TypedValue::Boolean(true)));
    set.register(declare("c", TypedValue::String("x".to_string())));
    let supplied = vec![
        ("a".to_string(), Json::Unsigned(2)),
        ("c".to_string(), Json::Unsigned(3)),
        ("b".to_string(), Json::String("no".to_string())),
    ];
    assert_eq!(set.assign_all(&supplied), Err(TypeMismatch { option: "b".to_string() }));
    for option in set.to_vec().iter() {
        assert_eq!(option.value(), None);
    }
    let good = vec![
        ("unknown".to_string(), Json::Null),
        ("c".to_string(), Json::String("first".to_string())),
        ("c".to_string(), Json::String("last".to_string())),
        ("a".to_string(), Json::Signed(-2)),
    ];
    assert_eq!(set.assign_all(&good), Ok(()));
    let after = set.to_vec();
    assert_eq!(after[0].value(), Some(&TypedValue::Integer(-2)));
    assert_eq!(after[1].value(), None);
    assert_eq!(after[2].value(), Some(&TypedValue::String("last".to_string())));
    assert_eq!(set.assign_all(&Vec::new()), Ok(()));
    assert_eq!(set.to_vec(), after);
}

#[test]
fn the_builder_knows_its_names() {
    let builder = Builder::new(7u8);
    assert!(!builder.declares("a"));
    let builder = builder.option(declare("a", TypedValue::Integer(1)));
    assert!(builder.declares("a"));
    assert!(!builder.declares("b"));
    let (plugin, _channel) = builder.build();
    assert_eq!(*plugin.state(), 7u8);
    assert_eq!(plugin.options().len(), 1);
    assert_eq!(plugin.outcome(), None);
}

#[test]
fn responses_as_json() {
    assert_eq!(text(&InitResponse {}.to_json()), "{}");
    let manifest = GetManifestResponse {
        options: vec![declare("a", TypedValue::Integer(1))],
        rpcmethods: vec![RpcMethod {
            name: "hello".to_string(),
            description: "greets".to_string(),
            usage: "[name]".to_string(),
        }],
    };
    assert_eq!(
        text(&manifest.to_json()),
        "{\"options\":[{\"name\":\"a\",\"type\":\"int\",\"default\":1}],\"rpcmethods\":[{\"name\":\"hello\",\"description\":\"greets\",\"usage\":\"[name]\"}]}"
    );
}

#[test]
fn log_levels_fold_trace_into_debug() {
    assert_eq!(LogLevel::from_level(Level::Error), LogLevel::Error);
    assert_eq!(LogLevel::from_level(Level::Warn), LogLevel::Warn);
    assert_eq!(LogLevel::from_level(Level::Info), LogLevel::Info);
    assert_eq!(LogLevel::from_level(Level::Debug), LogLevel::Debug);
    assert_eq!(LogLevel::from_level(Level::Trace), LogLevel::Debug);
    assert_eq!(LogLevel::Error.as_str(), "error");
    assert_eq!(LogLevel::Warn.as_str(), "warn");
    assert_eq!(LogLevel::Info.as_str(), "info");
    assert_eq!(LogLevel::Debug.as_str(), "debug");
}

#[test]
fn a_record_is_one_log_notification() {
    let entry = LogEntry::new(Level::Trace, "started\nfine".to_string());
    assert_eq!(entry, LogEntry { level: LogLevel::Debug, message: "started\nfine".to_string() });
    assert_eq!(
        LogEntry::new(Level::Warn, "w".to_string()).into_notification(),
        Message::Notification(Notification {
            method: "log".to_string(),
            params: Json::Object(vec![
                ("level".to_string(), Json::String("warn".to_string())),
                ("message".to_string(), Json::String("w".to_string())),
            ]),
        })
    );
    let mut channel = OutputChannel::new();
    forward(entry, &mut channel);
    assert_eq!(
        String::from_utf8(channel.take()).unwrap(),
        "{\"jsonrpc\":\"2.0\",\"method\":\"log\",\"params\":{\"level\":\"debug\",\"message\":\"started\\nfine\"}}\n"
    );
}
