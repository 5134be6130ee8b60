//! The messages of the protocol and their JSON form.
//!
//! A message from the host is a request, which carries an `id` and is owed a
//! response, or a notification, which carries none and gets no reply. Two
//! requests are the engine's own, `getmanifest` and `init`; every other method
//! is kept by name with its parameters untouched.

use crate::json::{lemma_object_view, lemma_array_view, items_view, lookup, members_view, Json, JsonModel};
use crate::options::{options_view, ConfigOption, OptionModel};
use vstd::prelude::*;

verus! {

/// The parameters of `getmanifest`: there are none.
#[derive(Debug, PartialEq)]
pub struct GetManifestCall {}

/// The parameters of `init`: the values that the host assigns, by option name.
#[derive(Debug, PartialEq)]
pub struct InitCall {
    pub options: Vec<(String, Json)>,
}

/// What a request asks for.
#[derive(Debug, PartialEq)]
pub enum Request {
    Getmanifest(GetManifestCall),
    Init(InitCall),
    /// Any other method, for a capability hook.
    Custom { method: String, params: Json },
}

/// What a notification tells.
#[derive(Debug, PartialEq)]
pub struct Notification {
    pub method: String,
    pub params: Json,
}

/// One message of the inbound stream.
#[derive(Debug, PartialEq)]
pub enum Message {
    Request(u64, Request),
    Notification(Notification),
}

/// The model of a [`Request`].
pub enum RequestModel {
    Getmanifest,
    Init { options: Seq<(Seq<char>, JsonModel)> },
    Custom { method: Seq<char>, params: JsonModel },
}

/// The model of a [`Notification`].
pub struct NotificationModel {
    pub method: Seq<char>,
    pub params: JsonModel,
}

/// The model of a [`Message`].
pub enum MessageModel {
    Request(u64, RequestModel),
    Notification(NotificationModel),
}

impl View for Request {
    type V = RequestModel;

    open spec fn view(&self) -> RequestModel {
        match self {
            Request::Getmanifest(_) => RequestModel::Getmanifest,
            Request::Init(call) => RequestModel::Init { options: members_view(call.options@) },
            Request::Custom { method, params } => RequestModel::Custom {
                method: method@,
                params: params@,
            },
        }
    }
}

impl View for Notification {
    type V = NotificationModel;

    open spec fn view(&self) -> NotificationModel {
        NotificationModel { method: self.method@, params: self.params@ }
    }
}

impl View for Message {
    type V = MessageModel;

    open spec fn view(&self) -> MessageModel {
        match self {
            Message::Request(id, payload) => MessageModel::Request(*id, payload@),
            Message::Notification(payload) => MessageModel::Notification(payload@),
        }
    }
}

impl RequestModel {
    /// The method name on the wire.
    pub open spec fn method(self) -> Seq<char> {
        match self {
            RequestModel::Getmanifest => "getmanifest"@,
            RequestModel::Init { .. } => "init"@,
            RequestModel::Custom { method, .. } => method,
        }
    }

    /// The parameters on the wire.
    pub open spec fn params(self) -> JsonModel {
        match self {
            RequestModel::Getmanifest => JsonModel::Object(seq![]),
            RequestModel::Init { options } => JsonModel::Object(
                seq![("options"@, JsonModel::Object(options))],
            ),
            RequestModel::Custom { params, .. } => params,
        }
    }

    /// A request kept by name does not bear one of the engine's own names.
    pub open spec fn wf(self) -> bool {
        self matches RequestModel::Custom { method, .. } ==> method != "getmanifest"@ && method
            != "init"@
    }
}

impl MessageModel {
    /// See [`RequestModel::wf`]; every notification is well formed.
    pub open spec fn wf(self) -> bool {
        self matches MessageModel::Request(_, payload) ==> payload.wf()
    }
}

/// The request that a method name and the parameters sent with it stand for.
/// `getmanifest` takes no parameters and ignores what is sent. `init` needs
/// an object with a member `options` that is an object. Any other name is kept
/// with its parameters, `null` where none were sent.
pub open spec fn request_of(method: Seq<char>, params: Option<JsonModel>) -> Option<RequestModel> {
    if method == "getmanifest"@ {
        Some(RequestModel::Getmanifest)
    } else if method == "init"@ {
        match params {
            Some(p) => match p.get("options"@) {
                Some(JsonModel::Object(options)) => Some(RequestModel::Init { options }),
                _ => None,
            },
            None => None,
        }
    } else {
        Some(RequestModel::Custom { method, params: or_null(params) })
    }
}

/// The value, or `null` in its absence.
pub open spec fn or_null(value: Option<JsonModel>) -> JsonModel {
    match value {
        Some(v) => v,
        None => JsonModel::Null,
    }
}

/// The message that a JSON value stands for, if it is one: an object whose
/// member `method` is a string. Without a member `id`, or with `null` there,
/// it is a notification. With an `id` that is an integer from 0 to
/// `u64::MAX` it is a request, if method and parameters make one. Anything
/// else is no message.
pub open spec fn message_of(value: JsonModel) -> Option<MessageModel> {
    match value.get("method"@) {
        Some(JsonModel::String(method)) => match value.get("id"@) {
            None | Some(JsonModel::Null) => Some(
                MessageModel::Notification(
                    NotificationModel { method, params: or_null(value.get("params"@)) },
                ),
            ),
            Some(id) => match (id.as_u64(), request_of(method, value.get("params"@))) {
                (Some(id), Some(payload)) => Some(MessageModel::Request(id, payload)),
                _ => None,
            },
        },
        _ => None,
    }
}

/// The JSON form of a message.
pub open spec fn json_of(message: MessageModel) -> JsonModel {
    match message {
        MessageModel::Request(id, payload) => JsonModel::Object(
            seq![
                ("jsonrpc"@, JsonModel::String("2.0"@)),
                ("method"@, JsonModel::String(payload.method())),
                ("params"@, payload.params()),
                ("id"@, JsonModel::Integer(id as int)),
            ],
        ),
        MessageModel::Notification(payload) => JsonModel::Object(
            seq![
                ("jsonrpc"@, JsonModel::String("2.0"@)),
                ("method"@, JsonModel::String(payload.method)),
                ("params"@, payload.params),
            ],
        ),
    }
}

/// The response to request `id` that carries `result`.
pub open spec fn response_json(id: u64, result: JsonModel) -> JsonModel {
    JsonModel::Object(
        seq![
            ("jsonrpc"@, JsonModel::String("2.0"@)),
            ("result"@, result),
            ("id"@, JsonModel::Integer(id as int)),
        ],
    )
}

/// The member names of the envelope differ from each other, and so do the
/// names of the engine's own two methods.
pub proof fn lemma_envelope_names()
    ensures
        "jsonrpc"@ != "method"@,
        "jsonrpc"@ != "params"@,
        "jsonrpc"@ != "id"@,
        "jsonrpc"@ != "result"@,
        "method"@ != "params"@,
        "method"@ != "id"@,
        "params"@ != "id"@,
        "result"@ != "id"@,
        "getmanifest"@ != "init"@,
{
    reveal_strlit("jsonrpc");
    reveal_strlit("method");
    reveal_strlit("params");
    reveal_strlit("id");
    reveal_strlit("result");
    reveal_strlit("getmanifest");
    reveal_strlit("init");
    assert("method"@[0] == 'm');
    assert("params"@[0] == 'p');
    assert("jsonrpc"@[0] == 'j');
    assert("result"@[0] == 'r');
    assert("getmanifest"@[0] == 'g');
    assert("init"@[0] == 'i');
}

/// Reading a message back from its own JSON form gives the message again.
pub proof fn lemma_message_round_trip(message: MessageModel)
    requires
        message.wf(),
    ensures
        message_of(json_of(message)) == Some(message),
{
    lemma_envelope_names();
    reveal_with_fuel(lookup, 5);
    match message {
        MessageModel::Request(id, payload) => {
            let members = json_of(message)->Object_0;
            assert(members.len() == 4);
            assert(members.last() == members[3]);
            assert(members.drop_last().last() == members[2]);
            assert(members.drop_last().drop_last().last() == members[1]);
            assert(lookup(members, "id"@) == Some(JsonModel::Integer(id as int)));
            assert(lookup(members, "params"@) == Some(payload.params()));
            assert(lookup(members, "method"@) == Some(JsonModel::String(payload.method())));
            match payload {
                RequestModel::Init { options } => {
                    let inner = payload.params()->Object_0;
                    assert(inner.last() == inner[0]);
                    assert(lookup(inner, "options"@) == Some(JsonModel::Object(options)));
                },
                _ => {},
            }
        },
        MessageModel::Notification(payload) => {
            let members = json_of(message)->Object_0;
            assert(members.len() == 3);
            assert(members.last() == members[2]);
            assert(members.drop_last().last() == members[1]);
            assert(members.drop_last().drop_last().last() == members[0]);
            assert(members.drop_last().drop_last().drop_last().len() == 0);
            assert(lookup(members, "id"@) is None);
            assert(lookup(members, "params"@) == Some(payload.params));
            assert(lookup(members, "method"@) == Some(JsonModel::String(payload.method)));
        },
    }
}

/// Taking out a member leaves the members of every other name as they were.
pub proof fn lemma_lookup_remove(members: Seq<(Seq<char>, JsonModel)>, at: int, key: Seq<char>)
    requires
        0 <= at < members.len(),
        members[at].0 != key,
    ensures
        lookup(members.remove(at), key) == lookup(members, key),
    decreases members.len(),
{
    if at == members.len() - 1 {
        assert(members.remove(at) =~= members.drop_last());
    } else {
        assert(members.remove(at).last() == members.last());
        assert(members.remove(at).drop_last() =~= members.drop_last().remove(at));
        lemma_lookup_remove(members.drop_last(), at, key);
    }
}

/// The model of a value that may be absent.
pub open spec fn optional_view(value: Option<Json>) -> Option<JsonModel> {
    match value {
        Some(v) => Some(v@),
        None => None,
    }
}

/// Takes the last member called `key` out of the list and returns its value.
/// The members of every other name stay, in their order.
fn take_member(members: &mut Vec<(String, Json)>, key: &str) -> (taken: Option<Json>)
    ensures
        optional_view(taken) == lookup(members_view(old(members)@), key@),
        forall|other: Seq<char>|
            other != key@ ==> lookup(members_view(final(members)@), other) == lookup(
                members_view(old(members)@),
                other,
            ),
{
    let wanted: String = key.to_owned();
    let ghost all = members_view(members@);
    let mut at: usize = members.len();
    assert(all.subrange(0, at as int) =~= all);
    while at > 0
        invariant
            at <= members.len(),
            wanted@ == key@,
            all == members_view(members@),
            *members == *old(members),
            lookup(all, key@) == lookup(all.subrange(0, at as int), key@),
        decreases at,
    {
        let ghost prefix = all.subrange(0, at as int);
        at = at - 1;
        assert(prefix.last() == all[at as int]);
        assert(prefix.drop_last() =~= all.subrange(0, at as int));
        if members[at].0 == wanted {
            let member = members.remove(at);
            proof {
                assert(members_view(members@) =~= all.remove(at as int));
                assert forall|other: Seq<char>| other != key@ implies lookup(
                    members_view(members@),
                    other,
                ) == lookup(all, other) by {
                    lemma_lookup_remove(all, at as int, other);
                }
            }
            return Some(member.1);
        }
    }
    assert(all.subrange(0, 0).len() == 0);
    None
}

impl Request {
    /// The request that `method` and the parameters sent with it stand for.
    pub fn from_parts(method: String, params: Option<Json>) -> (request: Option<Request>)
        ensures
            match request {
                Some(r) => request_of(method@, optional_view(params)) == Some(r@),
                None => request_of(method@, optional_view(params)) is None,
            },
    {
        if method == "getmanifest".to_owned() {
            Some(Request::Getmanifest(GetManifestCall {  }))
        } else if method == "init".to_owned() {
            match params {
                Some(Json::Object(mut members)) => {
                    proof {
                        lemma_object_view(members);
                    }
                    match take_member(&mut members, "options") {
                        Some(Json::Object(options)) => {
                            proof {
                                lemma_object_view(options);
                            }
                            Some(Request::Init(InitCall { options }))
                        },
                        _ => None,
                    }
                },
                _ => None,
            }
        } else {
            let params = match params {
                Some(p) => p,
                None => Json::Null,
            };
            Some(Request::Custom { method, params })
        }
    }

    /// Method name and parameters as they go on the wire.
    pub fn into_parts(self) -> (parts: (String, Json))
        ensures
            parts.0@ == self@.method(),
            parts.1@ == self@.params(),
    {
        match self {
            Request::Getmanifest(_) => {
                let none: Vec<(String, Json)> = Vec::new();
                proof {
                    lemma_object_view(none);
                    assert(members_view(none@) =~= seq![]);
                }
                ("getmanifest".to_owned(), Json::Object(none))
            },
            Request::Init(call) => {
                let ghost options = members_view(call.options@);
                proof {
                    lemma_object_view(call.options);
                }
                let members: Vec<(String, Json)> = vec![
                    ("options".to_owned(), Json::Object(call.options)),
                ];
                proof {
                    lemma_object_view(members);
                    assert(members_view(members@) =~= seq![
                        ("options"@, JsonModel::Object(options)),
                    ]);
                }
                ("init".to_owned(), Json::Object(members))
            },
            Request::Custom { method, params } => (method, params),
        }
    }
}

impl Message {
    /// Reads a message from its JSON form; `None` where the value is no
    /// message.
    pub fn from_json(value: Json) -> (message: Option<Message>)
        ensures
            match message {
                Some(m) => message_of(value@) == Some(m@),
                None => message_of(value@) is None,
            },
    {
        match value {
            Json::Object(mut members) => {
                proof {
                    lemma_object_view(members);
                    lemma_envelope_names();
                }
                let method = take_member(&mut members, "method");
                let id = take_member(&mut members, "id");
                let params = take_member(&mut members, "params");
                match method {
                    Some(Json::String(method)) => match id {
                        None | Some(Json::Null) => {
                            let params = match params {
                                Some(p) => p,
                                None => Json::Null,
                            };
                            Some(Message::Notification(Notification { method, params }))
                        },
                        Some(id) => match id.as_u64() {
                            Some(id) => match Request::from_parts(method, params) {
                                Some(payload) => Some(Message::Request(id, payload)),
                                None => None,
                            },
                            None => None,
                        },
                    },
                    _ => None,
                }
            },
            _ => None,
        }
    }

    /// The JSON form of the message.
    pub fn to_json(self) -> (value: Json)
        ensures
            value@ == json_of(self@),
    {
        match self {
            Message::Request(id, payload) => {
                let ghost model = payload@;
                let (method, params) = payload.into_parts();
                let members: Vec<(String, Json)> = vec![
                    ("jsonrpc".to_owned(), Json::String("2.0".to_owned())),
                    ("method".to_owned(), Json::String(method)),
                    ("params".to_owned(), params),
                    ("id".to_owned(), Json::Unsigned(id)),
                ];
                proof {
                    lemma_object_view(members);
                    assert(members_view(members@) =~= json_of(
                        MessageModel::Request(id, model),
                    )->Object_0);
                }
                Json::Object(members)
            },
            Message::Notification(payload) => {
                let ghost model = payload@;
                let members: Vec<(String, Json)> = vec![
                    ("jsonrpc".to_owned(), Json::String("2.0".to_owned())),
                    ("method".to_owned(), Json::String(payload.method)),
                    ("params".to_owned(), payload.params),
                ];
                proof {
                    lemma_object_view(members);
                    assert(members_view(members@) =~= json_of(
                        MessageModel::Notification(model),
                    )->Object_0);
                }
                Json::Object(members)
            },
        }
    }
}

/// The response to request `id` that carries `result`: the envelope with the
/// result and the id as the request gave it.
pub fn response(id: u64, result: Json) -> (value: Json)
    ensures
        value@ == response_json(id, result@),
{
    let ghost model = result@;
    let members: Vec<(String, Json)> = vec![
        ("jsonrpc".to_owned(), Json::String("2.0".to_owned())),
        ("result".to_owned(), result),
        ("id".to_owned(), Json::Unsigned(id)),
    ];
    proof {
        lemma_object_view(members);
        assert(members_view(members@) =~= response_json(id, model)->Object_0);
    }
    Json::Object(members)
}

/// One method that the plugin offers, as the manifest describes it.
#[derive(Debug, PartialEq)]
pub struct RpcMethod {
    pub name: String,
    pub description: String,
    pub usage: String,
}

/// The model of an [`RpcMethod`].
pub struct RpcMethodModel {
    pub name: Seq<char>,
    pub description: Seq<char>,
    pub usage: Seq<char>,
}

impl View for RpcMethod {
    type V = RpcMethodModel;

    open spec fn view(&self) -> RpcMethodModel {
        RpcMethodModel { name: self.name@, description: self.description@, usage: self.usage@ }
    }
}

impl RpcMethodModel {
    /// The method's entry in the manifest.
    pub open spec fn manifest_entry(self) -> JsonModel {
        JsonModel::Object(
            seq![
                ("name"@, JsonModel::String(self.name)),
                ("description"@, JsonModel::String(self.description)),
                ("usage"@, JsonModel::String(self.usage)),
            ],
        )
    }
}

impl RpcMethod {
    /// The method's entry in the manifest.
    pub fn manifest_entry(&self) -> (entry: Json)
        ensures
            entry@ == self@.manifest_entry(),
    {
        let members: Vec<(String, Json)> = vec![
            ("name".to_owned(), Json::String(self.name.clone())),
            ("description".to_owned(), Json::String(self.description.clone())),
            ("usage".to_owned(), Json::String(self.usage.clone())),
        ];
        proof {
            lemma_object_view(members);
            assert(members_view(members@) =~= self@.manifest_entry()->Object_0);
        }
        Json::Object(members)
    }
}

/// The answer to `getmanifest`: the options and the methods of the plugin.
#[derive(Debug, PartialEq)]
pub struct GetManifestResponse {
    pub options: Vec<ConfigOption>,
    pub rpcmethods: Vec<RpcMethod>,
}

/// The answer to `init`: an acknowledgement without content.
#[derive(Debug, PartialEq)]
pub struct InitResponse {}

/// The methods of a list, each by its model.
pub open spec fn rpcmethods_view(methods: Seq<RpcMethod>) -> Seq<RpcMethodModel> {
    Seq::new(methods.len(), |i: int| methods[i]@)
}

/// The manifest as JSON: the entry of each option and of each method, in the
/// order of the two lists.
pub open spec fn manifest_json(
    options: Seq<OptionModel>,
    rpcmethods: Seq<RpcMethodModel>,
) -> JsonModel {
    JsonModel::Object(
        seq![
            (
                "options"@,
                JsonModel::Array(Seq::new(options.len(), |i: int| options[i].manifest_entry())),
            ),
            (
                "rpcmethods"@,
                JsonModel::Array(
                    Seq::new(rpcmethods.len(), |i: int| rpcmethods[i].manifest_entry()),
                ),
            ),
        ],
    )
}

impl GetManifestResponse {
    /// The manifest as JSON.
    pub fn to_json(&self) -> (value: Json)
        ensures
            value@ == manifest_json(options_view(self.options@), rpcmethods_view(self.rpcmethods@)),
    {
        let ghost options = options_view(self.options@);
        let ghost rpcmethods = rpcmethods_view(self.rpcmethods@);
        let mut entries: Vec<Json> = Vec::new();
        let mut at: usize = 0;
        while at < self.options.len()
            invariant
                at <= self.options.len(),
                options == options_view(self.options@),
                entries@.len() == at,
                forall|i: int| 0 <= i < at ==> (#[trigger] entries@[i])@ == options[i].manifest_entry(),
            decreases self.options.len() - at,
        {
            entries.push(self.options[at].manifest_entry());
            at = at + 1;
        }
        let mut methods: Vec<Json> = Vec::new();
        let mut at: usize = 0;
        while at < self.rpcmethods.len()
            invariant
                at <= self.rpcmethods.len(),
                rpcmethods == rpcmethods_view(self.rpcmethods@),
                methods@.len() == at,
                forall|i: int| 0 <= i < at ==> (#[trigger] methods@[i])@ == rpcmethods[i].manifest_entry(),
            decreases self.rpcmethods.len() - at,
        {
            methods.push(self.rpcmethods[at].manifest_entry());
            at = at + 1;
        }
        proof {
            lemma_array_view(entries);
            lemma_array_view(methods);
            assert(items_view(entries@) =~= Seq::new(
                options.len(),
                |i: int| options[i].manifest_entry(),
            ));
            assert(items_view(methods@) =~= Seq::new(
                rpcmethods.len(),
                |i: int| rpcmethods[i].manifest_entry(),
            ));
        }
        let members: Vec<(String, Json)> = vec![
            ("options".to_owned(), Json::Array(entries)),
            ("rpcmethods".to_owned(), Json::Array(methods)),
        ];
        proof {
            lemma_object_view(members);
            assert(members_view(members@) =~= manifest_json(options, rpcmethods)->Object_0);
        }
        Json::Object(members)
    }
}

/// The JSON form of the acknowledgement: an object without members.
pub open spec fn init_response_json() -> JsonModel {
    JsonModel::Object(seq![])
}

impl InitResponse {
    /// The acknowledgement as JSON.
    pub fn to_json(&self) -> (value: Json)
        ensures
            value@ == init_response_json(),
    {
        let none: Vec<(String, Json)> = Vec::new();
        proof {
            lemma_object_view(none);
            assert(members_view(none@) =~= seq![]);
        }
        Json::Object(none)
    }
}

} // verus!
