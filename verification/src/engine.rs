//! The dispatch engine as a state machine.
//!
//! The engine reads one frame at a time. A request of its own, `getmanifest`
//! or `init`, it answers at once; any other message it hands to a capability
//! hook and waits. What it decides is written here as functions on models;
//! the plugin runs them.

use crate::codec::{after_first_frame, after_last_message, first_terminator, is_first_terminator, last_message, next_message, FrameError};
use crate::json::{json_text, Json, JsonModel};
use crate::messages::{init_response_json, manifest_json, response_json, MessageModel, RequestModel, RpcMethodModel};
use crate::options::{declarations, init_spec, lemma_init_keeps_declarations, OptionModel, TypeMismatch};
use vstd::prelude::*;

verus! {

/// Why a session ended before its input did.
#[derive(Debug, PartialEq)]
pub enum SessionError {
    /// A frame of the inbound stream gave no message.
    Frame(FrameError),
    /// `init` sent a value that is not of its option's kind.
    TypeMismatch(TypeMismatch),
    /// A request named a method that no capability hook serves.
    UnhandledMethod(String),
    /// A capability hook failed; its reason.
    Hook(String),
}

/// The model of a [`SessionError`].
pub enum SessionErrorModel {
    Frame(FrameError),
    TypeMismatch(Seq<char>),
    UnhandledMethod(Seq<char>),
    Hook(Seq<char>),
}

impl View for SessionError {
    type V = SessionErrorModel;

    open spec fn view(&self) -> SessionErrorModel {
        match self {
            SessionError::Frame(e) => SessionErrorModel::Frame(*e),
            SessionError::TypeMismatch(m) => SessionErrorModel::TypeMismatch(m.option@),
            SessionError::UnhandledMethod(m) => SessionErrorModel::UnhandledMethod(m@),
            SessionError::Hook(r) => SessionErrorModel::Hook(r@),
        }
    }
}

/// Where the engine stands.
#[derive(Debug, PartialEq)]
pub enum EngineState {
    /// Waiting for the next frame.
    AwaitingFrame,
    /// A capability hook works on the request with this id.
    HandlingRequest { id: u64, method: String },
    /// A capability hook works on a notification.
    HandlingNotification,
    /// The session is over: cleanly, or with the error that ended it.
    Closed(Result<(), SessionError>),
}

/// The model of an [`EngineState`].
pub enum StateModel {
    AwaitingFrame,
    HandlingRequest { id: u64, method: Seq<char> },
    HandlingNotification,
    Closed(Result<(), SessionErrorModel>),
}

/// The model of a session's result.
pub open spec fn outcome_view(outcome: Result<(), SessionError>) -> Result<(), SessionErrorModel> {
    match outcome {
        Ok(()) => Ok(()),
        Err(e) => Err(e@),
    }
}

impl View for EngineState {
    type V = StateModel;

    open spec fn view(&self) -> StateModel {
        match self {
            EngineState::AwaitingFrame => StateModel::AwaitingFrame,
            EngineState::HandlingRequest { id, method } => StateModel::HandlingRequest {
                id: *id,
                method: method@,
            },
            EngineState::HandlingNotification => StateModel::HandlingNotification,
            EngineState::Closed(outcome) => StateModel::Closed(outcome_view(*outcome)),
        }
    }
}

/// What a capability hook made of a request.
#[derive(Debug, PartialEq)]
pub enum HookOutcome {
    /// The hook's result.
    Handled(Json),
    /// No hook serves the method.
    Unhandled,
    /// The hook failed; its reason.
    Failed(String),
}

/// The model of a [`HookOutcome`].
pub enum HookOutcomeModel {
    Handled(JsonModel),
    Unhandled,
    Failed(Seq<char>),
}

impl View for HookOutcome {
    type V = HookOutcomeModel;

    open spec fn view(&self) -> HookOutcomeModel {
        match self {
            HookOutcome::Handled(result) => HookOutcomeModel::Handled(result@),
            HookOutcome::Unhandled => HookOutcomeModel::Unhandled,
            HookOutcome::Failed(reason) => HookOutcomeModel::Failed(reason@),
        }
    }
}

/// What the engine asks of its driver after a step.
#[derive(Debug, PartialEq)]
pub enum Poll {
    /// More input is needed: feed bytes, or end the input.
    Read,
    /// A request was answered: a response frame was written.
    Wrote,
    /// A request for the capability hook of `method`. The engine waits for
    /// the hook's outcome.
    Request { method: String, params: Json },
    /// A notification for the capability hook of `method`. The engine waits
    /// until the hook is done.
    Notification { method: String, params: Json },
    /// A capability hook is still at work.
    Pending,
    /// The session is over.
    Closed,
}

/// The model of a [`Poll`].
pub enum PollModel {
    Read,
    Wrote,
    Request { method: Seq<char>, params: JsonModel },
    Notification { method: Seq<char>, params: JsonModel },
    Pending,
    Closed,
}

impl View for Poll {
    type V = PollModel;

    open spec fn view(&self) -> PollModel {
        match self {
            Poll::Read => PollModel::Read,
            Poll::Wrote => PollModel::Wrote,
            Poll::Request { method, params } => PollModel::Request {
                method: method@,
                params: params@,
            },
            Poll::Notification { method, params } => PollModel::Notification {
                method: method@,
                params: params@,
            },
            Poll::Pending => PollModel::Pending,
            Poll::Closed => PollModel::Closed,
        }
    }
}

/// The model of a plugin: its options in the order of registration, the
/// inbound bytes not yet decoded, whether the inbound stream has ended, and
/// where the engine stands.
pub struct PluginModel {
    pub options: Seq<OptionModel>,
    pub inbound: Seq<u8>,
    pub ended: bool,
    pub state: StateModel,
}

/// One step of the engine: the plugin after it, what the driver is asked,
/// and the values written to the output channel, in order.
pub struct Step {
    pub plugin: PluginModel,
    pub poll: PollModel,
    pub written: Seq<JsonModel>,
}

/// The manifest of a plugin: its options as registered, and no methods.
pub open spec fn manifest_of(options: Seq<OptionModel>) -> JsonModel {
    manifest_json(options, Seq::<RpcMethodModel>::empty())
}

/// Bytes arrive: they join the inbound bytes, unless the session is over.
pub open spec fn feed_spec(p: PluginModel, bytes: Seq<u8>) -> PluginModel {
    if p.state is Closed {
        p
    } else {
        PluginModel { inbound: p.inbound + bytes, ..p }
    }
}

/// The inbound stream ends.
pub open spec fn end_spec(p: PluginModel) -> PluginModel {
    if p.state is Closed {
        p
    } else {
        PluginModel { ended: true, ..p }
    }
}

/// Routing: what the engine does with a decoded message. `getmanifest` is
/// answered with the manifest. `init` assigns the values sent and is
/// answered with the acknowledgement, or ends the session without a response
/// where a value is of the wrong kind. Any other request, and every
/// notification, goes to a capability hook.
pub open spec fn route_spec(p: PluginModel, message: MessageModel) -> Step {
    match message {
        MessageModel::Request(id, RequestModel::Getmanifest) => Step {
            plugin: p,
            poll: PollModel::Wrote,
            written: seq![response_json(id, manifest_of(p.options))],
        },
        MessageModel::Request(id, RequestModel::Init { options }) => match init_spec(
            p.options,
            options,
        ) {
            Ok(assigned) => Step {
                plugin: PluginModel { options: assigned, ..p },
                poll: PollModel::Wrote,
                written: seq![response_json(id, init_response_json())],
            },
            Err(option) => Step {
                plugin: PluginModel {
                    state: StateModel::Closed(Err(SessionErrorModel::TypeMismatch(option))),
                    ..p
                },
                poll: PollModel::Closed,
                written: seq![],
            },
        },
        MessageModel::Request(id, RequestModel::Custom { method, params }) => Step {
            plugin: PluginModel { state: StateModel::HandlingRequest { id, method }, ..p },
            poll: PollModel::Request { method, params },
            written: seq![],
        },
        MessageModel::Notification(n) => Step {
            plugin: PluginModel { state: StateModel::HandlingNotification, ..p },
            poll: PollModel::Notification { method: n.method, params: n.params },
            written: seq![],
        },
    }
}

/// One step of the engine. While it awaits a frame it takes the next one
/// from the inbound bytes: a message is routed, a frame that gives none ends
/// the session with that error, and without a whole frame it asks for more
/// input or, at the end of the stream, ends the session cleanly. While a hook
/// works, and once the session is over, nothing happens.
pub open spec fn poll_spec(p: PluginModel) -> Step {
    match p.state {
        StateModel::Closed(_) => Step { plugin: p, poll: PollModel::Closed, written: seq![] },
        StateModel::HandlingRequest { .. } | StateModel::HandlingNotification => Step {
            plugin: p,
            poll: PollModel::Pending,
            written: seq![],
        },
        StateModel::AwaitingFrame => {
            let item = if p.ended {
                last_message(p.inbound)
            } else {
                next_message(p.inbound)
            };
            let rest = if p.ended {
                after_last_message(p.inbound)
            } else {
                after_first_frame(p.inbound)
            };
            match item {
                None => if p.ended {
                    Step {
                        plugin: PluginModel { state: StateModel::Closed(Ok(())), ..p },
                        poll: PollModel::Closed,
                        written: seq![],
                    }
                } else {
                    Step { plugin: p, poll: PollModel::Read, written: seq![] }
                },
                Some(Err(e)) => Step {
                    plugin: PluginModel {
                        inbound: rest,
                        state: StateModel::Closed(Err(SessionErrorModel::Frame(e))),
                        ..p
                    },
                    poll: PollModel::Closed,
                    written: seq![],
                },
                Some(Ok(message)) => route_spec(PluginModel { inbound: rest, ..p }, message),
            }
        },
    }
}

/// A capability hook is done with a request. Its result is written as the
/// response to the request's id and the engine awaits the next frame. Without
/// a hook for the method, or where the hook failed, the session ends with
/// that error and nothing is written. Where no request is being handled
/// nothing happens.
pub open spec fn complete_request_spec(p: PluginModel, outcome: HookOutcomeModel) -> Step {
    match p.state {
        StateModel::HandlingRequest { id, method } => match outcome {
            HookOutcomeModel::Handled(result) => Step {
                plugin: PluginModel { state: StateModel::AwaitingFrame, ..p },
                poll: PollModel::Wrote,
                written: seq![response_json(id, result)],
            },
            HookOutcomeModel::Unhandled => Step {
                plugin: PluginModel {
                    state: StateModel::Closed(Err(SessionErrorModel::UnhandledMethod(method))),
                    ..p
                },
                poll: PollModel::Closed,
                written: seq![],
            },
            HookOutcomeModel::Failed(reason) => Step {
                plugin: PluginModel {
                    state: StateModel::Closed(Err(SessionErrorModel::Hook(reason))),
                    ..p
                },
                poll: PollModel::Closed,
                written: seq![],
            },
        },
        _ => Step { plugin: p, poll: idle_poll(p.state), written: seq![] },
    }
}

/// What the driver is told where a call changed nothing: that the session is
/// over, if it is, and else that the engine is not waiting for this.
pub open spec fn idle_poll(state: StateModel) -> PollModel {
    match state {
        StateModel::Closed(_) => PollModel::Closed,
        _ => PollModel::Pending,
    }
}

/// A capability hook is done with a notification: the engine awaits the next
/// frame. No response is written. Where no notification is being handled
/// nothing happens.
pub open spec fn complete_notification_spec(p: PluginModel) -> PluginModel {
    match p.state {
        StateModel::HandlingNotification => PluginModel { state: StateModel::AwaitingFrame, ..p },
        _ => p,
    }
}

/// The text of each value, in order: the payloads of the frames written.
pub open spec fn texts(values: Seq<JsonModel>) -> Seq<Seq<u8>> {
    Seq::new(values.len(), |i: int| json_text(values[i]))
}

/// How far a state is from the end of the session, for a stream that has
/// ended: a closed session is there, and a hook at work comes before the next
/// frame.
pub open spec fn rank(state: StateModel) -> nat {
    match state {
        StateModel::Closed(_) => 0,
        StateModel::AwaitingFrame => 1,
        _ => 2,
    }
}

/// A step on an ended stream makes progress: it takes bytes from the inbound
/// stream, or it closes the session.
pub proof fn lemma_poll_progress(p: PluginModel)
    requires
        p.ended,
        p.state is AwaitingFrame,
    ensures
        poll_spec(p).plugin.inbound.len() < p.inbound.len() || (poll_spec(p).plugin.inbound.len()
            == p.inbound.len() && poll_spec(p).plugin.state is Closed),
        poll_spec(p).plugin.ended,
{
    match first_terminator(p.inbound) {
        Some(at) => {
            assert(is_first_terminator(p.inbound, at));
        },
        None => {},
    }
}

/// A session without capability hooks, run to its end on a stream that has
/// ended: the engine steps until the session is closed. A request for a hook
/// finds none, which ends the session; a notification for a hook is dropped.
/// The result is the plugin at the end and the values written, in order. On a
/// stream that has not ended nothing is done.
pub open spec fn drain(p: PluginModel) -> (PluginModel, Seq<JsonModel>)
    decreases p.inbound.len(), rank(p.state),
    via drain_decreases
{
    if !p.ended {
        (p, Seq::<JsonModel>::empty())
    } else {
        match p.state {
            StateModel::Closed(_) => (p, Seq::<JsonModel>::empty()),
            StateModel::HandlingRequest { .. } => drain(
                complete_request_spec(p, HookOutcomeModel::Unhandled).plugin,
            ),
            StateModel::HandlingNotification => drain(complete_notification_spec(p)),
            StateModel::AwaitingFrame => {
                let step = poll_spec(p);
                let rest = drain(step.plugin);
                (rest.0, step.written + rest.1)
            },
        }
    }
}

#[via_fn]
proof fn drain_decreases(p: PluginModel) {
    if p.ended && p.state is AwaitingFrame {
        lemma_poll_progress(p);
    }
}

/// A whole session without capability hooks on a given inbound stream: the
/// bytes are fed, the stream ends, and the engine runs to the end.
pub open spec fn run_spec(p: PluginModel, input: Seq<u8>) -> (PluginModel, Seq<JsonModel>) {
    drain(end_spec(feed_spec(p, input)))
}

/// The result of a session whose engine stands at `state`: that of the closed
/// session, and success for one that is not closed.
pub open spec fn result_of(state: StateModel) -> Result<(), SessionErrorModel> {
    match state {
        StateModel::Closed(outcome) => outcome,
        _ => Ok(()),
    }
}

/// A session run to its end is closed, if its stream has ended.
pub proof fn lemma_drain_closes(p: PluginModel)
    requires
        p.ended,
    ensures
        drain(p).0.state is Closed,
        drain(p).0.ended,
    decreases p.inbound.len(), rank(p.state),
{
    match p.state {
        StateModel::Closed(_) => {},
        StateModel::HandlingRequest { .. } => {
            lemma_drain_closes(complete_request_spec(p, HookOutcomeModel::Unhandled).plugin);
        },
        StateModel::HandlingNotification => {
            lemma_drain_closes(complete_notification_spec(p));
        },
        StateModel::AwaitingFrame => {
            lemma_poll_progress(p);
            lemma_drain_closes(poll_spec(p).plugin);
        },
    }
}

/// One thing that happens to a plugin in the course of a session.
pub enum Activity {
    /// Bytes arrive on the inbound stream.
    Feed(Seq<u8>),
    /// The inbound stream ends.
    End,
    /// The engine takes a step.
    Poll,
    /// A capability hook is done with a request.
    CompleteRequest(HookOutcomeModel),
    /// A capability hook is done with a notification.
    CompleteNotification,
}

/// The plugin after one activity.
pub open spec fn act(p: PluginModel, activity: Activity) -> PluginModel {
    match activity {
        Activity::Feed(bytes) => feed_spec(p, bytes),
        Activity::End => end_spec(p),
        Activity::Poll => poll_spec(p).plugin,
        Activity::CompleteRequest(outcome) => complete_request_spec(p, outcome).plugin,
        Activity::CompleteNotification => complete_notification_spec(p),
    }
}

/// The plugin after a sequence of activities, taken in order.
pub open spec fn after(p: PluginModel, activities: Seq<Activity>) -> PluginModel
    decreases activities.len(),
{
    if activities.len() == 0 {
        p
    } else {
        act(after(p, activities.drop_last()), activities.last())
    }
}

/// The manifest speaks of the declarations only: options that were declared
/// alike have the same manifest, whatever values they hold.
pub proof fn lemma_manifest_of_declarations(a: Seq<OptionModel>, b: Seq<OptionModel>)
    requires
        declarations(a) == declarations(b),
    ensures
        manifest_of(a) == manifest_of(b),
{
    assert(a.len() == declarations(a).len());
    assert(b.len() == declarations(b).len());
    assert forall|i: int| 0 <= i < a.len() implies (#[trigger] a[i]).manifest_entry()
        == b[i].manifest_entry() by {
        assert(declarations(a)[i] == a[i].declaration());
        assert(declarations(b)[i] == b[i].declaration());
    }
    assert(Seq::new(a.len(), |i: int| a[i].manifest_entry()) =~= Seq::new(
        b.len(),
        |i: int| b[i].manifest_entry(),
    ));
}

/// No activity changes what was declared.
pub proof fn lemma_act_keeps_declarations(p: PluginModel, activity: Activity)
    ensures
        declarations(act(p, activity).options) == declarations(p.options),
{
    match activity {
        Activity::Poll => {
            let step = poll_spec(p);
            if p.state is AwaitingFrame {
                let item = if p.ended {
                    last_message(p.inbound)
                } else {
                    next_message(p.inbound)
                };
                match item {
                    Some(Ok(MessageModel::Request(id, RequestModel::Init { options }))) => {
                        lemma_init_keeps_declarations(p.options, options);
                    },
                    _ => {},
                }
            }
        },
        _ => {},
    }
}

/// `getmanifest` answers with the options as they were registered, in the
/// order of registration, whatever the session has seen before: after any
/// sequence of activities the declarations, and with them the manifest, are
/// those of the plugin as it was built.
pub proof fn lemma_manifest_unchanged(p: PluginModel, activities: Seq<Activity>)
    ensures
        declarations(after(p, activities).options) == declarations(p.options),
        manifest_of(after(p, activities).options) == manifest_of(p.options),
    decreases activities.len(),
{
    if activities.len() > 0 {
        lemma_manifest_unchanged(p, activities.drop_last());
        lemma_act_keeps_declarations(after(p, activities.drop_last()), activities.last());
    }
    lemma_manifest_of_declarations(after(p, activities).options, p.options);
}

} // verus!
