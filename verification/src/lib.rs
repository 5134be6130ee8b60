//! The runtime half of a plugin protocol: newline-delimited JSON-RPC between
//! a plugin and its host.
//!
//! The library does no input or output of its own. A [`Plugin`] is fed the
//! bytes of the inbound stream and writes its frames to an
//! [`OutputChannel`](channel::OutputChannel); the driver around it moves the
//! bytes and calls the capability hooks.

pub mod channel;
pub mod codec;
pub mod engine;
pub mod json;
pub mod logging;
pub mod messages;
pub mod options;

use crate::channel::OutputChannel;
use crate::codec::JsonRpcCodec;
use crate::engine::{complete_notification_spec, complete_request_spec, drain, end_spec, feed_spec, lemma_poll_progress, manifest_of, outcome_view, poll_spec, rank, result_of, route_spec, run_spec, texts, EngineState, HookOutcome, PluginModel, Poll, SessionError, StateModel, Step};
use crate::json::JsonModel;
use crate::messages::{response, rpcmethods_view, GetManifestCall, GetManifestResponse, InitCall, InitResponse, Message, MessageModel, Notification, Request};
use crate::options::{declarations, declares, distinct_names, init_spec, options_view, ConfigOption, OptionModel, OptionSet, TypeMismatch};
use vstd::prelude::*;

verus! {

/// Collects what a plugin is made of before its session starts: the state
/// that its capability hooks share, and its options.
pub struct Builder<S> {
    state: S,
    options: OptionSet,
}

/// A plugin in its session: the registered options, the inbound bytes not yet
/// decoded, and the state of the dispatch engine.
pub struct Plugin<S> {
    state: S,
    options: OptionSet,
    inbound: Vec<u8>,
    ended: bool,
    engine: EngineState,
}

impl<S> View for Plugin<S> {
    type V = PluginModel;

    closed spec fn view(&self) -> PluginModel {
        PluginModel {
            options: self.options@,
            inbound: self.inbound@,
            ended: self.ended,
            state: self.engine@,
        }
    }
}

/// The text of values written one after the other is the text of each, in
/// order.
pub proof fn lemma_texts_concat(a: Seq<JsonModel>, b: Seq<JsonModel>)
    ensures
        texts(a + b) == texts(a) + texts(b),
{
    assert(texts(a + b) =~= texts(a) + texts(b));
}

impl<S> Builder<S> {
    /// The options registered so far, in the order of registration.
    pub closed spec fn registered(&self) -> Seq<OptionModel> {
        self.options@
    }

    /// The state that the capability hooks will share.
    pub closed spec fn shared(&self) -> S {
        self.state
    }

    /// A builder that holds the state and no options.
    pub fn new(state: S) -> (builder: Builder<S>)
        ensures
            builder.registered() == Seq::<OptionModel>::empty(),
            builder.shared() == state,
    {
        Builder { state, options: OptionSet::new() }
    }

    /// Whether an option of that name is registered already.
    pub fn declares(&self, name: &str) -> (found: bool)
        ensures
            found == declares(self.registered(), name@),
    {
        self.options.declares(name)
    }

    /// Registers an option, after those registered before. Names are unique
    /// within a plugin: the option's name must be new.
    pub fn option(self, opt: ConfigOption) -> (builder: Builder<S>)
        requires
            !declares(self.registered(), opt@.name),
        ensures
            builder.registered() == self.registered().push(opt@),
            builder.shared() == self.shared(),
    {
        let mut builder = self;
        builder.options.register(opt);
        builder
    }

    /// Builds the plugin, and with it the one output channel of its session.
    /// The plugin holds the options in the order of registration, has seen no
    /// input, and awaits its first frame; nothing was written to the channel.
    pub fn build(self) -> (built: (Plugin<S>, OutputChannel))
        ensures
            built.0@ == (PluginModel {
                options: self.registered(),
                inbound: Seq::<u8>::empty(),
                ended: false,
                state: StateModel::AwaitingFrame,
            }),
            built.0.shared() == self.shared(),
            built.1.written() == Seq::<Seq<u8>>::empty(),
            built.1.pending() == Seq::<u8>::empty(),
            built.1.taken() == Seq::<u8>::empty(),
    {
        (
            Plugin {
                state: self.state,
                options: self.options,
                inbound: Vec::new(),
                ended: false,
                engine: EngineState::AwaitingFrame,
            },
            OutputChannel::new(),
        )
    }
}

impl<S> Plugin<S> {
    /// The options, copied, in the order of registration. No two bear the
    /// same name.
    pub fn options(&self) -> (copy: Vec<ConfigOption>)
        ensures
            options_view(copy@) == self@.options,
            distinct_names(self@.options),
    {
        self.options.to_vec()
    }

    /// The state that the capability hooks share.
    pub closed spec fn shared(&self) -> S {
        self.state
    }

    /// The state that the capability hooks share.
    pub fn state(&self) -> (state: &S)
        ensures
            *state == self.shared(),
    {
        &self.state
    }

    /// Where the engine stands.
    pub fn engine_state(&self) -> (state: &EngineState)
        ensures
            state@ == self@.state,
    {
        &self.engine
    }

    /// The result of the session, once it is over.
    pub fn outcome(&self) -> (outcome: Option<Result<(), SessionError>>)
        ensures
            match outcome {
                Some(result) => self@.state == StateModel::Closed(outcome_view(result)),
                None => !(self@.state is Closed),
            },
    {
        match &self.engine {
            EngineState::Closed(Ok(())) => Some(Ok(())),
            EngineState::Closed(Err(SessionError::Frame(e))) => Some(Err(SessionError::Frame(*e))),
            EngineState::Closed(Err(SessionError::TypeMismatch(m))) => Some(
                Err(SessionError::TypeMismatch(TypeMismatch { option: m.option.clone() })),
            ),
            EngineState::Closed(Err(SessionError::UnhandledMethod(m))) => Some(
                Err(SessionError::UnhandledMethod(m.clone())),
            ),
            EngineState::Closed(Err(SessionError::Hook(r))) => Some(
                Err(SessionError::Hook(r.clone())),
            ),
            _ => None,
        }
    }

    /// Bytes arrive on the inbound stream. Once the session is over they are
    /// dropped.
    pub fn feed(&mut self, bytes: &[u8])
        ensures
            final(self)@ == feed_spec(old(self)@, bytes@),
            final(self).shared() == old(self).shared(),
    {
        match &self.engine {
            EngineState::Closed(_) => {},
            _ => {
                self.inbound.extend_from_slice(bytes);
                assert(self.inbound@ =~= old(self).inbound@ + bytes@);
            },
        }
    }

    /// The inbound stream has ended.
    pub fn end_input(&mut self)
        ensures
            final(self)@ == end_spec(old(self)@),
            final(self).shared() == old(self).shared(),
    {
        match &self.engine {
            EngineState::Closed(_) => {},
            _ => {
                self.ended = true;
            },
        }
    }

    /// Answers `getmanifest`: the options as registered, in the order of
    /// registration, and no methods.
    pub fn handle_get_manifest(&self, _call: GetManifestCall) -> (manifest: GetManifestResponse)
        ensures
            options_view(manifest.options@) == self@.options,
            manifest.rpcmethods@.len() == 0,
    {
        GetManifestResponse { options: self.options.to_vec(), rpcmethods: Vec::new() }
    }

    /// Answers `init`: every registered option for which the call holds a
    /// value gets it, coerced to its kind. A value of the wrong kind fails the
    /// call: no option is changed then, and the error names the first option,
    /// in the order of registration, that such a value was sent for.
    pub fn handle_init(&mut self, call: InitCall) -> (done: Result<InitResponse, TypeMismatch>)
        ensures
            match done {
                Ok(_) => init_spec(old(self)@.options, crate::json::members_view(call.options@))
                    == Ok::<Seq<OptionModel>, Seq<char>>(final(self)@.options),
                Err(mismatch) => init_spec(
                    old(self)@.options,
                    crate::json::members_view(call.options@),
                ) == Err::<Seq<OptionModel>, Seq<char>>(mismatch.option@) && final(self)@.options
                    == old(self)@.options,
            },
            final(self)@.inbound == old(self)@.inbound,
            final(self)@.ended == old(self)@.ended,
            final(self)@.state == old(self)@.state,
            declarations(final(self)@.options) == declarations(old(self)@.options),
            final(self).shared() == old(self).shared(),
    {
        match self.options.assign_all(&call.options) {
            Ok(()) => Ok(InitResponse {  }),
            Err(mismatch) => Err(mismatch),
        }
    }
}

impl<S> Plugin<S> {
    /// Handles a request. `getmanifest` and `init` are answered at once: the
    /// response, with the request's id, is written to the channel. A value of
    /// the wrong kind in `init` ends the session, and nothing is written. Any
    /// other request goes to its capability hook, and the engine waits.
    pub fn dispatch_request(&mut self, id: u64, request: Request, out: &mut OutputChannel) -> (poll:
        Poll)
        ensures
            (Step {
                plugin: final(self)@,
                poll: poll@,
                written: route_spec(old(self)@, MessageModel::Request(id, request@)).written,
            }) == route_spec(old(self)@, MessageModel::Request(id, request@)),
            final(out).written() == old(out).written() + texts(
                route_spec(old(self)@, MessageModel::Request(id, request@)).written,
            ),
            final(out).taken() == old(out).taken(),
            final(self).shared() == old(self).shared(),
    {
        let ghost before = self@;
        match request {
            Request::Getmanifest(call) => {
                let manifest = self.handle_get_manifest(call);
                let value = response(id, manifest.to_json());
                proof {
                    assert(rpcmethods_view(manifest.rpcmethods@) =~= Seq::empty());
                    assert(value@ == crate::messages::response_json(id, manifest_of(before.options)));
                    assert(texts(seq![value@]) =~= seq![crate::json::json_text(value@)]);
                }
                out.write(&value);
                Poll::Wrote
            },
            Request::Init(call) => match self.handle_init(call) {
                Ok(ack) => {
                    let value = response(id, ack.to_json());
                    proof {
                        assert(texts(seq![value@]) =~= seq![crate::json::json_text(value@)]);
                    }
                    out.write(&value);
                    Poll::Wrote
                },
                Err(mismatch) => {
                    self.engine = EngineState::Closed(Err(SessionError::TypeMismatch(mismatch)));
                    proof {
                        assert(texts(Seq::<JsonModel>::empty()) =~= Seq::<Seq<u8>>::empty());
                        assert(out.written() + Seq::<Seq<u8>>::empty() =~= out.written());
                    }
                    Poll::Closed
                },
            },
            Request::Custom { method, params } => {
                self.engine = EngineState::HandlingRequest { id, method: method.clone() };
                proof {
                    assert(texts(Seq::<JsonModel>::empty()) =~= Seq::<Seq<u8>>::empty());
                    assert(out.written() + Seq::<Seq<u8>>::empty() =~= out.written());
                }
                Poll::Request { method, params }
            },
        }
    }

    /// Handles a notification: it goes to its capability hook, and the engine
    /// waits until the hook is done. A notification gets no response.
    pub fn dispatch_notification(&mut self, notification: Notification) -> (poll: Poll)
        ensures
            (Step { plugin: final(self)@, poll: poll@, written: Seq::<JsonModel>::empty() })
                == route_spec(old(self)@, MessageModel::Notification(notification@)),
            final(self).shared() == old(self).shared(),
    {
        self.engine = EngineState::HandlingNotification;
        Poll::Notification { method: notification.method, params: notification.params }
    }

    /// One step of the engine. While it awaits a frame, the engine takes the
    /// next one from the inbound bytes and handles its message; a frame that
    /// gives no message ends the session. Without a whole frame it asks for
    /// more input, or ends the session cleanly where the stream has ended.
    /// While a hook works, and once the session is over, nothing happens.
    pub fn poll(&mut self, out: &mut OutputChannel) -> (poll: Poll)
        ensures
            (Step { plugin: final(self)@, poll: poll@, written: poll_spec(old(self)@).written })
                == poll_spec(old(self)@),
            final(out).written() == old(out).written() + texts(poll_spec(old(self)@).written),
            final(out).taken() == old(out).taken(),
            final(self).shared() == old(self).shared(),
    {
        proof {
            assert(texts(Seq::<JsonModel>::empty()) =~= Seq::<Seq<u8>>::empty());
            assert(out.written() + Seq::<Seq<u8>>::empty() =~= out.written());
        }
        match &self.engine {
            EngineState::Closed(_) => {
                return Poll::Closed;
            },
            EngineState::HandlingRequest { .. } => {
                return Poll::Pending;
            },
            EngineState::HandlingNotification => {
                return Poll::Pending;
            },
            EngineState::AwaitingFrame => {},
        }
        let codec = JsonRpcCodec::new();
        let item = if self.ended {
            codec.decode_eof(&mut self.inbound)
        } else {
            codec.decode(&mut self.inbound)
        };
        match item {
            None => {
                assert(self.inbound@ =~= old(self).inbound@);
                if self.ended {
                    self.engine = EngineState::Closed(Ok(()));
                    Poll::Closed
                } else {
                    Poll::Read
                }
            },
            Some(Err(e)) => {
                self.engine = EngineState::Closed(Err(SessionError::Frame(e)));
                Poll::Closed
            },
            Some(Ok(Message::Request(id, request))) => self.dispatch_request(id, request, out),
            Some(Ok(Message::Notification(notification))) => self.dispatch_notification(
                notification,
            ),
        }
    }

    /// A capability hook is done with the request that the engine handed
    /// out. The hook's result is written as the response, with the request's
    /// id, and the engine awaits the next frame. Without a hook for the
    /// method, or where the hook failed, the session ends with that error and
    /// nothing is written. Where no request is being handled nothing happens.
    pub fn complete_request(&mut self, outcome: HookOutcome, out: &mut OutputChannel) -> (poll:
        Poll)
        ensures
            (Step {
                plugin: final(self)@,
                poll: poll@,
                written: complete_request_spec(old(self)@, outcome@).written,
            }) == complete_request_spec(old(self)@, outcome@),
            final(out).written() == old(out).written() + texts(
                complete_request_spec(old(self)@, outcome@).written,
            ),
            final(out).taken() == old(out).taken(),
            final(self).shared() == old(self).shared(),
    {
        proof {
            assert(texts(Seq::<JsonModel>::empty()) =~= Seq::<Seq<u8>>::empty());
            assert(out.written() + Seq::<Seq<u8>>::empty() =~= out.written());
        }
        let mut engine = EngineState::AwaitingFrame;
        std::mem::swap(&mut self.engine, &mut engine);
        match engine {
            EngineState::HandlingRequest { id, method } => match outcome {
                HookOutcome::Handled(result) => {
                    let value = response(id, result);
                    proof {
                        assert(texts(seq![value@]) =~= seq![crate::json::json_text(value@)]);
                    }
                    out.write(&value);
                    Poll::Wrote
                },
                HookOutcome::Unhandled => {
                    self.engine = EngineState::Closed(Err(SessionError::UnhandledMethod(method)));
                    Poll::Closed
                },
                HookOutcome::Failed(reason) => {
                    self.engine = EngineState::Closed(Err(SessionError::Hook(reason)));
                    Poll::Closed
                },
            },
            EngineState::Closed(outcome) => {
                self.engine = EngineState::Closed(outcome);
                Poll::Closed
            },
            EngineState::HandlingNotification => {
                self.engine = EngineState::HandlingNotification;
                Poll::Pending
            },
            EngineState::AwaitingFrame => Poll::Pending,
        }
    }

    /// A capability hook is done with the notification that the engine
    /// handed out: the engine awaits the next frame. Where no notification is
    /// being handled nothing happens.
    pub fn complete_notification(&mut self)
        ensures
            final(self)@ == complete_notification_spec(old(self)@),
            final(self).shared() == old(self).shared(),
    {
        let mut engine = EngineState::AwaitingFrame;
        std::mem::swap(&mut self.engine, &mut engine);
        match engine {
            EngineState::HandlingNotification => {},
            other => {
                self.engine = other;
            },
        }
    }

    /// Runs a whole session without capability hooks on an inbound stream
    /// that is at hand in full: the bytes are fed, the stream ends, and the
    /// engine steps until the session is over. A request for a hook finds
    /// none, which ends the session; a notification for a hook is dropped.
    /// Returns the session's result: success at a clean end of the stream,
    /// else the error that ended it.
    pub fn run(&mut self, input: &[u8], out: &mut OutputChannel) -> (result: Result<
        (),
        SessionError,
    >)
        ensures
            final(self)@ == run_spec(old(self)@, input@).0,
            final(out).written() == old(out).written() + texts(run_spec(old(self)@, input@).1),
            final(out).taken() == old(out).taken(),
            outcome_view(result) == result_of(final(self)@.state),
            final(self).shared() == old(self).shared(),
    {
        self.feed(input);
        self.end_input();
        let ghost start = self@;
        let ghost mut done: Seq<JsonModel> = Seq::empty();
        proof {
            assert(texts(done) =~= Seq::<Seq<u8>>::empty());
            assert(out.written() + texts(done) =~= out.written());
        }
        loop
            invariant
                self@.ended || self@.state is Closed,
                drain(start) == (drain(self@).0, done + drain(self@).1),
                out.written() == old(out).written() + texts(done),
                out.taken() == old(out).taken(),
                self.shared() == old(self).shared(),
            ensures
                self@.state is Closed,
                drain(start) == (self@, done),
            decreases self@.inbound.len(), rank(self@.state),
        {
            let ghost before = self@;
            let ghost wrote = out.written();
            match &self.engine {
                EngineState::Closed(_) => {
                    proof {
                        assert(done + Seq::<JsonModel>::empty() =~= done);
                    }
                    break ;
                },
                EngineState::HandlingRequest { .. } => {
                    self.complete_request(HookOutcome::Unhandled, out);
                    proof {
                        assert(texts(Seq::<JsonModel>::empty()) =~= Seq::<Seq<u8>>::empty());
                        assert(wrote + Seq::<Seq<u8>>::empty() =~= wrote);
                    }
                },
                EngineState::HandlingNotification => {
                    self.complete_notification();
                },
                EngineState::AwaitingFrame => {
                    self.poll(out);
                    proof {
                        let step = poll_spec(before);
                        lemma_poll_progress(before);
                        lemma_texts_concat(done, step.written);
                        assert(done + (step.written + drain(step.plugin).1) =~= (done
                            + step.written) + drain(step.plugin).1);
                        assert(old(out).written() + texts(done + step.written) =~= (old(
                            out,
                        ).written() + texts(done)) + texts(step.written));
                        done = done + step.written;
                    }
                },
            }
        }
        match self.outcome() {
            Some(result) => result,
            None => Ok(()),
        }
    }
}

} // verus!
