//! The single-threaded state reducer: the sole consumer of the action bus
//! and the sole mutator of the session and the health view. Every handler is
//! a pure transformation of the state plus a command telling the embedding
//! application what to start; the reducer itself performs no I/O and never
//! blocks.
//!
//! Background results carry the generation of the submission that produced
//! them; an action tagged with any other generation changes nothing. A new
//! submission merely increments the generation — the superseded transfer is
//! never cancelled, only ignored.

use vstd::prelude::*;
use vstd::string::*;
use crate::chat::{
    apply_delta_model, can_apply_delta, concat_all, finalize_last_model, new_session_id, ChatRole,
    ChatSession, MessageModel, SessionModel,
};
use crate::error::{error_text_spec, TabbyApiError};
use crate::health::{health_title_spec, render_health_title, TabbyClientViewData};
use crate::text::{chars_to_string, push_str_chars};
use crate::wire::{request_body_spec, serialize_request_body};

verus! {

/// The interaction mode of the terminal session.
#[derive(Clone, Copy, Debug, PartialEq, Eq, Structural)]
pub enum Mode {
    Normal,
    Insert,
    Processing,
}

impl Default for Mode {
    /// A session starts in normal mode.
    fn default() -> (m: Self)
        ensures
            m == Mode::Normal,
    {
        Mode::Normal
    }
}

/// A decoded key press, as the terminal layer hands it in.
#[derive(Clone, Copy, Debug, PartialEq, Eq, Structural)]
pub enum Key {
    Char(char),
    Backspace,
    Esc,
    Enter,
}

/// A tagged update message on the action bus. Background-produced actions
/// carry the generation of the submission they answer.
#[derive(Clone, Debug)]
pub enum Action {
    Tick,
    KeyInput(Key),
    SubmitInput(String),
    HealthUpdated(TabbyClientViewData),
    StreamDelta(u64, String),
    FinalizeAssistant(u64, String),
    ModeChange(Mode),
}

/// What the embedding application must start after a reduction step.
#[derive(Clone, Debug)]
pub enum Command {
    Idle,
    StartCompletion { generation: u64, body: String },
    Quit,
}

/// Spec-level image of a [`Command`].
#[verifier::ext_equal]
pub ghost enum CommandModel {
    Idle,
    StartCompletion { generation: u64, body: Seq<char> },
    Quit,
}

impl View for Command {
    type V = CommandModel;

    open spec fn view(&self) -> CommandModel {
        match self {
            Command::Idle => CommandModel::Idle,
            Command::StartCompletion { generation, body } => CommandModel::StartCompletion {
                generation: *generation,
                body: body@,
            },
            Command::Quit => CommandModel::Quit,
        }
    }
}

/// The state the reducer owns: mode, conversation, input buffer, generation
/// counter, health title and tick counter.
pub struct UiState {
    pub mode: Mode,
    pub session: ChatSession,
    pub input: Vec<char>,
    pub generation: u64,
    pub main_title: String,
    pub show_help: bool,
    pub app_ticker: usize,
}

/// Spec-level image of a [`UiState`].
#[verifier::ext_equal]
pub ghost struct UiModel {
    pub mode: Mode,
    pub session: SessionModel,
    pub input: Seq<char>,
    pub generation: u64,
    pub main_title: Seq<char>,
    pub show_help: bool,
    pub app_ticker: usize,
}

impl View for UiState {
    type V = UiModel;

    open spec fn view(&self) -> UiModel {
        UiModel {
            mode: self.mode,
            session: self.session@,
            input: self.input@,
            generation: self.generation,
            main_title: self.main_title@,
            show_help: self.show_help,
            app_ticker: self.app_ticker,
        }
    }
}

/// Submitting `text`: in any mode but processing, a non-empty text appends
/// the user message and the assistant placeholder, increments the
/// generation, clears the input buffer, enters processing, and starts the
/// exchange whose body serializes the grown snapshot. An empty text, a
/// running exchange, or an exhausted generation counter changes nothing.
pub open spec fn spec_submit(m: UiModel, text: Seq<char>) -> (UiModel, CommandModel) {
    if m.mode == Mode::Processing || text.len() == 0 || m.generation == u64::MAX {
        (m, CommandModel::Idle)
    } else {
        let msgs = m.session.messages.push(
            (MessageModel { role: ChatRole::User, content: text }),
        ).push((MessageModel { role: ChatRole::Assistant, content: Seq::<char>::empty() }));
        let g = (m.generation + 1) as u64;
        (
            (UiModel {
                mode: Mode::Processing,
                session: (SessionModel { id: m.session.id, messages: msgs }),
                input: Seq::<char>::empty(),
                generation: g,
                main_title: m.main_title,
                show_help: m.show_help,
                app_ticker: m.app_ticker,
            }),
            CommandModel::StartCompletion {
                generation: g,
                body: request_body_spec(m.session.id, msgs),
            },
        )
    }
}

/// One key press. Normal mode: `/` enters insert mode, `q` quits, `?`
/// toggles the help overlay. Insert mode: characters and backspace edit the
/// buffer, escape leaves, enter submits the buffer. Processing mode ignores
/// keys.
pub open spec fn spec_key(m: UiModel, k: Key) -> (UiModel, CommandModel) {
    match m.mode {
        Mode::Normal => match k {
            Key::Char(c) => if c == '/' {
                ((UiModel { mode: Mode::Insert, ..m }), CommandModel::Idle)
            } else if c == 'q' {
                (m, CommandModel::Quit)
            } else if c == '?' {
                ((UiModel { show_help: !m.show_help, ..m }), CommandModel::Idle)
            } else {
                (m, CommandModel::Idle)
            },
            _ => (m, CommandModel::Idle),
        },
        Mode::Insert => match k {
            Key::Esc => ((UiModel { mode: Mode::Normal, ..m }), CommandModel::Idle),
            Key::Enter => spec_submit(m, m.input),
            Key::Char(c) => ((UiModel { input: m.input.push(c), ..m }), CommandModel::Idle),
            Key::Backspace => (
                (UiModel {
                    input: if m.input.len() > 0 {
                        m.input.drop_last()
                    } else {
                        m.input
                    },
                    ..m
                }),
                CommandModel::Idle,
            ),
        },
        Mode::Processing => (m, CommandModel::Idle),
    }
}

/// The whole transition function of the reducer: what one action does to
/// the state and which command it starts.
pub open spec fn spec_reduce(m: UiModel, action: Action) -> (UiModel, CommandModel) {
    match action {
        Action::Tick => (
            (UiModel {
                app_ticker: if m.app_ticker < usize::MAX {
                    (m.app_ticker + 1) as usize
                } else {
                    m.app_ticker
                },
                ..m
            }),
            CommandModel::Idle,
        ),
        Action::KeyInput(k) => spec_key(m, k),
        Action::SubmitInput(text) => spec_submit(m, text@),
        Action::HealthUpdated(v) => (
            (UiModel { main_title: health_title_spec(v), ..m }),
            CommandModel::Idle,
        ),
        Action::StreamDelta(g, d) => if g == m.generation && m.mode == Mode::Processing {
            (
                (UiModel {
                    session: (SessionModel {
                        id: m.session.id,
                        messages: apply_delta_model(m.session.messages, d@),
                    }),
                    ..m
                }),
                CommandModel::Idle,
            )
        } else {
            (m, CommandModel::Idle)
        },
        Action::FinalizeAssistant(g, t) => if g == m.generation && m.mode == Mode::Processing {
            (
                (UiModel {
                    mode: Mode::Normal,
                    session: (SessionModel {
                        id: m.session.id,
                        messages: finalize_last_model(m.session.messages, t@),
                    }),
                    ..m
                }),
                CommandModel::Idle,
            )
        } else {
            (m, CommandModel::Idle)
        },
        Action::ModeChange(md) => ((UiModel { mode: md, ..m }), CommandModel::Idle),
    }
}

/// The deltas carried by a sequence of actions, in arrival order.
pub open spec fn deltas_of(actions: Seq<Action>) -> Seq<Seq<char>>
    decreases actions.len(),
{
    if actions.len() == 0 {
        Seq::empty()
    } else {
        (match actions.first() {
            Action::StreamDelta(_, d) => seq![d@],
            _ => Seq::<Seq<char>>::empty(),
        }) + deltas_of(actions.drop_first())
    }
}

/// The reducer folded over a sequence of actions, in order.
pub open spec fn reduce_all(m: UiModel, actions: Seq<Action>) -> UiModel
    decreases actions.len(),
{
    if actions.len() == 0 {
        m
    } else {
        reduce_all(spec_reduce(m, actions.first()).0, actions.drop_first())
    }
}

/// Order-preserving accumulation over the bus: delivering the stream deltas
/// `d1..dn` of the current generation to a processing state whose last
/// message is the assistant's makes that message's content the concatenation
/// `d1 + d2 + ... + dn` appended to what it held, and touches nothing else.
pub proof fn lemma_stream_accumulation(m: UiModel, actions: Seq<Action>)
    requires
        m.mode == Mode::Processing,
        can_apply_delta(m.session.messages),
        forall|i: int|
            0 <= i < actions.len() ==> match #[trigger] actions[i] {
                Action::StreamDelta(g, _) => g == m.generation,
                _ => false,
            },
    ensures
        reduce_all(m, actions).mode == Mode::Processing,
        reduce_all(m, actions).generation == m.generation,
        reduce_all(m, actions).input == m.input,
        reduce_all(m, actions).main_title == m.main_title,
        reduce_all(m, actions).session.id == m.session.id,
        reduce_all(m, actions).session.messages.len() == m.session.messages.len(),
        reduce_all(m, actions).session.messages.last().role == ChatRole::Assistant,
        reduce_all(m, actions).session.messages.last().content == m.session.messages.last().content
            + concat_all(deltas_of(actions)),
        forall|i: int|
            0 <= i < m.session.messages.len() - 1 ==> reduce_all(m, actions).session.messages[i]
                == m.session.messages[i],
    decreases actions.len(),
{
    if actions.len() == 0 {
        assert(m.session.messages.last().content + concat_all(deltas_of(actions))
            =~= m.session.messages.last().content);
    } else {
        let a0 = actions[0];
        assert(match a0 {
            Action::StreamDelta(g, _) => g == m.generation,
            _ => false,
        });
        match a0 {
            Action::StreamDelta(g, d) => {
                let stepped = spec_reduce(m, a0).0;
                assert(stepped.session.messages == apply_delta_model(m.session.messages, d@));
                assert forall|i: int| 0 <= i < actions.drop_first().len() implies match #[trigger] actions.drop_first()[i] {
                    Action::StreamDelta(g2, _) => g2 == m.generation,
                    _ => false,
                } by {
                    assert(actions.drop_first()[i] == actions[i + 1]);
                }
                lemma_stream_accumulation(stepped, actions.drop_first());
                let ds = deltas_of(actions);
                assert(ds == seq![d@] + deltas_of(actions.drop_first()));
                assert(ds.first() == d@);
                assert(ds.drop_first() =~= deltas_of(actions.drop_first()));
                assert(concat_all(ds) == d@ + concat_all(deltas_of(actions.drop_first())));
                assert((m.session.messages.last().content + d@) + concat_all(
                    deltas_of(actions.drop_first()),
                ) =~= m.session.messages.last().content + concat_all(deltas_of(actions)));
                assert forall|i: int| 0 <= i < m.session.messages.len() - 1 implies reduce_all(
                    m,
                    actions,
                ).session.messages[i] == m.session.messages[i] by {
                    assert(stepped.session.messages[i] == m.session.messages[i]);
                    assert(reduce_all(stepped, actions.drop_first()).session.messages[i]
                        == stepped.session.messages[i]);
                }
            },
            _ => {
                assert(false);
            },
        }
    }
}

/// Submission by key: in insert mode, enter with a non-empty buffer (below
/// the generation counter's ceiling, a machine limit) appends the user
/// message and the empty assistant placeholder, clears the buffer,
/// increments the generation, enters processing mode, and starts the
/// exchange whose body serializes the grown snapshot.
pub proof fn lemma_enter_submits(m: UiModel)
    requires
        m.mode == Mode::Insert,
        m.input.len() > 0,
        m.generation < u64::MAX,
    ensures
        ({
            let msgs = m.session.messages.push(
                (MessageModel { role: ChatRole::User, content: m.input }),
            ).push((MessageModel { role: ChatRole::Assistant, content: Seq::<char>::empty() }));
            let stepped = spec_reduce(m, Action::KeyInput(Key::Enter)).0;
            &&& stepped.mode == Mode::Processing
            &&& stepped.session.id == m.session.id
            &&& stepped.session.messages == msgs
            &&& stepped.input.len() == 0
            &&& stepped.generation == m.generation + 1
            &&& spec_reduce(m, Action::KeyInput(Key::Enter)).1
                == CommandModel::StartCompletion {
                generation: (m.generation + 1) as u64,
                body: request_body_spec(m.session.id, msgs),
            }
        }),
{
}

/// A finalization of the current generation in processing mode replaces the
/// last message's content with the final text — the finished answer or the
/// error text — leaves every earlier message unchanged, returns the mode to
/// normal, and starts nothing.
pub proof fn lemma_finalize_returns_to_normal(m: UiModel, action: Action)
    requires
        m.mode == Mode::Processing,
        m.session.messages.len() > 0,
        action matches Action::FinalizeAssistant(g, _) && g == m.generation,
    ensures
        spec_reduce(m, action).0.mode == Mode::Normal,
        spec_reduce(m, action).0.generation == m.generation,
        spec_reduce(m, action).0.session.id == m.session.id,
        spec_reduce(m, action).0.session.messages.len() == m.session.messages.len(),
        action matches Action::FinalizeAssistant(_, t) ==> spec_reduce(m, action).0.session.messages.last()
            == (MessageModel { role: m.session.messages.last().role, content: t@ }),
        forall|i: int|
            0 <= i < m.session.messages.len() - 1 ==> spec_reduce(m, action).0.session.messages[i]
                == m.session.messages[i],
        spec_reduce(m, action).1 == CommandModel::Idle,
{
}

/// Generation suppression: a stream delta or a finalization tagged with any
/// generation but the current one is a no-op — it changes no part of the
/// state, the session included, and starts nothing.
pub proof fn lemma_generation_suppression(m: UiModel, action: Action)
    requires
        match action {
            Action::StreamDelta(g, _) => g != m.generation,
            Action::FinalizeAssistant(g, _) => g != m.generation,
            _ => false,
        },
    ensures
        spec_reduce(m, action).0 == m,
        spec_reduce(m, action).1 == CommandModel::Idle,
{
}

/// The finalize action a completion task emits: on success the accumulated
/// text, on failure the deltas already delivered with the error's
/// description appended — prior deltas are retained, never retracted, and
/// the exchange never ends silently.
pub fn completion_finalize_action(
    generation: u64,
    accumulated: &str,
    failure: Option<&TabbyApiError>,
) -> (a: Action)
    ensures
        a matches Action::FinalizeAssistant(g, t) && g == generation && t@ == (match failure {
            Option::None => accumulated@,
            Option::Some(e) => accumulated@ + error_text_spec(*e),
        }),
{
    match failure {
        Option::None => Action::FinalizeAssistant(generation, accumulated.to_owned()),
        Option::Some(e) => {
            let mut out: Vec<char> = Vec::new();
            push_str_chars(&mut out, accumulated);
            let d = e.describe();
            push_str_chars(&mut out, d.as_str());
            Action::FinalizeAssistant(generation, chars_to_string(&out))
        },
    }
}

impl UiState {
    /// A fresh state under the given session token: normal mode, empty
    /// conversation, empty input, generation zero.
    pub fn with_id(id: String) -> (s: Self)
        ensures
            s@ == (UiModel {
                mode: Mode::Normal,
                session: (SessionModel { id: id@, messages: Seq::<MessageModel>::empty() }),
                input: Seq::<char>::empty(),
                generation: 0,
                main_title: Seq::<char>::empty(),
                show_help: false,
                app_ticker: 0,
            }),
    {
        let s = UiState {
            mode: Mode::Normal,
            session: ChatSession::new(id),
            input: Vec::new(),
            generation: 0,
            main_title: String::new(),
            show_help: false,
            app_ticker: 0,
        };
        proof {
            assert(s@ =~~= (UiModel {
                mode: Mode::Normal,
                session: (SessionModel { id: s.session.id@, messages: Seq::<MessageModel>::empty() }),
                input: Seq::<char>::empty(),
                generation: 0,
                main_title: Seq::<char>::empty(),
                show_help: false,
                app_ticker: 0,
            }));
        }
        s
    }

    /// A fresh state under a newly drawn random session token.
    pub fn new() -> (s: Self)
        ensures
            s@.mode == Mode::Normal,
            s@.session.messages == Seq::<MessageModel>::empty(),
            s@.session.id.len() == 36,
            s@.input == Seq::<char>::empty(),
            s@.generation == 0,
            s@.main_title == Seq::<char>::empty(),
            s@.show_help == false,
            s@.app_ticker == 0,
    {
        UiState::with_id(new_session_id())
    }

    /// The current input buffer as text.
    pub fn input_text(&self) -> (r: String)
        ensures
            r@ == self@.input,
    {
        chars_to_string(&self.input)
    }

    fn do_submit(&mut self, text: String) -> (cmd: Command)
        ensures
            final(self)@ == spec_submit(old(self)@, text@).0,
            cmd@ == spec_submit(old(self)@, text@).1,
    {
        let processing = match self.mode {
            Mode::Processing => true,
            _ => false,
        };
        if processing || text.as_str().is_empty() || self.generation == u64::MAX {
            return Command::Idle;
        }
        let ghost text_view = text@;
        self.session.append_user(text);
        self.session.append_assistant_placeholder();
        let g = self.generation + 1;
        self.generation = g;
        self.mode = Mode::Processing;
        self.input.clear();
        let body = serialize_request_body(self.session.id.as_str(), &self.session.messages);
        proof {
            assert(self@ =~~= spec_submit(old(self)@, text_view).0);
        }
        Command::StartCompletion { generation: g, body }
    }

    /// Applies one action and returns the command it starts. The whole step
    /// is [`spec_reduce`] of the previous state.
    pub fn reduce(&mut self, action: Action) -> (cmd: Command)
        ensures
            final(self)@ == spec_reduce(old(self)@, action).0,
            cmd@ == spec_reduce(old(self)@, action).1,
    {
        match action {
            Action::Tick => {
                if self.app_ticker < usize::MAX {
                    self.app_ticker = self.app_ticker + 1;
                }
                proof {
                    assert(self@ =~~= spec_reduce(old(self)@, action).0);
                }
                Command::Idle
            },
            Action::KeyInput(k) => {
                let in_mode = self.mode;
                match in_mode {
                    Mode::Normal => {
                        match k {
                            Key::Char(c) => {
                                if c == '/' {
                                    self.mode = Mode::Insert;
                                    proof {
                                        assert(self@ =~~= spec_reduce(old(self)@, action).0);
                                    }
                                    Command::Idle
                                } else if c == 'q' {
                                    Command::Quit
                                } else if c == '?' {
                                    self.show_help = !self.show_help;
                                    proof {
                                        assert(self@ =~~= spec_reduce(old(self)@, action).0);
                                    }
                                    Command::Idle
                                } else {
                                    Command::Idle
                                }
                            },
                            _ => Command::Idle,
                        }
                    },
                    Mode::Insert => {
                        match k {
                            Key::Esc => {
                                self.mode = Mode::Normal;
                                proof {
                                    assert(self@ =~~= spec_reduce(old(self)@, action).0);
                                }
                                Command::Idle
                            },
                            Key::Enter => {
                                let text = chars_to_string(&self.input);
                                self.do_submit(text)
                            },
                            Key::Char(c) => {
                                self.input.push(c);
                                proof {
                                    assert(self@ =~~= spec_reduce(old(self)@, action).0);
                                }
                                Command::Idle
                            },
                            Key::Backspace => {
                                if self.input.len() > 0 {
                                    self.input.pop();
                                }
                                proof {
                                    assert(self@ =~~= spec_reduce(old(self)@, action).0);
                                }
                                Command::Idle
                            },
                        }
                    },
                    Mode::Processing => Command::Idle,
                }
            },
            Action::SubmitInput(text) => self.do_submit(text),
            Action::HealthUpdated(v) => {
                self.main_title = render_health_title(&v);
                proof {
                    assert(self@ =~~= spec_reduce(old(self)@, action).0);
                }
                Command::Idle
            },
            Action::StreamDelta(g, d) => {
                let processing = match self.mode {
                    Mode::Processing => true,
                    _ => false,
                };
                if g == self.generation && processing {
                    let _applied = self.session.apply_delta(d.as_str());
                    proof {
                        assert(self@ =~~= spec_reduce(old(self)@, action).0);
                    }
                }
                Command::Idle
            },
            Action::FinalizeAssistant(g, t) => {
                let processing = match self.mode {
                    Mode::Processing => true,
                    _ => false,
                };
                if g == self.generation && processing {
                    self.session.finalize_last(t);
                    self.mode = Mode::Normal;
                    proof {
                        assert(self@ =~~= spec_reduce(old(self)@, action).0);
                    }
                }
                Command::Idle
            },
            Action::ModeChange(md) => {
                self.mode = md;
                proof {
                    assert(self@ =~~= spec_reduce(old(self)@, action).0);
                }
                Command::Idle
            },
        }
    }
}

} // verus!
