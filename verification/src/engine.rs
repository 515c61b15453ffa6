//! The synchronization engine.
//!
//! [`Chat`] owns the session state: the roster, the message log, the
//! display mode, and the queue of outbound wire texts handed to the
//! transport. All state transitions go through [`Chat::update`], whose
//! behaviour is the pure reducer [`step`]: decoded server envelopes
//! replace the roster or append to the log, local intents queue an
//! outbound envelope or flip the display mode. Text that does not
//! decode is dropped without any state change, and the engine never
//! panics on any input.
//!
//! The engine does not echo its own submissions into the log: a
//! submitted message appears only if the server sends it back inside a
//! `message` envelope.

use vstd::prelude::*;
use crate::codec::{
    decode_envelope_spec, decode_record_spec, encode_envelope_spec, decode_envelope,
    decode_message_record, encode_envelope,
};
use crate::protocol::{Envelope, EnvelopeView, MessageData, MessageDataView, DecodeError};
use crate::text::{ascii, lit, copy_bytes};

verus! {

/// One roster entry: a username and the avatar reference derived from
/// it. The avatar is a URL built from the name; nothing is fetched.
#[derive(Clone, Debug, PartialEq, Eq)]
pub struct UserProfile {
    pub name: Vec<u8>,
    pub avatar: Vec<u8>,
}

/// Spec-level value of a [`UserProfile`].
#[verifier::ext_equal]
pub struct UserProfileView {
    pub name: Seq<u8>,
    pub avatar: Seq<u8>,
}

impl View for UserProfile {
    type V = UserProfileView;

    open spec fn view(&self) -> UserProfileView {
        UserProfileView { name: self.name@, avatar: self.avatar@ }
    }
}

impl DeepView for UserProfile {
    type V = UserProfileView;

    open spec fn deep_view(&self) -> UserProfileView {
        self.view()
    }
}

/// The avatar reference a name derives to: the fixed avatar-service
/// URL template with the name substituted in.
pub open spec fn avatar_url_spec(name: Seq<u8>) -> Seq<u8> {
    ascii("https://avatars.dicebear.com/api/adventurer-neutral/"@) + name + ascii(".svg"@)
}

/// Derives the avatar reference for a name.
pub fn avatar_url(name: &Vec<u8>) -> (r: Vec<u8>)
    ensures
        r@ == avatar_url_spec(name@),
{
    let mut out = lit("https://avatars.dicebear.com/api/adventurer-neutral/");
    let mut middle = copy_bytes(name);
    out.append(&mut middle);
    let mut suffix = lit(".svg");
    out.append(&mut suffix);
    proof {
        assert(out@ =~= avatar_url_spec(name@));
    }
    out
}

/// The roster entry a name projects to.
pub open spec fn profile_of(name: Seq<u8>) -> UserProfileView {
    UserProfileView { name, avatar: avatar_url_spec(name) }
}

/// The roster a name list projects to, kept in list order, duplicates
/// and all.
pub open spec fn profiles_of(names: Seq<Seq<u8>>) -> Seq<UserProfileView> {
    names.map_values(|n: Seq<u8>| profile_of(n))
}

/// One engine input: a delivered transport text, or a local intent.
pub enum Msg {
    /// A text delivered from the transport through the broadcast bus.
    HandleMsg(Vec<u8>),
    /// The user submitted the input field's raw value.
    SubmitMessage(Vec<u8>),
    /// The user toggled the display mode.
    ToggleDarkMode,
}

/// Spec-level value of a [`Msg`].
#[verifier::ext_equal]
pub enum MsgView {
    HandleMsg(Seq<u8>),
    SubmitMessage(Seq<u8>),
    ToggleDarkMode,
}

impl View for Msg {
    type V = MsgView;

    open spec fn view(&self) -> MsgView {
        match self {
            Msg::HandleMsg(t) => MsgView::HandleMsg(t@),
            Msg::SubmitMessage(t) => MsgView::SubmitMessage(t@),
            Msg::ToggleDarkMode => MsgView::ToggleDarkMode,
        }
    }
}

/// The session state the engine owns.
pub struct Chat {
    /// High-contrast display mode when set; normal otherwise.
    pub dark_mode: bool,
    /// The roster: exactly the most recently received name list.
    pub users: Vec<UserProfile>,
    /// The message log, append-only for the session.
    pub messages: Vec<MessageData>,
    /// Wire texts handed to the transport, in send order.
    pub outbound: Vec<Vec<u8>>,
}

/// Spec-level value of the session state.
#[verifier::ext_equal]
pub struct ChatView {
    pub dark_mode: bool,
    pub users: Seq<UserProfileView>,
    pub messages: Seq<MessageDataView>,
    pub outbound: Seq<Seq<u8>>,
}

impl View for Chat {
    type V = ChatView;

    open spec fn view(&self) -> ChatView {
        ChatView {
            dark_mode: self.dark_mode,
            users: self.users.deep_view(),
            messages: self.messages.deep_view(),
            outbound: self.outbound.deep_view(),
        }
    }
}

/// How one decoded server envelope changes the state: `users` replaces
/// the roster entirely, `message` appends its record to the log when
/// the record parses and is dropped otherwise, inbound `register` is a
/// defensive no-op.
pub open spec fn apply_envelope(s: ChatView, e: EnvelopeView) -> ChatView {
    match e {
        EnvelopeView::Users(names) => ChatView { users: profiles_of(names), ..s },
        EnvelopeView::Message(d) => match decode_record_spec(d) {
            Ok(m) => ChatView { messages: s.messages.push(m), ..s },
            Err(_) => s,
        },
        EnvelopeView::Register(_) => s,
    }
}

/// The reducer: what one input makes of the state. Undecodable
/// transport text is dropped. An empty submission is a no-op; a
/// non-empty one queues exactly one outbound `message` envelope and
/// changes nothing else (no local echo).
pub open spec fn step(s: ChatView, m: MsgView) -> ChatView {
    match m {
        MsgView::HandleMsg(t) => match decode_envelope_spec(t) {
            Ok(e) => apply_envelope(s, e),
            Err(_) => s,
        },
        MsgView::SubmitMessage(t) => if t.len() == 0 {
            s
        } else {
            ChatView {
                outbound: s.outbound.push(encode_envelope_spec(EnvelopeView::Message(t))),
                ..s
            }
        },
        MsgView::ToggleDarkMode => ChatView { dark_mode: !s.dark_mode, ..s },
    }
}

/// Whether an input asks the view to re-render: a roster replacement,
/// an appended message, or a display-mode flip.
pub open spec fn triggers_render(m: MsgView) -> bool {
    match m {
        MsgView::ToggleDarkMode => true,
        MsgView::SubmitMessage(_) => false,
        MsgView::HandleMsg(t) => match decode_envelope_spec(t) {
            Ok(e) => match e {
                EnvelopeView::Users(_) => true,
                EnvelopeView::Message(d) => decode_record_spec(d) is Ok,
                EnvelopeView::Register(_) => false,
            },
            Err(_) => false,
        },
    }
}

/// The state a session starts in: everything empty, normal mode, and
/// exactly one queued outbound `register` envelope for the username.
pub open spec fn init_state(username: Seq<u8>) -> ChatView {
    ChatView {
        dark_mode: false,
        users: seq![],
        messages: seq![],
        outbound: seq![encode_envelope_spec(EnvelopeView::Register(username))],
    }
}

impl Chat {
    /// Starts a session for the given local username. Before any other
    /// input is processed, the outbound queue holds exactly the one
    /// `register` envelope that admits the session.
    pub fn create(username: &Vec<u8>) -> (c: Chat)
        ensures
            c@ == init_state(username@),
    {
        let register = Envelope::Register(copy_bytes(username));
        let wire = encode_envelope(&register);
        let mut outbound: Vec<Vec<u8>> = Vec::new();
        outbound.push(wire);
        let c = Chat { dark_mode: false, users: Vec::new(), messages: Vec::new(), outbound };
        proof {
            assert(c@ =~~= init_state(username@));
        }
        c
    }

    /// Flips the display mode between its two values.
    fn toggle_dark_mode(&mut self)
        ensures
            final(self)@ == (ChatView { dark_mode: !old(self)@.dark_mode, ..old(self)@ }),
    {
        self.dark_mode = !self.dark_mode;
        proof {
            assert(self@ =~~= (ChatView { dark_mode: !old(self)@.dark_mode, ..old(self)@ }));
        }
    }

    /// Applies one input to the session state and says whether the
    /// view should re-render. This is the whole reducer: its result is
    /// exactly [`step`] of the old state, for every input.
    pub fn update(&mut self, msg: Msg) -> (render: bool)
        ensures
            final(self)@ == step(old(self)@, msg@),
            render == triggers_render(msg@),
    {
        let ghost m0 = msg@;
        match msg {
            Msg::ToggleDarkMode => {
                self.toggle_dark_mode();
                proof {
                    assert(self@ =~~= step(old(self)@, m0));
                }
                true
            },
            Msg::HandleMsg(text) => {
                match decode_envelope(&text) {
                    Err(_) => false,
                    Ok(env) => {
                        match env {
                            Envelope::Users(names) => {
                                let mut roster: Vec<UserProfile> = Vec::new();
                                let mut i: usize = 0;
                                while i < names.len()
                                    invariant
                                        i <= names.len(),
                                        roster.deep_view() == profiles_of(
                                            names.deep_view().take(i as int),
                                        ),
                                    decreases names.len() - i,
                                {
                                    let name = copy_bytes(&names[i]);
                                    let avatar = avatar_url(&name);
                                    roster.push(UserProfile { name, avatar });
                                    proof {
                                        let dv = names.deep_view();
                                        assert(names@[i as int].deep_view() =~= names@[
                                            i as int
                                        ]@);
                                        assert(dv.take(i as int + 1) =~= dv.take(
                                            i as int,
                                        ).push(dv[i as int]));
                                        assert(profiles_of(dv.take(i as int + 1)) =~= profiles_of(
                                            dv.take(i as int),
                                        ).push(profile_of(dv[i as int])));
                                        assert(roster.deep_view() =~~= profiles_of(
                                            dv.take(i as int + 1),
                                        ));
                                    }
                                    i += 1;
                                }
                                proof {
                                    assert(names.deep_view().take(names.len() as int)
                                        =~= names.deep_view());
                                }
                                self.users = roster;
                                proof {
                                    assert(self@ =~~= step(old(self)@, m0));
                                }
                                true
                            },
                            Envelope::Message(data) => {
                                match decode_message_record(&data) {
                                    Ok(m) => {
                                        self.messages.push(m);
                                        proof {
                                            assert(self@ =~~= step(old(self)@, m0));
                                        }
                                        true
                                    },
                                    Err(_) => false,
                                }
                            },
                            Envelope::Register(_) => false,
                        }
                    },
                }
            },
            Msg::SubmitMessage(text) => {
                if text.len() == 0 {
                    false
                } else {
                    let envelope = Envelope::Message(text);
                    let wire = encode_envelope(&envelope);
                    self.outbound.push(wire);
                    proof {
                        assert(self@ =~~= step(old(self)@, m0));
                    }
                    false
                }
            },
        }
    }
}

/// Folds a sequence of inputs through the reducer, first to last.
pub open spec fn run(s: ChatView, ms: Seq<MsgView>) -> ChatView
    decreases ms.len(),
{
    if ms.len() == 0 {
        s
    } else {
        run(step(s, ms[0]), ms.drop_first())
    }
}

/// Folding through one more input steps once at the end.
pub proof fn lemma_run_snoc(s: ChatView, ms: Seq<MsgView>, m: MsgView)
    ensures
        run(s, ms.push(m)) == step(run(s, ms), m),
    decreases ms.len(),
{
    if ms.len() == 0 {
        reveal_with_fuel(run, 3);
        assert(ms.push(m).drop_first() =~= Seq::<MsgView>::empty());
    } else {
        assert(ms.push(m)[0] == ms[0]);
        assert(ms.push(m).drop_first() =~= ms.drop_first().push(m));
        lemma_run_snoc(step(s, ms[0]), ms.drop_first(), m);
    }
}

/// Law: after any run of inputs ending in a `users` envelope, the
/// roster is exactly that envelope's name list projected to profiles —
/// nothing accumulates across `users` envelopes and nothing else
/// contributes.
pub proof fn lemma_roster_is_latest_users(
    s: ChatView,
    ms: Seq<MsgView>,
    t: Seq<u8>,
    names: Seq<Seq<u8>>,
)
    requires
        decode_envelope_spec(t) == Ok::<EnvelopeView, DecodeError>(EnvelopeView::Users(names)),
    ensures
        run(s, ms.push(MsgView::HandleMsg(t))).users == profiles_of(names),
{
    lemma_run_snoc(s, ms, MsgView::HandleMsg(t));
}

/// Law: a `message` envelope whose record parses appends exactly that
/// record to the log — the log grows by one and nothing else changes.
pub proof fn lemma_valid_message_appends(s: ChatView, t: Seq<u8>, d: Seq<u8>, m: MessageDataView)
    requires
        decode_envelope_spec(t) == Ok::<EnvelopeView, DecodeError>(EnvelopeView::Message(d)),
        decode_record_spec(d) == Ok::<MessageDataView, DecodeError>(m),
    ensures
        step(s, MsgView::HandleMsg(t)).messages == s.messages.push(m),
        step(s, MsgView::HandleMsg(t)).messages.len() == s.messages.len() + 1,
        step(s, MsgView::HandleMsg(t)).users == s.users,
        step(s, MsgView::HandleMsg(t)).outbound == s.outbound,
{
}

/// Law: a `message` envelope whose record does not parse is dropped:
/// the state, the log's length included, is exactly unchanged.
pub proof fn lemma_malformed_message_ignored(s: ChatView, t: Seq<u8>, d: Seq<u8>)
    requires
        decode_envelope_spec(t) == Ok::<EnvelopeView, DecodeError>(EnvelopeView::Message(d)),
        decode_record_spec(d) is Err,
    ensures
        step(s, MsgView::HandleMsg(t)) == s,
{
}

/// Law: transport text that decodes to no envelope changes nothing.
pub proof fn lemma_undecodable_ignored(s: ChatView, t: Seq<u8>)
    requires
        decode_envelope_spec(t) is Err,
    ensures
        step(s, MsgView::HandleMsg(t)) == s,
{
}

/// Law: an inbound `register` envelope is a defensive no-op.
pub proof fn lemma_register_inbound_ignored(s: ChatView, t: Seq<u8>, d: Seq<u8>)
    requires
        decode_envelope_spec(t) == Ok::<EnvelopeView, DecodeError>(EnvelopeView::Register(d)),
    ensures
        step(s, MsgView::HandleMsg(t)) == s,
{
}

/// Law: toggling the display mode twice restores the state exactly.
pub proof fn lemma_toggle_twice_identity(s: ChatView)
    ensures
        step(step(s, MsgView::ToggleDarkMode), MsgView::ToggleDarkMode) == s,
{
    assert(step(step(s, MsgView::ToggleDarkMode), MsgView::ToggleDarkMode) =~~= s);
}

/// Law: submitting empty input changes nothing — log, roster, display
/// mode and the outbound queue (so the send count too) all stay as
/// they were.
pub proof fn lemma_empty_submit_ignored(s: ChatView, t: Seq<u8>)
    requires
        t.len() == 0,
    ensures
        step(s, MsgView::SubmitMessage(t)) == s,
{
}

/// Law: the message log is append-only — no input ever shortens it or
/// rewrites an entry already in it.
pub proof fn lemma_log_append_only(s: ChatView, m: MsgView)
    ensures
        s.messages.len() <= step(s, m).messages.len(),
        forall|i: int|
            0 <= i < s.messages.len() ==> step(s, m).messages[i] == s.messages[i],
{
}

/// Law: a non-empty submission queues exactly one outbound `message`
/// envelope carrying the raw input, and touches nothing else — in
/// particular the local log does not grow (no local echo).
pub proof fn lemma_submit_queues_one(s: ChatView, t: Seq<u8>)
    requires
        t.len() > 0,
    ensures
        step(s, MsgView::SubmitMessage(t)).outbound == s.outbound.push(
            encode_envelope_spec(EnvelopeView::Message(t)),
        ),
        step(s, MsgView::SubmitMessage(t)).messages == s.messages,
        step(s, MsgView::SubmitMessage(t)).users == s.users,
        step(s, MsgView::SubmitMessage(t)).dark_mode == s.dark_mode,
{
}

} // verus!
