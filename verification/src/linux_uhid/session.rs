//! Running the authenticator: what to do next after what happened.

use super::events::ByteOrder;
use super::run::RunStep;
use super::{
    Action, ActionView, Pending, PendingView, UhidAuthenticator, UhidError, UhidErrorView, UhidView,
};
use crate::backend::CredentialBackend;
use crate::ctap_hid::{CtapHidMessage, MessageView, PacketView};
use vstd::prelude::*;

verus! {

/// What to do next.
pub enum NextStep {
    /// Read an event from the device.
    Read,
    /// Ask the user this.
    Ask(String),
    /// Send the host this message.
    Send(CtapHidMessage),
    /// Stop: the authenticator failed.
    Fail(UhidError),
    /// Stop: reading, asking or sending failed.
    GiveUp,
}

/// The contents of a [`NextStep`].
#[verifier::ext_equal]
pub enum NextStepView {
    Read,
    Ask(Seq<char>),
    Send(MessageView),
    Fail(UhidErrorView),
    GiveUp,
}

impl View for NextStep {
    type V = NextStepView;

    open spec fn view(&self) -> NextStepView {
        match self {
            NextStep::Read => NextStepView::Read,
            NextStep::Ask(prompt) => NextStepView::Ask(prompt@),
            NextStep::Send(message) => NextStepView::Send(message@),
            NextStep::Fail(error) => NextStepView::Fail(error@),
            NextStep::GiveUp => NextStepView::GiveUp,
        }
    }
}

impl NextStepView {
    /// Whether this ends the session.
    pub open spec fn stops(self) -> bool {
        self is Fail || self is GiveUp
    }
}

/// What came of the last step.
pub enum Happening {
    /// This event was read.
    Event(Vec<u8>),
    /// The user gave this word.
    Word(bool),
    /// The message was sent.
    Sent,
    /// Reading, asking or sending failed.
    Failure,
}

/// The contents of a [`Happening`].
#[verifier::ext_equal]
pub enum HappeningView {
    Event(Seq<u8>),
    Word(bool),
    Sent,
    Failure,
}

impl View for Happening {
    type V = HappeningView;

    open spec fn view(&self) -> HappeningView {
        match self {
            Happening::Event(event) => HappeningView::Event(event@),
            Happening::Word(confirmed) => HappeningView::Word(*confirmed),
            Happening::Sent => HappeningView::Sent,
            Happening::Failure => HappeningView::Failure,
        }
    }
}

/// What a session waits for.
enum Awaited {
    Event,
    Word(Pending),
    Delivery,
    Nothing,
}

/// What a session waits for: an event, the user's word on a request, that a
/// message is sent, or nothing any more.
#[verifier::ext_equal]
pub enum AwaitedView {
    Event,
    Word(PendingView),
    Delivery,
    Nothing,
}

impl View for Awaited {
    type V = AwaitedView;

    closed spec fn view(&self) -> AwaitedView {
        match self {
            Awaited::Event => AwaitedView::Event,
            Awaited::Word(pending) => AwaitedView::Word(pending@),
            Awaited::Delivery => AwaitedView::Delivery,
            Awaited::Nothing => AwaitedView::Nothing,
        }
    }
}

impl AwaitedView {
    /// Whether this is what is waited for.
    pub open spec fn expects(self, happening: HappeningView) -> bool {
        match happening {
            HappeningView::Event(_) => self is Event,
            HappeningView::Word(_) => self is Word,
            HappeningView::Sent => self is Delivery,
            HappeningView::Failure => !(self is Nothing),
        }
    }
}

/// An authenticator at work on a device.
pub struct Session<B: CredentialBackend> {
    authenticator: UhidAuthenticator<B>,
    awaited: Awaited,
}

/// The contents of a [`Session`].
#[verifier::reject_recursive_types(B)]
pub struct SessionView<B: CredentialBackend> {
    pub authenticator: UhidView<B>,
    pub awaited: AwaitedView,
}

impl<B: CredentialBackend> View for Session<B> {
    type V = SessionView<B>;

    closed spec fn view(&self) -> SessionView<B> {
        SessionView { authenticator: self.authenticator@, awaited: self.awaited@ }
    }
}

impl<B: CredentialBackend> SessionView<B> {
    /// What the authenticator does with what happened, as `next` shows it.
    pub open spec fn run_step(
        self,
        happening: HappeningView,
        next: NextStepView,
        after: Self,
    ) -> RunStep {
        match (self.awaited, happening) {
            (AwaitedView::Event, HappeningView::Event(event)) => RunStep::Event {
                event,
                result: match (next, after.awaited) {
                    (NextStepView::Fail(error), _) => Err(error),
                    (NextStepView::Send(message), _) => Ok(ActionView::Send(message)),
                    (_, AwaitedView::Word(pending)) => Ok(ActionView::Confirm(pending)),
                    _ => Ok(ActionView::Ignore),
                },
            },
            (AwaitedView::Word(pending), HappeningView::Word(confirmed)) => RunStep::Word {
                pending,
                confirmed,
                answer: match next {
                    NextStepView::Send(message) => Ok(message),
                    NextStepView::Fail(error) => Err(error),
                    _ => arbitrary(),
                },
            },
            _ => RunStep::Idle,
        }
    }

    /// Whether a session can go from here to `after` with `next` when
    /// `happening` happens: the authenticator handles the event or the word, its
    /// answer is sent, and then the next event is read.
    pub open spec fn advances(
        self,
        order: ByteOrder,
        happening: HappeningView,
        next: NextStepView,
        after: Self,
    ) -> bool {
        &&& super::run::leads(
            order,
            self.authenticator,
            self.run_step(happening, next, after),
            after.authenticator,
        )
        &&& match happening {
            HappeningView::Event(_) => !(next is GiveUp),
            HappeningView::Word(_) => next is Send || next is Fail,
            HappeningView::Sent => next is Read,
            HappeningView::Failure => next is GiveUp,
        }
        &&& match next {
            NextStepView::Read => after.awaited is Event,
            NextStepView::Ask(prompt) => after.awaited matches AwaitedView::Word(pending)
                && prompt == pending.prompt(),
            NextStepView::Send(_) => after.awaited is Delivery,
            NextStepView::Fail(_) => after.awaited is Nothing,
            NextStepView::GiveUp => after.awaited is Nothing,
        }
    }
}

impl<B: CredentialBackend> Session<B> {
    /// A session that is yet to be started.
    pub fn new(authenticator: UhidAuthenticator<B>) -> (session: Self)
        ensures
            session@ == (SessionView {
                authenticator: authenticator@,
                awaited: AwaitedView::Nothing,
            }),
    {
        Session { authenticator, awaited: Awaited::Nothing }
    }

    /// Starts the session, or starts it anew. The first thing to do is to read an
    /// event.
    pub fn start(&mut self) -> (next: NextStep)
        ensures
            next@ == NextStepView::Read,
            final(self)@ == (SessionView { awaited: AwaitedView::Event, ..old(self)@ }),
    {
        self.awaited = Awaited::Event;
        NextStep::Read
    }

    /// Takes in what happened and says what to do next.
    pub fn advance(&mut self, order: ByteOrder, happening: Happening) -> (next: NextStep)
        requires
            old(self)@.awaited.expects(happening@),
        ensures
            old(self)@.advances(order, happening@, next@, final(self)@),
    {
        let mut awaited = Awaited::Nothing;
        std::mem::swap(&mut awaited, &mut self.awaited);
        match (happening, awaited) {
            (Happening::Event(event), _) => match self.authenticator.handle_event(order, &event) {
                Ok(Action::Ignore) => {
                    self.awaited = Awaited::Event;
                    NextStep::Read
                },
                Ok(Action::Send(message)) => {
                    self.awaited = Awaited::Delivery;
                    NextStep::Send(message)
                },
                Ok(Action::Confirm(pending)) => {
                    let prompt = pending.prompt();
                    self.awaited = Awaited::Word(pending);
                    NextStep::Ask(prompt)
                },
                Err(error) => NextStep::Fail(error),
            },
            (Happening::Word(confirmed), Awaited::Word(pending)) => {
                match self.authenticator.resume(pending, confirmed) {
                    Ok(message) => {
                        self.awaited = Awaited::Delivery;
                        NextStep::Send(message)
                    },
                    Err(error) => NextStep::Fail(error),
                }
            },
            (Happening::Sent, _) => {
                self.awaited = Awaited::Event;
                NextStep::Read
            },
            _ => NextStep::GiveUp,
        }
    }
}

/// Whether a session can go through `states`, where each happening leads to the
/// next step beside it.
pub open spec fn is_session<B: CredentialBackend>(
    order: ByteOrder,
    states: Seq<SessionView<B>>,
    happenings: Seq<HappeningView>,
    nexts: Seq<NextStepView>,
) -> bool {
    &&& states.len() == happenings.len() + 1
    &&& nexts.len() == happenings.len()
    &&& forall|i: int|
        0 <= i < happenings.len() ==> {
            &&& states[i].awaited.expects(#[trigger] happenings[i])
            &&& states[i].advances(order, happenings[i], nexts[i], states[i + 1])
        }
}

/// What the authenticator does over a session.
pub open spec fn run_steps<B: CredentialBackend>(
    states: Seq<SessionView<B>>,
    happenings: Seq<HappeningView>,
    nexts: Seq<NextStepView>,
) -> Seq<RunStep> {
    Seq::new(
        happenings.len(),
        |i: int| states[i].run_step(happenings[i], nexts[i], states[i + 1]),
    )
}

/// The states of the authenticator over a session.
pub open spec fn authenticator_states<B: CredentialBackend>(
    states: Seq<SessionView<B>>,
) -> Seq<UhidView<B>> {
    states.map_values(|state: SessionView<B>| state.authenticator)
}

/// A session never ends well, and it ends only where the authenticator fails on
/// an event or on the user's word, or where reading, asking or sending fails.
/// Nothing happens after the end.
pub proof fn law_sessions_end_only_in_failure<B: CredentialBackend>(
    order: ByteOrder,
    states: Seq<SessionView<B>>,
    happenings: Seq<HappeningView>,
    nexts: Seq<NextStepView>,
    i: int,
)
    requires
        is_session(order, states, happenings, nexts),
        0 <= i < happenings.len(),
    ensures
        states[i + 1].awaited is Nothing <==> nexts[i].stops(),
        nexts[i] is GiveUp <==> happenings[i] is Failure,
        nexts[i] matches NextStepView::Fail(error) ==> match (states[i].awaited, happenings[i]) {
            (_, HappeningView::Event(event)) => states[i].authenticator.handles_event(
                order,
                event,
                Err(error),
                states[i + 1].authenticator,
            ),
            (AwaitedView::Word(pending), HappeningView::Word(confirmed)) => states[
                i
            ].authenticator.resumes(pending, confirmed, Err(error), states[i + 1].authenticator),
            _ => false,
        },
        nexts[i].stops() ==> i + 1 == happenings.len(),
{
    assert(states[i].awaited.expects(happenings[i]));
    if nexts[i].stops() && i + 1 < happenings.len() {
        assert(states[i + 1].awaited.expects(happenings[i + 1]));
    }
}

/// Over any session, the messages that are handled are those that the packets of
/// the events complete, each once and in order.
pub proof fn law_sessions_handle_completed_messages_in_order<B: CredentialBackend>(
    order: ByteOrder,
    states: Seq<SessionView<B>>,
    happenings: Seq<HappeningView>,
    nexts: Seq<NextStepView>,
)
    requires
        is_session(order, states, happenings, nexts),
    ensures
        ({
            let steps = run_steps(states, happenings, nexts);
            let expected = crate::ctap_hid::laws::reassembled(
                states[0].authenticator.channels,
                super::run::packets_of(order, steps),
            );
            &&& super::run::is_run(order, authenticator_states(states), steps)
            &&& states.last().authenticator.channels == expected.0
            &&& super::run::handled_messages(order, authenticator_states(states), steps)
                == expected.1
        }),
{
    let steps = run_steps(states, happenings, nexts);
    let inner = authenticator_states(states);
    assert forall|i: int| 0 <= i < steps.len() implies super::run::leads(
        order,
        inner[i],
        #[trigger] steps[i],
        inner[i + 1],
    ) by {
        assert(states[i].awaited.expects(happenings[i]));
    }
    super::run::law_completed_messages_are_handled_in_order(order, inner, steps);
}

/// A read that is too short, is no output event, or brings no packet changes
/// nothing, sends nothing, and is followed by the next read.
pub proof fn law_sessions_read_on_after_other_events<B: CredentialBackend>(
    order: ByteOrder,
    before: SessionView<B>,
    event: Seq<u8>,
    next: NextStepView,
    after: SessionView<B>,
)
    requires
        event.len() < 4 || event.take(4) != order.bytes32(super::events::UHID_OUTPUT)
            || PacketView::parsed(
            event.subrange(
                4,
                if event.len() <= 69 {
                    event.len() as int
                } else {
                    69
                },
            ),
        ) is None,
        before.awaited is Event,
        before.advances(order, HappeningView::Event(event), next, after),
    ensures
        before.authenticator.unchanged(after.authenticator),
        next == NextStepView::Read,
        after.awaited is Event,
{
}

/// What a session does is what the authenticator says: an event that is ignored is
/// followed by the next read, an answer is sent, a question is asked and its word
/// handed back to the request that waits, and after an answer is sent the next event
/// is read. A failure of the authenticator stops the session with its error.
pub proof fn law_sessions_do_what_the_authenticator_says<B: CredentialBackend>(
    order: ByteOrder,
    before: SessionView<B>,
    happening: HappeningView,
    next: NextStepView,
    after: SessionView<B>,
)
    requires
        before.awaited.expects(happening),
        before.advances(order, happening, next, after),
    ensures
        match happening {
            HappeningView::Event(event) => match next {
                NextStepView::Read => before.authenticator.handles_event(
                    order,
                    event,
                    Ok(ActionView::Ignore),
                    after.authenticator,
                ),
                NextStepView::Send(message) => before.authenticator.handles_event(
                    order,
                    event,
                    Ok(ActionView::Send(message)),
                    after.authenticator,
                ),
                NextStepView::Ask(prompt) => after.awaited matches AwaitedView::Word(pending) && {
                    &&& prompt == pending.prompt()
                    &&& before.authenticator.handles_event(
                        order,
                        event,
                        Ok(ActionView::Confirm(pending)),
                        after.authenticator,
                    )
                },
                NextStepView::Fail(error) => before.authenticator.handles_event(
                    order,
                    event,
                    Err(error),
                    after.authenticator,
                ),
                NextStepView::GiveUp => false,
            },
            HappeningView::Word(confirmed) => before.awaited matches AwaitedView::Word(pending)
                && match next {
                NextStepView::Send(message) => before.authenticator.resumes(
                    pending,
                    confirmed,
                    Ok(message),
                    after.authenticator,
                ),
                NextStepView::Fail(error) => before.authenticator.resumes(
                    pending,
                    confirmed,
                    Err(error),
                    after.authenticator,
                ),
                _ => false,
            },
            HappeningView::Sent => next == NextStepView::Read && before.authenticator.unchanged(
                after.authenticator,
            ),
            HappeningView::Failure => next == NextStepView::GiveUp
                && before.authenticator.unchanged(after.authenticator),
        },
        match next {
            NextStepView::Read => after.awaited is Event,
            NextStepView::Ask(_) => after.awaited is Word,
            NextStepView::Send(_) => after.awaited is Delivery,
            _ => after.awaited is Nothing,
        },
{
}

} // verus!
