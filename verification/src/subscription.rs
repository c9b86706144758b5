//! One consumer's view of the frame stream: the frames published for a single
//! display, until the capture of that display ends.

use crate::display::Frame;
use crate::session::{apply_stop, apply_stopped, Sessions};
use vstd::prelude::*;

verus! {

/// What a subscription can observe on the frame bus and on the stop bus.
pub enum BusEvent {
    /// A frame was published for a display.
    Frame { display_id: u32, frame: Frame },
    /// The capture of a display has ended.
    Stopped { display_id: u32 },
    /// A bus can no longer be read.
    Closed,
}

/// A subscription as a value: the display it is bound to, and whether it
/// still forwards frames.
pub struct SubscriptionState {
    pub display_id: u32,
    pub live: bool,
}

/// How a subscription reacts to one event: its next state, and the frame it
/// hands to its consumer, if any. A live subscription forwards exactly the
/// frames published for its own display. It ends with the capture of its
/// display or with a bus, and an ended subscription forwards nothing.
pub open spec fn step(state: SubscriptionState, event: BusEvent) -> (
    SubscriptionState,
    Option<Frame>,
) {
    match event {
        BusEvent::Frame { display_id, frame } => (
            state,
            if state.live && display_id == state.display_id {
                Some(frame)
            } else {
                None
            },
        ),
        BusEvent::Stopped { display_id } => (
            SubscriptionState {
                display_id: state.display_id,
                live: state.live && display_id != state.display_id,
            },
            None,
        ),
        BusEvent::Closed => (SubscriptionState { display_id: state.display_id, live: false }, None),
    }
}

/// The filter between the shared buses and one consumer of one display's
/// frames.
#[derive(Clone, Copy, Debug)]
pub struct FrameSubscription {
    display_id: u32,
    live: bool,
}

impl View for FrameSubscription {
    type V = SubscriptionState;

    closed spec fn view(&self) -> SubscriptionState {
        SubscriptionState { display_id: self.display_id, live: self.live }
    }
}

impl FrameSubscription {
    /// A live subscription to the frames of a display.
    pub fn new(display_id: u32) -> (subscription: FrameSubscription)
        ensures
            subscription@ == (SubscriptionState { display_id, live: true }),
    {
        FrameSubscription { display_id, live: true }
    }

    /// The display whose frames this subscription forwards.
    pub fn display_id(&self) -> (display_id: u32)
        ensures
            display_id == self@.display_id,
    {
        self.display_id
    }

    /// Whether this subscription still forwards frames.
    pub fn is_live(&self) -> (live: bool)
        ensures
            live == self@.live,
    {
        self.live
    }

    /// Reacts to one event from the buses, and returns the frame to hand to
    /// the consumer, if the event carries one for this subscription.
    pub fn handle(&mut self, event: BusEvent) -> (delivery: Option<Frame>)
        ensures
            (final(self)@, delivery) == step(old(self)@, event),
    {
        match event {
            BusEvent::Frame { display_id, frame } => {
                if self.live && display_id == self.display_id {
                    Some(frame)
                } else {
                    None
                }
            },
            BusEvent::Stopped { display_id } => {
                if display_id == self.display_id {
                    self.live = false;
                }
                None
            },
            BusEvent::Closed => {
                self.live = false;
                None
            },
        }
    }
}

/// The state of a subscription after it has handled `events` in order.
pub open spec fn state_after(state: SubscriptionState, events: Seq<BusEvent>) -> SubscriptionState
    decreases events.len(),
{
    if events.len() == 0 {
        state
    } else {
        step(state_after(state, events.drop_last()), events.last()).0
    }
}

/// The frames that a subscription hands to its consumer while it handles
/// `events` in order.
pub open spec fn delivered(state: SubscriptionState, events: Seq<BusEvent>) -> Seq<Frame>
    decreases events.len(),
{
    if events.len() == 0 {
        Seq::empty()
    } else {
        let earlier = delivered(state, events.drop_last());
        match step(state_after(state, events.drop_last()), events.last()).1 {
            Some(frame) => earlier.push(frame),
            None => earlier,
        }
    }
}

/// The frames published for one display among `events`, in the order of their
/// publication.
pub open spec fn frames_for(display_id: u32, events: Seq<BusEvent>) -> Seq<Frame>
    decreases events.len(),
{
    if events.len() == 0 {
        Seq::empty()
    } else {
        let earlier = frames_for(display_id, events.drop_last());
        match events.last() {
            BusEvent::Frame { display_id: published_for, frame } if published_for == display_id
                => earlier.push(frame),
            _ => earlier,
        }
    }
}

/// Whether an event ends the subscriptions to a display.
pub open spec fn ends(display_id: u32, event: BusEvent) -> bool {
    event == (BusEvent::Stopped { display_id }) || event is Closed
}

/// A subscription stays bound to its display.
pub proof fn lemma_subscription_keeps_display(state: SubscriptionState, events: Seq<BusEvent>)
    ensures
        state_after(state, events).display_id == state.display_id,
    decreases events.len(),
{
    if events.len() > 0 {
        lemma_subscription_keeps_display(state, events.drop_last());
    }
}

/// Whatever is published, for whichever displays and in whatever order, every
/// frame that a subscription delivers was published for its own display.
pub proof fn lemma_delivers_only_own_display(state: SubscriptionState, events: Seq<BusEvent>)
    ensures
        forall|k: int|
            0 <= k < delivered(state, events).len() ==> exists|i: int|
                0 <= i < events.len() && #[trigger] events[i] == (BusEvent::Frame {
                    display_id: state.display_id,
                    frame: #[trigger] delivered(state, events)[k],
                }),
    decreases events.len(),
{
    if events.len() > 0 {
        let earlier = events.drop_last();
        lemma_delivers_only_own_display(state, earlier);
        lemma_subscription_keeps_display(state, earlier);
        assert forall|k: int| 0 <= k < delivered(state, events).len() implies exists|i: int|
            0 <= i < events.len() && #[trigger] events[i] == (BusEvent::Frame {
                display_id: state.display_id,
                frame: #[trigger] delivered(state, events)[k],
            }) by {
            if k < delivered(state, earlier).len() {
                let i = choose|i: int|
                    0 <= i < earlier.len() && #[trigger] earlier[i] == (BusEvent::Frame {
                        display_id: state.display_id,
                        frame: delivered(state, earlier)[k],
                    });
                assert(events[i] == earlier[i]);
            } else {
                assert(events[events.len() - 1] == events.last());
            }
        }
    }
}

/// A subscription that has ended delivers nothing more and stays ended.
pub proof fn lemma_ended_subscription_stays_silent(state: SubscriptionState, events: Seq<BusEvent>)
    requires
        !state.live,
    ensures
        !state_after(state, events).live,
        delivered(state, events) == Seq::<Frame>::empty(),
    decreases events.len(),
{
    if events.len() > 0 {
        lemma_ended_subscription_stays_silent(state, events.drop_last());
    }
}

/// Until an event ends it, a live subscription delivers every frame that is
/// published for its display, in the order of publication, and no other.
pub proof fn lemma_live_subscription_delivers_all(state: SubscriptionState, events: Seq<BusEvent>)
    requires
        state.live,
        forall|i: int| 0 <= i < events.len() ==> !ends(state.display_id, #[trigger] events[i]),
    ensures
        state_after(state, events) == state,
        delivered(state, events) == frames_for(state.display_id, events),
    decreases events.len(),
{
    if events.len() > 0 {
        let earlier = events.drop_last();
        assert forall|i: int| 0 <= i < earlier.len() implies !ends(
            state.display_id,
            #[trigger] earlier[i],
        ) by {
            assert(earlier[i] == events[i]);
        }
        lemma_live_subscription_delivers_all(state, earlier);
    }
}

/// Handling one run of events and then another is handling the two in one
/// run.
pub proof fn lemma_delivered_splits(
    state: SubscriptionState,
    first: Seq<BusEvent>,
    second: Seq<BusEvent>,
)
    ensures
        state_after(state, first + second) == state_after(state_after(state, first), second),
        delivered(state, first + second) == delivered(state, first) + delivered(
            state_after(state, first),
            second,
        ),
    decreases second.len(),
{
    if second.len() > 0 {
        assert((first + second).drop_last() =~= first + second.drop_last());
        lemma_delivered_splits(state, first, second.drop_last());
        let middle = state_after(state, first);
        let earlier = delivered(middle, second.drop_last());
        match step(state_after(middle, second.drop_last()), second.last()).1 {
            Some(frame) => {
                assert(delivered(state, first) + earlier.push(frame) =~= (delivered(state, first)
                    + earlier).push(frame));
            },
            None => {},
        }
    }
}

/// When the capture of a display with a session ends, by the engine's own
/// report or by the withdrawal of the last request, the end is announced for
/// that display. A subscription to the display that handles the announcement
/// has ended: whatever it delivered before, it delivers nothing after.
pub proof fn lemma_end_of_capture_ends_subscriptions(
    sessions: Sessions,
    display_id: u32,
    state: SubscriptionState,
    before: Seq<BusEvent>,
    after: Seq<BusEvent>,
)
    requires
        sessions.contains_key(display_id),
        state.display_id == display_id,
    ensures
        apply_stopped(sessions, display_id).1.stop_event == Some(display_id),
        sessions[display_id] <= 1 ==> apply_stop(sessions, display_id).1.stop_event == Some(
            display_id,
        ),
        !state_after(state, before.push(BusEvent::Stopped { display_id }) + after).live,
        delivered(state, before.push(BusEvent::Stopped { display_id }) + after) == delivered(
            state,
            before,
        ),
{
    let announced = before.push(BusEvent::Stopped { display_id });
    assert(announced.drop_last() =~= before);
    lemma_subscription_keeps_display(state, before);
    lemma_delivered_splits(state, announced, after);
    lemma_ended_subscription_stays_silent(state_after(state, announced), after);
}

} // verus!
