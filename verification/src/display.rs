//! Captured frames, display handles and the capture session registry.

use crate::session::{
    apply, apply_start, apply_stop, apply_stopped, count_of, well_formed, CaptureEffects,
    CaptureRequest, EngineCommand, Sessions,
};
use crate::subscription::{FrameSubscription, SubscriptionState};
use crate::text::{append_decimal, append_signed_decimal, decimal, signed_decimal};
use std::collections::HashMap;
use std::sync::Arc;
use vstd::prelude::*;
use vstd::slice::slice_to_vec;
use vstd::std_specs::hash::group_hash_axioms;
use vstd::string::*;

verus! {

/// Identifier of a physical or virtual display, as supplied by the caller.
pub type CGDisplayId = u32;

/// One captured image: geometry plus a shared, immutable pixel buffer.
#[derive(Clone)]
pub struct Frame {
    pub bytes_per_row: isize,
    pub width: isize,
    pub height: isize,
    pub bytes: Arc<Vec<u8>>,
}

impl Frame {
    /// A frame of the given geometry that owns a copy of `bytes`. Neither the
    /// geometry nor the length of the buffer is checked against the other.
    pub fn new(bytes_per_row: isize, width: isize, height: isize, bytes: &[u8]) -> (frame: Frame)
        ensures
            frame.bytes_per_row == bytes_per_row,
            frame.width == width,
            frame.height == height,
            frame.bytes@ == bytes@,
    {
        Frame { bytes_per_row, width, height, bytes: Arc::new(slice_to_vec(bytes)) }
    }

    /// The frame that carries no pixels.
    pub fn empty() -> (frame: Frame)
        ensures
            frame.bytes_per_row == 0,
            frame.width == 0,
            frame.height == 0,
            frame.bytes@ == Seq::<u8>::empty(),
    {
        Frame { bytes_per_row: 0, width: 0, height: 0, bytes: Arc::new(Vec::new()) }
    }

    /// What `to_text` writes: the size in pixels, the length of the pixel
    /// buffer in bytes and the row stride, each in decimal notation.
    pub open spec fn text(&self) -> Seq<char> {
        "Frame: "@ + signed_decimal(self.width as int) + "x"@ + signed_decimal(self.height as int)
            + ", len: "@ + decimal(self.bytes@.len()) + ", bytes_per_row: "@ + signed_decimal(
            self.bytes_per_row as int,
        )
    }

    /// What `to_short_text` writes: the size in pixels and the length of the
    /// pixel buffer in bytes.
    pub open spec fn short_text(&self) -> Seq<char> {
        "Frame: "@ + signed_decimal(self.width as int) + "x"@ + signed_decimal(self.height as int)
            + ", len: "@ + decimal(self.bytes@.len())
    }

    /// A one-line description of the frame for display, without its pixels.
    pub fn to_text(&self) -> (text: String)
        ensures
            text@ == self.text(),
    {
        let mut text = self.to_short_text();
        text.append(", bytes_per_row: ");
        append_signed_decimal(&mut text, self.bytes_per_row);
        text
    }

    /// A shorter description of the frame, for diagnostics.
    pub fn to_short_text(&self) -> (text: String)
        ensures
            text@ == self.short_text(),
    {
        let mut text = String::from_str("Frame: ");
        append_signed_decimal(&mut text, self.width);
        text.append("x");
        append_signed_decimal(&mut text, self.height);
        text.append(", len: ");
        append_decimal(&mut text, self.bytes.len());
        text
    }
}

/// A handle on one display: the capability to request and to end its capture,
/// and to subscribe to its frames. It holds no state of its own, and any
/// number of handles may name the same display.
#[derive(Clone, Copy, Debug)]
pub struct Display {
    display_id: CGDisplayId,
}

impl View for Display {
    type V = u32;

    closed spec fn view(&self) -> u32 {
        self.display_id
    }
}

impl Display {
    /// A handle on the display with the given id.
    pub fn new(display_id: CGDisplayId) -> (display: Display)
        ensures
            display@ == display_id,
    {
        Display { display_id }
    }

    /// The id of the display that this handle names.
    pub fn id(&self) -> (display_id: CGDisplayId)
        ensures
            display_id == self@,
    {
        self.display_id
    }

    /// Requests the capture of this display at `frame_rate`.
    pub fn start_capture(&self, manager: &mut DisplayManager, frame_rate: i32) -> (effects:
        CaptureEffects)
        requires
            count_of(old(manager)@, self@) < usize::MAX,
        ensures
            (final(manager)@, effects) == apply_start(old(manager)@, self@, frame_rate),
            well_formed(final(manager)@),
    {
        manager.start_capture(self.display_id, frame_rate)
    }

    /// Withdraws one request for the capture of this display.
    pub fn stop_capture(&self, manager: &mut DisplayManager) -> (effects: CaptureEffects)
        ensures
            (final(manager)@, effects) == apply_stop(old(manager)@, self@),
            well_formed(final(manager)@),
    {
        manager.stop_capture(self.display_id)
    }

    /// A new subscription to the frames of this display, independent of every
    /// other subscription.
    pub fn subscribe_frame(&self) -> (subscription: FrameSubscription)
        ensures
            subscription@ == (SubscriptionState { display_id: self@, live: true }),
    {
        FrameSubscription::new(self.display_id)
    }
}

/// The capture session registry: counts, for each display, the capture
/// requests that have not been withdrawn, and decides when the capture engine
/// has to be started or stopped. A display has an entry exactly while it has
/// at least one outstanding request. Every operation that changes the registry
/// takes it by exclusive reference, so no two of them overlap.
pub struct DisplayManager {
    capturing_display_ids: HashMap<CGDisplayId, usize>,
}

impl View for DisplayManager {
    type V = Sessions;

    closed spec fn view(&self) -> Sessions {
        self.capturing_display_ids@.map_values(|count: usize| count as nat)
    }
}

impl DisplayManager {
    #[verifier::type_invariant]
    spec fn counts_are_positive(&self) -> bool {
        let counts = self.capturing_display_ids@;
        forall|d: u32| counts.contains_key(d) ==> #[trigger] counts[d] >= 1
    }

    /// A registry in which no display is being captured.
    pub fn new() -> (manager: DisplayManager)
        ensures
            manager@ == Map::<u32, nat>::empty(),
            well_formed(manager@),
    {
        let manager = DisplayManager { capturing_display_ids: HashMap::new() };
        proof {
            manager.lemma_view_is_well_formed();
        }
        manager
    }

    proof fn lemma_view_is_well_formed(&self)
        requires
            self.counts_are_positive(),
        ensures
            well_formed(self@),
    {
        broadcast use group_hash_axioms;

        assert(self@.dom() =~= self.capturing_display_ids@.dom());
        assert forall|d: u32| self@.contains_key(d) implies #[trigger] self@[d] >= 1 by {
            assert(self.capturing_display_ids@[d] >= 1);
        }
    }

    /// The number of outstanding capture requests for a display.
    pub fn count(&self, display_id: CGDisplayId) -> (count: usize)
        ensures
            count == count_of(self@, display_id),
            well_formed(self@),
    {
        broadcast use group_hash_axioms;

        proof {
            use_type_invariant(self);
            self.lemma_view_is_well_formed();
        }
        match self.capturing_display_ids.get(&display_id) {
            Some(count) => *count,
            None => 0,
        }
    }

    /// Records `count` outstanding requests for a display.
    fn set_count(&mut self, display_id: CGDisplayId, count: usize)
        requires
            count >= 1,
        ensures
            final(self)@ == old(self)@.insert(display_id, count as nat),
    {
        broadcast use group_hash_axioms;

        proof {
            use_type_invariant(&*self);
        }
        let mut ids: HashMap<CGDisplayId, usize> = HashMap::new();
        core::mem::swap(&mut self.capturing_display_ids, &mut ids);
        ids.insert(display_id, count);
        core::mem::swap(&mut self.capturing_display_ids, &mut ids);
    }

    /// Drops the session of a display, if it has one.
    fn forget(&mut self, display_id: CGDisplayId)
        ensures
            final(self)@ == old(self)@.remove(display_id),
    {
        broadcast use group_hash_axioms;

        proof {
            use_type_invariant(&*self);
        }
        let mut ids: HashMap<CGDisplayId, usize> = HashMap::new();
        core::mem::swap(&mut self.capturing_display_ids, &mut ids);
        ids.remove(&display_id);
        core::mem::swap(&mut self.capturing_display_ids, &mut ids);
    }

    /// Applies one request, whichever it is, and returns what it causes.
    pub fn handle(&mut self, request: CaptureRequest) -> (effects: CaptureEffects)
        requires
            request is Start ==> count_of(old(self)@, request.display_id()) < usize::MAX,
        ensures
            (final(self)@, effects) == apply(old(self)@, request),
            well_formed(final(self)@),
    {
        match request {
            CaptureRequest::Start { display_id, frame_rate } => self.start_capture(
                display_id,
                frame_rate,
            ),
            CaptureRequest::Stop { display_id } => self.stop_capture(display_id),
            CaptureRequest::Stopped { display_id } => self.stopped(display_id),
        }
    }

    /// Registers one more capture request for a display. The first request
    /// for a display asks the engine to start capturing it at `frame_rate`;
    /// every further one is only counted.
    pub fn start_capture(&mut self, display_id: CGDisplayId, frame_rate: i32) -> (effects:
        CaptureEffects)
        requires
            count_of(old(self)@, display_id) < usize::MAX,
        ensures
            (final(self)@, effects) == apply_start(old(self)@, display_id, frame_rate),
            well_formed(final(self)@),
    {
        let count: usize = self.count(display_id);
        self.set_count(display_id, count + 1);
        if count == 0 {
            CaptureEffects {
                engine: Some(EngineCommand::Start { display_id, frame_rate }),
                stop_event: None,
            }
        } else {
            CaptureEffects { engine: None, stop_event: None }
        }
    }

    /// Withdraws one capture request for a display. The last outstanding
    /// request ends the session: the engine is asked to stop and the end of
    /// capture is to be announced. For a display without a session nothing
    /// changes, and the engine is asked to stop all the same.
    pub fn stop_capture(&mut self, display_id: CGDisplayId) -> (effects: CaptureEffects)
        ensures
            (final(self)@, effects) == apply_stop(old(self)@, display_id),
            well_formed(final(self)@),
    {
        let count: usize = self.count(display_id);
        if count == 0 {
            CaptureEffects { engine: Some(EngineCommand::Stop), stop_event: None }
        } else if count > 1 {
            self.set_count(display_id, count - 1);
            CaptureEffects { engine: None, stop_event: None }
        } else {
            self.forget(display_id);
            CaptureEffects { engine: Some(EngineCommand::Stop), stop_event: Some(display_id) }
        }
    }

    /// Takes note that the engine has ended the capture of a display of its
    /// own accord. A session for the display is dropped, whatever its count,
    /// and the end of capture is to be announced; without a session the engine
    /// is asked to stop, and nothing is announced.
    pub fn stopped(&mut self, display_id: CGDisplayId) -> (effects: CaptureEffects)
        ensures
            (final(self)@, effects) == apply_stopped(old(self)@, display_id),
            well_formed(final(self)@),
    {
        let count: usize = self.count(display_id);
        if count == 0 {
            CaptureEffects { engine: Some(EngineCommand::Stop), stop_event: None }
        } else {
            self.forget(display_id);
            CaptureEffects { engine: None, stop_event: Some(display_id) }
        }
    }
}

} // verus!
