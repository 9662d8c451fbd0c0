//! Decisions of the background evaluation thread: when pattern events are
//! rendered into the event buffer and when the buffer is cleared. The thread
//! itself, the pattern engine and the tempo live on the host side, which
//! performs the returned action.
use vstd::prelude::*;
use crate::event::StrudelEvent;
use crate::event_buffer::{DoubleBufferView, DoubleEventBuffer, covers, swapped, written};

verus! {

/// What the evaluation thread does with the event buffer after a message.
#[derive(Clone, Copy, Debug, PartialEq, Eq, Structural)]
pub enum BufferAction {
    /// Leave the buffer as it is.
    Keep,
    /// Query the pattern for cycles `[start_cycle, end_cycle)`, write the
    /// events to the buffer and swap it.
    Render { start_cycle: i64, end_cycle: i64 },
    /// Clear both sides of the buffer.
    Clear,
}

/// State the evaluation thread keeps between messages.
#[derive(Clone, Copy, Debug, PartialEq, Eq, Structural)]
pub struct EvalState {
    /// Whether playback is active.
    pub playing: bool,
    /// Whether a pattern is currently loaded.
    pub has_pattern: bool,
    /// Current playback position, rounded down to a whole cycle.
    pub cycle: i64,
    /// How many cycles are pre-rendered ahead of the position.
    pub cycles_ahead: i64,
}

/// The render window from the current position fits in `i64`.
pub open spec fn window_fits(cycle: i64, cycles_ahead: i64) -> bool {
    i64::MIN <= cycle + cycles_ahead <= i64::MAX
}

/// Rendering the window that starts at `cycle`.
pub open spec fn render_from(cycle: i64, cycles_ahead: i64) -> BufferAction {
    BufferAction::Render { start_cycle: cycle, end_cycle: (cycle + cycles_ahead) as i64 }
}

/// The action after code was evaluated with outcome `success` in state `s`.
pub open spec fn code_action(s: EvalState, success: bool) -> BufferAction {
    if !success {
        BufferAction::Clear
    } else if s.playing {
        render_from(s.cycle, s.cycles_ahead)
    } else {
        BufferAction::Keep
    }
}

/// The action when the transport reports `playing` at `cycle` in state `s`,
/// where `covered` tells whether the read buffer covers the new position.
pub open spec fn transport_action(s: EvalState, playing: bool, cycle: i64, covered: bool) -> BufferAction {
    if playing && (!s.playing || !covered) && s.has_pattern {
        render_from(cycle, s.cycles_ahead)
    } else if !playing && s.playing {
        BufferAction::Clear
    } else {
        BufferAction::Keep
    }
}

impl EvalState {
    /// Stopped, with no pattern, at cycle 0.
    pub fn new(cycles_ahead: i64) -> (s: Self)
        ensures
            !s.playing,
            !s.has_pattern,
            s.cycle == 0,
            s.cycles_ahead == cycles_ahead,
    {
        EvalState { playing: false, has_pattern: false, cycle: 0, cycles_ahead }
    }

    fn render(&self) -> (a: BufferAction)
        requires
            window_fits(self.cycle, self.cycles_ahead),
        ensures
            a == render_from(self.cycle, self.cycles_ahead),
    {
        BufferAction::Render { start_cycle: self.cycle, end_cycle: self.cycle + self.cycles_ahead }
    }

    /// New code was evaluated. A success loads the pattern and, while
    /// playing, renders from the current position; a failure unloads the
    /// pattern and clears the buffer.
    pub fn on_code_evaluated(&mut self, success: bool) -> (a: BufferAction)
        requires
            success && old(self).playing ==> window_fits(old(self).cycle, old(self).cycles_ahead),
        ensures
            *final(self) == (EvalState { has_pattern: success, ..*old(self) }),
            a == code_action(*old(self), success),
    {
        if success {
            self.has_pattern = true;
            if self.playing {
                self.render()
            } else {
                BufferAction::Keep
            }
        } else {
            self.has_pattern = false;
            BufferAction::Clear
        }
    }

    /// The host transport changed or moved. `cycle` is the new position
    /// rounded down, `position_cycle` the position truncated toward zero,
    /// which is what the read buffer is asked to cover. Playback that starts,
    /// or that moves outside the read buffer, renders from `cycle` when a
    /// pattern is loaded; playback that stops clears the buffer.
    pub fn on_transport(
        &mut self,
        playing: bool,
        cycle: i64,
        position_cycle: i64,
        buffer: &DoubleEventBuffer,
    ) -> (a: BufferAction)
        requires
            playing && old(self).has_pattern && (!old(self).playing || !covers(
                buffer@.read,
                position_cycle as int,
            )) ==> window_fits(cycle, old(self).cycles_ahead),
        ensures
            *final(self) == (EvalState { playing, cycle, ..*old(self) }),
            a == transport_action(
                *old(self),
                playing,
                cycle,
                covers(buffer@.read, position_cycle as int),
            ),
    {
        let was_playing = self.playing;
        self.playing = playing;
        self.cycle = cycle;
        if playing && (!was_playing || !buffer.read_contains_cycle(position_cycle)) {
            if self.has_pattern {
                return self.render();
            }
        }
        if !playing && was_playing {
            return BufferAction::Clear;
        }
        BufferAction::Keep
    }
}

/// Nothing is rendered while stopped or without a pattern; a render always
/// covers `cycles_ahead` cycles from the new position; the buffer is cleared
/// exactly when playback stops.
pub proof fn lemma_transport_rules(s: EvalState, playing: bool, cycle: i64, covered: bool)
    requires
        playing && s.has_pattern && (!s.playing || !covered) ==> window_fits(cycle, s.cycles_ahead),
    ensures
        transport_action(s, playing, cycle, covered) is Render ==> playing && s.has_pattern,
        transport_action(s, playing, cycle, covered) matches BufferAction::Render {
            start_cycle,
            end_cycle,
        } ==> start_cycle == cycle && end_cycle - start_cycle == s.cycles_ahead,
        transport_action(s, playing, cycle, covered) is Clear <==> (!playing && s.playing),
        (playing && !s.playing && s.has_pattern) ==> transport_action(s, playing, cycle, covered) is Render,
        transport_action(s, playing, cycle, covered) is Render <==> (playing && s.has_pattern && (
        !s.playing || !covered)),
        transport_action(s, playing, cycle, covered) is Keep <==> !(playing && s.has_pattern && (
        !s.playing || !covered)) && !(!playing && s.playing),
{
}

/// While playing with a pattern loaded, a position the read buffer does not
/// cover is re-rendered from that position, whether playback moved forward or
/// jumped back (a seek or a loop); a covered position keeps the buffer.
pub proof fn lemma_rerender_outside_buffer(s: EvalState, cycle: i64, covered: bool)
    requires
        s.playing,
        s.has_pattern,
        window_fits(cycle, s.cycles_ahead),
    ensures
        !covered ==> transport_action(s, true, cycle, covered) == (BufferAction::Render {
            start_cycle: cycle,
            end_cycle: (cycle + s.cycles_ahead) as i64,
        }),
        !covered && cycle < s.cycle ==> transport_action(s, true, cycle, covered) is Render,
        !covered && cycle > s.cycle ==> transport_action(s, true, cycle, covered) is Render,
        covered ==> transport_action(s, true, cycle, covered) == BufferAction::Keep,
{
}

/// A render after new code starts at the current position and spans
/// `cycles_ahead` cycles.
pub proof fn lemma_code_render_window(s: EvalState, success: bool)
    requires
        success && s.playing ==> window_fits(s.cycle, s.cycles_ahead),
    ensures
        success && s.playing ==> code_action(s, success) == (BufferAction::Render {
            start_cycle: s.cycle,
            end_cycle: (s.cycle + s.cycles_ahead) as i64,
        }),
        success && !s.playing ==> code_action(s, success) == BufferAction::Keep,
        !success ==> code_action(s, success) == BufferAction::Clear,
{
}

/// A failed evaluation always clears the buffer; a successful one never does,
/// and renders exactly when playing.
pub proof fn lemma_code_rules(s: EvalState, success: bool)
    ensures
        code_action(s, success) is Clear <==> !success,
        code_action(s, success) is Render <==> (success && s.playing),
{
}

/// Repeating a transport update changes nothing: once a render for the
/// position has been published (the window starts at the position and is at
/// least one cycle long), the same update again keeps the buffer and the state.
pub proof fn lemma_repeated_transport_keeps(
    s: EvalState,
    playing: bool,
    cycle: i64,
    d: DoubleBufferView,
    events: Seq<StrudelEvent>,
)
    requires
        s.cycles_ahead >= 1,
        window_fits(cycle, s.cycles_ahead),
    ensures
        ({
            let s1 = EvalState { playing, cycle, ..s };
            let a = transport_action(s, playing, cycle, covers(d.read, cycle as int));
            let d1 = if a is Render {
                swapped(written(d, events, cycle as int, cycle + s.cycles_ahead))
            } else {
                d
            };
            &&& (EvalState { playing, cycle, ..s1 }) == s1
            &&& transport_action(s1, playing, cycle, covers(d1.read, cycle as int)) == BufferAction::Keep
        }),
{
}

} // verus!
