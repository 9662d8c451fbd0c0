//! Pre-rendered pattern events: a buffer that covers a range of cycles, and a
//! read/write pair of them that the evaluation side fills and then publishes
//! to the audio side with a swap.
use vstd::prelude::*;
use crate::event::StrudelEvent;

verus! {

/// What an [`EventBuffer`] holds.
pub struct BufferView {
    pub events: Seq<StrudelEvent>,
    pub start_cycle: int,
    pub end_cycle: int,
    pub buffer_size_cycles: int,
}

/// An empty buffer over no cycles.
pub open spec fn empty_buffer(buffer_size_cycles: int) -> BufferView {
    BufferView { events: Seq::empty(), start_cycle: 0, end_cycle: 0, buffer_size_cycles }
}

/// `b` after its contents were replaced by `events` covering `[start, end)`.
pub open spec fn updated_buffer(b: BufferView, events: Seq<StrudelEvent>, start: int, end: int) -> BufferView {
    BufferView { events, start_cycle: start, end_cycle: end, buffer_size_cycles: b.buffer_size_cycles }
}

/// `b` after it was cleared: no events, range back to `[0, 0)`.
pub open spec fn cleared_buffer(b: BufferView) -> BufferView {
    empty_buffer(b.buffer_size_cycles)
}

/// Whether the buffer's cycle range covers `cycle`.
pub open spec fn covers(b: BufferView, cycle: int) -> bool {
    b.start_cycle <= cycle < b.end_cycle
}

/// The events whose flag in `keep` is set, in their order.
pub open spec fn select<T>(items: Seq<T>, keep: Seq<bool>) -> Seq<T>
    decreases items.len(),
{
    if items.len() == 0 {
        Seq::empty()
    } else {
        let n = items.len() - 1;
        let rest = select(items.take(n), keep.take(n));
        if keep[n] {
            rest.push(items[n])
        } else {
            rest
        }
    }
}

/// Pattern events pre-rendered for a range of cycles ahead of playback.
pub struct EventBuffer {
    /// All events currently in the buffer.
    events: Vec<StrudelEvent>,
    /// The start cycle of the buffer.
    start_cycle: i64,
    /// The end cycle of the buffer (exclusive).
    end_cycle: i64,
    /// Number of cycles to pre-render.
    buffer_size_cycles: i64,
}

impl View for EventBuffer {
    type V = BufferView;

    closed spec fn view(&self) -> BufferView {
        BufferView {
            events: self.events@,
            start_cycle: self.start_cycle as int,
            end_cycle: self.end_cycle as int,
            buffer_size_cycles: self.buffer_size_cycles as int,
        }
    }
}

impl EventBuffer {
    /// An empty buffer that pre-renders `buffer_size_cycles` cycles.
    pub fn new(buffer_size_cycles: i64) -> (b: Self)
        ensures
            b@ == empty_buffer(buffer_size_cycles as int),
    {
        EventBuffer { events: Vec::new(), start_cycle: 0, end_cycle: 0, buffer_size_cycles }
    }

    /// Replaces all events in the buffer by `events`, covering
    /// `[start_cycle, end_cycle)`.
    pub fn update(&mut self, events: Vec<StrudelEvent>, start_cycle: i64, end_cycle: i64)
        ensures
            final(self)@ == updated_buffer(old(self)@, events@, start_cycle as int, end_cycle as int),
    {
        self.events = events;
        self.start_cycle = start_cycle;
        self.end_cycle = end_cycle;
    }

    /// Copies of the events whose flag in `keep` is set, in buffer order;
    /// `keep` has one flag per event.
    pub fn events_where(&self, keep: &Vec<bool>) -> (r: Vec<StrudelEvent>)
        requires
            keep.len() == self@.events.len(),
        ensures
            r@ == select(self@.events, keep@),
    {
        let mut out: Vec<StrudelEvent> = Vec::new();
        let mut i: usize = 0;
        while i < self.events.len()
            invariant
                keep.len() == self.events@.len(),
                i <= self.events@.len(),
                out@ == select(self.events@.take(i as int), keep@.take(i as int)),
            decreases self.events@.len() - i,
        {
            proof {
                let ev = self.events@.take(i + 1);
                let kp = keep@.take(i + 1);
                assert(ev.take(i as int) =~= self.events@.take(i as int));
                assert(kp.take(i as int) =~= keep@.take(i as int));
                assert(ev[i as int] == self.events@[i as int]);
                assert(kp[i as int] == keep@[i as int]);
            }
            if keep[i] {
                out.push(self.events[i].duplicate());
            }
            i = i + 1;
        }
        assert(self.events@.take(self.events@.len() as int) =~= self.events@);
        assert(keep@.take(keep@.len() as int) =~= keep@);
        out
    }

    /// All events in the buffer.
    pub fn get_all_events(&self) -> (r: &[StrudelEvent])
        ensures
            r@ == self@.events,
    {
        self.events.as_slice()
    }

    /// Whether the buffer covers `cycle`: `start_cycle <= cycle < end_cycle`.
    pub fn contains_cycle(&self, cycle: i64) -> (b: bool)
        ensures
            b == covers(self@, cycle as int),
    {
        cycle >= self.start_cycle && cycle < self.end_cycle
    }

    /// The start cycle of the buffer.
    pub fn start_cycle(&self) -> (c: i64)
        ensures
            c == self@.start_cycle,
    {
        self.start_cycle
    }

    /// The end cycle of the buffer.
    pub fn end_cycle(&self) -> (c: i64)
        ensures
            c == self@.end_cycle,
    {
        self.end_cycle
    }

    /// The number of cycles the buffer pre-renders.
    pub fn buffer_size_cycles(&self) -> (n: i64)
        ensures
            n == self@.buffer_size_cycles,
    {
        self.buffer_size_cycles
    }

    /// Whether the buffer holds no event.
    pub fn is_empty(&self) -> (b: bool)
        ensures
            b == (self@.events.len() == 0),
    {
        self.events.len() == 0
    }

    /// The number of events in the buffer.
    pub fn len(&self) -> (n: usize)
        ensures
            n == self@.events.len(),
    {
        self.events.len()
    }

    /// Removes all events and resets the range to `[0, 0)`.
    pub fn clear(&mut self)
        ensures
            final(self)@ == cleared_buffer(old(self)@),
    {
        self.events.clear();
        self.start_cycle = 0;
        self.end_cycle = 0;
    }

    /// Copies of all events, in buffer order.
    fn copy_events(&self) -> (r: Vec<StrudelEvent>)
        ensures
            r@ == self@.events,
    {
        let mut out: Vec<StrudelEvent> = Vec::new();
        let mut i: usize = 0;
        while i < self.events.len()
            invariant
                i <= self.events@.len(),
                out@ == self.events@.take(i as int),
            decreases self.events@.len() - i,
        {
            out.push(self.events[i].duplicate());
            assert(out@ =~= self.events@.take(i + 1));
            i = i + 1;
        }
        assert(out@ =~= self.events@);
        out
    }
}

/// What a [`DoubleEventBuffer`] holds: the side the audio thread reads and
/// the side the evaluation thread writes.
pub struct DoubleBufferView {
    pub read: BufferView,
    pub write: BufferView,
}

/// `d` after `events` for `[start, end)` were written to its write side.
pub open spec fn written(d: DoubleBufferView, events: Seq<StrudelEvent>, start: int, end: int) -> DoubleBufferView {
    DoubleBufferView { read: d.read, write: updated_buffer(d.write, events, start, end) }
}

/// `d` with its two sides exchanged.
pub open spec fn swapped(d: DoubleBufferView) -> DoubleBufferView {
    DoubleBufferView { read: d.write, write: d.read }
}

/// Double-buffered events: the audio side reads one buffer while the
/// evaluation side writes the other; a swap publishes what was written.
pub struct DoubleEventBuffer {
    /// The buffer read by the audio thread.
    read_buffer: EventBuffer,
    /// The buffer written by the evaluation thread.
    write_buffer: EventBuffer,
}

impl View for DoubleEventBuffer {
    type V = DoubleBufferView;

    closed spec fn view(&self) -> DoubleBufferView {
        DoubleBufferView { read: self.read_buffer@, write: self.write_buffer@ }
    }
}

impl DoubleEventBuffer {
    /// Two empty buffers that pre-render `buffer_size_cycles` cycles.
    pub fn new(buffer_size_cycles: i64) -> (d: Self)
        ensures
            d@.read == empty_buffer(buffer_size_cycles as int),
            d@.write == empty_buffer(buffer_size_cycles as int),
    {
        DoubleEventBuffer {
            read_buffer: EventBuffer::new(buffer_size_cycles),
            write_buffer: EventBuffer::new(buffer_size_cycles),
        }
    }

    /// The buffer the audio side reads.
    pub fn read_buffer(&self) -> (b: &EventBuffer)
        ensures
            b@ == self@.read,
    {
        &self.read_buffer
    }

    /// Copies of the read buffer's events whose flag in `keep` is set.
    pub fn read_events_where(&self, keep: &Vec<bool>) -> (r: Vec<StrudelEvent>)
        requires
            keep.len() == self@.read.events.len(),
        ensures
            r@ == select(self@.read.events, keep@),
    {
        self.read_buffer.events_where(keep)
    }

    /// Copies of all events of the read buffer.
    pub fn read_all_events(&self) -> (r: Vec<StrudelEvent>)
        ensures
            r@ == self@.read.events,
    {
        self.read_buffer.copy_events()
    }

    /// Whether the read buffer covers `cycle`.
    pub fn read_contains_cycle(&self, cycle: i64) -> (b: bool)
        ensures
            b == covers(self@.read, cycle as int),
    {
        self.read_buffer.contains_cycle(cycle)
    }

    /// Replaces the write buffer's contents; the read side is untouched.
    pub fn write_events(&mut self, events: Vec<StrudelEvent>, start_cycle: i64, end_cycle: i64)
        ensures
            final(self)@ == written(old(self)@, events@, start_cycle as int, end_cycle as int),
    {
        self.write_buffer.update(events, start_cycle, end_cycle);
    }

    /// Exchanges the two sides, making what was written readable.
    pub fn swap_buffers(&mut self)
        ensures
            final(self)@ == swapped(old(self)@),
    {
        std::mem::swap(&mut self.read_buffer, &mut self.write_buffer);
    }

    /// Writes `events` for `[start_cycle, end_cycle)` and swaps, making them
    /// what the audio side reads.
    pub fn publish(&mut self, events: Vec<StrudelEvent>, start_cycle: i64, end_cycle: i64)
        ensures
            final(self)@ == swapped(written(old(self)@, events@, start_cycle as int, end_cycle as int)),
    {
        self.write_events(events, start_cycle, end_cycle);
        self.swap_buffers();
    }

    /// Clears both sides.
    pub fn clear(&mut self)
        ensures
            final(self)@.read == cleared_buffer(old(self)@.read),
            final(self)@.write == cleared_buffer(old(self)@.write),
    {
        self.read_buffer.clear();
        self.write_buffer.clear();
    }

    /// The start cycle of the read buffer.
    pub fn read_start_cycle(&self) -> (c: i64)
        ensures
            c == self@.read.start_cycle,
    {
        self.read_buffer.start_cycle()
    }

    /// The end cycle of the read buffer.
    pub fn read_end_cycle(&self) -> (c: i64)
        ensures
            c == self@.read.end_cycle,
    {
        self.read_buffer.end_cycle()
    }
}

/// Writing then swapping publishes exactly what was written, over its range,
/// to the read side; the former read side becomes the write side.
pub proof fn lemma_write_then_swap_publishes(
    d: DoubleBufferView,
    events: Seq<StrudelEvent>,
    start: int,
    end: int,
)
    ensures
        swapped(written(d, events, start, end)).read.events == events,
        swapped(written(d, events, start, end)).read.start_cycle == start,
        swapped(written(d, events, start, end)).read.end_cycle == end,
        swapped(written(d, events, start, end)).write == d.read,
{
}

/// A write is invisible to the reader until the next swap.
pub proof fn lemma_write_invisible_until_swap(
    d: DoubleBufferView,
    events: Seq<StrudelEvent>,
    start: int,
    end: int,
)
    ensures
        written(d, events, start, end).read == d.read,
{
}

/// Swapping twice restores both sides.
pub proof fn lemma_swap_twice_identity(d: DoubleBufferView)
    ensures
        swapped(swapped(d)) == d,
{
}

/// A buffer covers a cycle exactly when the cycle lies in its updated range,
/// and a cleared buffer covers no cycle.
pub proof fn lemma_coverage_after_update_and_clear(
    b: BufferView,
    events: Seq<StrudelEvent>,
    start: int,
    end: int,
    cycle: int,
)
    ensures
        covers(updated_buffer(b, events, start, end), cycle) <==> start <= cycle < end,
        !covers(cleared_buffer(b), cycle),
        updated_buffer(b, events, start, end).events == events,
        updated_buffer(b, events, start, end).buffer_size_cycles == b.buffer_size_cycles,
        cleared_buffer(b).events.len() == 0,
        cleared_buffer(b).start_cycle == 0 && cleared_buffer(b).end_cycle == 0,
        cleared_buffer(b).buffer_size_cycles == b.buffer_size_cycles,
        empty_buffer(b.buffer_size_cycles) == cleared_buffer(b),
{
}

/// Selecting with all flags set keeps every item; with none, no item.
pub proof fn lemma_select_all_or_none<T>(items: Seq<T>, keep: Seq<bool>)
    requires
        keep.len() == items.len(),
    ensures
        (forall|i: int| 0 <= i < keep.len() ==> keep[i]) ==> select(items, keep) == items,
        (forall|i: int| 0 <= i < keep.len() ==> !keep[i]) ==> select(items, keep).len() == 0,
    decreases items.len(),
{
    if items.len() > 0 {
        let n = items.len() - 1;
        lemma_select_all_or_none(items.take(n), keep.take(n));
        if forall|i: int| 0 <= i < keep.len() ==> keep[i] {
            assert(select(items.take(n), keep.take(n)) == items.take(n));
            assert(items.take(n).push(items[n]) =~= items);
        }
    }
}

} // verus!
