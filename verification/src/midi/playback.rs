use vstd::prelude::*;

verus! {

/// The deltas (in MIDI ticks) of the events of tracks `1..t`, in playback order.
/// Track 0 holds the file's conductor events and is not played.
pub open spec fn deltas_upto(tracks: Seq<Vec<u32>>, t: int) -> Seq<u32>
    decreases t,
{
    if t <= 1 {
        Seq::empty()
    } else {
        deltas_upto(tracks, t - 1) + tracks[t - 1]@
    }
}

/// The `(track, event)` positions of the events of tracks `1..t`, in playback order.
pub open spec fn positions_upto(tracks: Seq<Vec<u32>>, t: int) -> Seq<(usize, usize)>
    decreases t,
{
    if t <= 1 {
        Seq::empty()
    } else {
        positions_upto(tracks, t - 1) + Seq::new(
            tracks[t - 1]@.len(),
            |e: int| ((t - 1) as usize, e as usize),
        )
    }
}

/// All played deltas, in playback order.
pub open spec fn played_deltas(tracks: Seq<Vec<u32>>) -> Seq<u32> {
    deltas_upto(tracks, tracks.len() as int)
}

/// All played positions, in playback order.
pub open spec fn played_positions(tracks: Seq<Vec<u32>>) -> Seq<(usize, usize)> {
    positions_upto(tracks, tracks.len() as int)
}

/// The tick at which the last event of `deltas` falls: the sum of all deltas.
pub open spec fn ticks(deltas: Seq<u32>) -> int
    decreases deltas.len(),
{
    if deltas.len() == 0 {
        0
    } else {
        ticks(deltas.drop_last()) + deltas.last()
    }
}

/// Whether an event at tick `at` is handed out by a pass that has already
/// handed out everything up to `midi_ticks` and now plays up to `time_ticks`.
pub open spec fn is_due(at: int, midi_ticks: int, time_ticks: int) -> bool {
    &&& at <= time_ticks
    &&& (at > midi_ticks || (at == 0 && midi_ticks == 0))
}

/// The positions of the due events among the first `deltas.len()` events.
pub open spec fn due_events(
    deltas: Seq<u32>,
    positions: Seq<(usize, usize)>,
    midi_ticks: int,
    time_ticks: int,
) -> Seq<(usize, usize)>
    decreases deltas.len(),
{
    if deltas.len() == 0 {
        Seq::empty()
    } else {
        let before = due_events(deltas.drop_last(), positions.drop_last(), midi_ticks, time_ticks);
        if is_due(ticks(deltas), midi_ticks, time_ticks) {
            before.push(positions.last())
        } else {
            before
        }
    }
}

/// The tick of the last due event among `deltas`, or `midi_ticks` when none is due.
pub open spec fn last_due_tick(deltas: Seq<u32>, midi_ticks: int, time_ticks: int) -> int
    decreases deltas.len(),
{
    if deltas.len() == 0 {
        midi_ticks
    } else if is_due(ticks(deltas), midi_ticks, time_ticks) {
        ticks(deltas)
    } else {
        last_due_tick(deltas.drop_last(), midi_ticks, time_ticks)
    }
}

/// Whether summing the deltas in `u32`, up to the first event after `time_ticks`,
/// overflows.
pub open spec fn tick_overflow(deltas: Seq<u32>, time_ticks: int) -> bool
    decreases deltas.len(),
{
    if deltas.len() == 0 {
        false
    } else {
        ||| tick_overflow(deltas.drop_last(), time_ticks)
        ||| (ticks(deltas.drop_last()) <= time_ticks && ticks(deltas) > u32::MAX)
    }
}

/// The tick recorded after a pass: the last due tick, where 0 is recorded as 1
/// so that the events at tick 0 are not handed out twice.
pub open spec fn next_midi_ticks(deltas: Seq<u32>, midi_ticks: int, time_ticks: int) -> int {
    let last = last_due_tick(deltas, midi_ticks, time_ticks);
    if last == 0 {
        1
    } else {
        last
    }
}

/// How a MIDI file measures time.
#[derive(Clone, Copy, Debug, PartialEq, Eq, Structural)]
pub enum SmfTiming {
    /// Ticks per quarter note.
    Metrical(u16),
    /// Frames per second and ticks per frame.
    Timecode(u8, u8),
}

/// The ticks per beat a playback of a file with `timing` counts in: the
/// file's own for metrical timing, 192 for timecode timing.
pub fn ticks_per_beat(timing: SmfTiming) -> (r: u32)
    ensures
        r == match timing {
            SmfTiming::Metrical(ppq) => ppq as u32,
            SmfTiming::Timecode(_, _) => 192u32,
        },
{
    match timing {
        SmfTiming::Metrical(ppq) => ppq as u32,
        SmfTiming::Timecode(_, _) => 192,
    }
}

/// The events a playback pass hands out, and the tick it records.
pub struct EventSchedule {
    /// `(track, event)` positions of the events to hand out, in order.
    pub events: Vec<(usize, usize)>,
    /// The MIDI tick up to which events have been handed out after this pass.
    pub midi_ticks: u32,
}

proof fn lemma_ticks_append(s: Seq<u32>, r: Seq<u32>)
    ensures
        ticks(s + r) >= ticks(s),
    decreases r.len(),
{
    if r.len() > 0 {
        assert((s + r).drop_last() =~= s + r.drop_last());
        lemma_ticks_append(s, r.drop_last());
    } else {
        assert(s + r =~= s);
    }
}

proof fn lemma_late_events_not_due(
    s: Seq<u32>,
    sp: Seq<(usize, usize)>,
    r: Seq<u32>,
    rp: Seq<(usize, usize)>,
    midi_ticks: int,
    time_ticks: int,
)
    requires
        ticks(s) > time_ticks,
        r.len() == rp.len(),
    ensures
        due_events(s + r, sp + rp, midi_ticks, time_ticks) == due_events(
            s,
            sp,
            midi_ticks,
            time_ticks,
        ),
        last_due_tick(s + r, midi_ticks, time_ticks) == last_due_tick(s, midi_ticks, time_ticks),
    decreases r.len(),
{
    if r.len() > 0 {
        assert((s + r).drop_last() =~= s + r.drop_last());
        assert((sp + rp).drop_last() =~= sp + rp.drop_last());
        lemma_late_events_not_due(s, sp, r.drop_last(), rp.drop_last(), midi_ticks, time_ticks);
        lemma_ticks_append(s, r);
    } else {
        assert(s + r =~= s);
        assert(sp + rp =~= sp);
    }
}

proof fn lemma_overflow_extends(s: Seq<u32>, r: Seq<u32>, time_ticks: int)
    requires
        tick_overflow(s, time_ticks),
    ensures
        tick_overflow(s + r, time_ticks),
    decreases r.len(),
{
    if r.len() > 0 {
        assert((s + r).drop_last() =~= s + r.drop_last());
        lemma_overflow_extends(s, r.drop_last(), time_ticks);
    } else {
        assert(s + r =~= s);
    }
}

proof fn lemma_overflow_upto(tracks: Seq<Vec<u32>>, a: int, b: int, time_ticks: int)
    requires
        1 <= a <= b <= tracks.len(),
        tick_overflow(deltas_upto(tracks, a), time_ticks),
    ensures
        tick_overflow(deltas_upto(tracks, b), time_ticks),
    decreases b - a,
{
    if a < b {
        lemma_overflow_upto(tracks, a, b - 1, time_ticks);
        lemma_overflow_extends(deltas_upto(tracks, b - 1), tracks[b - 1]@, time_ticks);
    }
}

proof fn lemma_upto_extends(tracks: Seq<Vec<u32>>, a: int, b: int)
    requires
        1 <= a <= b <= tracks.len(),
    ensures
        deltas_upto(tracks, b) =~= deltas_upto(tracks, a) + deltas_upto(tracks, b).skip(
            deltas_upto(tracks, a).len() as int,
        ),
        positions_upto(tracks, b) =~= positions_upto(tracks, a) + positions_upto(tracks, b).skip(
            positions_upto(tracks, a).len() as int,
        ),
        deltas_upto(tracks, b).len() == positions_upto(tracks, b).len(),
    decreases b - a,
{
    if a < b {
        lemma_upto_extends(tracks, a, b - 1);
    } else {
        lemma_upto_len(tracks, a);
    }
}

proof fn lemma_upto_len(tracks: Seq<Vec<u32>>, t: int)
    requires
        t <= tracks.len(),
    ensures
        deltas_upto(tracks, t).len() == positions_upto(tracks, t).len(),
    decreases t,
{
    if t > 1 {
        lemma_upto_len(tracks, t - 1);
    }
}

/// The played deltas, in playback order, in one vector.
fn played_deltas_vec(tracks: &Vec<Vec<u32>>) -> (r: Vec<u32>)
    ensures
        r@ == played_deltas(tracks@),
{
    let mut all: Vec<u32> = Vec::new();
    let n = tracks.len();
    let mut t: usize = 1;
    if n <= 1 {
        proof {
            assert(all@ =~= played_deltas(tracks@));
        }
        return all;
    }
    while t < n
        invariant
            1 <= t <= n,
            n == tracks.len(),
            all@ == deltas_upto(tracks@, t as int),
        decreases n - t,
    {
        let track = &tracks[t];
        let mut e: usize = 0;
        while e < track.len()
            invariant
                1 <= t < n,
                n == tracks.len(),
                track == tracks@[t as int],
                0 <= e <= track.len(),
                all@ == deltas_upto(tracks@, t as int) + track@.take(e as int),
            decreases track.len() - e,
        {
            all.push(track[e]);
            proof {
                assert(track@.take(e + 1) =~= track@.take(e as int).push(track@[e as int]));
            }
            e = e + 1;
        }
        proof {
            assert(track@.take(track.len() as int) =~= track@);
        }
        t = t + 1;
    }
    all
}

proof fn lemma_no_overflow_after(s: Seq<u32>, r: Seq<u32>, time_ticks: int)
    requires
        ticks(s) > time_ticks,
    ensures
        tick_overflow(s + r, time_ticks) == tick_overflow(s, time_ticks),
    decreases r.len(),
{
    if r.len() > 0 {
        assert((s + r).drop_last() =~= s + r.drop_last());
        lemma_no_overflow_after(s, r.drop_last(), time_ticks);
        lemma_ticks_append(s, r.drop_last());
    } else {
        assert(s + r =~= s);
    }
}

/// Whether a pass from `midi_ticks` up to `time_ticks` over `tracks` may be
/// scheduled: the pass does not go back, and the running tick does not pass
/// `u32::MAX` before the pass ends.
pub fn pass_is_schedulable(tracks: &Vec<Vec<u32>>, midi_ticks: u32, time_ticks: u32) -> (r: bool)
    ensures
        r == (midi_ticks <= time_ticks && !tick_overflow(played_deltas(tracks@), time_ticks as int)),
{
    if midi_ticks > time_ticks {
        return false;
    }
    let all = played_deltas_vec(tracks);
    let ghost d = all@;
    let ghost t = time_ticks as int;
    let mut current: u64 = 0;
    let mut i: usize = 0;
    proof {
        assert(d.take(0) =~= Seq::<u32>::empty());
    }
    while i < all.len()
        invariant
            0 <= i <= all.len(),
            d == all@,
            d == played_deltas(tracks@),
            midi_ticks <= time_ticks,
            t == time_ticks,
            current == ticks(d.take(i as int)),
            current <= time_ticks,
            !tick_overflow(d.take(i as int), t),
        decreases all.len() - i,
    {
        let ghost before = d.take(i as int);
        let ghost after = d.take(i + 1);
        proof {
            assert(after.drop_last() =~= before);
            assert(after.last() == d[i as int]);
        }
        current = current + all[i] as u64;
        if current > u32::MAX as u64 {
            proof {
                assert(tick_overflow(after, t));
                assert(d =~= after + d.skip(i + 1));
                lemma_overflow_extends(after, d.skip(i + 1), t);
            }
            return false;
        }
        if current > time_ticks as u64 {
            proof {
                assert(ticks(after) == current);
                assert(!tick_overflow(after, t));
                assert(d =~= after + d.skip(i + 1));
                lemma_no_overflow_after(after, d.skip(i + 1), t);
            }
            return true;
        }
        i = i + 1;
    }
    proof {
        assert(d.take(i as int) =~= d);
    }
    true
}

/// Decides which events a playback pass hands out.
///
/// `tracks[t][e]` is the delta (in ticks) of event `e` of track `t`; track 0 is not
/// played and the ticks run on across the played tracks. The pass has already handed
/// out everything up to `midi_ticks` and now plays up to `time_ticks`: it hands out,
/// in order, every event whose tick lies in `(midi_ticks, time_ticks]` (and the events
/// at tick 0 on the first pass), stopping at the first event after `time_ticks`.
pub fn schedule_events(tracks: &Vec<Vec<u32>>, midi_ticks: u32, time_ticks: u32) -> (r: EventSchedule)
    requires
        midi_ticks <= time_ticks,
        !tick_overflow(played_deltas(tracks@), time_ticks as int),
    ensures
        r.events@ == due_events(
            played_deltas(tracks@),
            played_positions(tracks@),
            midi_ticks as int,
            time_ticks as int,
        ),
        r.midi_ticks == next_midi_ticks(played_deltas(tracks@), midi_ticks as int, time_ticks as int),
        forall|k: int|
            0 <= k < played_deltas(tracks@).len() ==> (r.events@.contains(
                #[trigger] played_positions(tracks@)[k],
            ) <==> is_due(tick_of(played_deltas(tracks@), k), midi_ticks as int, time_ticks as int)),
        forall|j: int| 0 <= j < r.events@.len() ==> played_position(tracks@, #[trigger] r.events@[j]),
        forall|i: int, j: int|
            0 <= i < j < r.events@.len() ==> position_before(
                #[trigger] r.events@[i],
                #[trigger] r.events@[j],
            ),
        r.midi_ticks >= 1,
        r.midi_ticks >= midi_ticks,
        forall|k: int|
            0 <= k < played_deltas(tracks@).len() && is_due(
                #[trigger] tick_of(played_deltas(tracks@), k),
                midi_ticks as int,
                time_ticks as int,
            ) ==> tick_of(played_deltas(tracks@), k) <= r.midi_ticks,
        r.midi_ticks == (if midi_ticks == 0 {
            1
        } else {
            midi_ticks
        }) || exists|k: int|
            0 <= k < played_deltas(tracks@).len() && is_due(
                #[trigger] tick_of(played_deltas(tracks@), k),
                midi_ticks as int,
                time_ticks as int,
            ) && tick_of(played_deltas(tracks@), k) == r.midi_ticks,
{
    let r = schedule_pass(tracks, midi_ticks, time_ticks);
    proof {
        assert(tracks@.len() == tracks.len());
        lemma_pass_hands_out_due_events(tracks@, midi_ticks as int, time_ticks as int);
    }
    r
}

/// The pass itself: the events due over the played tracks, scanned in playback
/// order and stopping at the first one after `time_ticks`.
fn schedule_pass(tracks: &Vec<Vec<u32>>, midi_ticks: u32, time_ticks: u32) -> (r: EventSchedule)
    requires
        midi_ticks <= time_ticks,
        !tick_overflow(played_deltas(tracks@), time_ticks as int),
    ensures
        r.events@ == due_events(
            played_deltas(tracks@),
            played_positions(tracks@),
            midi_ticks as int,
            time_ticks as int,
        ),
        r.midi_ticks == next_midi_ticks(played_deltas(tracks@), midi_ticks as int, time_ticks as int),
{
    let ghost all = played_deltas(tracks@);
    let ghost all_pos = played_positions(tracks@);
    let ghost midi = midi_ticks as int;
    let ghost time = time_ticks as int;
    let delta_ticks = time_ticks - midi_ticks;
    let mut last_event_ticks: u32 = midi_ticks;
    let mut current_ticks: u32 = 0;
    let mut events: Vec<(usize, usize)> = Vec::new();
    let n = tracks.len();
    if n <= 1 {
        proof {
            assert(all =~= Seq::<u32>::empty());
            assert(all_pos =~= Seq::<(usize, usize)>::empty());
        }
        return EventSchedule { events, midi_ticks: if last_event_ticks == 0 { 1 } else { last_event_ticks } };
    }
    let mut t: usize = 1;
    while t < n
        invariant
            1 <= t <= n,
            n == tracks.len(),
            n > 1,
            all == played_deltas(tracks@),
            all_pos == played_positions(tracks@),
            midi == midi_ticks,
            time == time_ticks,
            delta_ticks == time_ticks - midi_ticks,
            midi_ticks <= time_ticks,
            !tick_overflow(all, time),
            current_ticks == ticks(deltas_upto(tracks@, t as int)),
            current_ticks <= time_ticks,
            events@ == due_events(
                deltas_upto(tracks@, t as int),
                positions_upto(tracks@, t as int),
                midi,
                time,
            ),
            last_event_ticks == last_due_tick(deltas_upto(tracks@, t as int), midi, time),
        decreases n - t,
    {
        let track = &tracks[t];
        let m = track.len();
        let mut e: usize = 0;
        let ghost base = deltas_upto(tracks@, t as int);
        let ghost base_pos = positions_upto(tracks@, t as int);
        proof {
            lemma_upto_len(tracks@, t as int);
            assert(base + track@.take(0) =~= base);
            assert(base_pos + Seq::new(0, |i: int| (t, i as usize)) =~= base_pos);
        }
        while e < m
            invariant
                1 <= t < n,
                n == tracks.len(),
                track == tracks@[t as int],
                m == track.len(),
                0 <= e <= m,
                base == deltas_upto(tracks@, t as int),
                base_pos == positions_upto(tracks@, t as int),
                base.len() == base_pos.len(),
                all == played_deltas(tracks@),
                all_pos == played_positions(tracks@),
                midi == midi_ticks,
                time == time_ticks,
                delta_ticks == time_ticks - midi_ticks,
                midi_ticks <= time_ticks,
                !tick_overflow(all, time),
                current_ticks == ticks(base + track@.take(e as int)),
                current_ticks <= time_ticks,
                events@ == due_events(
                    base + track@.take(e as int),
                    base_pos + Seq::new(e as nat, |i: int| (t, i as usize)),
                    midi,
                    time,
                ),
                last_event_ticks == last_due_tick(base + track@.take(e as int), midi, time),
            decreases m - e,
        {
            let ghost s = base + track@.take(e as int);
            let ghost sp = base_pos + Seq::new(e as nat, |i: int| (t, i as usize));
            let ghost s1 = base + track@.take(e + 1);
            let ghost sp1 = base_pos + Seq::new((e + 1) as nat, |i: int| (t, i as usize));
            let delta = track[e];
            proof {
                assert(s1.drop_last() =~= s);
                assert(sp1.drop_last() =~= sp);
                assert(s1.last() == delta);
                assert(sp1.last() == (t, e));
                if ticks(s1) > u32::MAX {
                    assert(tick_overflow(s1, time));
                    assert(deltas_upto(tracks@, t + 1) =~= s1 + track@.skip(e + 1));
                    lemma_overflow_extends(s1, track@.skip(e + 1), time);
                    lemma_overflow_upto(tracks@, t + 1, n as int, time);
                }
            }
            current_ticks = current_ticks + delta;
            if current_ticks > midi_ticks + delta_ticks {
                proof {
                    // Every later event falls after `time_ticks` too.
                    let rest = all.skip(s1.len() as int);
                    let rest_pos = all_pos.skip(sp1.len() as int);
                    lemma_upto_extends(tracks@, t + 1, n as int);
                    lemma_upto_len(tracks@, t + 1);
                    assert(deltas_upto(tracks@, t + 1) =~= s1 + track@.skip(e + 1));
                    assert(positions_upto(tracks@, t + 1) =~= sp1 + Seq::new(
                        (m - e - 1) as nat,
                        |i: int| (t, (i + e + 1) as usize),
                    ));
                    assert(all =~= s1 + rest);
                    assert(all_pos =~= sp1 + rest_pos);
                    lemma_late_events_not_due(s1, sp1, rest, rest_pos, midi, time);
                }
                let midi_ticks_after = if last_event_ticks == 0 { 1 } else { last_event_ticks };
                return EventSchedule { events, midi_ticks: midi_ticks_after };
            }
            if current_ticks > midi_ticks || (current_ticks == 0 && midi_ticks == 0) {
                events.push((t, e));
                last_event_ticks = current_ticks;
            }
            e = e + 1;
        }
        proof {
            assert(track@.take(m as int) =~= track@);
            assert(deltas_upto(tracks@, t + 1) =~= base + track@);
            assert(positions_upto(tracks@, t + 1) =~= base_pos + Seq::new(
                m as nat,
                |i: int| (t, i as usize),
            ));
        }
        t = t + 1;
    }
    EventSchedule { events, midi_ticks: if last_event_ticks == 0 { 1 } else { last_event_ticks } }
}

} // verus!

verus! {

/// The tick of event `k` of `deltas`.
pub open spec fn tick_of(deltas: Seq<u32>, k: int) -> int {
    ticks(deltas.take(k + 1))
}

/// The ticks run on from event to event: the first event falls at its own
/// delta, and each later one its delta after the one before it.
pub proof fn lemma_tick_of_steps(deltas: Seq<u32>, k: int)
    requires
        0 <= k < deltas.len(),
    ensures
        k == 0 ==> tick_of(deltas, k) == deltas[0],
        k > 0 ==> tick_of(deltas, k) == tick_of(deltas, k - 1) + deltas[k],
{
    assert(deltas.take(k + 1).drop_last() =~= deltas.take(k));
    if k == 0 {
        assert(deltas.take(0) =~= Seq::<u32>::empty());
        assert(ticks(Seq::<u32>::empty()) == 0);
        assert(deltas.take(1).last() == deltas[0]);
    }
}

proof fn lemma_ticks_take_monotone(d: Seq<u32>, k: int)
    requires
        0 <= k < d.len(),
    ensures
        tick_of(d, k) <= ticks(d),
{
    assert(d =~= d.take(k + 1) + d.skip(k + 1));
    lemma_ticks_append(d.take(k + 1), d.skip(k + 1));
}

proof fn lemma_last_due_covers(d: Seq<u32>, m0: int, t1: int, k: int)
    requires
        0 <= k < d.len(),
        is_due(tick_of(d, k), m0, t1),
    ensures
        tick_of(d, k) <= last_due_tick(d, m0, t1),
    decreases d.len(),
{
    if k == d.len() - 1 {
        assert(d.take(k + 1) =~= d);
    } else {
        let d0 = d.drop_last();
        assert(d0.take(k + 1) =~= d.take(k + 1));
        if is_due(ticks(d), m0, t1) {
            lemma_ticks_take_monotone(d, k);
        } else {
            lemma_last_due_covers(d0, m0, t1, k);
        }
    }
}

proof fn lemma_last_due_at_least(d: Seq<u32>, m0: int, t1: int)
    requires
        0 <= m0,
    ensures
        last_due_tick(d, m0, t1) >= m0,
    decreases d.len(),
{
    if d.len() > 0 && !is_due(ticks(d), m0, t1) {
        lemma_last_due_at_least(d.drop_last(), m0, t1);
    }
}

/// No event is handed out twice: an event that one pass hands out is not due in
/// the next pass, which starts from the tick the first pass recorded, whatever
/// time that next pass plays up to.
pub proof fn lemma_no_event_twice(deltas: Seq<u32>, midi_ticks: int, time_ticks: int, next_time_ticks: int, k: int)
    requires
        0 <= midi_ticks,
        0 <= k < deltas.len(),
        is_due(tick_of(deltas, k), midi_ticks, time_ticks),
    ensures
        !is_due(
            tick_of(deltas, k),
            next_midi_ticks(deltas, midi_ticks, time_ticks),
            next_time_ticks,
        ),
{
    lemma_last_due_covers(deltas, midi_ticks, time_ticks, k);
}

proof fn lemma_last_due_at_most(d: Seq<u32>, m0: int, t1: int)
    requires
        m0 <= t1,
    ensures
        last_due_tick(d, m0, t1) <= t1,
    decreases d.len(),
{
    if d.len() > 0 && !is_due(ticks(d), m0, t1) {
        lemma_last_due_at_most(d.drop_last(), m0, t1);
    }
}

/// No event is missed: over two passes in a row, the first from `midi_ticks` up
/// to `time_ticks` and the next from the tick the first recorded up to
/// `next_time_ticks`, every event due over the whole span is handed out by one
/// of them. A first pass that starts at tick 0 must have played at least one
/// tick, as it records tick 1 even when it hands out nothing.
pub proof fn lemma_no_event_missed(
    deltas: Seq<u32>,
    midi_ticks: int,
    time_ticks: int,
    next_time_ticks: int,
    k: int,
)
    requires
        0 <= midi_ticks <= time_ticks <= next_time_ticks,
        midi_ticks >= 1 || time_ticks >= 1,
        0 <= k < deltas.len(),
        is_due(tick_of(deltas, k), midi_ticks, next_time_ticks),
    ensures
        is_due(tick_of(deltas, k), midi_ticks, time_ticks) || is_due(
            tick_of(deltas, k),
            next_midi_ticks(deltas, midi_ticks, time_ticks),
            next_time_ticks,
        ),
{
    lemma_last_due_at_most(deltas, midi_ticks, time_ticks);
    lemma_last_due_at_least(deltas, midi_ticks, time_ticks);
}

/// Playback never moves back: the tick a pass records is at least the tick it
/// started from.
pub proof fn lemma_playback_moves_forward(deltas: Seq<u32>, midi_ticks: int, time_ticks: int)
    requires
        0 <= midi_ticks,
    ensures
        next_midi_ticks(deltas, midi_ticks, time_ticks) >= midi_ticks,
        next_midi_ticks(deltas, midi_ticks, time_ticks) >= 1,
{
    lemma_last_due_at_least(deltas, midi_ticks, time_ticks);
}


/// `p` comes before `q` in playback order: an earlier track, or the same track
/// and an earlier event.
pub open spec fn position_before(p: (usize, usize), q: (usize, usize)) -> bool {
    p.0 < q.0 || (p.0 == q.0 && p.1 < q.1)
}

/// `p` names an event of a played track of `tracks`.
pub open spec fn played_position(tracks: Seq<Vec<u32>>, p: (usize, usize)) -> bool {
    &&& 1 <= p.0 < tracks.len()
    &&& p.1 < tracks[p.0 as int]@.len()
}

/// Position `p` of a played track below `t`, whose event has delta `delta`.
spec fn entry_below(tracks: Seq<Vec<u32>>, t: int, p: (usize, usize), delta: u32) -> bool {
    &&& played_position(tracks, p)
    &&& p.0 < t
    &&& delta == tracks[p.0 as int]@[p.1 as int]
}

proof fn lemma_positions_upto(tracks: Seq<Vec<u32>>, t: int)
    requires
        0 <= t <= tracks.len() <= usize::MAX,
    ensures
        positions_upto(tracks, t).len() == deltas_upto(tracks, t).len(),
        forall|k: int|
            0 <= k < positions_upto(tracks, t).len() ==> entry_below(
                tracks,
                t,
                #[trigger] positions_upto(tracks, t)[k],
                deltas_upto(tracks, t)[k],
            ),
        forall|i: int, j: int|
            0 <= i < j < positions_upto(tracks, t).len() ==> position_before(
                #[trigger] positions_upto(tracks, t)[i],
                #[trigger] positions_upto(tracks, t)[j],
            ),
        forall|q: (usize, usize)|
            played_position(tracks, q) && q.0 < t ==> exists|k: int|
                0 <= k < positions_upto(tracks, t).len() && #[trigger] positions_upto(tracks, t)[k]
                    == q,
    decreases t,
{
    broadcast use vstd::std_specs::vec::axiom_spec_len;

    lemma_upto_len(tracks, t);
    if t > 1 {
        lemma_positions_upto(tracks, t - 1);
        let pre = positions_upto(tracks, t - 1);
        let dpre = deltas_upto(tracks, t - 1);
        let last = tracks[t - 1]@;
        let new = Seq::new(last.len(), |e: int| ((t - 1) as usize, e as usize));
        let pos = positions_upto(tracks, t);
        let d = deltas_upto(tracks, t);
        let l = pre.len();
        assert(pos == pre + new);
        assert(d == dpre + last);
        assert(dpre.len() == l);
        assert forall|k: int| 0 <= k < pos.len() implies entry_below(
            tracks,
            t,
            #[trigger] pos[k],
            d[k],
        ) by {
            if k < l {
                assert(pos[k] == pre[k]);
                assert(d[k] == dpre[k]);
                assert(entry_below(tracks, t - 1, pre[k], dpre[k]));
            } else {
                assert(pos[k] == new[k - l]);
                assert(d[k] == last[k - l]);
                assert(tracks[t - 1].len() == last.len());
                assert(new[k - l].0 as int == t - 1);
                assert(new[k - l].1 as int == k - l);
            }
        }
        assert forall|i: int, j: int| 0 <= i < j < pos.len() implies position_before(
            #[trigger] pos[i],
            #[trigger] pos[j],
        ) by {
            if j < l {
                assert(pos[i] == pre[i]);
                assert(pos[j] == pre[j]);
            } else if i < l {
                assert(pos[i] == pre[i]);
                assert(entry_below(tracks, t - 1, pre[i], dpre[i]));
                assert(pos[j] == new[j - l]);
            } else {
                assert(pos[i] == new[i - l]);
                assert(pos[j] == new[j - l]);
                assert(tracks[t - 1].len() == last.len());
                assert(new[i - l].1 as int == i - l);
                assert(new[j - l].1 as int == j - l);
            }
        }
        assert forall|q: (usize, usize)| played_position(tracks, q) && q.0 < t implies exists|k: int|
            0 <= k < pos.len() && #[trigger] pos[k] == q by {
            if q.0 < t - 1 {
                assert(played_position(tracks, q) && q.0 < t - 1);
                let k = choose|k: int| 0 <= k < pre.len() && #[trigger] pre[k] == q;
                assert(pos[k] == pre[k]);
            } else {
                let e = q.1 as int;
                assert(pos[l + e] == new[e]);
            }
        }
    }
}

/// The played events, in playback order: every event of every track but the
/// first appears exactly once, with its own delta, ordered by track and then by
/// its place in the track.
pub proof fn lemma_played_positions(tracks: Seq<Vec<u32>>)
    requires
        tracks.len() <= usize::MAX,
    ensures
        played_positions(tracks).len() == played_deltas(tracks).len(),
        forall|k: int|
            0 <= k < played_positions(tracks).len() ==> #[trigger] played_position(
                tracks,
                played_positions(tracks)[k],
            ) && played_deltas(tracks)[k] == tracks[played_positions(
                tracks,
            )[k].0 as int]@[played_positions(tracks)[k].1 as int],
        forall|i: int, j: int|
            0 <= i < j < played_positions(tracks).len() ==> position_before(
                #[trigger] played_positions(tracks)[i],
                #[trigger] played_positions(tracks)[j],
            ),
        forall|p: (usize, usize)|
            #[trigger] played_position(tracks, p) ==> exists|k: int|
                0 <= k < played_positions(tracks).len() && #[trigger] played_positions(tracks)[k]
                    == p,
{
    lemma_positions_upto(tracks, tracks.len() as int);
    let n = tracks.len() as int;
    assert forall|k: int| 0 <= k < played_positions(tracks).len() implies #[trigger] played_position(
        tracks,
        played_positions(tracks)[k],
    ) && played_deltas(tracks)[k] == tracks[played_positions(
        tracks,
    )[k].0 as int]@[played_positions(tracks)[k].1 as int] by {
        assert(entry_below(tracks, n, positions_upto(tracks, n)[k], deltas_upto(tracks, n)[k]));
    }
    assert forall|p: (usize, usize)| #[trigger] played_position(tracks, p) implies exists|k: int|
        0 <= k < played_positions(tracks).len() && #[trigger] played_positions(tracks)[k] == p by {
        assert(played_position(tracks, p) && p.0 < n);
        let k = choose|k: int|
            0 <= k < positions_upto(tracks, n).len() && #[trigger] positions_upto(tracks, n)[k] == p;
        assert(played_positions(tracks)[k] == p);
    }
}

proof fn lemma_tick_of_prefix(d: Seq<u32>, k: int)
    requires
        0 <= k < d.len() - 1,
    ensures
        tick_of(d.drop_last(), k) == tick_of(d, k),
{
    assert(d.drop_last().take(k + 1) =~= d.take(k + 1));
}

proof fn lemma_tick_of_last(d: Seq<u32>)
    requires
        d.len() > 0,
    ensures
        tick_of(d, d.len() - 1) == ticks(d),
{
    assert(d.take(d.len() as int) =~= d);
}

/// Every handed-out event is a due event of the pass.
proof fn lemma_due_events_are_due(
    d: Seq<u32>,
    p: Seq<(usize, usize)>,
    midi_ticks: int,
    time_ticks: int,
)
    requires
        d.len() == p.len(),
    ensures
        forall|j: int|
            0 <= j < due_events(d, p, midi_ticks, time_ticks).len() ==> exists|k: int|
                0 <= k < d.len() && #[trigger] due_events(d, p, midi_ticks, time_ticks)[j] == p[k]
                    && is_due(tick_of(d, k), midi_ticks, time_ticks),
    decreases d.len(),
{
    if d.len() > 0 {
        let d0 = d.drop_last();
        let p0 = p.drop_last();
        lemma_due_events_are_due(d0, p0, midi_ticks, time_ticks);
        lemma_tick_of_last(d);
        let before = due_events(d0, p0, midi_ticks, time_ticks);
        let due = due_events(d, p, midi_ticks, time_ticks);
        assert forall|j: int| 0 <= j < due.len() implies exists|k: int|
            0 <= k < d.len() && #[trigger] due[j] == p[k] && is_due(
                tick_of(d, k),
                midi_ticks,
                time_ticks,
            ) by {
            if j < before.len() {
                let k = choose|k: int|
                    0 <= k < d0.len() && #[trigger] before[j] == p0[k] && is_due(
                        tick_of(d0, k),
                        midi_ticks,
                        time_ticks,
                    );
                lemma_tick_of_prefix(d, k);
                assert(due[j] == before[j]);
                assert(p[k] == p0[k]);
                assert(0 <= k < d.len() && due[j] == p[k] && is_due(tick_of(d, k), midi_ticks, time_ticks));
            } else {
                let n = d.len() - 1;
                assert(0 <= n < d.len() && due[j] == p[n] && is_due(tick_of(d, n), midi_ticks, time_ticks));
            }
        }
    }
}

/// Over positions in playback order, the events a pass hands out are in
/// playback order too, and a position is among them exactly when its event is due.
proof fn lemma_due_events_exact(
    d: Seq<u32>,
    p: Seq<(usize, usize)>,
    midi_ticks: int,
    time_ticks: int,
)
    requires
        d.len() == p.len(),
        forall|i: int, j: int|
            0 <= i < j < p.len() ==> position_before(#[trigger] p[i], #[trigger] p[j]),
    ensures
        forall|i: int, j: int|
            0 <= i < j < due_events(d, p, midi_ticks, time_ticks).len() ==> position_before(
                #[trigger] due_events(d, p, midi_ticks, time_ticks)[i],
                #[trigger] due_events(d, p, midi_ticks, time_ticks)[j],
            ),
        forall|k: int|
            0 <= k < d.len() ==> (due_events(d, p, midi_ticks, time_ticks).contains(#[trigger] p[k])
                <==> is_due(tick_of(d, k), midi_ticks, time_ticks)),
    decreases d.len(),
{
    lemma_due_events_are_due(d, p, midi_ticks, time_ticks);
    if d.len() > 0 {
        let n = d.len() - 1;
        let d0 = d.drop_last();
        let p0 = p.drop_last();
        assert forall|i: int, j: int| 0 <= i < j < p0.len() implies position_before(
            #[trigger] p0[i],
            #[trigger] p0[j],
        ) by {
            assert(p0[i] == p[i] && p0[j] == p[j]);
        }
        lemma_due_events_exact(d0, p0, midi_ticks, time_ticks);
        lemma_due_events_are_due(d0, p0, midi_ticks, time_ticks);
        lemma_tick_of_last(d);
        let before = due_events(d0, p0, midi_ticks, time_ticks);
        let due = due_events(d, p, midi_ticks, time_ticks);
        // Every event handed out before the last position comes before it.
        assert forall|j: int| 0 <= j < before.len() implies position_before(
            #[trigger] before[j],
            p[n],
        ) by {
            let k = choose|k: int|
                0 <= k < d0.len() && #[trigger] before[j] == p0[k] && is_due(
                    tick_of(d0, k),
                    midi_ticks,
                    time_ticks,
                );
            assert(p0[k] == p[k]);
        }
        assert forall|i: int, j: int| 0 <= i < j < due.len() implies position_before(
            #[trigger] due[i],
            #[trigger] due[j],
        ) by {
            assert(due[i] == before[i]);
            if j < before.len() {
                assert(due[j] == before[j]);
            } else {
                assert(due[j] == p[n]);
            }
        }
        assert forall|k: int| 0 <= k < d.len() implies (due.contains(#[trigger] p[k]) <==> is_due(
            tick_of(d, k),
            midi_ticks,
            time_ticks,
        )) by {
            if is_due(tick_of(d, k), midi_ticks, time_ticks) {
                if k == n {
                    assert(due[due.len() - 1] == p[k]);
                } else {
                    lemma_tick_of_prefix(d, k);
                    assert(p0[k] == p[k]);
                    assert(before.contains(p0[k]));
                    let j = choose|j: int| 0 <= j < before.len() && before[j] == p0[k];
                    assert(due[j] == before[j]);
                }
            }
            if due.contains(p[k]) {
                let j = choose|j: int| 0 <= j < due.len() && due[j] == p[k];
                let k2 = choose|k2: int|
                    0 <= k2 < d.len() && #[trigger] due[j] == p[k2] && is_due(
                        tick_of(d, k2),
                        midi_ticks,
                        time_ticks,
                    );
                if k2 < k {
                    assert(position_before(p[k2], p[k]));
                } else if k < k2 {
                    assert(position_before(p[k], p[k2]));
                }
            }
        }
    }
}

proof fn lemma_last_due_reached(d: Seq<u32>, m0: int, t1: int)
    ensures
        last_due_tick(d, m0, t1) == m0 || exists|k: int|
            0 <= k < d.len() && is_due(#[trigger] tick_of(d, k), m0, t1) && tick_of(d, k)
                == last_due_tick(d, m0, t1),
    decreases d.len(),
{
    if d.len() > 0 {
        let n = d.len() - 1;
        lemma_tick_of_last(d);
        if is_due(ticks(d), m0, t1) {
            assert(is_due(tick_of(d, n), m0, t1) && tick_of(d, n) == last_due_tick(d, m0, t1));
        } else {
            let d0 = d.drop_last();
            lemma_last_due_reached(d0, m0, t1);
            if last_due_tick(d0, m0, t1) != m0 {
                let k = choose|k: int|
                    0 <= k < d0.len() && is_due(#[trigger] tick_of(d0, k), m0, t1) && tick_of(d0, k)
                        == last_due_tick(d0, m0, t1);
                lemma_tick_of_prefix(d, k);
                assert(is_due(tick_of(d, k), m0, t1));
            }
        }
    }
}

/// What one playback pass does, over the events of the played tracks in
/// playback order (`lemma_played_positions`): it hands out, in playback
/// order, exactly the events whose tick lies in `(midi_ticks, time_ticks]`
/// (with those at tick 0 on a pass from tick 0); it records the tick of the
/// last of them, or keeps `midi_ticks` when none is due, and records tick 0 as 1.
pub proof fn lemma_pass_hands_out_due_events(tracks: Seq<Vec<u32>>, midi_ticks: int, time_ticks: int)
    requires
        tracks.len() <= usize::MAX,
        0 <= midi_ticks,
    ensures
        forall|k: int|
            0 <= k < played_deltas(tracks).len() ==> (due_events(
                played_deltas(tracks),
                played_positions(tracks),
                midi_ticks,
                time_ticks,
            ).contains(#[trigger] played_positions(tracks)[k]) <==> is_due(
                tick_of(played_deltas(tracks), k),
                midi_ticks,
                time_ticks,
            )),
        forall|j: int|
            0 <= j < due_events(
                played_deltas(tracks),
                played_positions(tracks),
                midi_ticks,
                time_ticks,
            ).len() ==> played_position(
                tracks,
                #[trigger] due_events(
                    played_deltas(tracks),
                    played_positions(tracks),
                    midi_ticks,
                    time_ticks,
                )[j],
            ),
        forall|i: int, j: int|
            0 <= i < j < due_events(
                played_deltas(tracks),
                played_positions(tracks),
                midi_ticks,
                time_ticks,
            ).len() ==> position_before(
                #[trigger] due_events(
                    played_deltas(tracks),
                    played_positions(tracks),
                    midi_ticks,
                    time_ticks,
                )[i],
                #[trigger] due_events(
                    played_deltas(tracks),
                    played_positions(tracks),
                    midi_ticks,
                    time_ticks,
                )[j],
            ),
        next_midi_ticks(played_deltas(tracks), midi_ticks, time_ticks) >= 1,
        next_midi_ticks(played_deltas(tracks), midi_ticks, time_ticks) >= midi_ticks,
        forall|k: int|
            0 <= k < played_deltas(tracks).len() && is_due(
                #[trigger] tick_of(played_deltas(tracks), k),
                midi_ticks,
                time_ticks,
            ) ==> tick_of(played_deltas(tracks), k) <= next_midi_ticks(
                played_deltas(tracks),
                midi_ticks,
                time_ticks,
            ),
        next_midi_ticks(played_deltas(tracks), midi_ticks, time_ticks) == (if midi_ticks == 0 {
            1
        } else {
            midi_ticks
        }) || exists|k: int|
            0 <= k < played_deltas(tracks).len() && is_due(
                #[trigger] tick_of(played_deltas(tracks), k),
                midi_ticks,
                time_ticks,
            ) && tick_of(played_deltas(tracks), k) == next_midi_ticks(
                played_deltas(tracks),
                midi_ticks,
                time_ticks,
            ),
{
    let d = played_deltas(tracks);
    let p = played_positions(tracks);
    lemma_played_positions(tracks);
    lemma_due_events_exact(d, p, midi_ticks, time_ticks);
    lemma_due_events_are_due(d, p, midi_ticks, time_ticks);
    lemma_last_due_at_least(d, midi_ticks, time_ticks);
    lemma_last_due_reached(d, midi_ticks, time_ticks);
    let due = due_events(d, p, midi_ticks, time_ticks);
    assert forall|j: int| 0 <= j < due.len() implies played_position(tracks, #[trigger] due[j]) by {
        let k = choose|k: int|
            0 <= k < d.len() && #[trigger] due[j] == p[k] && is_due(tick_of(d, k), midi_ticks, time_ticks);
        assert(played_position(tracks, p[k]));
    }
    assert forall|k: int|
        0 <= k < d.len() && is_due(#[trigger] tick_of(d, k), midi_ticks, time_ticks) implies tick_of(d, k)
        <= next_midi_ticks(d, midi_ticks, time_ticks) by {
        lemma_last_due_covers(d, midi_ticks, time_ticks, k);
    }
}

} // verus!
