use vstd::prelude::*;

use crate::error::{decimal, write_decimal, Error};
use vstd::string::StringExecFns;
use crate::synth::note::{Note, NoteEventReceiver};
use crate::utils::adsr_envelope::State;

verus! {

/// Whether some note of `notes` plays the key `key`.
pub open spec fn plays<F>(notes: Seq<Note<F>>, key: u32) -> bool {
    exists|i: int| 0 <= i < notes.len() && #[trigger] notes[i].note == key
}

/// `i` is the first position of `notes` that plays `key`.
pub open spec fn is_first_position<F>(notes: Seq<Note<F>>, key: u32, i: int) -> bool {
    &&& 0 <= i < notes.len()
    &&& notes[i].note == key
    &&& forall|j: int| 0 <= j < i ==> #[trigger] notes[j].note != key
}

/// No key is played by two notes of `notes`.
pub open spec fn keys_distinct<F>(notes: Seq<Note<F>>) -> bool {
    forall|i: int, j: int|
        0 <= i < j < notes.len() ==> #[trigger] notes[i].note != #[trigger] notes[j].note
}

proof fn lemma_first_position_exists<F>(notes: Seq<Note<F>>, key: u32)
    requires
        plays(notes, key),
    ensures
        exists|i: int| is_first_position(notes, key, i),
    decreases notes.len(),
{
    let init = notes.drop_last();
    if plays(init, key) {
        lemma_first_position_exists(init, key);
        let i = choose|i: int| is_first_position(init, key, i);
        assert forall|k: int| 0 <= k < i implies #[trigger] notes[k].note != key by {
            assert(init[k] == notes[k]);
        }
        assert(init[i] == notes[i]);
        assert(is_first_position(notes, key, i));
    } else {
        let j = choose|j: int| 0 <= j < notes.len() && #[trigger] notes[j].note == key;
        if j < notes.len() - 1 {
            assert(init[j].note == key);
        }
        assert forall|k: int| 0 <= k < notes.len() - 1 implies #[trigger] notes[k].note != key by {
            if notes[k].note == key {
                assert(init[k].note == key);
            }
        }
        assert(is_first_position(notes, key, notes.len() - 1));
    }
}

/// `note` with its key released: it no longer holds at any stage.
pub open spec fn released<F>(note: Note<F>) -> Note<F> {
    Note { hold_on: State::Idle, ..note }
}

/// The text of the error for a key that is not playing.
pub open spec fn not_playing_message(key: u32) -> Seq<char> {
    "Note "@ + decimal(key as nat) + " not playing"@
}

/// Formats the text of the error for a key that is not playing.
fn format_not_playing(key: u32) -> (r: String)
    ensures
        r@ == not_playing_message(key),
{
    let mut s = String::from_str("Note ");
    write_decimal(&mut s, key as u64);
    s.append(" not playing");
    proof {
        reveal_strlit("Note ");
        reveal_strlit(" not playing");
    }
    s
}

/// The notes of an oscillator: those whose key is down, and those released
/// and fading out.
pub struct OscillatorNotes<F> {
    pub notes: Vec<Note<F>>,
    pub release_notes: Vec<Note<F>>,
}

impl<F: Copy> OscillatorNotes<F> {
    /// The notes after releasing `key`: the first note playing it moves, released,
    /// to the end of the release list; nothing changes if no note plays it.
    pub open spec fn after_note_off(self, key: u32) -> (Seq<Note<F>>, Seq<Note<F>>) {
        if plays(self.notes@, key) {
            let i = choose|i: int| is_first_position(self.notes@, key, i);
            (self.notes@.remove(i), self.release_notes@.push(released(self.notes@[i])))
        } else {
            (self.notes@, self.release_notes@)
        }
    }

    /// Releasing a key that some note plays takes out its first note and
    /// appends it to the release list changed in nothing but its hold stage:
    /// key, frequency, velocity, play time and envelope stage stay, so the note
    /// goes on sounding through its release.
    pub proof fn lemma_note_off_only_releases(self, key: u32)
        requires
            plays(self.notes@, key),
        ensures
            exists|i: int|
                #![trigger is_first_position(self.notes@, key, i)]
                is_first_position(self.notes@, key, i) && {
                    let after = self.after_note_off(key);
                    let n = after.1.last();
                    &&& after.0 == self.notes@.remove(i)
                    &&& after.1.len() == self.release_notes@.len() + 1
                    &&& after.1.drop_last() == self.release_notes@
                    &&& n.note == self.notes@[i].note
                    &&& n.frequency == self.notes@[i].frequency
                    &&& n.velocity == self.notes@[i].velocity
                    &&& n.play_time == self.notes@[i].play_time
                    &&& n.state == self.notes@[i].state
                    &&& n.hold_on == State::Idle
                },
    {
        lemma_first_position_exists(self.notes@, key);
        let i = choose|i: int| is_first_position(self.notes@, key, i);
        assert(self.after_note_off(key).1.drop_last() =~= self.release_notes@);
    }

    /// No notes at all.
    pub fn new() -> (r: Self)
        ensures
            r.notes@ == Seq::<Note<F>>::empty(),
            r.release_notes@ == Seq::<Note<F>>::empty(),
    {
        OscillatorNotes { notes: Vec::new(), release_notes: Vec::new() }
    }

    /// The position of the first note whose key is down and is `key`.
    pub fn get_note(&self, key: u32) -> (r: Result<usize, Error>)
        ensures
            match r {
                Ok(i) => is_first_position(self.notes@, key, i as int),
                Err(e) => {
                    &&& !plays(self.notes@, key)
                    &&& e matches Error::Generic(s) && s@ == not_playing_message(key)
                },
            },
    {
        let mut i: usize = 0;
        while i < self.notes.len()
            invariant
                0 <= i <= self.notes.len(),
                forall|j: int| 0 <= j < i ==> #[trigger] self.notes@[j].note != key,
            decreases self.notes.len() - i,
        {
            if self.notes[i].note == key {
                return Ok(i);
            }
            i = i + 1;
        }
        Err(Error::Generic(format_not_playing(key)))
    }

    /// Removes and returns the note at `index` of the notes whose key is down.
    pub fn remove_note(&mut self, index: usize) -> (r: Note<F>)
        requires
            index < old(self).notes.len(),
        ensures
            r == old(self).notes@[index as int],
            final(self).notes@ == old(self).notes@.remove(index as int),
            final(self).release_notes@ == old(self).release_notes@,
    {
        self.notes.remove(index)
    }

    /// Drops the released notes that have faded out: a released note stays while
    /// its stage is not `Idle` and `within_release[i]` says that its play time is
    /// still inside the envelope's release.
    pub fn remove_released_notes(&mut self, within_release: &Vec<bool>)
        requires
            within_release.len() == old(self).release_notes.len(),
        ensures
            final(self).notes@ == old(self).notes@,
            final(self).release_notes@ == kept_notes(old(self).release_notes@, within_release@),
    {
        let mut kept: Vec<Note<F>> = Vec::new();
        let mut i: usize = 0;
        while i < self.release_notes.len()
            invariant
                0 <= i <= self.release_notes.len(),
                within_release.len() == self.release_notes.len(),
                kept@ == kept_notes(self.release_notes@.take(i as int), within_release@.take(i as int)),
            decreases self.release_notes.len() - i,
        {
            let note = self.release_notes[i];
            proof {
                assert(self.release_notes@.take(i + 1).drop_last() =~= self.release_notes@.take(i as int));
                assert(within_release@.take(i + 1).drop_last() =~= within_release@.take(i as int));
            }
            if note.state != State::Idle && within_release[i] {
                kept.push(note);
            }
            i = i + 1;
        }
        proof {
            assert(self.release_notes@.take(i as int) =~= self.release_notes@);
            assert(within_release@.take(i as int) =~= within_release@);
        }
        self.release_notes = kept;
    }
}

impl<F: Copy> NoteEventReceiver<F> for OscillatorNotes<F> {
    /// Starts `note`; a note already playing its key is released first.
    fn note_on(&mut self, note: Note<F>) -> (r: Result<(), Error>)
        ensures
            r is Ok,
            final(self).notes@ == old(self).after_note_off(note.note).0.push(note),
            final(self).release_notes@ == old(self).after_note_off(note.note).1,
            keys_distinct(old(self).notes@) ==> {
                &&& keys_distinct(final(self).notes@)
                &&& is_first_position(
                    final(self).notes@,
                    note.note,
                    final(self).notes@.len() - 1,
                )
            },
    {
        let index = self.get_note(note.note);
        if index.is_ok() {
            self.note_off(note.note)?;
        }
        let ghost before = self.notes@;
        self.notes.push(note);
        proof {
            if keys_distinct(old(self).notes@) {
                assert forall|j: int| 0 <= j < before.len() implies #[trigger] before[j].note
                    != note.note by {
                    if before[j].note == note.note {
                        assert(plays(before, note.note));
                    }
                }
                assert forall|a: int, b: int|
                    0 <= a < b < self.notes@.len() implies #[trigger] self.notes@[a].note
                    != #[trigger] self.notes@[b].note by {
                    if b == before.len() {
                        assert(self.notes@[a] == before[a]);
                    } else {
                        assert(self.notes@[a] == before[a]);
                        assert(self.notes@[b] == before[b]);
                    }
                }
                assert forall|j: int| 0 <= j < self.notes@.len() - 1 implies #[trigger] self.notes@[j].note
                    != note.note by {
                    assert(self.notes@[j] == before[j]);
                }
            }
        }
        Ok(())
    }

    /// Releases the first note playing `key`, if any: it moves to the release list
    /// and no longer holds.
    fn note_off(&mut self, key: u32) -> (r: Result<(), Error>)
        ensures
            r is Ok,
            final(self).notes@ == old(self).after_note_off(key).0,
            final(self).release_notes@ == old(self).after_note_off(key).1,
            keys_distinct(old(self).notes@) ==> {
                &&& keys_distinct(final(self).notes@)
                &&& !plays(final(self).notes@, key)
            },
    {
        let index = self.get_note(key);
        let index = match index {
            Ok(i) => i,
            Err(_) => return Ok(()),
        };
        let ghost before = self.notes@;
        let mut note = self.remove_note(index);
        proof {
            if keys_distinct(before) {
                assert forall|j: int| 0 <= j < self.notes@.len() implies #[trigger] self.notes@[j].note
                    != key by {
                    if j < index {
                        assert(self.notes@[j] == before[j]);
                    } else {
                        assert(self.notes@[j] == before[j + 1]);
                    }
                }
                assert forall|a: int, b: int|
                    0 <= a < b < self.notes@.len() implies #[trigger] self.notes@[a].note
                    != #[trigger] self.notes@[b].note by {
                    let a0 = if a < index { a } else { a + 1 };
                    let b0 = if b < index { b } else { b + 1 };
                    assert(self.notes@[a] == before[a0]);
                    assert(self.notes@[b] == before[b0]);
                }
            }
        }
        note.hold_on = State::Idle;
        self.release_notes.push(note);
        Ok(())
    }

    /// Releases every note whose key is down, last started first.
    fn release_all(&mut self)
        ensures
            final(self).notes@ == Seq::<Note<F>>::empty(),
            final(self).release_notes@ == old(self).release_notes@ + old(self).notes@.reverse(),
    {
        let ghost old_notes = self.notes@;
        let ghost old_released = self.release_notes@;
        while self.notes.len() > 0
            invariant
                self.notes@ == old_notes.take(self.notes.len() as int),
                self.notes.len() <= old_notes.len(),
                self.release_notes@ == old_released + old_notes.skip(self.notes.len() as int).reverse(),
            decreases self.notes.len(),
        {
            let ghost k = self.notes.len() as int;
            let note = self.notes.pop().unwrap();
            proof {
                assert(old_notes.skip(k - 1).reverse() =~= old_notes.skip(k).reverse().push(note));
            }
            self.release_notes.push(note);
        }
        proof {
            assert(old_notes.skip(0) =~= old_notes);
        }
    }
}

/// The released notes that stay: those not `Idle` and flagged as inside the release.
pub open spec fn kept_notes<F>(notes: Seq<Note<F>>, within_release: Seq<bool>) -> Seq<Note<F>>
    decreases notes.len(),
{
    if notes.len() == 0 {
        Seq::empty()
    } else {
        let before = kept_notes(notes.drop_last(), within_release.drop_last());
        if notes.last().state != State::Idle && within_release.last() {
            before.push(notes.last())
        } else {
            before
        }
    }
}

/// Each released note is judged on its own: the notes kept from two stretches
/// of the release list are those kept from each, in order.
pub proof fn lemma_kept_notes_split<F>(
    s1: Seq<Note<F>>,
    w1: Seq<bool>,
    s2: Seq<Note<F>>,
    w2: Seq<bool>,
)
    requires
        s1.len() == w1.len(),
        s2.len() == w2.len(),
    ensures
        kept_notes(s1 + s2, w1 + w2) == kept_notes(s1, w1) + kept_notes(s2, w2),
    decreases s2.len(),
{
    if s2.len() == 0 {
        assert(s1 + s2 =~= s1);
        assert(w1 + w2 =~= w1);
        assert(kept_notes(s1, w1) + kept_notes(s2, w2) =~= kept_notes(s1, w1));
    } else {
        assert((s1 + s2).drop_last() =~= s1 + s2.drop_last());
        assert((w1 + w2).drop_last() =~= w1 + w2.drop_last());
        lemma_kept_notes_split(s1, w1, s2.drop_last(), w2.drop_last());
        let k1 = kept_notes(s1, w1);
        let k2 = kept_notes(s2.drop_last(), w2.drop_last());
        assert((k1 + k2).push(s2.last()) =~= k1 + k2.push(s2.last()));
    }
}

/// A single released note stays exactly when its stage is not `Idle` and its
/// flag says it is still inside its release.
pub proof fn lemma_kept_note_alone<F>(note: Note<F>, within_release: bool)
    ensures
        kept_notes(seq![note], seq![within_release]) == if note.state != State::Idle
            && within_release {
            seq![note]
        } else {
            Seq::<Note<F>>::empty()
        },
{
    assert(seq![note].drop_last() =~= Seq::<Note<F>>::empty());
    assert(seq![within_release].drop_last() =~= Seq::<bool>::empty());
    assert(kept_notes(Seq::<Note<F>>::empty(), Seq::<bool>::empty()) == Seq::<Note<F>>::empty());
    assert(Seq::<Note<F>>::empty().push(note) =~= seq![note]);
}

} // verus!

verus! {

/// Collects the parts of an oscillator: its sample buffer `B`, its envelope
/// `E` and its wavetable `W`.
pub struct OscillatorBuilder<B, E, W> {
    buffer: Option<B>,
    envelope: Option<E>,
    wavetable: Option<W>,
}

impl<B, E, W> OscillatorBuilder<B, E, W> {
    pub closed spec fn buffer_spec(self) -> Option<B> {
        self.buffer
    }

    pub closed spec fn envelope_spec(self) -> Option<E> {
        self.envelope
    }

    pub closed spec fn wavetable_spec(self) -> Option<W> {
        self.wavetable
    }

    /// A builder with no part set.
    pub fn new() -> (r: Self)
        ensures
            r.buffer_spec() is None,
            r.envelope_spec() is None,
            r.wavetable_spec() is None,
    {
        Self { buffer: None, envelope: None, wavetable: None }
    }

    /// Sets the sample buffer.
    pub fn set_buffer(&mut self, buffer: B) -> (r: &mut Self)
        ensures
            r.buffer_spec() == Some(buffer),
            r.envelope_spec() == old(self).envelope_spec(),
            r.wavetable_spec() == old(self).wavetable_spec(),
            *final(self) == *final(r),
    {
        self.buffer = Some(buffer);
        self
    }

    /// Sets the envelope.
    pub fn set_envelope(&mut self, envelope: E) -> (r: &mut Self)
        ensures
            r.envelope_spec() == Some(envelope),
            r.buffer_spec() == old(self).buffer_spec(),
            r.wavetable_spec() == old(self).wavetable_spec(),
            *final(self) == *final(r),
    {
        self.envelope = Some(envelope);
        self
    }

    /// Sets the wavetable.
    pub fn set_wavetable(&mut self, wavetable: W) -> (r: &mut Self)
        ensures
            r.wavetable_spec() == Some(wavetable),
            r.buffer_spec() == old(self).buffer_spec(),
            r.envelope_spec() == old(self).envelope_spec(),
            *final(self) == *final(r),
    {
        self.wavetable = Some(wavetable);
        self
    }

    /// Takes the three parts out, in the order buffer, envelope, wavetable; the
    /// first one missing is named in the error, and the parts before it have
    /// been taken out all the same.
    pub fn build(&mut self) -> (r: Result<(B, E, W), Error>)
        ensures
            final(self).buffer_spec() is None,
            final(self).envelope_spec() == if old(self).buffer_spec() is Some {
                None
            } else {
                old(self).envelope_spec()
            },
            final(self).wavetable_spec() == if old(self).buffer_spec() is Some
                && old(self).envelope_spec() is Some {
                None
            } else {
                old(self).wavetable_spec()
            },
            old(self).buffer_spec() is None ==> r == Err::<(B, E, W), Error>(
                Error::Specify("samples buffer"),
            ),
            old(self).buffer_spec() is Some && old(self).envelope_spec() is None ==> r == Err::<
                (B, E, W),
                Error,
            >(Error::Specify("envelope")),
            old(self).buffer_spec() is Some && old(self).envelope_spec() is Some
                && old(self).wavetable_spec() is None ==> r == Err::<(B, E, W), Error>(
                Error::Specify("wavetable"),
            ),
            old(self).buffer_spec() is Some && old(self).envelope_spec() is Some
                && old(self).wavetable_spec() is Some ==> r == Ok::<(B, E, W), Error>(
                (
                    old(self).buffer_spec().unwrap(),
                    old(self).envelope_spec().unwrap(),
                    old(self).wavetable_spec().unwrap(),
                ),
            ),
    {
        let buffer = match self.buffer.take() {
            Some(b) => b,
            None => return Err(Error::Specify("samples buffer")),
        };
        let envelope = match self.envelope.take() {
            Some(e) => e,
            None => return Err(Error::Specify("envelope")),
        };
        let wavetable = match self.wavetable.take() {
            Some(w) => w,
            None => return Err(Error::Specify("wavetable")),
        };
        Ok((buffer, envelope, wavetable))
    }
}

impl<B, E, W> Default for OscillatorBuilder<B, E, W> {
    fn default() -> (r: Self)
        ensures
            r.buffer_spec() is None,
            r.envelope_spec() is None,
            r.wavetable_spec() is None,
    {
        Self::new()
    }
}

} // verus!
