pub mod tables;

use crate::common::stringtools::{str_to_chars, string_from_chars};
use crate::duration::Duration;
use crate::exception::{Exception, ExceptionResult};
use crate::key::keysignature::KeySignature;
use crate::note::Note;
use crate::pitch::dissonance::{default_scorer, DissonanceScorer};
use crate::pitch::naming::pitch_named;
use crate::pitch::respell::{key_anchor, respell_spec, simplify_multiple_enharmonics};
use crate::pitch::Pitch;
use vstd::prelude::*;
use vstd::string::*;

verus! {

/// The parts of a text between its spaces: one more than it has spaces.
pub open spec fn split_on_spaces(text: Seq<char>) -> Seq<Seq<char>>
    decreases text.len(),
{
    if text.len() == 0 {
        seq![Seq::<char>::empty()]
    } else {
        let before = split_on_spaces(text.drop_last());
        if text.last() == ' ' {
            before.push(Seq::<char>::empty())
        } else {
            before.drop_last().push(before.last().push(text.last()))
        }
    }
}

/// The parts of a text between its spaces.
pub fn split_names(text: &str) -> (parts: Vec<String>)
    ensures
        parts@.len() == split_on_spaces(text@).len(),
        forall|i: int| 0 <= i < parts@.len() ==> (#[trigger] parts@[i])@ == split_on_spaces(text@)[i],
{
    let chars = str_to_chars(text);
    let mut parts: Vec<String> = Vec::new();
    let mut current: Vec<char> = Vec::new();
    let mut i: usize = 0;
    assert(chars@.take(0) == Seq::<char>::empty());
    while i < chars.len()
        invariant
            i <= chars.len(),
            chars@ == text@,
            parts@.len() + 1 == split_on_spaces(chars@.take(i as int)).len(),
            forall|j: int|
                0 <= j < parts@.len() ==> (#[trigger] parts@[j])@ == split_on_spaces(
                    chars@.take(i as int),
                )[j],
            current@ == split_on_spaces(chars@.take(i as int)).last(),
        decreases chars.len() - i,
    {
        let c = chars[i];
        proof {
            assert(chars@.take(i + 1).drop_last() == chars@.take(i as int));
            assert(chars@.take(i + 1).last() == c);
        }
        if c == ' ' {
            parts.push(string_from_chars(&current));
            current = Vec::new();
        } else {
            current.push(c);
        }
        i = i + 1;
    }
    assert(chars@.take(chars@.len() as int) == chars@);
    parts.push(string_from_chars(&current));
    parts
}

/// What a chord can be made of: names of pitches with spaces between them,
/// or pitches, or notes.
pub enum ChordNotes {
    Names(String),
    Pitches(Vec<Pitch>),
    Notes(Vec<Note>),
}

/// Whether every name names a pitch.
pub open spec fn all_named(names: Seq<Seq<char>>) -> bool {
    forall|i: int| 0 <= i < names.len() ==> (#[trigger] pitch_named(names[i])) is Some
}

/// The pitches that some names name.
pub open spec fn pitches_named(names: Seq<Seq<char>>) -> Seq<Pitch> {
    Seq::new(names.len(), |i: int| pitch_named(names[i])->Some_0)
}

/// The pitches of some notes.
pub open spec fn pitches_of(notes: Seq<Note>) -> Seq<Pitch> {
    Seq::new(notes.len(), |i: int| notes[i].pitch)
}

/// The pitches that a chord is made of before they are respelled; `None`
/// where a name names no pitch. Nothing gives no pitches.
pub open spec fn given_pitches(notes: Option<ChordNotes>) -> Option<Seq<Pitch>> {
    match notes {
        None => Some(Seq::empty()),
        Some(ChordNotes::Names(text)) => if all_named(split_on_spaces(text@)) {
            Some(pitches_named(split_on_spaces(text@)))
        } else {
            None
        },
        Some(ChordNotes::Pitches(pitches)) => Some(pitches@),
        Some(ChordNotes::Notes(notes)) => Some(pitches_of(notes@)),
    }
}

/// Notes that sound together.
#[derive(Debug)]
pub struct Chord {
    pub notes: Vec<Note>,
}

impl Chord {
    /// The pitches of the chord, in the order of its notes.
    pub open spec fn pitches_spec(&self) -> Seq<Pitch> {
        pitches_of(self.notes@)
    }

    /// The chord of some notes, its pitches in their best spelling. What
    /// cannot be read is the error of a pitch; what cannot be respelled is
    /// the error of a chord.
    pub fn new(notes: Option<ChordNotes>) -> (r: ExceptionResult<Self>)
        ensures
            given_pitches(notes) is None ==> r is Err && !(r->Err_0 is Chord),
            given_pitches(notes) is Some ==> {
                let found = respell_spec(default_scorer(), given_pitches(notes)->Some_0, None);
                &&& r is Ok <==> found is Some
                &&& r is Ok ==> Some(r->Ok_0.pitches_spec()) == found
                &&& r is Err ==> r->Err_0 is Chord
            },
    {
        let chord_notes: Vec<Note> = match notes {
            None => Vec::new(),
            Some(ChordNotes::Names(text)) => {
                let names = split_names(text.as_str());
                let mut made: Vec<Note> = Vec::new();
                let mut i: usize = 0;
                while i < names.len()
                    invariant
                        i <= names.len(),
                        notes == Some(ChordNotes::Names(text)),
                        names@.len() == split_on_spaces(text@).len(),
                        forall|j: int|
                            0 <= j < names@.len() ==> (#[trigger] names@[j])@ == split_on_spaces(
                                text@,
                            )[j],
                        made@.len() == i,
                        forall|j: int|
                            0 <= j < i ==> Some((#[trigger] made@[j]).pitch) == pitch_named(
                                split_on_spaces(text@)[j],
                            ),
                    decreases names.len() - i,
                {
                    let pitch = match Pitch::from_name(names[i].as_str()) {
                        Ok(pitch) => pitch,
                        Err(e) => {
                            proof {
                                assert(pitch_named(split_on_spaces(text@)[i as int]) is None);
                                assert(!all_named(split_on_spaces(text@)));
                            }
                            return Err(e);
                        },
                    };
                    made.push(Note { pitch, duration: None });
                    i = i + 1;
                }
                proof {
                    assert forall|j: int| 0 <= j < split_on_spaces(text@).len() implies (
                    #[trigger] pitch_named(split_on_spaces(text@)[j])) is Some by {
                        assert(Some(made@[j].pitch) == pitch_named(split_on_spaces(text@)[j]));
                    }
                    assert(pitches_of(made@) =~= pitches_named(split_on_spaces(text@)));
                }
                made
            },
            Some(ChordNotes::Pitches(pitches)) => {
                let mut made: Vec<Note> = Vec::new();
                let mut i: usize = 0;
                while i < pitches.len()
                    invariant
                        i <= pitches.len(),
                        made@.len() == i,
                        forall|j: int| 0 <= j < i ==> (#[trigger] made@[j]).pitch == pitches@[j],
                    decreases pitches.len() - i,
                {
                    made.push(Note { pitch: pitches[i], duration: None });
                    i = i + 1;
                }
                assert(pitches_of(made@) =~= pitches@);
                made
            },
            Some(ChordNotes::Notes(notes)) => notes,
        };
        let mut chord = Self { notes: chord_notes };
        match chord.simplify_enharmonics_in_place(None) {
            Ok(()) => Ok(chord),
            Err(e) => Err(e),
        }
    }

    /// The pitches of the chord, in the order of its notes.
    pub fn pitches(&self) -> (pitches: Vec<Pitch>)
        ensures
            pitches@ == self.pitches_spec(),
    {
        let mut pitches: Vec<Pitch> = Vec::new();
        let mut i: usize = 0;
        while i < self.notes.len()
            invariant
                i <= self.notes.len(),
                pitches@.len() == i,
                forall|j: int| 0 <= j < i ==> #[trigger] pitches@[j] == self.notes@[j].pitch,
            decreases self.notes.len() - i,
        {
            pitches.push(self.notes[i].pitch);
            i = i + 1;
        }
        assert(pitches@ =~= self.pitches_spec());
        pitches
    }

    /// Gives the pitches of the chord their best spelling, after the tonic
    /// of a key where one is given. Where that fails, the chord stays as it
    /// is.
    pub fn simplify_enharmonics_in_place(&mut self, key_context: Option<KeySignature>) -> (r:
        ExceptionResult<()>)
        ensures
            key_anchor(key_context) is None ==> r is Err,
            key_anchor(key_context) is Some ==> {
                let found = respell_spec(
                    default_scorer(),
                    old(self).pitches_spec(),
                    key_anchor(key_context)->Some_0,
                );
                &&& r is Ok <==> found is Some
                &&& r is Ok ==> Some(final(self).pitches_spec()) == found
            },
            r is Ok ==> final(self).notes@.len() == old(self).notes@.len() && forall|i: int|
                0 <= i < old(self).notes@.len() ==> (#[trigger] final(self).notes@[i]).duration
                    == old(self).notes@[i].duration,
            r is Err ==> r->Err_0 is Chord && *final(self) == *old(self),
    {
        let pitches = self.pitches();
        match simplify_multiple_enharmonics(&pitches, None::<DissonanceScorer>, key_context) {
            Ok(found) => {
                let mut i: usize = 0;
                while i < self.notes.len()
                    invariant
                        i <= self.notes.len(),
                        found@.len() == self.notes@.len(),
                        self.notes@.len() == old(self).notes@.len(),
                        forall|j: int|
                            0 <= j < i ==> (#[trigger] self.notes@[j]).pitch == found@[j],
                        forall|j: int|
                            0 <= j < self.notes@.len() ==> (#[trigger] self.notes@[j]).duration
                                == old(self).notes@[j].duration,
                    decreases self.notes.len() - i,
                {
                    let mut note = self.notes[i];
                    note.pitch = found[i];
                    self.notes.set(i, note);
                    i = i + 1;
                }
                assert(self.pitches_spec() =~= found@);
                Ok(())
            },
            Err(err) => Err(
                Exception::Chord(
                    String::from_str("simplifying multiple enharmonics failed because of ").concat(
                        err.describe().as_str(),
                    ),
                ),
            ),
        }
    }

    /// The duration of the chord: that of its first note, where it has one.
    pub fn duration(&self) -> (duration: Option<Duration>)
        ensures
            duration == if self.notes@.len() > 0 {
                self.notes@[0].duration
            } else {
                None
            },
    {
        if self.notes.len() > 0 {
            self.notes[0].duration
        } else {
            None
        }
    }
}

} // verus!
