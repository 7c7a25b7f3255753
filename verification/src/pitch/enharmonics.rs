use super::accidental::{Accidental, AccidentalEnum};
use super::Pitch;
use crate::defaults::{IntegerType, SEMITONE};
use crate::exception::{Exception, ExceptionResult};
use crate::interval::diatonicinterval::DiatonicInterval;
use crate::interval::genericinterval::GenericInterval;
use crate::interval::intervalstring::IntervalString;
use crate::interval::specifier::Specifier;
use crate::interval::{
    interval_transposition, natural_ps_at, octaves_in, transpose_by, transposed_as, Interval,
    Transposition,
};
use crate::pitch::{are_enharmonic, octave_span};
use crate::stepname::StepName;
use vstd::prelude::*;
use vstd::string::*;

verus! {

/// The same sound written on the next step of the staff, up or down: a
/// diminished second away. There is none where no accidental makes up the
/// difference.
pub open spec fn enharmonic_step(p: Pitch, up: bool) -> Transposition {
    transpose_by(
        p,
        if up {
            1
        } else {
            -1
        },
        0,
        None,
    )
}

/// Whether a pitch equal to `q` is among `post`.
pub open spec fn contains_pitch(post: Seq<Pitch>, q: Pitch) -> bool {
    exists|i: int| 0 <= i < post.len() && (#[trigger] post[i]).same_pitch_spec(&q)
}

/// How far an accidental is from the last one in the direction of the walk:
/// a walk upwards flattens the pitch, a walk downwards sharpens it.
pub open spec fn steps_left(c: Pitch, up: bool) -> nat {
    if up {
        (c.accidental.alter_spec() + 4_000_000) as nat
    } else {
        (4_000_000 - c.accidental.alter_spec()) as nat
    }
}

/// The size of an alteration.
pub open spec fn alter_size(alter: int) -> int {
    if alter < 0 {
        -alter
    } else {
        alter
    }
}

/// The enharmonic walk from `c` in one direction, added to `post`: one
/// diminished second after another, until no accidental makes up the
/// difference, or the accidental is larger than `alter_limit`, or the pitch
/// is one of `post` already. `None` where a pitch on the way lies beyond the
/// octaves that a pitch can hold.
pub open spec fn enharmonic_walk(c: Pitch, post: Seq<Pitch>, alter_limit: int, up: bool) -> Option<
    Seq<Pitch>,
>
    decreases
            (if c.microtone is Some {
                1nat
            } else {
                0nat
            }),
            steps_left(c, up),
{
    match enharmonic_step(c, up) {
        Transposition::NoSuchAccidental => Some(post),
        Transposition::OutOfRange => None,
        Transposition::To(next) => {
            if alter_size(next.accidental.alter_spec()) > alter_limit {
                Some(post)
            } else if contains_pitch(post, next) {
                Some(post)
            } else {
                proof {
                    lemma_enharmonic_step(c, up);
                }
                enharmonic_walk(next, post.push(next), alter_limit, up)
            }
        },
    }
}

/// A step of the walk leaves a pitch without microtone, and from a pitch
/// without microtone it moves the accidental against the direction of the
/// walk.
pub proof fn lemma_enharmonic_step(c: Pitch, up: bool)
    ensures
        enharmonic_step(c, up) matches Transposition::To(next) ==> {
            &&& next.microtone is None
            &&& c.microtone is None ==> steps_left(next, up) < steps_left(c, up)
        },
{
    lemma_step_size(c, up);
}

/// A step of the walk leaves a pitch without microtone, and from a pitch
/// without microtone it moves the accidental by a semitone or more against
/// the direction of the walk.
pub proof fn lemma_step_size(c: Pitch, up: bool)
    ensures
        enharmonic_step(c, up) matches Transposition::To(next) ==> {
            &&& next.microtone is None
            &&& c.microtone is None ==> steps_left(next, up) + 1_000_000 <= steps_left(c, up)
        },
{
    let direction: int = if up {
        1
    } else {
        -1
    };
    let place = c.diatonic_note_num_spec() + direction;
    let index = c.step.index();
    let octave = c.implicit_octave_spec();
    assert(place - 1 == index + direction + 7 * octave);
    if up {
        if index < 6 {
            vstd::arithmetic::div_mod::lemma_fundamental_div_mod_converse(place - 1, 7, octave, index + 1);
        } else {
            vstd::arithmetic::div_mod::lemma_fundamental_div_mod_converse(place - 1, 7, octave + 1, 0);
        }
    } else {
        if index > 0 {
            vstd::arithmetic::div_mod::lemma_fundamental_div_mod_converse(place - 1, 7, octave, index - 1);
        } else {
            vstd::arithmetic::div_mod::lemma_fundamental_div_mod_converse(place - 1, 7, octave - 1, 6);
        }
    }
    if c.microtone is None {
        let target_ps = c.ps_spec() + 0 * SEMITONE;
        assert(target_ps == c.ps_spec());
        let raw = target_ps - natural_ps_at(place);
        assert(-12 * SEMITONE < raw < 12 * SEMITONE);
        let octaves = octaves_in(raw);
        assert(octaves == 0);
        let alter = raw - octaves * octave_span();
        assert(alter == raw);
        if up {
            assert(alter <= c.accidental.alter_spec() - SEMITONE);
        } else {
            assert(alter >= c.accidental.alter_spec() + SEMITONE);
        }
        if enharmonic_step(c, up) is To {
            let next = enharmonic_step(c, up)->To_0;
            assert(AccidentalEnum::from_alter_spec(alter) is Some);
            let kind = AccidentalEnum::from_alter_spec(alter)->Some_0;
            assert(next.accidental == Accidental { kind });
            assert(kind.alter_spec() == alter);
        }
    }
}

/// What one step of the walk does.
pub proof fn lemma_walk_unfold(c: Pitch, post: Seq<Pitch>, alter_limit: int, up: bool)
    ensures
        enharmonic_walk(c, post, alter_limit, up) == match enharmonic_step(c, up) {
            Transposition::NoSuchAccidental => Some(post),
            Transposition::OutOfRange => None,
            Transposition::To(next) => {
                if alter_size(next.accidental.alter_spec()) > alter_limit {
                    Some(post)
                } else if contains_pitch(post, next) {
                    Some(post)
                } else {
                    enharmonic_walk(next, post.push(next), alter_limit, up)
                }
            },
        },
{
}

/// Spellings that give way to a simpler one: accidentals of two semitones
/// and more, and the sharps and flats that name a natural note.
pub open spec fn needs_simplifying(p: Pitch) -> bool {
    ||| alter_size(p.accidental.alter_spec()) >= 2 * SEMITONE
    ||| p.step == StepName::E && p.accidental.kind == AccidentalEnum::Sharp
    ||| p.step == StepName::B && p.accidental.kind == AccidentalEnum::Sharp
    ||| p.step == StepName::C && p.accidental.kind == AccidentalEnum::Flat
    ||| p.step == StepName::F && p.accidental.kind == AccidentalEnum::Flat
}

/// The more common of two spellings: E flat for D sharp, B flat for A sharp,
/// F sharp for G flat, C sharp for D flat.
pub open spec fn most_common_spelling(p: Pitch) -> Pitch {
    if p.step == StepName::D && p.accidental.kind == AccidentalEnum::Sharp {
        Pitch {
            step: StepName::E,
            accidental: Accidental { kind: AccidentalEnum::Flat },
            spelling_is_inferred: true,
            ..p
        }
    } else if p.step == StepName::A && p.accidental.kind == AccidentalEnum::Sharp {
        Pitch {
            step: StepName::B,
            accidental: Accidental { kind: AccidentalEnum::Flat },
            spelling_is_inferred: true,
            ..p
        }
    } else if p.step == StepName::G && p.accidental.kind == AccidentalEnum::Flat {
        Pitch {
            step: StepName::F,
            accidental: Accidental { kind: AccidentalEnum::Sharp },
            spelling_is_inferred: true,
            ..p
        }
    } else if p.step == StepName::D && p.accidental.kind == AccidentalEnum::Flat {
        Pitch {
            step: StepName::C,
            accidental: Accidental { kind: AccidentalEnum::Sharp },
            spelling_is_inferred: true,
            ..p
        }
    } else {
        p
    }
}

/// The pitch in a simpler spelling: where the spelling needs it, the
/// simplest one of the same pitch-space value, with an octave only where the
/// pitch has one; and where `most_common` asks for it, the more common of
/// two. `None` where the simplest spelling lies beyond the octaves that a
/// pitch can hold.
pub open spec fn simplify_enharmonic_spec(p: Pitch, most_common: bool) -> Option<Pitch> {
    let simpler = if needs_simplifying(p) {
        if Pitch::ps_representable(p.ps_spec()) {
            let respelled = Pitch::from_ps_spec(p.ps_spec());
            if p.octave is None {
                Some(Pitch { octave: None, ..respelled })
            } else {
                Some(respelled)
            }
        } else {
            None
        }
    } else {
        Some(p)
    };
    match simpler {
        None => None,
        Some(q) => if most_common {
            Some(most_common_spelling(q))
        } else {
            Some(q)
        },
    }
}

/// What the simple spelling `c` of `p` gives to the other spellings of `p`:
/// itself, where its name is another and its alteration, microtone
/// included, is not larger than `alter_limit`.
pub open spec fn simple_spelling_within(p: Pitch, c: Pitch, alter_limit: int) -> Seq<Pitch> {
    if c.same_name_spec(&p) || alter_size(c.alter_spec()) > alter_limit {
        Seq::<Pitch>::empty()
    } else {
        seq![c]
    }
}

/// The other spellings of a pitch whose alterations are not larger than
/// `alter_limit`: the simple spelling first, where its name is another and
/// it is within the limit; then the walk upwards from the pitch; then the
/// walk downwards. `None` where a pitch on the way lies beyond the octaves
/// that a pitch can hold.
pub open spec fn common_enharmonics(p: Pitch, alter_limit: int) -> Option<Seq<Pitch>> {
    match simplify_enharmonic_spec(p, false) {
        None => None,
        Some(c) => {
            let first = simple_spelling_within(p, c, alter_limit);
            match enharmonic_walk(p, first, alter_limit, true) {
                None => None,
                Some(upwards) => enharmonic_walk(p, upwards, alter_limit, false),
            }
        },
    }
}

/// Whether every pitch of `post` is enharmonic to `p`.
pub open spec fn all_enharmonic(p: Pitch, post: Seq<Pitch>) -> bool {
    forall|i: int| 0 <= i < post.len() ==> are_enharmonic(p, #[trigger] post[i])
}

/// Whether no two pitches of `post` are equal.
pub open spec fn no_pitch_twice(post: Seq<Pitch>) -> bool {
    forall|i: int, j: int|
        #![trigger post[i], post[j]]
        0 <= i < j < post.len() ==> !post[i].same_pitch_spec(&post[j])
}

/// Whether every pitch of `post` has an alteration, microtone included, that
/// is not larger than the limit.
pub open spec fn all_within(post: Seq<Pitch>, alter_limit: int) -> bool {
    forall|i: int| 0 <= i < post.len() ==> alter_size((#[trigger] post[i]).alter_spec()) <= alter_limit
}

/// Whole octaves and whole octaves are whole octaves.
pub proof fn lemma_enharmonic_chain(p: Pitch, c: Pitch, q: Pitch)
    requires
        are_enharmonic(p, c),
        are_enharmonic(c, q),
    ensures
        are_enharmonic(p, q),
{
    vstd::arithmetic::div_mod::lemma_mod_adds(
        c.ps_spec() - p.ps_spec(),
        q.ps_spec() - c.ps_spec(),
        octave_span(),
    );
}

/// A walk adds to pitches that are enharmonic to a pitch, all different and
/// within the limit, only pitches of which the same holds, where it starts
/// from a pitch that is enharmonic to that pitch.
pub proof fn lemma_walk_keeps(p: Pitch, c: Pitch, post: Seq<Pitch>, alter_limit: int, up: bool)
    requires
        are_enharmonic(p, c),
        all_enharmonic(p, post),
        no_pitch_twice(post),
        all_within(post, alter_limit),
    ensures
        enharmonic_walk(c, post, alter_limit, up) matches Some(found) ==> {
            &&& all_enharmonic(p, found)
            &&& no_pitch_twice(found)
            &&& all_within(found, alter_limit)
            &&& post.len() <= found.len()
            &&& found.subrange(0, post.len() as int) == post
        },
    decreases
            (if c.microtone is Some {
                1nat
            } else {
                0nat
            }),
            steps_left(c, up),
{
    lemma_walk_unfold(c, post, alter_limit, up);
    assert(post.subrange(0, post.len() as int) == post);
    if let Transposition::To(next) = enharmonic_step(c, up) {
        if alter_size(next.accidental.alter_spec()) <= alter_limit && !contains_pitch(post, next) {
            lemma_enharmonic_step(c, up);
            crate::interval::lemma_transposed_distance(
                c,
                if up {
                    1
                } else {
                    -1
                },
                0,
                None,
            );
            assert(are_enharmonic(c, next));
            lemma_enharmonic_chain(p, c, next);
            let longer = post.push(next);
            assert(all_enharmonic(p, longer)) by {
                assert forall|i: int| 0 <= i < longer.len() implies are_enharmonic(
                    p,
                    #[trigger] longer[i],
                ) by {
                    if i < post.len() {
                        assert(longer[i] == post[i]);
                    }
                }
            }
            assert(no_pitch_twice(longer)) by {
                assert forall|i: int, j: int|
                    #![trigger longer[i], longer[j]]
                    0 <= i < j < longer.len() implies !longer[i].same_pitch_spec(&longer[j]) by {
                    assert(longer[i] == post[i]);
                    if j < post.len() {
                        assert(longer[j] == post[j]);
                    } else {
                        assert(!post[i].same_pitch_spec(&next));
                    }
                }
            }
            assert(all_within(longer, alter_limit)) by {
                assert(next.alter_spec() == next.accidental.alter_spec());
                assert forall|i: int| 0 <= i < longer.len() implies alter_size(
                    (#[trigger] longer[i]).alter_spec(),
                ) <= alter_limit by {
                    if i < post.len() {
                        assert(longer[i] == post[i]);
                    }
                }
            }
            lemma_walk_keeps(p, next, longer, alter_limit, up);
            if let Some(found) = enharmonic_walk(next, longer, alter_limit, up) {
                assert(found.subrange(0, post.len() as int) == longer.subrange(
                    0,
                    post.len() as int,
                )) by {
                    assert(found.subrange(0, longer.len() as int) == longer);
                    assert forall|i: int| 0 <= i < post.len() implies found.subrange(
                        0,
                        post.len() as int,
                    )[i] == longer.subrange(0, post.len() as int)[i] by {
                        assert(found.subrange(0, longer.len() as int)[i] == longer[i]);
                    }
                }
                assert(longer.subrange(0, post.len() as int) == post);
            }
        }
    }
}

/// The most pitches that a walk from `c` adds: a step ends at least a
/// semitone nearer to the last accidental, and the accidentals span eight
/// semitones; the step from a pitch with a microtone comes before those.
pub open spec fn walk_bound(c: Pitch, up: bool) -> int {
    if c.microtone is Some {
        9
    } else {
        steps_left(c, up) as int / 1_000_000
    }
}

/// A walk adds at most nine pitches.
pub proof fn lemma_walk_length(c: Pitch, post: Seq<Pitch>, alter_limit: int, up: bool)
    ensures
        0 <= walk_bound(c, up) <= 9,
        enharmonic_walk(c, post, alter_limit, up) matches Some(found) ==> found.len() <= post.len()
            + walk_bound(c, up),
    decreases
            (if c.microtone is Some {
                1nat
            } else {
                0nat
            }),
            steps_left(c, up),
{
    lemma_walk_unfold(c, post, alter_limit, up);
    assert(-4_000_000 <= c.accidental.alter_spec() <= 4_000_000);
    if let Transposition::To(next) = enharmonic_step(c, up) {
        if alter_size(next.accidental.alter_spec()) <= alter_limit && !contains_pitch(post, next) {
            lemma_step_size(c, up);
            assert(-4_000_000 <= next.accidental.alter_spec() <= 4_000_000);
            lemma_walk_length(next, post.push(next), alter_limit, up);
        }
    }
}

/// A pitch has at most nineteen other spellings, whatever the limit: the
/// simple one, and nine from each walk.
pub proof fn lemma_common_enharmonics_count(p: Pitch, alter_limit: int)
    ensures
        common_enharmonics(p, alter_limit) matches Some(found) ==> found.len() <= 19,
{
    if let Some(c) = simplify_enharmonic_spec(p, false) {
        let first = simple_spelling_within(p, c, alter_limit);
        lemma_walk_length(p, first, alter_limit, true);
        if let Some(upwards) = enharmonic_walk(p, first, alter_limit, true) {
            lemma_walk_length(p, upwards, alter_limit, false);
        }
    }
}

/// The other spellings of a pitch are enharmonic to it and all different,
/// and the alteration of each is within the limit.
pub proof fn lemma_common_enharmonics(p: Pitch, alter_limit: int)
    ensures
        common_enharmonics(p, alter_limit) matches Some(found) ==> {
            &&& all_enharmonic(p, found)
            &&& no_pitch_twice(found)
            &&& all_within(found, alter_limit)
        },
{
    if let Some(c) = simplify_enharmonic_spec(p, false) {
        let first = simple_spelling_within(p, c, alter_limit);
        assert(are_enharmonic(p, p)) by {
            vstd::arithmetic::div_mod::lemma_mod_multiples_basic(0, octave_span());
        }
        if first.len() > 0 {
            assert(needs_simplifying(p));
            crate::pitch::lemma_from_ps_keeps(p.ps_spec());
            let respelled = Pitch::from_ps_spec(p.ps_spec());
            if p.octave is None {
                crate::interval::lemma_octaves_apart(c, respelled);
                assert(are_enharmonic(p, c));
            } else {
                assert(c == respelled);
                assert(are_enharmonic(p, c));
            }
            assert(first[0] == c);
        }
        lemma_walk_keeps(p, p, first, alter_limit, true);
        if let Some(upwards) = enharmonic_walk(p, first, alter_limit, true) {
            lemma_walk_keeps(p, p, upwards, alter_limit, false);
        }
    }
}

/// Whether a pitch equal to `q` is among `post`.
pub fn pitches_contain(post: &Vec<Pitch>, q: &Pitch) -> (found: bool)
    ensures
        found == contains_pitch(post@, *q),
{
    let mut i: usize = 0;
    while i < post.len()
        invariant
            i <= post.len(),
            forall|j: int| 0 <= j < i ==> !(#[trigger] post@[j]).same_pitch_spec(q),
        decreases post.len() - i,
    {
        if post[i] == *q {
            return true;
        }
        i = i + 1;
    }
    false
}

impl Pitch {
    /// The pitch moved by an interval. An accidental of more than four
    /// semitones gives way to the simplest spelling.
    pub fn transpose(&self, interval: &Interval) -> (r: ExceptionResult<Pitch>)
        ensures
            transposed_as(r, interval.transposition(*self, Some(4int))),
    {
        interval.transpose_pitch(self, false, Some(4))
    }

    /// The pitch in a simpler spelling.
    pub fn simplify_enharmonic(&self, most_common: bool) -> (r: ExceptionResult<Pitch>)
        ensures
            r is Ok <==> simplify_enharmonic_spec(*self, most_common) is Some,
            r is Ok ==> Some(r->Ok_0) == simplify_enharmonic_spec(*self, most_common),
            r is Err ==> r->Err_0 is Pitch,
    {
        let mut simpler = *self;
        let alter = self.accidental.alter();
        let excluded = (self.step == StepName::E && self.accidental.kind == AccidentalEnum::Sharp)
            || (self.step == StepName::B && self.accidental.kind == AccidentalEnum::Sharp) || (
        self.step == StepName::C && self.accidental.kind == AccidentalEnum::Flat) || (self.step
            == StepName::F && self.accidental.kind == AccidentalEnum::Flat);
        if alter >= 2 * SEMITONE || alter <= -2 * SEMITONE || excluded {
            // by resetting the pitch space value, we get a simpler enharmonic spelling
            let save_octave = self.octave;
            simpler = match Pitch::from_ps(self.ps()) {
                Ok(respelled) => respelled,
                Err(e) => {
                    return Err(e);
                },
            };
            if save_octave.is_none() {
                simpler.octave_setter(None);
            }
        }
        if most_common {
            if simpler.step == StepName::D && simpler.accidental.kind == AccidentalEnum::Sharp {
                simpler.step_setter(StepName::E);
                simpler.accidental_setter(Accidental::flat());
            } else if simpler.step == StepName::A && simpler.accidental.kind
                == AccidentalEnum::Sharp {
                simpler.step_setter(StepName::B);
                simpler.accidental_setter(Accidental::flat());
            } else if simpler.step == StepName::G && simpler.accidental.kind
                == AccidentalEnum::Flat {
                simpler.step_setter(StepName::F);
                simpler.accidental_setter(Accidental::sharp());
            } else if simpler.step == StepName::D && simpler.accidental.kind
                == AccidentalEnum::Flat {
                simpler.step_setter(StepName::C);
                simpler.accidental_setter(Accidental::sharp());
            }
        }
        Ok(simpler)
    }

    /// The same sound written on the next step up.
    pub fn get_higher_enharmonic(&self) -> (r: ExceptionResult<Pitch>)
        ensures
            transposed_as(r, enharmonic_step(*self, true)),
    {
        self.get_enharmonic_helper(true)
    }

    /// The same sound written on the next step down.
    pub fn get_lower_enharmonic(&self) -> (r: ExceptionResult<Pitch>)
        ensures
            transposed_as(r, enharmonic_step(*self, false)),
    {
        self.get_enharmonic_helper(false)
    }

    /// The same sound written on the next step, up or down: the pitch moved
    /// by a diminished second.
    pub fn get_enharmonic_helper(&self, up: bool) -> (r: ExceptionResult<Pitch>)
        ensures
            transposed_as(r, enharmonic_step(*self, up)),
    {
        let interval_string = match up {
            true => IntervalString::Up,
            false => IntervalString::Down,
        };
        let interval = diminished_second(interval_string);
        proof {
            reveal(interval_transposition);
        }
        interval.transpose_pitch(self, false, None)
    }

    /// The other spellings of the pitch whose alterations are not larger
    /// than `alter_limit`, which is in millionths of a semitone.
    pub fn get_all_common_enharmonics(&self, alter_limit: IntegerType) -> (r: ExceptionResult<
        Vec<Pitch>,
    >)
        ensures
            r is Ok <==> common_enharmonics(*self, alter_limit as int) is Some,
            r is Ok ==> Some(r->Ok_0@) == common_enharmonics(*self, alter_limit as int),
            r is Ok ==> all_enharmonic(*self, r->Ok_0@) && no_pitch_twice(r->Ok_0@) && all_within(
                r->Ok_0@,
                alter_limit as int,
            ),
            r is Err ==> r->Err_0 is Pitch,
    {
        proof {
            lemma_common_enharmonics(*self, alter_limit as int);
        }
        let mut post: Vec<Pitch> = Vec::new();
        // Initial simplified enharmonic
        let c = match self.simplify_enharmonic(false) {
            Ok(c) => c,
            Err(e) => {
                return Err(e);
            },
        };
        let alter = c.alter();
        if !c.same_name(self) && alter <= alter_limit && -alter <= alter_limit {
            post.push(c);
            assert(post@ == seq![c]);
        }
        assert(post@ == simple_spelling_within(*self, c, alter_limit as int));
        // Iterative scan upward
        let post = match enharmonic_scan(self, post, alter_limit, true) {
            Ok(post) => post,
            Err(e) => {
                return Err(e);
            },
        };
        // Iterative scan downward
        enharmonic_scan(self, post, alter_limit, false)
    }
}

/// The diminished second, up or down.
pub fn diminished_second(direction: IntervalString) -> (interval: Interval)
    ensures
        !interval.implicit_diatonic,
        interval.chromatic.semitones == 0,
        interval.diatonic.specifier == Specifier::Diminished,
        interval.diatonic.generic.value_spec() == match direction {
            IntervalString::Up => 2int,
            IntervalString::Down => -2int,
        },
{
    let size: IntegerType = match direction {
        IntervalString::Up => 2,
        IntervalString::Down => -2,
    };
    let generic = match GenericInterval::from_int(size) {
        Ok(generic) => generic,
        Err(_) => GenericInterval::unison(),
    };
    let diatonic = DiatonicInterval::new(Specifier::Diminished, &generic);
    match Interval::from_diatonic(diatonic) {
        Ok(interval) => interval,
        Err(_) => Interval::from_semitones(0),
    }
}

/// The enharmonic walk from `start` in one direction, added to `post`.
pub fn enharmonic_scan(start: &Pitch, post: Vec<Pitch>, alter_limit: IntegerType, up: bool) -> (r:
    ExceptionResult<Vec<Pitch>>)
    ensures
        r is Ok <==> enharmonic_walk(*start, post@, alter_limit as int, up) is Some,
        r is Ok ==> Some(r->Ok_0@) == enharmonic_walk(*start, post@, alter_limit as int, up),
        r is Err ==> r->Err_0 is Pitch,
{
    let mut found = post;
    let mut c = *start;
    loop
        invariant
            enharmonic_walk(*start, post@, alter_limit as int, up) == enharmonic_walk(
                c,
                found@,
                alter_limit as int,
                up,
            ),
        decreases
                (if c.microtone is Some {
                    1nat
                } else {
                    0nat
                }),
                steps_left(c, up),
    {
        proof {
            lemma_walk_unfold(c, found@, alter_limit as int, up);
        }
        let next = match c.get_enharmonic_helper(up) {
            Ok(p) => p,
            Err(e) => {
                match e {
                    Exception::Accidental(_) => {
                        return Ok(found);
                    },
                    _ => {
                        return Err(e);
                    },
                }
            },
        };
        let alter = next.accidental.alter();
        if alter > alter_limit || -alter > alter_limit {
            return Ok(found);
        }
        if pitches_contain(&found, &next) {
            return Ok(found);
        }
        proof {
            lemma_enharmonic_step(c, up);
        }
        found.push(next);
        c = next;
    }
}

} // verus!
