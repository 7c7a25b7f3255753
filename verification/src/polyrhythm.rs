use crate::common::math::{
    gcd, gcd_spec, lcm_spec, lemma_gcd_spec_is_gcd, lemma_lcm_spec_is_common_multiple,
};
use crate::defaults::UnsignedIntegerType;
use crate::exception::{Exception, ExceptionResult};
use vstd::prelude::*;
use vstd::string::*;

verus! {

/// Calls `num::integer::lcm` on two `u64`: their least common multiple, which
/// is 0 for 0 and 0 and else the first times the second divided by their
/// greatest common divisor. The product must fit.
#[verifier::external_body]
fn num_lcm(a: UnsignedIntegerType, b: UnsignedIntegerType) -> (m: UnsignedIntegerType)
    requires
        lcm_spec(a as nat, b as nat) <= UnsignedIntegerType::MAX,
    ensures
        m == lcm_spec(a as nat, b as nat),
{
    num::integer::lcm(a, b)
}

/// The least common multiple of all of `subdivisions`: of none it is 1.
pub open spec fn cycle_of(subdivisions: Seq<UnsignedIntegerType>) -> nat
    decreases subdivisions.len(),
{
    if subdivisions.len() == 0 {
        1
    } else {
        lcm_spec(cycle_of(subdivisions.drop_last()), subdivisions.last() as nat)
    }
}

/// Whether the least common multiple of every beginning of `subdivisions`
/// fits.
pub open spec fn cycles_fit(subdivisions: Seq<UnsignedIntegerType>) -> bool {
    forall|n: int|
        0 <= n <= subdivisions.len() ==> #[trigger] cycle_of(subdivisions.take(n))
            <= UnsignedIntegerType::MAX
}

/// The least common multiple of the first and the second, unless it does not
/// fit.
pub fn checked_lcm(a: UnsignedIntegerType, b: UnsignedIntegerType) -> (m: Option<
    UnsignedIntegerType,
>)
    ensures
        m is Some <==> lcm_spec(a as nat, b as nat) <= UnsignedIntegerType::MAX,
        m is Some ==> m->Some_0 == lcm_spec(a as nat, b as nat),
{
    if a == 0 && b == 0 {
        return Some(num_lcm(a, b));
    }
    let g = gcd(a, b);
    let q = b / g;
    if q != 0 && a > UnsignedIntegerType::MAX / q {
        proof {
            assert(a * q > UnsignedIntegerType::MAX) by (nonlinear_arith)
                requires
                    q > 0,
                    a > UnsignedIntegerType::MAX / q,
                    a >= 0,
            {
                vstd::arithmetic::div_mod::lemma_fundamental_div_mod(
                    UnsignedIntegerType::MAX as int,
                    q as int,
                );
            }
        }
        None
    } else {
        proof {
            if q != 0 {
                assert(a * q <= UnsignedIntegerType::MAX) by (nonlinear_arith)
                    requires
                        q > 0,
                        a <= UnsignedIntegerType::MAX / q,
                        a >= 0,
                {
                    vstd::arithmetic::div_mod::lemma_fundamental_div_mod(
                        UnsignedIntegerType::MAX as int,
                        q as int,
                    );
                }
            } else {
                assert(a * q == 0) by (nonlinear_arith)
                    requires
                        q == 0,
                ;
            }
        }
        Some(num_lcm(a, b))
    }
}

/// Several even divisions of one measure, sounded together.
#[derive(Debug, Clone)]
pub struct Polyrhythm {
    /// Beats per measure (e.g. 4 for 4/4 time)
    pub base: UnsignedIntegerType,
    /// Subdivisions (e.g. [3, 4] for a 3:4 polyrhythm)
    pub components: Vec<UnsignedIntegerType>,
    /// Tempo in BPM
    pub tempo: Option<UnsignedIntegerType>,
    /// Total ticks per measure (lcm of subdivisions)
    pub cycle: UnsignedIntegerType,
    pub current_tick: UnsignedIntegerType,
}

impl Polyrhythm {
    /// There is a subdivision, none is 0, the cycle is their least common
    /// multiple, and the current tick lies within the cycle.
    pub open spec fn well_formed(&self) -> bool {
        &&& self.components@.len() > 0
        &&& forall|i: int| 0 <= i < self.components@.len() ==> self.components@[i] > 0
        &&& self.cycle == cycle_of(self.components@)
        &&& self.current_tick < self.cycle
    }

    /// Constructs a new Polyrhythm given a time signature, tempo, and
    /// subdivisions. There must be a subdivision, none may be 0, and their
    /// least common multiple must fit.
    pub fn new_with_time_signature(
        base: UnsignedIntegerType,
        tempo: UnsignedIntegerType,
        subdivisions: &[UnsignedIntegerType],
    ) -> (r: ExceptionResult<Self>)
        ensures
            r is Ok <==> {
                &&& subdivisions@.len() > 0
                &&& forall|i: int| 0 <= i < subdivisions@.len() ==> subdivisions@[i] > 0
                &&& cycles_fit(subdivisions@)
            },
            r is Ok ==> {
                &&& r->Ok_0.well_formed()
                &&& r->Ok_0.base == base
                &&& r->Ok_0.tempo == Some(tempo)
                &&& r->Ok_0.components@ == subdivisions@
                &&& r->Ok_0.cycle == cycle_of(subdivisions@)
                &&& r->Ok_0.current_tick == 0
            },
            r is Err ==> r->Err_0 is Polyrhythm,
    {
        if subdivisions.len() == 0 {
            return Err(Exception::Polyrhythm(String::from_str("At least one subdivision is required")));
        }
        let mut components: Vec<UnsignedIntegerType> = Vec::new();
        let mut cycle: UnsignedIntegerType = 1;
        let mut i: usize = 0;
        assert(subdivisions@.take(0) == Seq::<UnsignedIntegerType>::empty());
        while i < subdivisions.len()
            invariant
                i <= subdivisions.len(),
                components@ == subdivisions@.take(i as int),
                forall|j: int| 0 <= j < i ==> subdivisions@[j] > 0,
                cycle == cycle_of(subdivisions@.take(i as int)),
                cycle > 0,
                forall|n: int|
                    0 <= n <= i ==> #[trigger] cycle_of(subdivisions@.take(n))
                        <= UnsignedIntegerType::MAX,
            decreases subdivisions.len() - i,
        {
            let sub = subdivisions[i];
            if sub == 0 {
                return Err(Exception::Polyrhythm(String::from_str("Subdivision must be nonzero")));
            }
            proof {
                assert(subdivisions@.take(i + 1).drop_last() == subdivisions@.take(i as int));
                assert(subdivisions@.take(i + 1).last() == sub);
                assert(subdivisions@.take(i as int).push(sub) == subdivisions@.take(i + 1));
                lemma_lcm_spec_is_common_multiple(cycle as nat, sub as nat);
                assert(cycle_of(subdivisions@.take(i + 1)) == lcm_spec(cycle as nat, sub as nat));
            }
            match checked_lcm(cycle, sub) {
                Some(next) => {
                    cycle = next;
                },
                None => {
                    assert(!cycles_fit(subdivisions@));
                    return Err(
                        Exception::Polyrhythm(
                            String::from_str("The subdivisions have no common cycle that fits"),
                        ),
                    );
                },
            }
            components.push(sub);
            i = i + 1;
        }
        assert(subdivisions@.take(subdivisions@.len() as int) == subdivisions@);
        Ok(Self { base, components, tempo: Some(tempo), cycle, current_tick: 0 })
    }

    /// Returns the number of ticks in one full cycle (measure).
    pub fn cycle_duration(&self) -> (ticks: UnsignedIntegerType)
        ensures
            ticks == self.cycle,
    {
        self.cycle
    }

    /// Returns the duration of one measure in seconds, as a numerator and a
    /// denominator: sixty times the beats, over the tempo. Without a tempo
    /// there is none.
    pub fn measure_duration(&self) -> (r: ExceptionResult<(u128, u128)>)
        ensures
            r is Ok <==> self.tempo is Some,
            r is Ok ==> r->Ok_0.0 == self.base * 60 && r->Ok_0.1 == self.tempo->Some_0,
            r is Err ==> r->Err_0 is Polyrhythm,
    {
        match self.tempo {
            Some(tempo) => Ok(((self.base as u128) * 60, tempo as u128)),
            None => Err(Exception::Polyrhythm(String::from_str("Tempo not set"))),
        }
    }

    /// Returns the duration of one tick (smallest subdivision unit) in
    /// seconds, as a numerator and a denominator: that of a measure, over
    /// the ticks of the cycle.
    pub fn tick_duration(&self) -> (r: ExceptionResult<(u128, u128)>)
        ensures
            r is Ok <==> self.tempo is Some,
            r is Ok ==> r->Ok_0.0 == self.base * 60 && r->Ok_0.1 == self.tempo->Some_0
                * self.cycle,
            r is Err ==> r->Err_0 is Polyrhythm,
    {
        match self.measure_duration() {
            Ok((seconds, beats)) => {
                assert(beats * self.cycle <= 0xffff_ffff_ffff_ffff * 0xffff_ffff_ffff_ffff)
                    by (nonlinear_arith)
                    requires
                        0 <= beats <= 0xffff_ffff_ffff_ffff,
                        0 <= self.cycle <= 0xffff_ffff_ffff_ffff,
                ;
                Ok((seconds, beats * (self.cycle as u128)))
            },
            Err(e) => Err(e),
        }
    }

    /// Returns the beat timings for each subdivision voice over one full
    /// measure, counted in tick durations: a voice of `n` beats has the
    /// timings 0 to `n - 1`. Without a tempo there are none.
    pub fn beat_timings(&self) -> (r: ExceptionResult<Vec<Vec<UnsignedIntegerType>>>)
        ensures
            r is Ok <==> self.tempo is Some,
            r is Ok ==> r->Ok_0@.len() == self.components@.len() && forall|v: int|
                0 <= v < self.components@.len() ==> (#[trigger] r->Ok_0@[v])@.len()
                    == self.components@[v] && forall|i: int|
                    0 <= i < self.components@[v] ==> r->Ok_0@[v]@[i] == i,
            r is Err ==> r->Err_0 is Polyrhythm,
    {
        match self.tick_duration() {
            Ok(_) => {},
            Err(e) => {
                return Err(e);
            },
        }
        let mut voices: Vec<Vec<UnsignedIntegerType>> = Vec::new();
        let mut v: usize = 0;
        while v < self.components.len()
            invariant
                v <= self.components.len(),
                voices@.len() == v,
                forall|w: int|
                    0 <= w < v ==> (#[trigger] voices@[w])@.len() == self.components@[w]
                        && forall|i: int| 0 <= i < self.components@[w] ==> voices@[w]@[i] == i,
            decreases self.components.len() - v,
        {
            let sub = self.components[v];
            let mut timings: Vec<UnsignedIntegerType> = Vec::new();
            let mut i: UnsignedIntegerType = 0;
            while i < sub
                invariant
                    i <= sub,
                    timings@.len() == i,
                    forall|k: int| 0 <= k < i ==> timings@[k] == k,
                decreases sub - i,
            {
                timings.push(i);
                i = i + 1;
            }
            voices.push(timings);
            v = v + 1;
        }
        Ok(voices)
    }

    /// Advances the polyrhythm by one tick. Returns the current tick and,
    /// for each subdivision, whether it has a beat on that tick: it has one
    /// every so many ticks as the cycle has for each of its beats.
    pub fn next(&mut self) -> (item: Option<(UnsignedIntegerType, Vec<bool>)>)
        requires
            old(self).well_formed(),
        ensures
            final(self).well_formed(),
            final(self).base == old(self).base,
            final(self).tempo == old(self).tempo,
            final(self).components == old(self).components,
            final(self).cycle == old(self).cycle,
            final(self).current_tick == (old(self).current_tick + 1) % (old(self).cycle as int),
            item is Some,
            item->Some_0.0 == old(self).current_tick,
            item->Some_0.1@.len() == old(self).components@.len(),
            forall|v: int|
                0 <= v < old(self).components@.len() ==> #[trigger] item->Some_0.1@[v] == (old(
                    self,
                ).current_tick as int % (old(self).cycle as int / old(self).components@[v] as int)
                    == 0),
    {
        let tick = self.current_tick;
        let mut triggers: Vec<bool> = Vec::new();
        let mut v: usize = 0;
        while v < self.components.len()
            invariant
                self.well_formed(),
                *self == *old(self),
                v <= self.components.len(),
                tick == self.current_tick,
                triggers@.len() == v,
                forall|w: int|
                    0 <= w < v ==> #[trigger] triggers@[w] == (tick as int % (self.cycle as int
                        / self.components@[w] as int) == 0),
            decreases self.components.len() - v,
        {
            let sub = self.components[v];
            proof {
                lemma_cycle_holds(self.components@, v as int);
                vstd::arithmetic::div_mod::lemma_div_non_zero(self.cycle as int, sub as int);
            }
            triggers.push(tick % (self.cycle / sub) == 0);
            v = v + 1;
        }
        self.current_tick = (self.current_tick + 1) % self.cycle;
        Some((tick, triggers))
    }
}

/// The cycle of some subdivisions, none of which is 0, is not shorter than
/// any of them.
pub proof fn lemma_cycle_holds(subdivisions: Seq<UnsignedIntegerType>, v: int)
    requires
        0 <= v < subdivisions.len(),
        forall|i: int| 0 <= i < subdivisions.len() ==> subdivisions[i] > 0,
    ensures
        cycle_of(subdivisions) >= subdivisions[v],
        cycle_of(subdivisions) > 0,
    decreases subdivisions.len(),
{
    let rest = subdivisions.drop_last();
    lemma_cycle_positive(rest);
    lemma_lcm_spec_is_common_multiple(cycle_of(rest), subdivisions.last() as nat);
    if v < subdivisions.len() - 1 {
        lemma_cycle_holds(rest, v);
    }
}

/// The cycle of some subdivisions, none of which is 0, is not 0.
pub proof fn lemma_cycle_positive(subdivisions: Seq<UnsignedIntegerType>)
    requires
        forall|i: int| 0 <= i < subdivisions.len() ==> subdivisions[i] > 0,
    ensures
        cycle_of(subdivisions) > 0,
    decreases subdivisions.len(),
{
    if subdivisions.len() > 0 {
        let rest = subdivisions.drop_last();
        lemma_cycle_positive(rest);
        lemma_lcm_spec_is_common_multiple(cycle_of(rest), subdivisions.last() as nat);
    }
}

} // verus!
