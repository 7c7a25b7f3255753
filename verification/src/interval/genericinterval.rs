use super::diatonicinterval::DiatonicInterval;
use super::direction::Direction;
use super::specifier::Specifier;
use crate::defaults::IntegerType;
use crate::exception::{Exception, ExceptionResult};
use vstd::prelude::*;
use vstd::string::*;

verus! {

/// The size of a generic interval without its direction.
pub open spec fn generic_undirected(value: int) -> int {
    if value < 0 {
        -value
    } else {
        value
    }
}

/// The direction of a generic interval: a unison has none.
pub open spec fn generic_direction(value: int) -> Direction {
    if value == 1 {
        Direction::Oblique
    } else if value < 0 {
        Direction::Descending
    } else {
        Direction::Ascending
    }
}

/// The size within the octave, from 1 to 7: an octave counts as a unison and
/// a seventh stays a seventh.
pub open spec fn generic_simple_undirected(value: int) -> int {
    let steps = generic_undirected(value) % 7;
    if steps == 0 {
        7
    } else {
        steps
    }
}

/// The whole octaves in a generic interval.
pub open spec fn generic_undirected_octaves(value: int) -> int {
    let size = generic_undirected(value);
    if size % 7 == 0 {
        size / 7 - 1
    } else {
        size / 7
    }
}

/// The size within the octave with its direction: negative where the
/// interval descends and is more than a unison.
pub open spec fn generic_simple_directed(value: int) -> int {
    let steps = generic_simple_undirected(value);
    if generic_direction(value) == Direction::Descending && steps > 1 {
        -steps
    } else {
        steps
    }
}

/// The steps on the staff between the two notes: 0 for a unison.
pub open spec fn generic_staff_distance(value: int) -> int {
    if value > 0 {
        value - 1
    } else if value < 0 {
        value + 1
    } else {
        0
    }
}

/// Unisons, fourths and fifths, and what they become by octaves, are
/// perfect or altered; the others are major or minor or altered.
pub open spec fn generic_is_perfectable(value: int) -> bool {
    let steps = generic_simple_undirected(value);
    steps == 1 || steps == 4 || steps == 5
}

/// Semitones from the first degree of a major scale up to degree `steps`.
pub open spec fn major_scale_semitones(steps: int) -> int {
    if steps == 1 {
        0
    } else if steps == 2 {
        2
    } else if steps == 3 {
        4
    } else if steps == 4 {
        5
    } else if steps == 5 {
        7
    } else if steps == 6 {
        9
    } else {
        11
    }
}

/// An interval counted in steps of the staff, with its direction: 3 is a
/// third up, -3 a third down, 1 a unison. There is no interval 0.
#[derive(Debug, Clone, Copy)]
pub struct GenericInterval {
    value: IntegerType,
}

impl GenericInterval {
    #[verifier::type_invariant]
    pub closed spec fn is_interval(&self) -> bool {
        self.value != 0 && self.value > IntegerType::MIN
    }

    /// The size with its direction.
    pub closed spec fn value_spec(&self) -> int {
        self.value as int
    }

    /// The interval of a size with its direction; 0 is none, and the least
    /// number of all has no size.
    pub fn from_int(value: IntegerType) -> (r: ExceptionResult<Self>)
        ensures
            r is Ok <==> value != 0 && value > IntegerType::MIN,
            r is Ok ==> r->Ok_0.value_spec() == value,
            r is Err ==> r->Err_0 is Interval,
    {
        if value == 0 {
            Err(Exception::Interval(String::from_str("Interval cannot be zero")))
        } else if value == IntegerType::MIN {
            Err(Exception::Interval(String::from_str("Interval is out of range")))
        } else {
            Ok(GenericInterval { value })
        }
    }

    /// Gives the interval another size; 0 and the least number of all are
    /// refused and change nothing.
    pub fn value_setter(&mut self, value: IntegerType) -> (r: ExceptionResult<()>)
        ensures
            r is Ok <==> value != 0 && value > IntegerType::MIN,
            r is Ok ==> final(self).value_spec() == value,
            r is Err ==> r->Err_0 is Interval && *final(self) == *old(self),
    {
        match GenericInterval::from_int(value) {
            Ok(interval) => {
                *self = interval;
                Ok(())
            },
            Err(e) => Err(e),
        }
    }

    /// The unison.
    pub fn unison() -> (g: Self)
        ensures
            g.value_spec() == 1,
    {
        GenericInterval { value: 1 }
    }

    /// The size with its direction.
    pub fn directed(&self) -> (value: IntegerType)
        ensures
            value == self.value_spec(),
            value != 0,
            value > IntegerType::MIN,
    {
        proof {
            use_type_invariant(self);
        }
        self.value
    }

    /// The size without its direction.
    pub fn undirected(&self) -> (size: IntegerType)
        ensures
            size == generic_undirected(self.value_spec()),
            size >= 1,
    {
        let value = self.directed();
        if value < 0 {
            -value
        } else {
            value
        }
    }

    pub fn direction(&self) -> (d: Direction)
        ensures
            d == generic_direction(self.value_spec()),
    {
        let value = self.directed();
        if value == 1 {
            Direction::Oblique
        } else if value < 0 {
            Direction::Descending
        } else {
            Direction::Ascending
        }
    }

    /// The size within the octave, from 1 to 7.
    pub fn simple_undirected(&self) -> (steps: IntegerType)
        ensures
            steps == generic_simple_undirected(self.value_spec()),
            1 <= steps <= 7,
    {
        let steps = self.undirected() % 7;
        if steps == 0 {
            7
        } else {
            steps
        }
    }

    /// The whole octaves in the interval.
    pub fn undirected_octaves(&self) -> (octaves: IntegerType)
        ensures
            octaves == generic_undirected_octaves(self.value_spec()),
            octaves >= 0,
    {
        let size = self.undirected();
        if size % 7 == 0 {
            size / 7 - 1
        } else {
            size / 7
        }
    }

    /// The size within the octave with its direction.
    pub fn simple_directed(&self) -> (steps: IntegerType)
        ensures
            steps == generic_simple_directed(self.value_spec()),
    {
        let steps = self.simple_undirected();
        if self.direction() == Direction::Descending && steps > 1 {
            -steps
        } else {
            steps
        }
    }

    /// The steps on the staff between the two notes.
    pub fn staff_distance(&self) -> (steps: IntegerType)
        ensures
            steps == generic_staff_distance(self.value_spec()),
    {
        let value = self.directed();
        if value > 0 {
            value - 1
        } else {
            value + 1
        }
    }

    pub fn is_perfectable(&self) -> (perfectable: bool)
        ensures
            perfectable == generic_is_perfectable(self.value_spec()),
    {
        let steps = self.simple_undirected();
        steps == 1 || steps == 4 || steps == 5
    }

    /// The diatonic interval of this size with a quality.
    pub fn get_diatonic(&self, spec: Specifier) -> (d: DiatonicInterval)
        ensures
            d.generic.value_spec() == self.value_spec(),
            d.specifier == spec,
    {
        DiatonicInterval::new(spec, self)
    }

    /// The same size the other way; the unison stays what it is.
    pub fn reverse(&self) -> (g: GenericInterval)
        ensures
            g.value_spec() == if generic_undirected(self.value_spec()) == 1 {
                1
            } else {
                -self.value_spec()
            },
    {
        if self.undirected() == 1 {
            GenericInterval { value: 1 }
        } else {
            GenericInterval { value: -self.directed() }
        }
    }
}

/// The size of a generic interval as a caller gives it: kept as it is.
pub fn convert_generic(value: IntegerType) -> (converted: IntegerType)
    ensures
        converted == value,
{
    let post = value;
    let direction_scalar = Direction::Ascending;
    post * direction_scalar.as_int()
}

} // verus!
