use vstd::prelude::*;
use vstd::string::*;

verus! {

pub type ExceptionResult<T> = Result<T, Exception>;

/// What went wrong, by the component that noticed it, with a message.
#[derive(Debug)]
pub enum Exception {
    Music21Object(String),
    Chord(String),
    Pitch(String),
    Microtone(String),
    Accidental(String),
    ChordTables(String),
    Interval(String),
    StepName(String),
    PitchClass(String),
    PitchClassString(String),
    Ordinal(String),
    Polyrhythm(String),
}

impl Exception {
    /// The message that the error carries.
    pub open spec fn message_spec(&self) -> Seq<char> {
        match self {
            Exception::Music21Object(msg) => msg@,
            Exception::Chord(msg) => msg@,
            Exception::Pitch(msg) => msg@,
            Exception::Microtone(msg) => msg@,
            Exception::Accidental(msg) => msg@,
            Exception::ChordTables(msg) => msg@,
            Exception::Interval(msg) => msg@,
            Exception::StepName(msg) => msg@,
            Exception::PitchClass(msg) => msg@,
            Exception::PitchClassString(msg) => msg@,
            Exception::Ordinal(msg) => msg@,
            Exception::Polyrhythm(msg) => msg@,
        }
    }

    /// What stands before the message when the error is shown.
    pub open spec fn prefix_spec(&self) -> Seq<char> {
        match self {
            Exception::Music21Object(_) => "Music21Object error: "@,
            Exception::Chord(_) => "Chord error: "@,
            Exception::Pitch(_) => "Pitch error: "@,
            Exception::Microtone(_) => "Microtone error: "@,
            Exception::Accidental(_) => "Accidental error: "@,
            Exception::ChordTables(_) => "ChordTables error: "@,
            Exception::Interval(_) => "Interval error: "@,
            Exception::StepName(_) => "StepName error: "@,
            Exception::PitchClass(_) => "PitchClass error: "@,
            Exception::PitchClassString(_) => "PitchClassString error: "@,
            Exception::Ordinal(_) => "Ordinal error: "@,
            Exception::Polyrhythm(_) => "Polyrhythm "@,
        }
    }

    pub fn message(&self) -> (msg: &String)
        ensures
            msg@ == self.message_spec(),
    {
        match self {
            Exception::Music21Object(msg) => msg,
            Exception::Chord(msg) => msg,
            Exception::Pitch(msg) => msg,
            Exception::Microtone(msg) => msg,
            Exception::Accidental(msg) => msg,
            Exception::ChordTables(msg) => msg,
            Exception::Interval(msg) => msg,
            Exception::StepName(msg) => msg,
            Exception::PitchClass(msg) => msg,
            Exception::PitchClassString(msg) => msg,
            Exception::Ordinal(msg) => msg,
            Exception::Polyrhythm(msg) => msg,
        }
    }

    fn prefix(&self) -> (p: &'static str)
        ensures
            p@ == self.prefix_spec(),
    {
        match self {
            Exception::Music21Object(_) => "Music21Object error: ",
            Exception::Chord(_) => "Chord error: ",
            Exception::Pitch(_) => "Pitch error: ",
            Exception::Microtone(_) => "Microtone error: ",
            Exception::Accidental(_) => "Accidental error: ",
            Exception::ChordTables(_) => "ChordTables error: ",
            Exception::Interval(_) => "Interval error: ",
            Exception::StepName(_) => "StepName error: ",
            Exception::PitchClass(_) => "PitchClass error: ",
            Exception::PitchClassString(_) => "PitchClassString error: ",
            Exception::Ordinal(_) => "Ordinal error: ",
            Exception::Polyrhythm(_) => "Polyrhythm ",
        }
    }

    /// The error as a line of text: the component's prefix, then the message.
    pub fn describe(&self) -> (text: String)
        ensures
            text@ == self.prefix_spec() + self.message_spec(),
    {
        String::from_str(self.prefix()).concat(self.message().as_str())
    }

    /// The error that caused this one: there never is one.
    pub fn source(&self) -> (cause: Option<&Exception>)
        ensures
            cause is None,
    {
        None
    }
}

} // verus!
