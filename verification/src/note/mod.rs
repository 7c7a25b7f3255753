use crate::duration::Duration;
use crate::exception::ExceptionResult;
use crate::pitch::naming::pitch_named;
use crate::pitch::Pitch;
use vstd::prelude::*;
use vstd::string::*;

verus! {

/// A note: a pitch that lasts.
#[derive(Debug, Clone, Copy)]
pub struct Note {
    pub pitch: Pitch,
    pub duration: Option<Duration>,
}

/// The name of the pitch that a note has where nothing says otherwise.
pub const DEFAULT_NOTE_NAME: &'static str = "C4";

impl Note {
    /// The name that a note without a pitch is made from: the name with its
    /// octave where there is one, else the name, else middle C.
    pub open spec fn name_spec(name: Option<String>, name_with_octave: Option<String>) -> Seq<char> {
        match name_with_octave {
            Some(text) => text@,
            None => match name {
                Some(text) => text@,
                None => DEFAULT_NOTE_NAME@,
            },
        }
    }

    /// A note of a pitch, or of the pitch that a name gives.
    pub fn new(
        pitch: Option<Pitch>,
        duration: Option<Duration>,
        name: Option<String>,
        name_with_octave: Option<String>,
    ) -> (r: ExceptionResult<Self>)
        ensures
            pitch is Some ==> r is Ok && r->Ok_0.pitch == pitch->Some_0,
            pitch is None ==> (r is Ok <==> pitch_named(Note::name_spec(name, name_with_octave))
                is Some),
            pitch is None && r is Ok ==> Some(r->Ok_0.pitch) == pitch_named(
                Note::name_spec(name, name_with_octave),
            ),
            r is Ok ==> r->Ok_0.duration == duration,
            r is Err ==> r->Err_0 is Pitch || r->Err_0 is StepName || r->Err_0 is Accidental,
    {
        let pitch = match pitch {
            Some(pitch) => pitch,
            None => {
                let name = match name_with_octave {
                    Some(name_with_octave) => name_with_octave,
                    None => match name {
                        Some(name) => name,
                        None => String::from_str(DEFAULT_NOTE_NAME),
                    },
                };
                match Pitch::from_name(name.as_str()) {
                    Ok(pitch) => pitch,
                    Err(e) => {
                        return Err(e);
                    },
                }
            },
        };
        Ok(Self { pitch, duration })
    }

    pub fn duration(&self) -> (duration: &Option<Duration>)
        ensures
            *duration == self.duration,
    {
        &self.duration
    }

    pub fn set_duration(&mut self, duration: &Duration)
        ensures
            final(self).duration == Some(*duration),
            final(self).pitch == old(self).pitch,
    {
        self.duration = Some(*duration);
    }
}

} // verus!
