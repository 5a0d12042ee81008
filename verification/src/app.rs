//! The state of an entry session and what each key does to it.
//!
//! The state is a value that the caller owns. Reading keys and drawing are
//! the caller's business: it hands each key to [`App::on_key`] and acts on
//! the [`Flow`] that comes back.

use crate::error::ParseError;
use crate::log::{slot, MeassurementLog};
use crate::meassurement::{parsed_entry, Meassurement};
use vstd::prelude::*;

verus! {

/// Which of the two texts the keys go to.
#[derive(Clone, Copy, Debug, PartialEq, Eq, Structural)]
pub enum InputMode {
    /// The text of the value.
    Level,
    /// The text of the time.
    Time,
}

/// A key as far as the session tells keys apart.
#[derive(Clone, Copy, Debug, PartialEq, Eq, Structural)]
pub enum Key {
    /// Leave.
    Esc,
    /// Take back the last character.
    Backspace,
    /// Move on to the next text, or enter the measurement.
    Enter,
    /// A character to type.
    Char(char),
    /// Any other key.
    Other,
}

/// What the caller does after a key.
#[derive(Clone, Copy, Debug, PartialEq, Eq, Structural)]
pub enum Flow {
    /// Go on with the next key.
    Continue,
    /// End the session.
    Exit,
    /// The entry was turned down and nothing has changed; go on with the
    /// next key.
    Rejected(ParseError),
}

/// The state of a session as contracts see it.
pub struct AppView {
    pub level_input: Seq<char>,
    pub time_input: Seq<char>,
    pub input_mode: InputMode,
    pub meassurements: Seq<Meassurement>,
}

/// The state of a session: the two texts being typed, which of them the keys
/// go to, and the log.
pub struct App {
    level_input: String,
    time_input: String,
    input_mode: InputMode,
    meassurements: MeassurementLog,
}

impl View for App {
    type V = AppView;

    closed spec fn view(&self) -> AppView {
        AppView {
            level_input: self.level_input@,
            time_input: self.time_input@,
            input_mode: self.input_mode,
            meassurements: self.meassurements@,
        }
    }
}

/// `s` without its last character; the empty text stays empty.
pub open spec fn without_last(s: Seq<char>) -> Seq<char> {
    if s.len() > 0 {
        s.drop_last()
    } else {
        s
    }
}

/// The state after the two texts were entered as a measurement: the
/// measurement is in its slot in the log and both texts are empty. Where the
/// texts denote no measurement, the error.
pub open spec fn entered(v: AppView) -> Result<AppView, ParseError> {
    match parsed_entry(v.level_input, v.time_input) {
        Ok((y, h, m)) => {
            let entry = Meassurement::of(y, h, m);
            Ok(
                AppView {
                    level_input: Seq::empty(),
                    time_input: Seq::empty(),
                    input_mode: v.input_mode,
                    meassurements: v.meassurements.insert(
                        slot(v.meassurements, entry.timestamp() as int),
                        entry,
                    ),
                },
            )
        },
        Err(e) => Err(e),
    }
}

/// The state after a key, and what the caller does next.
pub open spec fn after_key(v: AppView, key: Key) -> (AppView, Flow) {
    match key {
        Key::Esc => (v, Flow::Exit),
        Key::Backspace => match v.input_mode {
            InputMode::Level => (
                AppView { level_input: without_last(v.level_input), ..v },
                Flow::Continue,
            ),
            InputMode::Time => (
                AppView { time_input: without_last(v.time_input), ..v },
                Flow::Continue,
            ),
        },
        Key::Char(c) => match v.input_mode {
            InputMode::Level => (AppView { level_input: v.level_input.push(c), ..v }, Flow::Continue),
            InputMode::Time => (AppView { time_input: v.time_input.push(c), ..v }, Flow::Continue),
        },
        Key::Enter => match v.input_mode {
            InputMode::Level => (AppView { input_mode: InputMode::Time, ..v }, Flow::Continue),
            InputMode::Time => match entered(v) {
                Ok(next) => (AppView { input_mode: InputMode::Level, ..next }, Flow::Continue),
                Err(e) => (v, Flow::Rejected(e)),
            },
        },
        Key::Other => (v, Flow::Continue),
    }
}

impl App {
    /// A session with nothing typed and nothing logged, waiting for a value.
    pub fn new() -> (app: App)
        ensures
            app@ == (AppView {
                level_input: Seq::empty(),
                time_input: Seq::empty(),
                input_mode: InputMode::Level,
                meassurements: Seq::empty(),
            }),
    {
        App {
            level_input: String::new(),
            time_input: String::new(),
            input_mode: InputMode::Level,
            meassurements: MeassurementLog::new(),
        }
    }

    /// The text of the value as typed so far.
    pub fn level_input(&self) -> (s: &str)
        ensures
            s@ == self@.level_input,
    {
        self.level_input.as_str()
    }

    /// The text of the time as typed so far.
    pub fn time_input(&self) -> (s: &str)
        ensures
            s@ == self@.time_input,
    {
        self.time_input.as_str()
    }

    /// Which of the two texts the keys go to.
    pub fn input_mode(&self) -> (mode: InputMode)
        ensures
            mode == self@.input_mode,
    {
        self.input_mode
    }

    /// The log.
    pub fn meassurements(&self) -> (log: &MeassurementLog)
        ensures
            log@ == self@.meassurements,
    {
        &self.meassurements
    }

    /// Enters the two texts as a measurement: puts it into the log and
    /// empties both texts. Where the texts denote no measurement, nothing
    /// changes and the error comes back.
    pub fn add_meassure(&mut self) -> (r: Result<(), ParseError>)
        ensures
            match entered(old(self)@) {
                Ok(next) => r is Ok && final(self)@ == next,
                Err(e) => r == Err::<(), ParseError>(e) && final(self)@ == old(self)@,
            },
    {
        let m = match Meassurement::new(self.level_input.clone(), self.time_input.clone()) {
            Ok(m) => m,
            Err(e) => {
                return Err(e);
            },
        };
        self.meassurements.insert(m);
        self.level_input.clear();
        self.time_input.clear();
        Ok(())
    }

    /// Takes one key: `Esc` ends the session, `Backspace` takes the last
    /// character off the text being typed, a character goes onto its end,
    /// `Enter` moves on from the value to the time and from the time, once
    /// the entry is in the log, back to the value. A turned-down entry
    /// leaves everything as it was, the texts included.
    pub fn on_key(&mut self, key: Key) -> (flow: Flow)
        ensures
            (final(self)@, flow) == after_key(old(self)@, key),
    {
        match key {
            Key::Esc => Flow::Exit,
            Key::Backspace => {
                match self.input_mode {
                    InputMode::Level => {
                        self.level_input.pop();
                    },
                    InputMode::Time => {
                        self.time_input.pop();
                    },
                }
                Flow::Continue
            },
            Key::Char(c) => {
                match self.input_mode {
                    InputMode::Level => self.level_input.push(c),
                    InputMode::Time => self.time_input.push(c),
                }
                Flow::Continue
            },
            Key::Enter => match self.input_mode {
                InputMode::Level => {
                    self.input_mode = InputMode::Time;
                    Flow::Continue
                },
                InputMode::Time => match self.add_meassure() {
                    Ok(()) => {
                        self.input_mode = InputMode::Level;
                        Flow::Continue
                    },
                    Err(e) => Flow::Rejected(e),
                },
            },
            Key::Other => Flow::Continue,
        }
    }
}

} // verus!
