//! The parser of note timelines.
//!
//! A timeline is text, one entry a line:
//!
//! ```text
//! +<delta>| <event>, <event>   # comment
//! ```
//!
//! `<delta>` is the number of timesteps since the entry before. An event
//! is an octave digit, a pitch class (`c`, `c#`, `d`, `d#`, `e`, `f`,
//! `f#`, `g`, `g#`, `a`, `a#`, `b`) and `d` for key down or `u` for key
//! up, as in `4c#d`.

use vstd::prelude::*;
use vstd::string::StringExecFns;
use crate::text::{
    find_char, lemma_find_char_between, number_of, parse_number, spec_find_char, spec_trim, substring,
    to_chars, trim,
};

verus! {

/// The twelve pitch classes of an octave; black keys are sharps.
#[derive(Debug, Clone, Copy, PartialEq, Eq, Hash, Structural)]
pub enum PitchClass {
    C,
    CSharp,
    D,
    DSharp,
    E,
    F,
    FSharp,
    G,
    GSharp,
    A,
    ASharp,
    B,
}

/// A note: a pitch class in an octave.
#[derive(Debug, Clone, Copy, PartialEq, Eq, Hash, Structural)]
pub struct Note {
    pub octave: u8,
    pub pitch_class: PitchClass,
}

/// Whether a key goes down or up.
#[derive(Debug, Clone, Copy, PartialEq, Eq, Structural)]
pub enum KeyDirection {
    Down,
    Up,
}

/// A key event: a note and what happens to its key.
#[derive(Debug, Clone, PartialEq, Eq, Structural)]
pub struct Event {
    pub note: Note,
    pub direction: KeyDirection,
}

impl PitchClass {
    /// The number of semitones above C.
    pub open spec fn spec_semitone(self) -> int {
        match self {
            PitchClass::C => 0,
            PitchClass::CSharp => 1,
            PitchClass::D => 2,
            PitchClass::DSharp => 3,
            PitchClass::E => 4,
            PitchClass::F => 5,
            PitchClass::FSharp => 6,
            PitchClass::G => 7,
            PitchClass::GSharp => 8,
            PitchClass::A => 9,
            PitchClass::ASharp => 10,
            PitchClass::B => 11,
        }
    }

    /// The number of semitones above C, from 0 for C to 11 for B.
    pub fn semitone(&self) -> (semitone: u8)
        ensures
            semitone == self.spec_semitone(),
            semitone < 12,
    {
        match self {
            PitchClass::C => 0,
            PitchClass::CSharp => 1,
            PitchClass::D => 2,
            PitchClass::DSharp => 3,
            PitchClass::E => 4,
            PitchClass::F => 5,
            PitchClass::FSharp => 6,
            PitchClass::G => 7,
            PitchClass::GSharp => 8,
            PitchClass::A => 9,
            PitchClass::ASharp => 10,
            PitchClass::B => 11,
        }
    }
}

/// The events of one timestep.
#[derive(Debug, Clone, PartialEq)]
pub struct TimedEvents {
    /// The number of timesteps since the entry before; for the first
    /// entry, since the start.
    pub delta: usize,
    /// The events of this timestep, in their order.
    pub events: Vec<Event>,
}

/// An entry of a timeline as mathematics sees it.
pub struct TimelineEntry {
    pub delta: int,
    pub events: Seq<Event>,
}

impl View for TimedEvents {
    type V = TimelineEntry;

    open spec fn view(&self) -> TimelineEntry {
        TimelineEntry { delta: self.delta as int, events: self.events@ }
    }
}

/// Why a timeline could not be parsed, with the offending text or a
/// word on what is missing.
#[derive(Debug, Clone, PartialEq)]
pub enum ParseError {
    InvalidLine(String),
    InvalidTimestep(String),
    InvalidEvent(String),
    InvalidNote(String),
    InvalidPitchClass(String),
    InvalidOctave(String),
    InvalidDirection(String),
}

/// A parse error as mathematics sees it.
pub enum ParseFailure {
    InvalidLine(Seq<char>),
    InvalidTimestep(Seq<char>),
    InvalidEvent(Seq<char>),
    InvalidNote(Seq<char>),
    InvalidPitchClass(Seq<char>),
    InvalidOctave(Seq<char>),
    InvalidDirection(Seq<char>),
}

impl View for ParseError {
    type V = ParseFailure;

    open spec fn view(&self) -> ParseFailure {
        match self {
            ParseError::InvalidLine(s) => ParseFailure::InvalidLine(s@),
            ParseError::InvalidTimestep(s) => ParseFailure::InvalidTimestep(s@),
            ParseError::InvalidEvent(s) => ParseFailure::InvalidEvent(s@),
            ParseError::InvalidNote(s) => ParseFailure::InvalidNote(s@),
            ParseError::InvalidPitchClass(s) => ParseFailure::InvalidPitchClass(s@),
            ParseError::InvalidOctave(s) => ParseFailure::InvalidOctave(s@),
            ParseError::InvalidDirection(s) => ParseFailure::InvalidDirection(s@),
        }
    }
}

impl ParseFailure {
    /// The error in words: what is invalid, a colon, and the text that
    /// the error carries.
    pub open spec fn message(self) -> Seq<char> {
        match self {
            ParseFailure::InvalidLine(s) => "Invalid line: "@ + s,
            ParseFailure::InvalidTimestep(s) => "Invalid timestep: "@ + s,
            ParseFailure::InvalidEvent(s) => "Invalid event: "@ + s,
            ParseFailure::InvalidNote(s) => "Invalid note: "@ + s,
            ParseFailure::InvalidPitchClass(s) => "Invalid pitch class: "@ + s,
            ParseFailure::InvalidOctave(s) => "Invalid octave: "@ + s,
            ParseFailure::InvalidDirection(s) => "Invalid direction: "@ + s,
        }
    }
}

impl ParseError {
    /// The error in words.
    pub fn message(&self) -> (message: String)
        ensures
            message@ == self@.message(),
    {
        match self {
            ParseError::InvalidLine(s) => "Invalid line: ".to_owned().concat(s.as_str()),
            ParseError::InvalidTimestep(s) => "Invalid timestep: ".to_owned().concat(s.as_str()),
            ParseError::InvalidEvent(s) => "Invalid event: ".to_owned().concat(s.as_str()),
            ParseError::InvalidNote(s) => "Invalid note: ".to_owned().concat(s.as_str()),
            ParseError::InvalidPitchClass(s) => "Invalid pitch class: ".to_owned().concat(
                s.as_str(),
            ),
            ParseError::InvalidOctave(s) => "Invalid octave: ".to_owned().concat(s.as_str()),
            ParseError::InvalidDirection(s) => "Invalid direction: ".to_owned().concat(s.as_str()),
        }
    }
}

/// Whether `actual` is the value or the error that the grammar gives.
pub open spec fn parsed_is<T>(actual: Result<T, ParseError>, expected: Result<T, ParseFailure>) -> bool {
    match (actual, expected) {
        (Ok(a), Ok(e)) => a == e,
        (Err(a), Err(e)) => a@ == e,
        _ => false,
    }
}

/// The pitch class that `name` spells: a lower-case letter from `a` to
/// `g`, or one of `c`, `d`, `f`, `g`, `a` in either case followed by
/// `#`.
pub open spec fn pitch_class_of(name: Seq<char>) -> Option<PitchClass> {
    if name.len() == 1 {
        if name[0] == 'c' {
            Some(PitchClass::C)
        } else if name[0] == 'd' {
            Some(PitchClass::D)
        } else if name[0] == 'e' {
            Some(PitchClass::E)
        } else if name[0] == 'f' {
            Some(PitchClass::F)
        } else if name[0] == 'g' {
            Some(PitchClass::G)
        } else if name[0] == 'a' {
            Some(PitchClass::A)
        } else if name[0] == 'b' {
            Some(PitchClass::B)
        } else {
            None
        }
    } else if name.len() == 2 && name[1] == '#' {
        if name[0] == 'c' || name[0] == 'C' {
            Some(PitchClass::CSharp)
        } else if name[0] == 'd' || name[0] == 'D' {
            Some(PitchClass::DSharp)
        } else if name[0] == 'f' || name[0] == 'F' {
            Some(PitchClass::FSharp)
        } else if name[0] == 'g' || name[0] == 'G' {
            Some(PitchClass::GSharp)
        } else if name[0] == 'a' || name[0] == 'A' {
            Some(PitchClass::ASharp)
        } else {
            None
        }
    } else {
        None
    }
}

/// What the pitch class parser gives for `name`.
pub open spec fn pitch_class_result(name: Seq<char>) -> Result<PitchClass, ParseFailure> {
    match pitch_class_of(name) {
        Some(pitch_class) => Ok(pitch_class),
        None => Err(ParseFailure::InvalidPitchClass(name)),
    }
}

/// The event that the characters of `text` from `from` up to `to`
/// spell. Blanks around it are dropped. Its last character is the
/// direction, its first the octave, and what lies between them the
/// pitch class; the first of these that is wrong or missing is the
/// error.
pub open spec fn event_in(text: Seq<char>, from: int, to: int) -> Result<Event, ParseFailure> {
    let (first, end) = spec_trim(text, from, to);
    if first >= end {
        Err(ParseFailure::InvalidEvent("empty event"@))
    } else if text[end - 1] != 'd' && text[end - 1] != 'u' {
        Err(ParseFailure::InvalidDirection(text.subrange(end - 1, end)))
    } else if first == end - 1 {
        Err(ParseFailure::InvalidNote("missing note"@))
    } else if !('0' <= text[first] <= '9') {
        Err(ParseFailure::InvalidOctave(text.subrange(first, first + 1)))
    } else if first + 1 == end - 1 {
        Err(ParseFailure::InvalidPitchClass("missing"@))
    } else {
        match pitch_class_of(text.subrange(first + 1, end - 1)) {
            None => Err(ParseFailure::InvalidPitchClass(text.subrange(first + 1, end - 1))),
            Some(pitch_class) => Ok(
                Event {
                    note: Note { octave: (text[first] as u32 - 48) as u8, pitch_class },
                    direction: if text[end - 1] == 'd' {
                        KeyDirection::Down
                    } else {
                        KeyDirection::Up
                    },
                },
            ),
        }
    }
}

/// The events that the characters of `text` from `from` up to `to`
/// spell: the pieces between commas, those that are blank left out.
/// The first piece that is no event is the error.
pub open spec fn events_in(text: Seq<char>, from: int, to: int) -> Result<Seq<Event>, ParseFailure>
    decreases to - from,
{
    if from > to {
        Ok(Seq::empty())
    } else {
        let comma = spec_find_char(text, ',', from, to);
        let (first, end) = spec_trim(text, from, comma);
        let head = if first >= end {
            Ok(Seq::empty())
        } else {
            match event_in(text, from, comma) {
                Ok(event) => Ok(seq![event]),
                Err(failure) => Err(failure),
            }
        };
        match head {
            Err(failure) => Err(failure),
            Ok(events) => if comma >= to {
                Ok(events)
            } else {
                proof {
                    lemma_find_char_between(text, ',', from, to);
                }
                match events_in(text, comma + 1, to) {
                    Ok(rest) => Ok(events + rest),
                    Err(failure) => Err(failure),
                }
            },
        }
    }
}

/// Where the comment of a line begins: the first place from `from` up
/// to `to` at which a space is followed by `#`, or `to` where there is
/// none.
pub open spec fn comment_start(text: Seq<char>, from: int, to: int) -> int
    decreases to - from,
{
    if from + 1 >= to {
        to
    } else if text[from] == ' ' && text[from + 1] == '#' {
        from
    } else {
        comment_start(text, from + 1, to)
    }
}

/// The entry that the characters of `text` from `from` up to `to`
/// spell. The comment and the blanks around the rest are dropped; a
/// line with nothing left is an entry without events and with delta 0.
/// Else the line is `+`, the delta, `|` and the events.
pub open spec fn line_in(text: Seq<char>, from: int, to: int) -> Result<TimelineEntry, ParseFailure> {
    let (first, end) = spec_trim(text, from, comment_start(text, from, to));
    if first >= end {
        Ok(TimelineEntry { delta: 0, events: Seq::empty() })
    } else {
        let bar = spec_find_char(text, '|', first, end);
        let (step_first, step_end) = spec_trim(text, first, bar);
        if bar >= end {
            Err(ParseFailure::InvalidLine("expected format: +<delta>| events"@))
        } else if step_first >= step_end || text[step_first] != '+' {
            Err(ParseFailure::InvalidTimestep("timestep must start with +"@))
        } else {
            match number_of(text, step_first + 1, step_end) {
                None => Err(ParseFailure::InvalidTimestep(text.subrange(step_first, step_end))),
                Some(delta) => match events_in(text, bar + 1, end) {
                    Err(failure) => Err(failure),
                    Ok(events) => Ok(TimelineEntry { delta, events }),
                },
            }
        }
    }
}

/// The timeline that the lines of `text` from `from` on spell, after
/// the entries `parsed` of the lines before. Lines that are blank or
/// begin with `#` are passed over. An entry without events is kept only
/// as the first entry. The first line that is no entry is the error.
pub open spec fn lines_in(text: Seq<char>, from: int, parsed: Seq<TimelineEntry>) -> Result<
    Seq<TimelineEntry>,
    ParseFailure,
>
    decreases text.len() - from,
{
    if from > text.len() {
        Ok(parsed)
    } else {
        let stop = spec_find_char(text, '\n', from, text.len() as int);
        let (first, end) = spec_trim(text, from, stop);
        let entries = if first >= end || text[first] == '#' {
            Ok(parsed)
        } else {
            match line_in(text, first, end) {
                Err(failure) => Err(failure),
                Ok(entry) => if entry.events.len() > 0 || parsed.len() == 0 {
                    Ok(parsed.push(entry))
                } else {
                    Ok(parsed)
                },
            }
        };
        match entries {
            Err(failure) => Err(failure),
            Ok(entries) => if stop >= text.len() {
                Ok(entries)
            } else {
                proof {
                    lemma_find_char_between(text, '\n', from, text.len() as int);
                }
                lines_in(text, stop + 1, entries)
            },
        }
    }
}

/// The views of some entries.
pub open spec fn entries_of(timeline: Seq<TimedEvents>) -> Seq<TimelineEntry> {
    Seq::new(timeline.len(), |i: int| timeline[i]@)
}

/// Whether `actual` is the entry or the error that the grammar gives.
pub open spec fn line_is(
    actual: Result<TimedEvents, ParseError>,
    expected: Result<TimelineEntry, ParseFailure>,
) -> bool {
    match (actual, expected) {
        (Ok(a), Ok(e)) => a@ == e,
        (Err(a), Err(e)) => a@ == e,
        _ => false,
    }
}

/// Whether `actual` is the timeline or the error that the grammar
/// gives.
pub open spec fn timeline_is(
    actual: Result<Vec<TimedEvents>, ParseError>,
    expected: Result<Seq<TimelineEntry>, ParseFailure>,
) -> bool {
    match (actual, expected) {
        (Ok(a), Ok(e)) => entries_of(a@) == e,
        (Err(a), Err(e)) => a@ == e,
        _ => false,
    }
}

/// The pitch class that the characters of `chars` from `from` up to
/// `to` spell.
fn pitch_class_in(chars: &Vec<char>, from: usize, to: usize) -> (found: Option<PitchClass>)
    requires
        from <= to <= chars@.len(),
    ensures
        found == pitch_class_of(chars@.subrange(from as int, to as int)),
{
    let ghost name = chars@.subrange(from as int, to as int);
    if to - from == 1 {
        let c = chars[from];
        assert(name[0] == c);
        if c == 'c' {
            Some(PitchClass::C)
        } else if c == 'd' {
            Some(PitchClass::D)
        } else if c == 'e' {
            Some(PitchClass::E)
        } else if c == 'f' {
            Some(PitchClass::F)
        } else if c == 'g' {
            Some(PitchClass::G)
        } else if c == 'a' {
            Some(PitchClass::A)
        } else if c == 'b' {
            Some(PitchClass::B)
        } else {
            None
        }
    } else if to - from == 2 {
        let c = chars[from];
        assert(name[0] == c);
        assert(name[1] == chars@[from + 1]);
        if chars[from + 1] != '#' {
            None
        } else if c == 'c' || c == 'C' {
            Some(PitchClass::CSharp)
        } else if c == 'd' || c == 'D' {
            Some(PitchClass::DSharp)
        } else if c == 'f' || c == 'F' {
            Some(PitchClass::FSharp)
        } else if c == 'g' || c == 'G' {
            Some(PitchClass::GSharp)
        } else if c == 'a' || c == 'A' {
            Some(PitchClass::ASharp)
        } else {
            None
        }
    } else {
        None
    }
}

impl PitchClass {
    /// Reads a pitch class from its name: a lower-case letter from `a`
    /// to `g`, or one of `c`, `d`, `f`, `g`, `a` in either case followed
    /// by `#`. Any other text is an invalid pitch class.
    pub fn parse(name: &str) -> (parsed: Result<PitchClass, ParseError>)
        ensures
            parsed_is(parsed, pitch_class_result(name@)),
    {
        let chars = to_chars(name);
        assert(chars@.subrange(0, chars@.len() as int) =~= name@);
        match pitch_class_in(&chars, 0, chars.len()) {
            Some(pitch_class) => Ok(pitch_class),
            None => Err(ParseError::InvalidPitchClass(name.to_owned())),
        }
    }
}

impl std::str::FromStr for PitchClass {
    type Err = ParseError;

    /// Reads a pitch class from its name, as [`PitchClass::parse`] does.
    fn from_str(name: &str) -> (parsed: Result<PitchClass, ParseError>)
        ensures
            parsed_is(parsed, pitch_class_result(name@)),
    {
        PitchClass::parse(name)
    }
}

/// Reads the event between `from` and `to`.
fn parse_event_in(text: &str, chars: &Vec<char>, from: usize, to: usize) -> (parsed: Result<
    Event,
    ParseError,
>)
    requires
        text@ == chars@,
        from <= to <= chars@.len(),
    ensures
        parsed_is(parsed, event_in(chars@, from as int, to as int)),
{
    let (first, end) = trim(chars, from, to);
    if first >= end {
        return Err(ParseError::InvalidEvent("empty event".to_owned()));
    }
    let last = chars[end - 1];
    let direction = if last == 'd' {
        KeyDirection::Down
    } else if last == 'u' {
        KeyDirection::Up
    } else {
        return Err(ParseError::InvalidDirection(substring(text, end - 1, end)));
    };
    if first == end - 1 {
        return Err(ParseError::InvalidNote("missing note".to_owned()));
    }
    let digit = chars[first];
    if !('0' <= digit && digit <= '9') {
        return Err(ParseError::InvalidOctave(substring(text, first, first + 1)));
    }
    let octave: u8 = ((digit as u32) - 48) as u8;
    if first + 1 == end - 1 {
        return Err(ParseError::InvalidPitchClass("missing".to_owned()));
    }
    match pitch_class_in(chars, first + 1, end - 1) {
        None => Err(ParseError::InvalidPitchClass(substring(text, first + 1, end - 1))),
        Some(pitch_class) => Ok(Event { note: Note { octave, pitch_class }, direction }),
    }
}

/// Reads one event, such as `4c#d`: an octave digit, a pitch class, and
/// `d` for key down or `u` for key up. Blanks around it are dropped.
pub fn parse_event(s: &str) -> (parsed: Result<Event, ParseError>)
    ensures
        parsed_is(parsed, event_in(s@, 0, s@.len() as int)),
{
    let chars = to_chars(s);
    parse_event_in(s, &chars, 0, chars.len())
}

/// Reads the events between `from` and `to`.
#[verifier::rlimit(50)]
fn parse_events_in(text: &str, chars: &Vec<char>, from: usize, to: usize) -> (parsed: Result<
    Vec<Event>,
    ParseError,
>)
    requires
        text@ == chars@,
        from <= to <= chars@.len(),
    ensures
        match (parsed, events_in(chars@, from as int, to as int)) {
            (Ok(a), Ok(e)) => a@ == e,
            (Err(a), Err(e)) => a@ == e,
            _ => false,
        },
{
    let mut events: Vec<Event> = Vec::new();
    let mut at: usize = from;
    loop
        invariant
            text@ == chars@,
            from <= at <= to <= chars@.len(),
            match events_in(chars@, at as int, to as int) {
                Ok(rest) => events_in(chars@, from as int, to as int) == Ok::<
                    Seq<Event>,
                    ParseFailure,
                >(events@ + rest),
                Err(failure) => events_in(chars@, from as int, to as int) == Err::<
                    Seq<Event>,
                    ParseFailure,
                >(failure),
            },
        decreases to - at,
    {
        let comma = find_char(chars, ',', at, to);
        let (first, end) = trim(chars, at, comma);
        let ghost before = events@;
        if first < end {
            match parse_event_in(text, chars, at, comma) {
                Ok(event) => {
                    events.push(event);
                },
                Err(error) => {
                    return Err(error);
                },
            }
        }
        if comma >= to {
            proof {
                assert(events@ + Seq::<Event>::empty() =~= events@);
                if first < end {
                    assert(before + seq![events@.last()] =~= events@);
                } else {
                    assert(before + Seq::<Event>::empty() =~= events@);
                }
            }
            return Ok(events);
        }
        proof {
            match events_in(chars@, comma + 1, to as int) {
                Ok(rest) => {
                    if first < end {
                        assert(before + (seq![events@.last()] + rest) =~= events@ + rest);
                    } else {
                        assert(before + (Seq::<Event>::empty() + rest) =~= events@ + rest);
                    }
                },
                Err(_) => {},
            }
        }
        at = comma + 1;
    }
}

/// Finds where the comment begins between `from` and `to`.
fn find_comment(chars: &Vec<char>, from: usize, to: usize) -> (at: usize)
    requires
        from <= to <= chars@.len(),
    ensures
        at == comment_start(chars@, from as int, to as int),
        from <= at <= to,
{
    let mut at: usize = from;
    while to - at >= 2
        invariant
            from <= at <= to <= chars@.len(),
            comment_start(chars@, from as int, to as int) == comment_start(
                chars@,
                at as int,
                to as int,
            ),
        decreases to - at,
    {
        if chars[at] == ' ' && chars[at + 1] == '#' {
            return at;
        }
        at += 1;
    }
    to
}

/// Reads the entry between `from` and `to`.
fn parse_line_in(text: &str, chars: &Vec<char>, from: usize, to: usize) -> (parsed: Result<
    TimedEvents,
    ParseError,
>)
    requires
        text@ == chars@,
        from <= to <= chars@.len(),
    ensures
        line_is(parsed, line_in(chars@, from as int, to as int)),
{
    let cut = find_comment(chars, from, to);
    let (first, end) = trim(chars, from, cut);
    if first >= end {
        return Ok(TimedEvents { delta: 0, events: Vec::new() });
    }
    let bar = find_char(chars, '|', first, end);
    if bar >= end {
        return Err(ParseError::InvalidLine("expected format: +<delta>| events".to_owned()));
    }
    let (step_first, step_end) = trim(chars, first, bar);
    if step_first >= step_end || chars[step_first] != '+' {
        return Err(ParseError::InvalidTimestep("timestep must start with +".to_owned()));
    }
    let delta = match parse_number(chars, step_first + 1, step_end) {
        None => {
            return Err(ParseError::InvalidTimestep(substring(text, step_first, step_end)));
        },
        Some(delta) => delta,
    };
    match parse_events_in(text, chars, bar + 1, end) {
        Err(error) => Err(error),
        Ok(events) => Ok(TimedEvents { delta, events }),
    }
}

/// Reads one line of a timeline: `+`, the delta, `|` and the events,
/// separated by commas; a comment begins at a space followed by `#`. A
/// line that is blank but for a comment is an entry without events.
pub fn parse_line(line: &str) -> (parsed: Result<TimedEvents, ParseError>)
    ensures
        line_is(parsed, line_in(line@, 0, line@.len() as int)),
{
    let chars = to_chars(line);
    parse_line_in(line, &chars, 0, chars.len())
}

/// Reads a whole timeline, one entry a line, in the order of the text.
/// Lines that are blank or begin with `#` are passed over, and an entry
/// without events is kept only where it is the first entry.
#[verifier::rlimit(50)]
pub fn parse_transcription(text: &str) -> (parsed: Result<Vec<TimedEvents>, ParseError>)
    ensures
        timeline_is(parsed, lines_in(text@, 0, Seq::empty())),
{
    let chars = to_chars(text);
    let length = chars.len();
    let mut result: Vec<TimedEvents> = Vec::new();
    let mut at: usize = 0;
    assert(entries_of(result@) =~= Seq::empty());
    loop
        invariant
            text@ == chars@,
            length == chars@.len(),
            at <= length,
            lines_in(chars@, 0, Seq::empty()) == lines_in(chars@, at as int, entries_of(result@)),
        decreases length - at,
    {
        let stop = find_char(&chars, '\n', at, length);
        let (first, end) = trim(&chars, at, stop);
        let ghost before = entries_of(result@);
        if first < end && chars[first] != '#' {
            match parse_line_in(text, &chars, first, end) {
                Err(error) => {
                    return Err(error);
                },
                Ok(timed) => {
                    if timed.events.len() > 0 || result.len() == 0 {
                        result.push(timed);
                        assert(entries_of(result@) =~= before.push(timed@));
                    }
                },
            }
        }
        if stop >= length {
            return Ok(result);
        }
        at = stop + 1;
    }
}

} // verus!
