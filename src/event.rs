//! Events and the line parser that reads them from calendar text.
use vstd::prelude::*;

use crate::datetime::{
    DateTime, DateTimeView, date_time_of, default_date_time, is_local, is_utc, is_zoned,
    lemma_malformed_is_default, parse_date_time,
};
use crate::organizer::{Organizer, OrganizerView, organizer_of, default_organizer, parse_organizer};
use crate::text::{starts_with, drop_chars, has_prefix, skip_chars, take};

verus! {

/// One calendar entry.
#[derive(Debug)]
pub struct Event {
    pub start: DateTime,
    pub end: DateTime,
    pub title: String,
    pub description: String,
    pub organizer: Organizer,
    pub location: String,
}

/// Model of an `Event`.
pub struct EventView {
    pub start: DateTimeView,
    pub end: DateTimeView,
    pub title: Seq<char>,
    pub description: Seq<char>,
    pub organizer: OrganizerView,
    pub location: Seq<char>,
}

impl View for Event {
    type V = EventView;

    open spec fn view(&self) -> EventView {
        EventView {
            start: self.start@,
            end: self.end@,
            title: self.title@,
            description: self.description@,
            organizer: self.organizer@,
            location: self.location@,
        }
    }
}

/// An event with no property read yet.
pub open spec fn empty_event() -> EventView {
    EventView {
        start: default_date_time(),
        end: default_date_time(),
        title: Seq::empty(),
        description: Seq::empty(),
        organizer: default_organizer(),
        location: Seq::empty(),
    }
}

impl Default for Event {
    fn default() -> (r: Event)
        ensures
            r@ == empty_event(),
    {
        Event {
            start: DateTime::default(),
            end: DateTime::default(),
            title: String::new(),
            description: String::new(),
            organizer: Organizer::default(),
            location: String::new(),
        }
    }
}

/// The text property that a continuation line extends, if any.
#[derive(Clone, Copy, Debug, PartialEq, Eq, Structural)]
pub enum Token {
    Description,
    Location,
    Summary,
    Other,
}

/// The parser's state after some lines: the sealed events, the event under
/// construction, and the property that a continuation line would extend.
pub struct ParseModel {
    pub events: Seq<EventView>,
    pub current: EventView,
    pub token: Token,
}

pub open spec fn initial_model() -> ParseModel {
    ParseModel { events: Seq::empty(), current: empty_event(), token: Token::Other }
}

/// A folded line: it begins with a space.
pub open spec fn is_continuation(line: Seq<char>) -> bool {
    line.len() > 0 && line[0] == ' '
}

/// The line that ends an event.
pub open spec fn is_terminator(line: Seq<char>) -> bool {
    line == "END:VEVENT"@
}

/// The value of a start or end line: the text after the key, less its first
/// character (the separator).
pub open spec fn time_value(line: Seq<char>, key: Seq<char>) -> Seq<char> {
    drop_chars(line.skip(key.len() as int), 1)
}

/// What a line is, by the first rule that applies to it.
#[derive(Clone, Copy, Debug, PartialEq, Eq, Structural)]
pub enum LineKind {
    Continuation,
    Terminator,
    Start,
    End,
    Description,
    Location,
    Summary,
    Organizer,
    Other,
}

pub open spec fn kind_of(line: Seq<char>) -> LineKind {
    if is_continuation(line) {
        LineKind::Continuation
    } else if is_terminator(line) {
        LineKind::Terminator
    } else if starts_with(line, "DTSTART"@) {
        LineKind::Start
    } else if starts_with(line, "DTEND"@) {
        LineKind::End
    } else if starts_with(line, "DESCRIPTION:"@) {
        LineKind::Description
    } else if starts_with(line, "LOCATION:"@) {
        LineKind::Location
    } else if starts_with(line, "SUMMARY:"@) {
        LineKind::Summary
    } else if starts_with(line, "ORGANIZER;"@) {
        LineKind::Organizer
    } else {
        LineKind::Other
    }
}

/// The state after reading one more line.
pub open spec fn step(m: ParseModel, line: Seq<char>) -> ParseModel {
    let e = m.current;
    match kind_of(line) {
        LineKind::Continuation => {
            let rest = line.drop_first();
            match m.token {
                Token::Description => ParseModel {
                    current: EventView { description: e.description + rest, ..e },
                    ..m
                },
                Token::Location => ParseModel {
                    current: EventView { location: e.location + rest, ..e },
                    ..m
                },
                Token::Summary => ParseModel {
                    current: EventView { title: e.title + rest, ..e },
                    ..m
                },
                Token::Other => m,
            }
        },
        LineKind::Terminator => ParseModel {
            events: m.events.push(e),
            current: empty_event(),
            token: m.token,
        },
        LineKind::Start => ParseModel {
            current: EventView { start: date_time_of(time_value(line, "DTSTART"@)), ..e },
            ..m
        },
        LineKind::End => ParseModel {
            current: EventView { end: date_time_of(time_value(line, "DTEND"@)), ..e },
            ..m
        },
        LineKind::Description => ParseModel {
            events: m.events,
            current: EventView { description: line.skip(12), ..e },
            token: Token::Description,
        },
        LineKind::Location => ParseModel {
            events: m.events,
            current: EventView { location: line.skip(9), ..e },
            token: Token::Location,
        },
        LineKind::Summary => ParseModel {
            events: m.events,
            current: EventView { title: line.skip(8), ..e },
            token: Token::Summary,
        },
        LineKind::Organizer => ParseModel {
            current: EventView { organizer: organizer_of(line.skip(10)), ..e },
            ..m
        },
        LineKind::Other => ParseModel { token: Token::Other, ..m },
    }
}

/// The state after reading `lines` in order.
pub open spec fn run(lines: Seq<Seq<char>>) -> ParseModel
    decreases lines.len(),
{
    if lines.len() == 0 {
        initial_model()
    } else {
        step(run(lines.drop_last()), lines.last())
    }
}

/// The events that `lines` hold: those sealed by a terminator, in order; an
/// event left open at the end is dropped.
pub open spec fn events_of(lines: Seq<Seq<char>>) -> Seq<EventView> {
    run(lines).events
}

/// The lines as characters.
pub open spec fn lines_view(lines: Seq<String>) -> Seq<Seq<char>> {
    lines.map_values(|l: String| l@)
}

/// The models of the events, in order.
pub open spec fn events_view(events: Seq<Event>) -> Seq<EventView> {
    events.map_values(|e: Event| e@)
}

/// Tells which rule applies to `line`.
pub fn classify(line: &str) -> (k: LineKind)
    ensures
        k == kind_of(line@),
{
    proof {
        reveal_strlit(" ");
        reveal_strlit("END:VEVENT");
        if line@.len() > 0 {
            assert(line@.subrange(0, 1)[0] == line@[0]);
            assert(" "@[0] == ' ');
            if line@[0] == ' ' {
                assert(line@.subrange(0, 1) =~= " "@);
            }
        }
        if line@.len() == 10 {
            assert(line@.subrange(0, 10) =~= line@);
        }
    }
    if has_prefix(" ", line) {
        LineKind::Continuation
    } else if line.unicode_len() == 10 && has_prefix("END:VEVENT", line) {
        LineKind::Terminator
    } else if has_prefix("DTSTART", line) {
        LineKind::Start
    } else if has_prefix("DTEND", line) {
        LineKind::End
    } else if has_prefix("DESCRIPTION:", line) {
        LineKind::Description
    } else if has_prefix("LOCATION:", line) {
        LineKind::Location
    } else if has_prefix("SUMMARY:", line) {
        LineKind::Summary
    } else if has_prefix("ORGANIZER;", line) {
        LineKind::Organizer
    } else {
        LineKind::Other
    }
}

/// The text of `line` after `key`; `line` begins with `key`.
fn value_after(key: &str, line: &str) -> (r: String)
    requires
        starts_with(line@, key@),
    ensures
        r@ == line@.skip(key@.len() as int),
{
    match take(key, line) {
        Some(v) => v,
        None => String::new(),
    }
}

/// Applies one line to the event under construction, the sealed events and the
/// continuation marker.
fn apply_line(events: &mut Vec<Event>, event: &mut Event, token: &mut Token, line: &str)
    ensures
        step(
            (ParseModel { events: events_view(old(events)@), current: old(event)@, token: *old(token) }),
            line@,
        ) == (ParseModel { events: events_view(final(events)@), current: final(event)@, token: *final(token) }),
{
    proof {
        reveal_strlit("DTSTART");
        reveal_strlit("DTEND");
        reveal_strlit("DESCRIPTION:");
        reveal_strlit("LOCATION:");
        reveal_strlit("SUMMARY:");
        reveal_strlit("ORGANIZER;");
    }
    match classify(line) {
        LineKind::Continuation => {
            let rest = skip_chars(line, 1);
            match *token {
                Token::Description => event.description.append(rest.as_str()),
                Token::Location => event.location.append(rest.as_str()),
                Token::Summary => event.title.append(rest.as_str()),
                Token::Other => {},
            }
        },
        LineKind::Terminator => {
            let mut done = Event::default();
            core::mem::swap(&mut done, event);
            events.push(done);
            proof {
                assert(events_view(events@) =~= events_view(old(events)@).push(old(event)@));
            }
        },
        LineKind::Start => {
            let time = value_after("DTSTART", line);
            event.start = parse_date_time(skip_chars(time.as_str(), 1).as_str());
        },
        LineKind::End => {
            let time = value_after("DTEND", line);
            event.end = parse_date_time(skip_chars(time.as_str(), 1).as_str());
        },
        LineKind::Description => {
            event.description = value_after("DESCRIPTION:", line);
            *token = Token::Description;
        },
        LineKind::Location => {
            event.location = value_after("LOCATION:", line);
            *token = Token::Location;
        },
        LineKind::Summary => {
            event.title = value_after("SUMMARY:", line);
            *token = Token::Summary;
        },
        LineKind::Organizer => {
            let org = value_after("ORGANIZER;", line);
            event.organizer = parse_organizer(org.as_str());
        },
        LineKind::Other => {
            *token = Token::Other;
        },
    }
}

/// Reads the events of a calendar text given as lines without their line
/// breaks. No line is ever an error: lines of no known kind only stop a run
/// of continuation lines, and values that cannot be decoded give defaults.
pub fn convert(lines: &Vec<String>) -> (r: Vec<Event>)
    ensures
        events_view(r@) == events_of(lines_view(lines@)),
{
    let ghost all = lines_view(lines@);
    let mut events: Vec<Event> = Vec::new();
    let mut event = Event::default();
    let mut token = Token::Other;
    let mut i: usize = 0;
    proof {
        assert(all.take(0) =~= Seq::<Seq<char>>::empty());
        assert(events_view(events@) =~= Seq::<EventView>::empty());
    }
    while i < lines.len()
        invariant
            all == lines_view(lines@),
            i <= lines.len(),
            run(all.take(i as int)) == (ParseModel {
                events: events_view(events@),
                current: event@,
                token,
            }),
        decreases lines.len() - i,
    {
        proof {
            assert(all.take(i + 1).drop_last() =~= all.take(i as int));
        }
        apply_line(&mut events, &mut event, &mut token, lines[i].as_str());
        i = i + 1;
    }
    proof {
        assert(all.take(i as int) =~= all);
    }
    events
}


/// How many lines of `lines` end an event.
pub open spec fn terminator_count(lines: Seq<Seq<char>>) -> nat
    decreases lines.len(),
{
    if lines.len() == 0 {
        0
    } else {
        terminator_count(lines.drop_last()) + if is_terminator(lines.last()) {
            1nat
        } else {
            0nat
        }
    }
}

proof fn lemma_terminator_kind(line: Seq<char>)
    ensures
        is_terminator(line) <==> kind_of(line) == LineKind::Terminator,
{
    reveal_strlit("END:VEVENT");
    if is_terminator(line) {
        assert(line[0] == 'E');
    }
}

/// Exactly one event comes out per terminator line, whatever else the lines hold.
pub proof fn lemma_event_count(lines: Seq<Seq<char>>)
    ensures
        events_of(lines).len() == terminator_count(lines),
    decreases lines.len(),
{
    if lines.len() > 0 {
        lemma_event_count(lines.drop_last());
        lemma_terminator_kind(lines.last());
    }
}

/// Lines without a terminator give no event.
pub proof fn lemma_no_terminator_no_events(lines: Seq<Seq<char>>)
    requires
        forall|i: int| 0 <= i < lines.len() ==> !is_terminator(#[trigger] lines[i]),
    ensures
        events_of(lines) == Seq::<EventView>::empty(),
    decreases lines.len(),
{
    if lines.len() > 0 {
        lemma_no_terminator_no_events(lines.drop_last());
        lemma_terminator_kind(lines.last());
    }
    assert(events_of(lines) =~= Seq::<EventView>::empty());
}

/// A terminator seals the event under construction after the events sealed before it.
pub proof fn lemma_terminator_seals(lines: Seq<Seq<char>>)
    ensures
        events_of(lines.push("END:VEVENT"@)) == events_of(lines).push(run(lines).current),
        run(lines.push("END:VEVENT"@)).current == empty_event(),
{
    lemma_terminator_kind("END:VEVENT"@);
    assert(lines.push("END:VEVENT"@).drop_last() =~= lines);
}

/// Reading more lines only adds events after those already read: events come
/// out in the order of their terminators.
pub proof fn lemma_events_extend(a: Seq<Seq<char>>, b: Seq<Seq<char>>)
    ensures
        events_of(a).len() <= events_of(a + b).len(),
        events_of(a + b).subrange(0, events_of(a).len() as int) == events_of(a),
    decreases b.len(),
{
    if b.len() == 0 {
        assert(a + b =~= a);
        assert(events_of(a).subrange(0, events_of(a).len() as int) =~= events_of(a));
    } else {
        lemma_events_extend(a, b.drop_last());
        assert((a + b).drop_last() =~= a + b.drop_last());
        let prev = events_of(a + b.drop_last());
        let next = events_of(a + b);
        assert(next.subrange(0, events_of(a).len() as int) =~= prev.subrange(
            0,
            events_of(a).len() as int,
        ));
    }
}

/// A continuation line right after a description, location or summary line
/// appends its text, less its leading space, to that property's value.
pub proof fn lemma_continuation_appends(lines: Seq<Seq<char>>, p: Seq<char>, c: Seq<char>)
    requires
        is_continuation(c),
    ensures
        kind_of(p) == LineKind::Description ==> run(lines.push(p).push(c)).current.description
            == p.skip(12) + c.drop_first(),
        kind_of(p) == LineKind::Location ==> run(lines.push(p).push(c)).current.location
            == p.skip(9) + c.drop_first(),
        kind_of(p) == LineKind::Summary ==> run(lines.push(p).push(c)).current.title == p.skip(8)
            + c.drop_first(),
{
    assert(lines.push(p).push(c).drop_last() =~= lines.push(p));
    assert(lines.push(p).drop_last() =~= lines);
    let m = run(lines.push(p));
    assert(m == step(run(lines), p));
    assert(run(lines.push(p).push(c)) == step(m, c));
}

/// A continuation line as the first line, or right after a line of no known
/// kind, changes nothing.
pub proof fn lemma_continuation_ignored(lines: Seq<Seq<char>>, c: Seq<char>)
    requires
        is_continuation(c),
        lines.len() == 0 || kind_of(lines.last()) == LineKind::Other,
    ensures
        run(lines.push(c)) == run(lines),
{
    assert(lines.push(c).drop_last() =~= lines);
    if lines.len() > 0 {
        assert(run(lines).token == Token::Other);
    }
}


/// A start line whose value has none of the three timestamp shapes sets the
/// start to the default timestamp and leaves everything else as it was.
pub proof fn lemma_malformed_start(lines: Seq<Seq<char>>, line: Seq<char>)
    requires
        kind_of(line) == LineKind::Start,
        !is_local(time_value(line, "DTSTART"@)),
        !is_utc(time_value(line, "DTSTART"@)),
        !is_zoned(time_value(line, "DTSTART"@)),
    ensures
        run(lines.push(line)) == (ParseModel {
            current: EventView { start: default_date_time(), ..run(lines).current },
            ..run(lines)
        }),
{
    lemma_malformed_is_default(time_value(line, "DTSTART"@));
    assert(lines.push(line).drop_last() =~= lines);
}

} // verus!
