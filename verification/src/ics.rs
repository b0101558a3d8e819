//! Calendar files: reading and writing them is the work of the `ical`
//! crate. Here its results are named, and what it can print is stated.

use crate::event::{Alarm, CalendarEvent, EventView, Property, PropertyView};
use ical::generator::{Emitter, IcalCalendarBuilder};
use ical::parser::ical::component::{IcalAlarm, IcalEvent};
use ical::IcalParser;
use vstd::prelude::*;

verus! {

/// One calendar of a file: its events, or the reason why it could not be
/// read.
pub type ParsedCalendar = Result<Vec<CalendarEvent>, String>;

/// Mathematical model of the calendars of a file.
pub open spec fn calendars_view(calendars: Vec<ParsedCalendar>) -> Seq<
    Result<Seq<EventView>, Seq<char>>,
> {
    Seq::new(
        calendars@.len(),
        |i: int|
            match calendars@[i] {
                Ok(events) => Ok(events.deep_view()),
                Err(reason) => Err(reason@),
            },
    )
}

/// What `IcalParser` reads from `text`: for each calendar it finds, in the
/// order of the text, the events of the calendar, or the parser's error
/// message where the calendar is broken.
pub uninterp spec fn parsed_calendars(text: Seq<char>) -> Seq<Result<Seq<EventView>, Seq<char>>>;

/// The text that `Emitter::generate` prints for a calendar with the given
/// version, the Gregorian scale, the given product identifier and the given
/// events.
pub uninterp spec fn calendar_text(version: Seq<char>, prodid: Seq<char>, events: Seq<EventView>) -> Seq<char>;

/// Reads the calendars of `text` with `IcalParser` (`new`, then its
/// iterator to the end) and hands out the events of each as the library's
/// own values, field for field; an error is handed out as its message. The
/// contract names the result and claims that it is a function of the text.
#[verifier::external_body]
pub(crate) fn parse_calendars(text: &str) -> (calendars: Vec<ParsedCalendar>)
    ensures
        calendars_view(calendars) == parsed_calendars(text@),
{
    IcalParser::new(text.as_bytes()).map(|parsed| match parsed {
        Ok(calendar) => Ok(calendar.events.into_iter().map(|event| CalendarEvent {
            properties: event.properties.into_iter().map(|p| Property { name: p.name, params: p.params, value: p.value }).collect(),
            alarms: event.alarms.into_iter().map(|alarm| Alarm {
                properties: alarm.properties.into_iter().map(|p| Property { name: p.name, params: p.params, value: p.value }).collect(),
            }).collect(),
        }).collect()),
        Err(error) => Err(error.to_string()),
    }).collect()
}

/// A character that `ical` puts a backslash before, or turns into `\n`,
/// when it prints the value of a parameter.
pub open spec fn is_escaped(c: char) -> bool {
    c == '"' || c == '\n' || c == ';' || c == ':' || c == ',' || c == '\\'
}

/// The character is an ASCII character: in a string it takes one byte.
pub open spec fn is_ascii_char(c: char) -> bool {
    (c as u32) < 128
}

/// No escaped character of the value stands behind one that is not ASCII.
pub open spec fn escapes_come_first(value: Seq<char>) -> bool {
    forall|i: int, j: int|
        0 <= i < j < value.len() && !is_ascii_char(#[trigger] value[i]) ==> !is_escaped(
            #[trigger] value[j],
        )
}

/// A parameter value that `ical` prints without fail. It is not empty. It
/// is a single character of at most two bytes; or it begins with an ASCII
/// character, none of its escaped characters stands behind a character
/// that is not ASCII, and where it begins with a quote it ends in an ASCII
/// character.
pub open spec fn is_printable_value(value: Seq<char>) -> bool {
    &&& value.len() > 0
    &&& {
        ||| value.len() == 1 && (value[0] as u32) < 0x800
        ||| {
            &&& is_ascii_char(value[0])
            &&& value[0] == '"' ==> is_ascii_char(value.last())
            &&& escapes_come_first(value)
        }
    }
}

/// Every value of the list can be printed.
pub open spec fn are_printable_values(values: Seq<Seq<char>>) -> bool {
    forall|j: int| 0 <= j < values.len() ==> is_printable_value(#[trigger] values[j])
}

/// Every value of every one of the parameters can be printed.
pub open spec fn are_printable_params(params: Seq<(Seq<char>, Seq<Seq<char>>)>) -> bool {
    forall|i: int| 0 <= i < params.len() ==> are_printable_values((#[trigger] params[i]).1)
}

/// Every value of every parameter of the property can be printed.
pub open spec fn is_printable_property(property: PropertyView) -> bool {
    match property.params {
        Some(params) => are_printable_params(params),
        None => true,
    }
}

/// Every property of the list can be printed.
pub open spec fn are_printable(properties: Seq<PropertyView>) -> bool {
    forall|i: int| 0 <= i < properties.len() ==> is_printable_property(#[trigger] properties[i])
}

/// Every property of the event and of its alarms can be printed.
pub open spec fn is_printable_event(event: EventView) -> bool {
    &&& are_printable(event.properties)
    &&& forall|i: int|
        0 <= i < event.alarms.len() ==> are_printable((#[trigger] event.alarms[i]).properties)
}

/// Every event of the list can be printed.
pub open spec fn are_printable_events(events: Seq<EventView>) -> bool {
    forall|i: int| 0 <= i < events.len() ==> is_printable_event(#[trigger] events[i])
}

/// Builds a calendar with `IcalCalendarBuilder` (`version`, `gregorian`,
/// `prodid`, `build`), gives it the events, field for field, and prints it
/// with `Emitter::generate`. The contract names the result and claims that
/// it is a function of the arguments. `ical` fails on an empty parameter
/// value. It looks at the first byte of a value of three bytes or more,
/// and at the last byte of one that begins with a quote; and it cuts a
/// value at the positions of its escaped characters, which it counts in
/// characters and uses as bytes. The precondition admits the values in
/// which all of these fall on the bounds of characters.
#[verifier::external_body]
pub(crate) fn generate_calendar(version: &str, prodid: &str, events: Vec<CalendarEvent>) -> (text:
    String)
    requires
        are_printable_events(events.deep_view()),
    ensures
        text@ == calendar_text(version@, prodid@, events.deep_view()),
{
    let mut calendar = IcalCalendarBuilder::version(version).gregorian().prodid(prodid).build();
    calendar.events = events.into_iter().map(|event| IcalEvent {
        properties: event.properties.into_iter().map(|p| ical::property::Property { name: p.name, params: p.params, value: p.value }).collect(),
        alarms: event.alarms.into_iter().map(|alarm| IcalAlarm {
            properties: alarm.properties.into_iter().map(|p| ical::property::Property { name: p.name, params: p.params, value: p.value }).collect(),
        }).collect(),
    }).collect();
    calendar.generate()
}

/// Whether `ical` prints the parameter value without fail.
pub fn value_is_printable(value: &str) -> (printable: bool)
    ensures
        printable == is_printable_value(value@),
{
    let mut empty = true;
    let mut single = false;
    let mut first_ascii = false;
    let mut first_short = false;
    let mut first_quote = false;
    let mut last_ascii = false;
    let mut all_ascii = true;
    let mut in_order = true;
    for c in it: value.chars()
        invariant
            it.seq() == value@,
            empty == (it.index() == 0),
            single == (it.index() == 1),
            !empty ==> first_ascii == is_ascii_char(value@[0]),
            !empty ==> first_short == ((value@[0] as u32) < 0x800),
            !empty ==> first_quote == (value@[0] == '"'),
            !empty ==> last_ascii == is_ascii_char(value@[it.index() - 1]),
            all_ascii == forall|i: int| 0 <= i < it.index() ==> is_ascii_char(#[trigger] value@[i]),
            in_order == escapes_come_first(value@.take(it.index() as int)),
    {
        let ghost done = value@.take(it.index() as int);
        let ghost next = value@.take(it.index() + 1);
        let escaped = c == '"' || c == '\n' || c == ';' || c == ':' || c == ',' || c == '\\';
        let ascii = (c as u32) < 128;
        proof {
            assert(forall|i: int| 0 <= i < it.index() ==> next[i] == done[i]);
            assert(next[it.index() as int] == c);
            if escapes_come_first(next) {
                assert forall|i: int, j: int|
                    0 <= i < j < done.len() && !is_ascii_char(#[trigger] done[i]) implies !is_escaped(
                    #[trigger] done[j],
                ) by {
                    assert(next[i] == done[i] && next[j] == done[j]);
                }
            }
            if in_order && (all_ascii || !escaped) {
                assert forall|i: int, j: int|
                    0 <= i < j < next.len() && !is_ascii_char(#[trigger] next[i]) implies !is_escaped(
                    #[trigger] next[j],
                ) by {
                    if j < it.index() {
                        assert(next[i] == done[i] && next[j] == done[j]);
                    } else {
                        assert(next[i] == value@[i]);
                    }
                }
            }
            if !all_ascii && escaped {
                let i = choose|i: int| 0 <= i < it.index() && !is_ascii_char(#[trigger] value@[i]);
                assert(!is_ascii_char(next[i]) && is_escaped(next[it.index() as int]));
            }
        }
        if empty {
            first_ascii = ascii;
            first_short = (c as u32) < 0x800;
            first_quote = c == '"';
        }
        single = empty;
        empty = false;
        last_ascii = ascii;
        if !all_ascii && escaped {
            in_order = false;
        }
        if !ascii {
            all_ascii = false;
        }
    }
    assert(value@.take(value@.len() as int) =~= value@);
    !empty && ((single && first_short) || (first_ascii && (!first_quote || last_ascii) && in_order))
}

/// Whether every value of the list can be printed.
pub fn values_are_printable(values: &Vec<String>) -> (printable: bool)
    ensures
        printable == are_printable_values(values.deep_view()),
{
    let mut j: usize = 0;
    while j < values.len()
        invariant
            j <= values.len(),
            forall|k: int| 0 <= k < j ==> is_printable_value(#[trigger] values.deep_view()[k]),
        decreases values.len() - j,
    {
        assert(values.deep_view()[j as int] == values@[j as int]@);
        if !value_is_printable(values[j].as_str()) {
            return false;
        }
        j += 1;
    }
    true
}

/// Whether every value of every parameter of the property can be printed.
pub fn property_is_printable(property: &Property) -> (printable: bool)
    ensures
        printable == is_printable_property(property@),
{
    match &property.params {
        None => true,
        Some(params) => {
            let ghost view = params.deep_view();
            assert(property@.params == Some(view));
            let mut i: usize = 0;
            while i < params.len()
                invariant
                    i <= params.len(),
                    view == params.deep_view(),
                    property@.params == Some(view),
                    forall|k: int| 0 <= k < i ==> are_printable_values((#[trigger] view[k]).1),
                decreases params.len() - i,
            {
                assert(view[i as int].1 == params@[i as int].1.deep_view());
                if !values_are_printable(&params[i].1) {
                    return false;
                }
                i += 1;
            }
            true
        },
    }
}

/// Whether every property of the list can be printed.
pub fn properties_are_printable(properties: &Vec<Property>) -> (printable: bool)
    ensures
        printable == are_printable(properties.deep_view()),
{
    let mut i: usize = 0;
    while i < properties.len()
        invariant
            i <= properties.len(),
            forall|k: int|
                0 <= k < i ==> is_printable_property(#[trigger] properties.deep_view()[k]),
        decreases properties.len() - i,
    {
        assert(properties.deep_view()[i as int] == properties@[i as int]@);
        if !property_is_printable(&properties[i]) {
            return false;
        }
        i += 1;
    }
    true
}

/// Whether every property of the event and of its alarms can be printed.
pub fn event_is_printable(event: &CalendarEvent) -> (printable: bool)
    ensures
        printable == is_printable_event(event@),
{
    if !properties_are_printable(&event.properties) {
        return false;
    }
    let mut i: usize = 0;
    while i < event.alarms.len()
        invariant
            i <= event.alarms.len(),
            are_printable(event@.properties),
            forall|k: int| 0 <= k < i ==> are_printable((#[trigger] event@.alarms[k]).properties),
        decreases event.alarms.len() - i,
    {
        assert(event@.alarms[i as int] == event.alarms@[i as int]@);
        if !properties_are_printable(&event.alarms[i].properties) {
            return false;
        }
        i += 1;
    }
    true
}

/// Whether every event of the list can be printed.
pub fn events_are_printable(events: &Vec<CalendarEvent>) -> (printable: bool)
    ensures
        printable == are_printable_events(events.deep_view()),
{
    let mut i: usize = 0;
    while i < events.len()
        invariant
            i <= events.len(),
            forall|k: int| 0 <= k < i ==> is_printable_event(#[trigger] events.deep_view()[k]),
        decreases events.len() - i,
    {
        assert(events.deep_view()[i as int] == events@[i as int]@);
        if !event_is_printable(&events[i]) {
            return false;
        }
        i += 1;
    }
    true
}

} // verus!
