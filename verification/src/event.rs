//! Calendar events as lists of named properties, and the identity of an
//! event by its start and end.

use vstd::prelude::*;

verus! {

/// Name of the property that carries the module name of an event.
pub const PROPERTY_NAME_SUMMARY: &'static str = "SUMMARY";

/// Name of the property that carries the start of an event.
pub const PROPERTY_NAME_DTSTART: &'static str = "DTSTART";

/// Name of the property that carries the end of an event.
pub const PROPERTY_NAME_DTEND: &'static str = "DTEND";

/// One content line of a calendar component: a name, optional parameters
/// (each a key with its values) and an optional value.
#[derive(Debug, Clone, PartialEq, Eq)]
pub struct Property {
    pub name: String,
    pub params: Option<Vec<(String, Vec<String>)>>,
    pub value: Option<String>,
}

/// An alarm attached to an event.
#[derive(Debug, Clone, PartialEq, Eq)]
pub struct Alarm {
    pub properties: Vec<Property>,
}

/// A calendar event: its properties in file order, and its alarms.
#[derive(Debug, Clone, PartialEq, Eq)]
pub struct CalendarEvent {
    pub properties: Vec<Property>,
    pub alarms: Vec<Alarm>,
}

/// Mathematical model of a [`Property`].
pub struct PropertyView {
    pub name: Seq<char>,
    pub params: Option<Seq<(Seq<char>, Seq<Seq<char>>)>>,
    pub value: Option<Seq<char>>,
}

/// Mathematical model of an [`Alarm`].
pub struct AlarmView {
    pub properties: Seq<PropertyView>,
}

/// Mathematical model of a [`CalendarEvent`].
pub struct EventView {
    pub properties: Seq<PropertyView>,
    pub alarms: Seq<AlarmView>,
}

impl DeepView for Property {
    type V = PropertyView;

    open spec fn deep_view(&self) -> PropertyView {
        PropertyView {
            name: self.name@,
            params: self.params.deep_view(),
            value: self.value.deep_view(),
        }
    }
}

impl View for Property {
    type V = PropertyView;

    open spec fn view(&self) -> PropertyView {
        self.deep_view()
    }
}

impl DeepView for Alarm {
    type V = AlarmView;

    open spec fn deep_view(&self) -> AlarmView {
        AlarmView { properties: self.properties.deep_view() }
    }
}

impl View for Alarm {
    type V = AlarmView;

    open spec fn view(&self) -> AlarmView {
        self.deep_view()
    }
}

impl DeepView for CalendarEvent {
    type V = EventView;

    open spec fn deep_view(&self) -> EventView {
        EventView { properties: self.properties.deep_view(), alarms: self.alarms.deep_view() }
    }
}

impl View for CalendarEvent {
    type V = EventView;

    open spec fn view(&self) -> EventView {
        self.deep_view()
    }
}

/// `at` is the position of the first property of `properties` called `name`.
pub open spec fn is_first_named(properties: Seq<PropertyView>, name: Seq<char>, at: int) -> bool {
    &&& 0 <= at < properties.len()
    &&& properties[at].name == name
    &&& forall|j: int| 0 <= j < at ==> properties[j].name != name
}

/// The position of the first property called `name`, if there is one.
pub open spec fn first_named(properties: Seq<PropertyView>, name: Seq<char>) -> Option<int> {
    if exists|at: int| is_first_named(properties, name, at) {
        Some(choose|at: int| is_first_named(properties, name, at))
    } else {
        None
    }
}

impl EventView {
    /// The value of the first property called `name`; `None` where no
    /// property has that name or the first one has no value.
    pub open spec fn value_of(self, name: Seq<char>) -> Option<Seq<char>> {
        match first_named(self.properties, name) {
            Some(at) => self.properties[at].value,
            None => None,
        }
    }

    /// The event has a summary, a start and an end, each with a value.
    pub open spec fn is_complete(self) -> bool {
        &&& self.value_of(PROPERTY_NAME_SUMMARY@) is Some
        &&& self.has_slot()
    }

    /// The event has a start and an end, each with a value.
    pub open spec fn has_slot(self) -> bool {
        &&& self.value_of(PROPERTY_NAME_DTSTART@) is Some
        &&& self.value_of(PROPERTY_NAME_DTEND@) is Some
    }

    /// Start and end of the event: what tells two events of a module apart.
    pub open spec fn slot(self) -> (Seq<char>, Seq<char>) {
        (
            self.value_of(PROPERTY_NAME_DTSTART@).unwrap(),
            self.value_of(PROPERTY_NAME_DTEND@).unwrap(),
        )
    }

    /// The event with the value of its first property called `name` set to
    /// `value`; unchanged where no property has that name.
    pub open spec fn with_value(self, name: Seq<char>, value: Seq<char>) -> EventView {
        match first_named(self.properties, name) {
            Some(at) => EventView {
                properties: self.properties.update(
                    at,
                    PropertyView { value: Some(value), ..self.properties[at] },
                ),
                ..self
            },
            None => self,
        }
    }
}

/// Some event of `events` has the start and end of `event`.
pub open spec fn slot_taken(event: EventView, events: Seq<EventView>) -> bool {
    exists|i: int| 0 <= i < events.len() && #[trigger] events[i].slot() == event.slot()
}

/// Where `at` is the first position called `name`, `first_named` finds it.
pub proof fn lemma_first_named_unique(properties: Seq<PropertyView>, name: Seq<char>, at: int)
    requires
        is_first_named(properties, name, at),
    ensures
        first_named(properties, name) == Some(at),
{
    let found = choose|k: int| is_first_named(properties, name, k);
    assert(is_first_named(properties, name, found));
    if found < at {
        assert(properties[found].name != name);
    }
    if at < found {
        assert(properties[at].name != name);
    }
}

/// Setting the value of the first property called `name` leaves the value
/// of every property with another name as it was.
pub proof fn lemma_with_value_keeps_others(
    event: EventView,
    name: Seq<char>,
    value: Seq<char>,
    other: Seq<char>,
)
    requires
        other != name,
    ensures
        event.with_value(name, value).value_of(other) == event.value_of(other),
{
    let after = event.with_value(name, value);
    match first_named(event.properties, name) {
        Some(at) => {
            assert(is_first_named(event.properties, name, at));
            assert forall|k: int|
                is_first_named(event.properties, other, k) == is_first_named(
                    after.properties,
                    other,
                    k,
                ) by {
                assert(forall|j: int|
                    0 <= j < event.properties.len() ==> after.properties[j].name
                        == event.properties[j].name);
            }
            match first_named(event.properties, other) {
                Some(k) => {
                    assert(is_first_named(event.properties, other, k));
                    lemma_first_named_unique(after.properties, other, k);
                },
                None => {
                    assert(first_named(after.properties, other) is None);
                },
            }
        },
        None => {},
    }
}

/// Setting the value of the first property called `name` makes it the value
/// found under `name`, where a property has that name.
pub proof fn lemma_with_value_sets(event: EventView, name: Seq<char>, value: Seq<char>)
    requires
        first_named(event.properties, name) is Some,
    ensures
        event.with_value(name, value).value_of(name) == Some(value),
{
    let after = event.with_value(name, value);
    let at = first_named(event.properties, name).unwrap();
    assert(is_first_named(event.properties, name, at));
    assert(forall|j: int|
        0 <= j < event.properties.len() ==> after.properties[j].name == event.properties[j].name);
    lemma_first_named_unique(after.properties, name, at);
}

/// The three property names that are read differ from each other.
pub proof fn lemma_property_names_differ()
    ensures
        PROPERTY_NAME_SUMMARY@ != PROPERTY_NAME_DTSTART@,
        PROPERTY_NAME_SUMMARY@ != PROPERTY_NAME_DTEND@,
        PROPERTY_NAME_DTSTART@ != PROPERTY_NAME_DTEND@,
{
    reveal_strlit("SUMMARY");
    reveal_strlit("DTSTART");
    reveal_strlit("DTEND");
    assert(PROPERTY_NAME_SUMMARY@[0] == 'S');
    assert(PROPERTY_NAME_DTSTART@[0] == 'D');
    assert(PROPERTY_NAME_DTEND@.len() == 5);
    assert(PROPERTY_NAME_DTSTART@.len() == 7);
}

impl CalendarEvent {
    /// The position of the first property called `name`.
    pub fn position_of(&self, name: &str) -> (found: Option<usize>)
        ensures
            match found {
                Some(at) => first_named(self@.properties, name@) == Some(at as int),
                None => first_named(self@.properties, name@) is None,
            },
    {
        let wanted = name.to_owned();
        let mut i: usize = 0;
        while i < self.properties.len()
            invariant
                i <= self.properties.len(),
                wanted@ == name@,
                forall|j: int| 0 <= j < i ==> self@.properties[j].name != name@,
            decreases self.properties.len() - i,
        {
            assert(self@.properties[i as int] == self.properties@[i as int]@);
            if self.properties[i].name == wanted {
                proof {
                    lemma_first_named_unique(self@.properties, name@, i as int);
                }
                return Some(i);
            }
            i += 1;
        }
        None
    }

    /// The value of the first property called `name`.
    pub fn value_of(&self, name: &str) -> (found: Option<&String>)
        ensures
            found.deep_view() == self@.value_of(name@),
    {
        match self.position_of(name) {
            Some(at) => {
                assert(self@.properties[at as int] == self.properties@[at as int]@);
                self.properties[at].value.as_ref()
            },
            None => None,
        }
    }

    /// Whether the event has a summary, a start and an end, each with a value.
    pub fn is_complete(&self) -> (complete: bool)
        ensures
            complete == self@.is_complete(),
    {
        self.value_of(PROPERTY_NAME_SUMMARY).is_some() && self.value_of(
            PROPERTY_NAME_DTSTART,
        ).is_some() && self.value_of(PROPERTY_NAME_DTEND).is_some()
    }
}

/// Whether `events` already holds an event with the start and end of
/// `new_event`.
pub fn is_event_already_present(new_event: &CalendarEvent, events: &Vec<CalendarEvent>) -> (present:
    bool)
    requires
        new_event@.has_slot(),
        forall|i: int| 0 <= i < events.len() ==> (#[trigger] events@[i])@.has_slot(),
    ensures
        present == slot_taken(new_event@, events.deep_view()),
{
    let new_event_start = new_event.value_of(PROPERTY_NAME_DTSTART).unwrap();
    let new_event_end = new_event.value_of(PROPERTY_NAME_DTEND).unwrap();
    let mut i: usize = 0;
    while i < events.len()
        invariant
            i <= events.len(),
            new_event@.has_slot(),
            new_event_start@ == new_event@.slot().0,
            new_event_end@ == new_event@.slot().1,
            forall|k: int| 0 <= k < events.len() ==> (#[trigger] events@[k])@.has_slot(),
            forall|k: int| 0 <= k < i ==> (#[trigger] events.deep_view()[k]).slot() != new_event@.slot(),
        decreases events.len() - i,
    {
        let event = &events[i];
        assert(event@ == events.deep_view()[i as int]);
        let event_start = event.value_of(PROPERTY_NAME_DTSTART).unwrap();
        let event_end = event.value_of(PROPERTY_NAME_DTEND).unwrap();
        if *new_event_start == *event_start && *new_event_end == *event_end {
            assert(events.deep_view()[i as int].slot() == new_event@.slot());
            return true;
        }
        i += 1;
    }
    false
}

} // verus!
