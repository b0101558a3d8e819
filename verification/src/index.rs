//! The module index: for each module name, in lexicographic order, the
//! events gathered for it and the tags of the first file that named it.

use crate::event::{
    first_named, is_event_already_present, lemma_property_names_differ,
    lemma_with_value_keeps_others, lemma_with_value_sets, slot_taken, CalendarEvent, EventView,
    PropertyView, PROPERTY_NAME_DTEND, PROPERTY_NAME_DTSTART, PROPERTY_NAME_SUMMARY,
};
use crate::ics::{calendars_view, parse_calendars, parsed_calendars, ParsedCalendar};
use crate::naming::{clean_module_name, cleaned, is_ignored, is_ignored_event_name};
use crate::text::{
    lemma_lex_less_asymmetric, lemma_lex_less_total, lemma_lex_less_transitive, lex_less,
    str_position, Position,
};
use vstd::prelude::*;

verus! {

/// The events of one module, with the tags it was first seen under.
#[derive(Debug, Clone, PartialEq, Eq)]
pub struct CalendarEntry {
    pub events: Vec<CalendarEvent>,
    pub department: String,
    pub year: String,
    pub institute: String,
}

/// Mathematical model of a [`CalendarEntry`].
pub struct EntryView {
    pub events: Seq<EventView>,
    pub department: Seq<char>,
    pub year: Seq<char>,
    pub institute: Seq<char>,
}

impl DeepView for CalendarEntry {
    type V = EntryView;

    open spec fn deep_view(&self) -> EntryView {
        EntryView {
            events: self.events.deep_view(),
            department: self.department@,
            year: self.year@,
            institute: self.institute@,
        }
    }
}

impl View for CalendarEntry {
    type V = EntryView;

    open spec fn view(&self) -> EntryView {
        self.deep_view()
    }
}

/// What became of an event handed to the index.
#[derive(Debug, Clone, Copy, PartialEq, Eq, Structural)]
pub enum Outcome {
    /// Its module name is on the ignore list: the event was dropped.
    Ignored,
    /// It is the first event of its module: the module was entered.
    Created,
    /// Its module was known and held no event with its start and end.
    Appended,
    /// Its module already held an event with its start and end: dropped.
    Duplicate,
}

impl Outcome {
    /// The event counts towards the total of events read: all but the
    /// ignored ones do, duplicates included.
    pub open spec fn is_counted(self) -> bool {
        self != Outcome::Ignored
    }

    /// Whether the event counts towards the total of events read.
    pub fn counted(&self) -> (counted: bool)
        ensures
            counted == self.is_counted(),
    {
        match self {
            Outcome::Ignored => false,
            _ => true,
        }
    }
}

/// The module that `event` belongs to: its cleaned summary.
pub open spec fn module_of(event: EventView) -> Seq<char> {
    cleaned(event.value_of(PROPERTY_NAME_SUMMARY@).unwrap())
}

/// The event as the index keeps it: with the module name for its summary.
pub open spec fn stored_form(event: EventView) -> EventView {
    event.with_value(PROPERTY_NAME_SUMMARY@, module_of(event))
}

/// What becomes of `event` when it is handed to `index`.
pub open spec fn outcome_of(index: Map<Seq<char>, EntryView>, event: EventView) -> Outcome {
    let name = module_of(event);
    if is_ignored(name) {
        Outcome::Ignored
    } else if !index.dom().contains(name) {
        Outcome::Created
    } else if slot_taken(event, index[name].events) {
        Outcome::Duplicate
    } else {
        Outcome::Appended
    }
}

/// The index after `event`, found under the given tags, was handed to it.
/// The tags of a module that is already known stay as they are.
pub open spec fn after_event(
    index: Map<Seq<char>, EntryView>,
    event: EventView,
    year: Seq<char>,
    department: Seq<char>,
    institute: Seq<char>,
) -> Map<Seq<char>, EntryView> {
    let name = module_of(event);
    match outcome_of(index, event) {
        Outcome::Ignored => index,
        Outcome::Duplicate => index,
        Outcome::Created => index.insert(
            name,
            EntryView { events: seq![stored_form(event)], department, year, institute },
        ),
        Outcome::Appended => index.insert(
            name,
            EntryView { events: index[name].events.push(stored_form(event)), ..index[name] },
        ),
    }
}

/// How many events of one calendar were counted, ignored and skipped.
#[derive(Debug, Clone, Copy, PartialEq, Eq)]
pub struct CalendarReport {
    /// Events handed on to their module: all that were complete and not on
    /// the ignore list, duplicates included.
    pub counted: usize,
    /// Events dropped because their module name is on the ignore list.
    pub ignored: usize,
    /// Events skipped because they lack a summary, a start or an end.
    pub incomplete: usize,
}

/// The index after one event of a calendar: an incomplete event is skipped.
pub open spec fn after_calendar_event(
    index: Map<Seq<char>, EntryView>,
    event: EventView,
    year: Seq<char>,
    department: Seq<char>,
    institute: Seq<char>,
) -> Map<Seq<char>, EntryView> {
    if event.is_complete() {
        after_event(index, event, year, department, institute)
    } else {
        index
    }
}

/// The index after the events of one calendar were handed to it in order.
pub open spec fn after_events(
    index: Map<Seq<char>, EntryView>,
    events: Seq<EventView>,
    year: Seq<char>,
    department: Seq<char>,
    institute: Seq<char>,
) -> Map<Seq<char>, EntryView>
    decreases events.len(),
{
    if events.len() == 0 {
        index
    } else {
        after_calendar_event(
            after_events(index, events.drop_last(), year, department, institute),
            events.last(),
            year,
            department,
            institute,
        )
    }
}

/// The event is complete and its module name is not on the ignore list.
pub open spec fn is_counted_event(event: EventView) -> bool {
    event.is_complete() && !is_ignored(module_of(event))
}

/// The event is complete and its module name is on the ignore list.
pub open spec fn is_ignored_event(event: EventView) -> bool {
    event.is_complete() && is_ignored(module_of(event))
}

/// The number of events among `events` for which `kind` holds.
pub open spec fn count_events(events: Seq<EventView>, kind: spec_fn(EventView) -> bool) -> nat
    decreases events.len(),
{
    if events.len() == 0 {
        0
    } else {
        count_events(events.drop_last(), kind) + if kind(events.last()) {
            1nat
        } else {
            0nat
        }
    }
}

/// The report on a calendar with the events `events`.
pub open spec fn report_of(events: Seq<EventView>, report: CalendarReport) -> bool {
    &&& report.counted == count_events(events, |e: EventView| is_counted_event(e))
    &&& report.ignored == count_events(events, |e: EventView| is_ignored_event(e))
    &&& report.incomplete == count_events(events, |e: EventView| !e.is_complete())
}

/// The index after the calendars of one file were handed to it in order;
/// a calendar that could not be read leaves it as it is.
pub open spec fn after_calendars(
    index: Map<Seq<char>, EntryView>,
    calendars: Seq<Result<Seq<EventView>, Seq<char>>>,
    year: Seq<char>,
    department: Seq<char>,
    institute: Seq<char>,
) -> Map<Seq<char>, EntryView>
    decreases calendars.len(),
{
    if calendars.len() == 0 {
        index
    } else {
        let before = after_calendars(index, calendars.drop_last(), year, department, institute);
        match calendars.last() {
            Ok(events) => after_events(before, events, year, department, institute),
            Err(_) => before,
        }
    }
}

/// What is reported of one calendar: the counts of its events, or the
/// reason why it could not be read.
pub open spec fn outcome_reported(
    calendar: Result<Seq<EventView>, Seq<char>>,
    reported: Result<CalendarReport, String>,
) -> bool {
    match calendar {
        Ok(events) => reported matches Ok(report) && report_of(events, report) && report.counted
            + report.ignored + report.incomplete == events.len(),
        Err(reason) => reported matches Err(text) && text@ == reason,
    }
}

/// What is reported of the calendars of one file, one by one.
pub open spec fn outcomes_reported(
    calendars: Seq<Result<Seq<EventView>, Seq<char>>>,
    reported: Seq<Result<CalendarReport, String>>,
) -> bool {
    &&& reported.len() == calendars.len()
    &&& forall|i: int|
        0 <= i < calendars.len() ==> outcome_reported(#[trigger] calendars[i], reported[i])
}

/// The names are in strictly ascending lexicographic order.
pub open spec fn ascending(names: Seq<Seq<char>>) -> bool {
    forall|i: int, j: int| 0 <= i < j < names.len() ==> lex_less(names[i], names[j])
}

/// No two of the events have the same start and end, and each has both.
pub open spec fn distinct_slots(events: Seq<EventView>) -> bool {
    &&& forall|i: int| 0 <= i < events.len() ==> (#[trigger] events[i]).has_slot()
    &&& forall|i: int, j: int|
        0 <= i < j < events.len() ==> (#[trigger] events[i]).slot() != (#[trigger] events[j]).slot()
}

/// What holds of every entry of the index: it has an event, its events
/// differ in start or end, and each carries the module name as its summary.
pub open spec fn entry_consistent(name: Seq<char>, entry: EntryView) -> bool {
    &&& entry.events.len() > 0
    &&& distinct_slots(entry.events)
    &&& !is_ignored(name)
    &&& forall|i: int|
        0 <= i < entry.events.len() ==> (#[trigger] entry.events[i]).value_of(
            PROPERTY_NAME_SUMMARY@,
        ) == Some(name)
}

/// The map from each of `names` to the entry at its position.
pub open spec fn map_of(names: Seq<Seq<char>>, entries: Seq<EntryView>) -> Map<
    Seq<char>,
    EntryView,
> {
    Map::new(|name: Seq<char>| names.contains(name), |name: Seq<char>| entries[names.index_of(name)])
}

/// The index of modules, ordered by name.
#[derive(Debug, Clone, PartialEq, Eq)]
pub struct ModuleIndex {
    names: Vec<String>,
    entries: Vec<CalendarEntry>,
}

impl View for ModuleIndex {
    type V = Map<Seq<char>, EntryView>;

    open spec fn view(&self) -> Map<Seq<char>, EntryView> {
        map_of(self.modules(), self.entries())
    }
}

/// An ascending sequence has no name twice, and each name sits where
/// `index_of` finds it.
pub proof fn lemma_ascending_positions(names: Seq<Seq<char>>, at: int)
    requires
        ascending(names),
        0 <= at < names.len(),
    ensures
        names.contains(names[at]),
        names.index_of(names[at]) == at,
{
    let found = names.index_of(names[at]);
    assert(names.contains(names[at]));
    if found < at {
        lemma_lex_less_asymmetric(names[found], names[at]);
    }
    if at < found {
        lemma_lex_less_asymmetric(names[at], names[found]);
    }
}

/// The stored form of a complete event has its start and end, and the
/// module name as its summary.
pub proof fn lemma_stored_form(event: EventView)
    requires
        event.is_complete(),
    ensures
        stored_form(event).has_slot(),
        stored_form(event).slot() == event.slot(),
        stored_form(event).value_of(PROPERTY_NAME_SUMMARY@) == Some(module_of(event)),
{
    lemma_property_names_differ();
    lemma_with_value_keeps_others(
        event,
        PROPERTY_NAME_SUMMARY@,
        module_of(event),
        PROPERTY_NAME_DTSTART@,
    );
    lemma_with_value_keeps_others(
        event,
        PROPERTY_NAME_SUMMARY@,
        module_of(event),
        PROPERTY_NAME_DTEND@,
    );
    lemma_with_value_sets(event, PROPERTY_NAME_SUMMARY@, module_of(event));
}

/// Entering a name at its place in an ascending sequence keeps it
/// ascending, and adds the name with its entry to the map.
pub proof fn lemma_enter(
    names: Seq<Seq<char>>,
    entries: Seq<EntryView>,
    at: int,
    name: Seq<char>,
    entry: EntryView,
)
    requires
        names.len() == entries.len(),
        ascending(names),
        0 <= at <= names.len(),
        forall|i: int| 0 <= i < at ==> lex_less(names[i], name),
        forall|i: int| at <= i < names.len() ==> lex_less(name, names[i]),
    ensures
        ascending(names.insert(at, name)),
        map_of(names.insert(at, name), entries.insert(at, entry)) == map_of(names, entries).insert(
            name,
            entry,
        ),
{
    let new_names = names.insert(at, name);
    let new_entries = entries.insert(at, entry);
    assert forall|i: int, j: int| 0 <= i < j < new_names.len() implies lex_less(
        new_names[i],
        new_names[j],
    ) by {
        if j < at {
        } else if j == at {
        } else if i < at {
            assert(new_names[j] == names[j - 1]);
            if j - 1 == at {
            }
            lemma_lex_less_transitive(names[i], name, names[j - 1]);
        } else if i == at {
        } else {
        }
    }
    let before = map_of(names, entries).insert(name, entry);
    let after = map_of(new_names, new_entries);
    assert forall|n: Seq<char>| after.dom().contains(n) == before.dom().contains(n) by {
        if names.contains(n) {
            let k = names.index_of(n);
            if k < at {
                assert(new_names[k] == n);
            } else {
                assert(new_names[k + 1] == n);
            }
            assert(new_names.contains(n));
        }
        if n == name {
            assert(new_names[at] == n);
            assert(new_names.contains(n));
        }
        if new_names.contains(n) {
            let k = new_names.index_of(n);
            if k < at {
                assert(names[k] == n);
                assert(names.contains(n));
            } else if k > at {
                assert(names[k - 1] == n);
                assert(names.contains(n));
            }
        }
    }
    assert forall|n: Seq<char>| after.dom().contains(n) implies after[n] == before[n] by {
        let k = new_names.index_of(n);
        lemma_ascending_positions(new_names, k);
        if k < at {
            lemma_ascending_positions(names, k);
            lemma_lex_less_asymmetric(names[k], name);
        } else if k > at {
            lemma_ascending_positions(names, k - 1);
            lemma_lex_less_asymmetric(name, names[k - 1]);
        }
    }
    assert(after =~= before);
}

/// Replacing the entry at a position replaces the entry of the name there.
pub proof fn lemma_replace(
    names: Seq<Seq<char>>,
    entries: Seq<EntryView>,
    at: int,
    entry: EntryView,
)
    requires
        names.len() == entries.len(),
        ascending(names),
        0 <= at < names.len(),
    ensures
        map_of(names, entries.update(at, entry)) == map_of(names, entries).insert(
            names[at],
            entry,
        ),
{
    let before = map_of(names, entries).insert(names[at], entry);
    let after = map_of(names, entries.update(at, entry));
    lemma_ascending_positions(names, at);
    assert forall|n: Seq<char>| after.dom().contains(n) implies after[n] == before[n] by {
        let k = names.index_of(n);
        lemma_ascending_positions(names, k);
    }
    assert(after =~= before);
}

/// An event whose first summary got the module name for its value, and
/// which is otherwise as it was, is the stored form of what it was.
proof fn lemma_summary_replaced(before: EventView, after: EventView, at: int, module: Seq<char>)
    requires
        first_named(before.properties, PROPERTY_NAME_SUMMARY@) == Some(at),
        0 <= at < before.properties.len(),
        module == module_of(before),
        after.alarms == before.alarms,
        after.properties.len() == before.properties.len(),
        forall|i: int|
            0 <= i < before.properties.len() && i != at ==> after.properties[i]
                == before.properties[i],
        after.properties[at] == (PropertyView { value: Some(module), ..before.properties[at] }),
    ensures
        after == stored_form(before),
{
    assert(after.properties =~= stored_form(before).properties);
}

/// An event that has the module, start and end of one handed to the index
/// before it changes nothing: of two such events one is stored.
pub proof fn law_same_slot_stored_once(
    index: Map<Seq<char>, EntryView>,
    first: EventView,
    second: EventView,
    tags: (Seq<char>, Seq<char>, Seq<char>),
    later_tags: (Seq<char>, Seq<char>, Seq<char>),
)
    requires
        first.is_complete(),
        second.is_complete(),
        module_of(first) == module_of(second),
        first.slot() == second.slot(),
    ensures
        ({
            let once = after_event(index, first, tags.0, tags.1, tags.2);
            &&& after_event(once, second, later_tags.0, later_tags.1, later_tags.2) == once
            &&& !is_ignored(module_of(first)) ==> outcome_of(once, second) == Outcome::Duplicate
        }),
{
    let name = module_of(first);
    let once = after_event(index, first, tags.0, tags.1, tags.2);
    lemma_stored_form(first);
    match outcome_of(index, first) {
        Outcome::Ignored => {},
        Outcome::Created => {
            assert(once[name].events[0].slot() == second.slot());
        },
        Outcome::Duplicate => {
            let i = choose|i: int|
                0 <= i < index[name].events.len() && #[trigger] index[name].events[i].slot()
                    == first.slot();
            assert(once[name].events[i].slot() == second.slot());
        },
        Outcome::Appended => {
            let last = index[name].events.len() as int;
            assert(once[name].events[last].slot() == second.slot());
        },
    }
}

/// Two events of one module that differ in start or end are both stored:
/// after both were handed to the index, the module holds each one's start
/// and end, and where it held neither before, the two were added in order.
pub proof fn law_distinct_slots_both_stored(
    index: Map<Seq<char>, EntryView>,
    first: EventView,
    second: EventView,
    tags: (Seq<char>, Seq<char>, Seq<char>),
    later_tags: (Seq<char>, Seq<char>, Seq<char>),
)
    requires
        first.is_complete(),
        second.is_complete(),
        module_of(first) == module_of(second),
        !is_ignored(module_of(first)),
        first.slot() != second.slot(),
    ensures
        ({
            let name = module_of(first);
            let once = after_event(index, first, tags.0, tags.1, tags.2);
            let both = after_event(once, second, later_tags.0, later_tags.1, later_tags.2);
            &&& both.dom().contains(name)
            &&& slot_taken(first, both[name].events)
            &&& slot_taken(second, both[name].events)
            &&& !index.dom().contains(name) ==> both[name].events == seq![
                stored_form(first),
                stored_form(second),
            ]
            &&& index.dom().contains(name) && !slot_taken(first, index[name].events) && !slot_taken(
                second,
                index[name].events,
            ) ==> both[name].events == index[name].events.push(stored_form(first)).push(
                stored_form(second),
            )
        }),
{
    let name = module_of(first);
    let once = after_event(index, first, tags.0, tags.1, tags.2);
    let both = after_event(once, second, later_tags.0, later_tags.1, later_tags.2);
    lemma_stored_form(first);
    lemma_stored_form(second);
    lemma_slot_stays_taken(index, first, first, tags);
    lemma_slot_stays_taken(once, first, second, later_tags);
    lemma_slot_stays_taken(once, second, second, later_tags);
    match outcome_of(index, first) {
        Outcome::Ignored => {},
        Outcome::Created => {
            assert(once[name].events =~= seq![stored_form(first)]);
            assert(!slot_taken(second, once[name].events));
            assert(both[name].events =~= seq![stored_form(first), stored_form(second)]);
        },
        Outcome::Duplicate => {},
        Outcome::Appended => {
            if !slot_taken(second, index[name].events) {
                assert(!slot_taken(second, once[name].events)) by {
                    assert forall|i: int| 0 <= i < once[name].events.len() implies (
                    #[trigger] once[name].events[i]).slot() != second.slot() by {
                        if i < index[name].events.len() {
                            assert(index[name].events[i].slot() != second.slot());
                        }
                    }
                }
            }
        },
    }
}

/// Once an event was handed to the index, its module holds its start and
/// end; and what a module holds, it keeps.
pub proof fn lemma_slot_stays_taken(
    index: Map<Seq<char>, EntryView>,
    held: EventView,
    event: EventView,
    tags: (Seq<char>, Seq<char>, Seq<char>),
)
    requires
        held.is_complete(),
        event.is_complete(),
        module_of(held) == module_of(event),
        !is_ignored(module_of(event)),
        held == event || (index.dom().contains(module_of(held)) && slot_taken(
            held,
            index[module_of(held)].events,
        )),
    ensures
        ({
            let after = after_event(index, event, tags.0, tags.1, tags.2);
            after.dom().contains(module_of(held)) && slot_taken(held, after[module_of(held)].events)
        }),
{
    let name = module_of(event);
    let after = after_event(index, event, tags.0, tags.1, tags.2);
    lemma_stored_form(event);
    if index.dom().contains(name) && slot_taken(held, index[name].events) {
        let i = choose|i: int|
            0 <= i < index[name].events.len() && #[trigger] index[name].events[i].slot()
                == held.slot();
        assert(after[name].events[i].slot() == held.slot());
    } else {
        match outcome_of(index, event) {
            Outcome::Ignored => {},
            Outcome::Created => {
                assert(after[name].events[0].slot() == held.slot());
            },
            Outcome::Duplicate => {},
            Outcome::Appended => {
                let last = index[name].events.len() as int;
                assert(after[name].events[last].slot() == held.slot());
            },
        }
    }
}

/// The modules of an index stand in strictly ascending order of their
/// names, none of them twice, and they are the keys of its map.
pub proof fn law_modules_ascending(index: ModuleIndex)
    requires
        index.wf(),
    ensures
        ascending(index.modules()),
        forall|i: int, j: int|
            0 <= i < j < index.modules().len() ==> index.modules()[i] != index.modules()[j],
        forall|name: Seq<char>| index@.dom().contains(name) <==> index.modules().contains(name),
        forall|i: int|
            0 <= i < index.modules().len() ==> index@[#[trigger] index.modules()[i]]
                == index.entries()[i],
{
    assert forall|i: int, j: int| 0 <= i < j < index.modules().len() implies index.modules()[i]
        != index.modules()[j] by {
        lemma_lex_less_asymmetric(index.modules()[i], index.modules()[j]);
    }
    assert forall|i: int| 0 <= i < index.modules().len() implies index@[#[trigger] index.modules()[i]]
        == index.entries()[i] by {
        lemma_ascending_positions(index.modules(), i);
    }
}

/// What is on the ignore list stays out of an index: no module has an
/// ignored name, and every event of a module has the name of the module for
/// its summary, so that no event with an ignored summary is kept.
pub proof fn law_ignored_events_stay_out(index: ModuleIndex, name: Seq<char>)
    requires
        index.wf(),
        index@.dom().contains(name),
    ensures
        !is_ignored(name),
        index@[name].events.len() > 0,
        forall|i: int|
            0 <= i < index@[name].events.len() ==> (#[trigger] index@[name].events[i]).value_of(
                PROPERTY_NAME_SUMMARY@,
            ) == Some(name),
{
    let at = index.modules().index_of(name);
    lemma_ascending_positions(index.modules(), at);
    assert(entry_consistent(index.modules()[at], index.entries()[at]));
}

impl ModuleIndex {
    /// The module names, in the order of the index.
    pub closed spec fn modules(&self) -> Seq<Seq<char>> {
        self.names.deep_view()
    }

    /// The entries, each at the position of its module's name.
    pub closed spec fn entries(&self) -> Seq<EntryView> {
        self.entries.deep_view()
    }

    /// The invariant of the index: one entry per name, the names in
    /// strictly ascending order, each entry consistent.
    pub open spec fn wf(&self) -> bool {
        &&& self.modules().len() == self.entries().len()
        &&& ascending(self.modules())
        &&& forall|i: int|
            0 <= i < self.modules().len() ==> entry_consistent(
                #[trigger] self.modules()[i],
                self.entries()[i],
            )
    }

    /// An index without modules.
    pub fn new() -> (index: ModuleIndex)
        ensures
            index.wf(),
            index.modules().len() == 0,
            index@ == Map::<Seq<char>, EntryView>::empty(),
    {
        let index = ModuleIndex { names: Vec::new(), entries: Vec::new() };
        assert(index@ =~= Map::<Seq<char>, EntryView>::empty());
        index
    }

    /// The number of modules.
    pub fn len(&self) -> (n: usize)
        requires
            self.wf(),
        ensures
            n == self.modules().len(),
    {
        self.names.len()
    }

    /// The name of the module at position `at` of the order.
    pub fn module(&self, at: usize) -> (name: &String)
        requires
            self.wf(),
            at < self.modules().len(),
        ensures
            name@ == self.modules()[at as int],
    {
        &self.names[at]
    }

    /// The entry of the module at position `at` of the order.
    pub fn entry(&self, at: usize) -> (entry: &CalendarEntry)
        requires
            self.wf(),
            at < self.modules().len(),
        ensures
            entry@ == self.entries()[at as int],
            entry@ == self@[self.modules()[at as int]],
            entry_consistent(self.modules()[at as int], entry@),
    {
        proof {
            lemma_ascending_positions(self.modules(), at as int);
        }
        &self.entries[at]
    }

    /// The position at which `name` stands in the order, or would have to
    /// be entered.
    fn search(&self, name: &String) -> (found: (usize, bool))
        requires
            self.wf(),
        ensures
            found.0 <= self.modules().len(),
            forall|i: int| 0 <= i < found.0 ==> lex_less(self.modules()[i], name@),
            found.1 ==> found.0 < self.modules().len() && self.modules()[found.0 as int] == name@,
            !found.1 ==> forall|i: int|
                found.0 <= i < self.modules().len() ==> lex_less(name@, self.modules()[i]),
            found.1 == self.modules().contains(name@),
    {
        let mut i: usize = 0;
        while i < self.names.len()
            invariant
                self.wf(),
                i <= self.names.len(),
                forall|k: int| 0 <= k < i ==> lex_less(self.modules()[k], name@),
            decreases self.names.len() - i,
        {
            assert(self.modules()[i as int] == self.names@[i as int]@);
            match str_position(self.names[i].as_str(), name.as_str()) {
                Position::Before => {},
                Position::Same => {
                    assert(self.modules().contains(name@));
                    return (i, true);
                },
                Position::After => {
                    proof {
                        let here = self.modules()[i as int];
                        lemma_lex_less_total(here, name@);
                        assert forall|k: int| i <= k < self.modules().len() implies lex_less(
                            name@,
                            self.modules()[k],
                        ) by {
                            if i < k {
                                lemma_lex_less_transitive(name@, here, self.modules()[k]);
                            }
                        }
                        assert forall|k: int| 0 <= k < self.modules().len() implies self.modules()[k]
                            != name@ by {
                            if k < i {
                                lemma_lex_less_asymmetric(self.modules()[k], name@);
                            } else {
                                lemma_lex_less_asymmetric(name@, self.modules()[k]);
                            }
                        }
                    }
                    return (i, false);
                },
            }
            i += 1;
        }
        proof {
            assert forall|k: int| 0 <= k < self.modules().len() implies self.modules()[k]
                != name@ by {
                lemma_lex_less_asymmetric(self.modules()[k], name@);
            }
        }
        (i, false)
    }

    /// Hands one event, found in a file with the given tags, to the index.
    ///
    /// The event goes to the module named by its cleaned summary, which
    /// replaces the summary. An event whose module name is on the ignore
    /// list is dropped. So is one whose module already holds an event with
    /// the same start and end. The first event of a module enters the
    /// module with the tags of that event; later events leave the tags
    /// alone.
    pub fn add_event(
        &mut self,
        event: CalendarEvent,
        year: &str,
        department: &str,
        institute: &str,
    ) -> (outcome: Outcome)
        requires
            old(self).wf(),
            event@.is_complete(),
        ensures
            final(self).wf(),
            outcome == outcome_of(old(self)@, event@),
            final(self)@ == after_event(old(self)@, event@, year@, department@, institute@),
    {
        let ghost given = event@;
        let mut event = event;
        let at = event.position_of(PROPERTY_NAME_SUMMARY).unwrap();
        assert(given.properties[at as int] == event.properties@[at as int]@);
        let name = clean_module_name(event.properties[at].value.as_ref().unwrap().as_str());
        assert(name@ == module_of(given));
        if is_ignored_event_name(name.as_str()) {
            return Outcome::Ignored;
        }
        let (slot, found) = self.search(&name);
        let ghost old_names = self.modules();
        let ghost old_entries = self.entries();
        let ghost stored = stored_form(given);
        proof {
            lemma_stored_form(given);
        }
        if found {
            proof {
                lemma_ascending_positions(old_names, slot as int);
            }
            assert(old_entries[slot as int] == self.entries@[slot as int]@);
            assert(entry_consistent(old_names[slot as int], old_entries[slot as int]));
            assert forall|i: int| 0 <= i < self.entries[slot as int].events.len() implies (
            #[trigger] self.entries[slot as int].events@[i])@.has_slot() by {
                assert(old_entries[slot as int].events[i] == self.entries[slot as int].events@[i]@);
            }
            if is_event_already_present(&event, &self.entries[slot].events) {
                return Outcome::Duplicate;
            }
            let ghost module = name@;
            event.properties[at].value = Some(name);
            proof {
                lemma_summary_replaced(given, event@, at as int, module);
            }
            self.entries[slot].events.push(event);
            proof {
                let grown = EntryView {
                    events: old_entries[slot as int].events.push(stored),
                    ..old_entries[slot as int]
                };
                assert(self.entries()[slot as int].events =~= grown.events);
                assert(self.entries() =~= old_entries.update(slot as int, grown));
                lemma_replace(old_names, old_entries, slot as int, grown);
                assert(entry_consistent(module, grown)) by {
                    assert forall|i: int, j: int| 0 <= i < j < grown.events.len() implies (
                    #[trigger] grown.events[i]).slot() != (#[trigger] grown.events[j]).slot() by {
                        if j == grown.events.len() - 1 {
                            assert(old_entries[slot as int].events[i].slot() != given.slot());
                        }
                    }
                }
            }
            Outcome::Appended
        } else {
            event.properties[at].value = Some(name.clone());
            proof {
                lemma_summary_replaced(given, event@, at as int, name@);
            }
            let mut events: Vec<CalendarEvent> = Vec::new();
            events.push(event);
            let entry = CalendarEntry {
                events,
                department: department.to_owned(),
                year: year.to_owned(),
                institute: institute.to_owned(),
            };
            let ghost fresh = entry@;
            let ghost module = name@;
            assert(fresh.events =~= seq![stored]);
            self.names.insert(slot, name);
            self.entries.insert(slot, entry);
            proof {
                assert(self.modules() =~= old_names.insert(slot as int, module));
                assert(self.entries() =~= old_entries.insert(slot as int, fresh));
                lemma_enter(old_names, old_entries, slot as int, module, fresh);
                assert(entry_consistent(module, fresh));
                assert forall|i: int| 0 <= i < self.modules().len() implies entry_consistent(
                    #[trigger] self.modules()[i],
                    self.entries()[i],
                ) by {
                    if i < slot {
                        assert(entry_consistent(old_names[i], old_entries[i]));
                    } else if i > slot {
                        assert(entry_consistent(old_names[i - 1], old_entries[i - 1]));
                    }
                }
            }
            Outcome::Created
        }
    }

    /// Hands the events of one calendar to the index, in order, under the
    /// tags of the file that the calendar came from. Events that lack a
    /// summary, a start or an end are skipped.
    pub fn add_calendar(
        &mut self,
        events: Vec<CalendarEvent>,
        year: &str,
        department: &str,
        institute: &str,
    ) -> (report: CalendarReport)
        requires
            old(self).wf(),
        ensures
            final(self).wf(),
            final(self)@ == after_events(
                old(self)@,
                events.deep_view(),
                year@,
                department@,
                institute@,
            ),
            report_of(events.deep_view(), report),
            report.counted + report.ignored + report.incomplete == events.len(),
    {
        let mut report = CalendarReport { counted: 0, ignored: 0, incomplete: 0 };
        let ghost all = events.deep_view();
        let ghost total = events.len();
        let ghost given = events@;
        for event in it: events
            invariant
                self.wf(),
                it.seq() == given,
                given.len() == total,
                all.len() == total,
                forall|i: int| 0 <= i < total ==> all[i] == (#[trigger] given[i])@,
                report.counted + report.ignored + report.incomplete == it.index(),
                report_of(all.take(it.index() as int), report),
                self@ == after_events(
                    old(self)@,
                    all.take(it.index() as int),
                    year@,
                    department@,
                    institute@,
                ),
        {
            let ghost done = all.take(it.index() as int);
            let ghost next = all.take(it.index() + 1);
            assert(next.drop_last() =~= done);
            assert(next.last() == event@);
            if !event.is_complete() {
                report.incomplete += 1;
            } else {
                let outcome = self.add_event(event, year, department, institute);
                if outcome.counted() {
                    report.counted += 1;
                } else {
                    report.ignored += 1;
                }
            }
        }
        assert(all.take(total as int) =~= all);
        report
    }

    /// Hands the calendars of one file to the index, in order, under the
    /// tags of the file. A calendar that could not be read is passed over
    /// and reported with its reason.
    pub fn add_calendars(
        &mut self,
        calendars: Vec<ParsedCalendar>,
        year: &str,
        department: &str,
        institute: &str,
    ) -> (reports: Vec<Result<CalendarReport, String>>)
        requires
            old(self).wf(),
        ensures
            final(self).wf(),
            final(self)@ == after_calendars(
                old(self)@,
                calendars_view(calendars),
                year@,
                department@,
                institute@,
            ),
            outcomes_reported(calendars_view(calendars), reports@),
    {
        let mut reports: Vec<Result<CalendarReport, String>> = Vec::new();
        let ghost all = calendars_view(calendars);
        let ghost given = calendars@;
        for calendar in it: calendars
            invariant
                self.wf(),
                it.seq() == given,
                all.len() == given.len(),
                forall|i: int|
                    0 <= i < given.len() ==> all[i] == match #[trigger] given[i] {
                        Ok(events) => Ok::<Seq<EventView>, Seq<char>>(events.deep_view()),
                        Err(reason) => Err(reason@),
                    },
                reports.len() == it.index(),
                forall|i: int| 0 <= i < it.index() ==> outcome_reported(#[trigger] all[i], reports@[i]),
                self@ == after_calendars(
                    old(self)@,
                    all.take(it.index() as int),
                    year@,
                    department@,
                    institute@,
                ),
        {
            let ghost next = all.take(it.index() + 1);
            assert(next.drop_last() =~= all.take(it.index() as int));
            assert(next.last() == all[it.index() as int]);
            assert(calendar == given[it.index() as int]);
            match calendar {
                Ok(events) => {
                    let report = self.add_calendar(events, year, department, institute);
                    reports.push(Ok(report));
                },
                Err(reason) => {
                    reports.push(Err(reason));
                },
            }
        }
        assert(all.take(all.len() as int) =~= all);
        reports
    }

    /// Reads the calendars of the file `text` and hands them to the index
    /// under the tags of the file.
    pub fn ingest(&mut self, text: &str, year: &str, department: &str, institute: &str) -> (reports:
        Vec<Result<CalendarReport, String>>)
        requires
            old(self).wf(),
        ensures
            final(self).wf(),
            final(self)@ == after_calendars(
                old(self)@,
                parsed_calendars(text@),
                year@,
                department@,
                institute@,
            ),
            outcomes_reported(parsed_calendars(text@), reports@),
    {
        let calendars = parse_calendars(text);
        self.add_calendars(calendars, year, department, institute)
    }

    /// The names of the modules and their entries, each entry at the
    /// position of its module's name.
    pub fn into_parts(self) -> (parts: (Vec<String>, Vec<CalendarEntry>))
        requires
            self.wf(),
        ensures
            parts.0.deep_view() == self.modules(),
            parts.1.deep_view() == self.entries(),
            parts.0.len() == parts.1.len(),
    {
        (self.names, self.entries)
    }

    /// The entry of the module called `name`, if the index has one.
    pub fn get(&self, name: &str) -> (entry: Option<&CalendarEntry>)
        requires
            self.wf(),
        ensures
            match entry {
                Some(e) => self@.dom().contains(name@) && e@ == self@[name@],
                None => !self@.dom().contains(name@),
            },
    {
        let wanted = name.to_owned();
        let (at, found) = self.search(&wanted);
        if found {
            proof {
                lemma_ascending_positions(self.modules(), at as int);
            }
            Some(&self.entries[at])
        } else {
            None
        }
    }
}

} // verus!
