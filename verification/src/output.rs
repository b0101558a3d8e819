//! What is written for each module: its calendar, where the calendar goes,
//! and its line in the HTML index; and the frame of the index.

use crate::ics::{are_printable_events, calendar_text, events_are_printable, generate_calendar};
use crate::index::{ascending, CalendarEntry, EntryView, ModuleIndex};
use crate::naming::{sanitize_module_name, sanitized};
use vstd::prelude::*;
use vstd::string::StringExecFns;

verus! {

/// What stands before the path of a calendar file in its link.
pub const LINK_PREFIX: &'static str = "/";

/// What stands before the path of a calendar file in its link where the
/// pages are served from the project's directory of a pages host.
pub const PROJECT_LINK_PREFIX: &'static str = "/fh_kiel_ical_splitter/";

/// The version that the calendars are written with.
pub const CALENDAR_VERSION: &'static str = "2.0";

/// The index page up to its list of modules.
pub const INDEX_HEADER: &'static str =
    "<!DOCTYPE html><html lang=\"de\">\n<head>\n<meta charset=\"UTF-8\">\n<meta name=\"description\" content=\"iCalender der Vorlesungspläne der FH-Kiel\">\n<title>iCalender der Vorlesungspläne der FH-Kiel für jedes Module</title>\n\n<style>\n</style>\n\n</head>\n\n<body>\n<h1>Vorlesungspläne der FH-Kiel für jedes Module</h1>\n<h4>Absolut kein Gewähr auf <b>Richtigkeit</b> oder <b>Vollständigkeit</b>. Überprüft vor der Nutzung bitte die offiziellen FH-Kiel-Pläne.</h4>\n<div>\n<ul>\n";

/// The index page from the end of its list of modules to the time at which
/// it was made.
pub const INDEX_FOOTER_START: &'static str =
    "</ul>\n</div>\n<footer>\n<p>Quelle: <a href=\"https://fh-kalender.de/\">https://fh-kalender.de/</a></p><p>Generiert am: ";

/// The index page after the time at which it was made.
pub const INDEX_FOOTER_END: &'static str = "</p>\n</footer>\n</body>\n</html>\n";

/// The product identifier of the calendar of a module.
pub open spec fn product_id_of(module: Seq<char>, entry: EntryView) -> Seq<char> {
    "-//Veranstaltungsplan der FH Kiel//"@ + entry.year + "//"@ + entry.department + "//"@
        + entry.institute + "//"@ + module + "//"@
}

/// The directory that the calendar of a module is written to.
pub open spec fn directory_of(entry: EntryView) -> Seq<char> {
    "files/"@ + entry.year + "/"@ + entry.department + "/"@ + entry.institute
}

/// The path of the calendar file of a module.
pub open spec fn file_name_of(module: Seq<char>, entry: EntryView) -> Seq<char> {
    directory_of(entry) + "/"@ + sanitized(module) + ".ics"@
}

/// The line of the index that links to the calendar file `file_name` of
/// `module`, the link beginning with `prefix`.
pub open spec fn index_line_under(
    prefix: Seq<char>,
    file_name: Seq<char>,
    module: Seq<char>,
) -> Seq<char> {
    "<li> <a href=\""@ + prefix + file_name + "\">"@ + module + "</a> </li>\n"@
}

/// The line of the index that links to the calendar file of a module.
pub open spec fn index_line_of(module: Seq<char>, entry: EntryView) -> Seq<char> {
    index_line_under(LINK_PREFIX@, file_name_of(module, entry), module)
}

/// The end of the index page, made at the time `generated_at`.
pub open spec fn index_footer_of(generated_at: Seq<char>) -> Seq<char> {
    INDEX_FOOTER_START@ + generated_at + INDEX_FOOTER_END@
}

/// The end of the index page, made at the time `generated_at`.
pub fn index_footer(generated_at: &str) -> (footer: String)
    ensures
        footer@ == index_footer_of(generated_at@),
{
    let mut footer = INDEX_FOOTER_START.to_owned();
    footer.append(generated_at);
    footer.append(INDEX_FOOTER_END);
    footer
}

/// All that is written for one module.
#[derive(Debug, Clone, PartialEq, Eq)]
pub struct ModuleOutput {
    /// The name of the module.
    pub module: String,
    /// The directory of the calendar file.
    pub directory: String,
    /// The path of the calendar file.
    pub file_name: String,
    /// The text of the calendar file.
    pub calendar: String,
    /// The line of the index that links to the file.
    pub index_line: String,
    /// The number of events in the calendar.
    pub event_count: usize,
}

/// `output` is what is written for `module` with the entry `entry`: the
/// calendar holds exactly the events of the entry, in their order.
pub open spec fn is_output_of(module: Seq<char>, entry: EntryView, output: ModuleOutput) -> bool {
    &&& output.module@ == module
    &&& output.directory@ == directory_of(entry)
    &&& output.file_name@ == file_name_of(module, entry)
    &&& output.calendar@ == calendar_text(
        CALENDAR_VERSION@,
        product_id_of(module, entry),
        entry.events,
    )
    &&& output.index_line@ == index_line_of(module, entry)
    &&& output.event_count == entry.events.len()
}

/// The product identifier of the calendar of a module.
pub fn product_id(module: &str, entry: &CalendarEntry) -> (id: String)
    ensures
        id@ == product_id_of(module@, entry@),
{
    let mut id = "-//Veranstaltungsplan der FH Kiel//".to_owned();
    id.append(entry.year.as_str());
    id.append("//");
    id.append(entry.department.as_str());
    id.append("//");
    id.append(entry.institute.as_str());
    id.append("//");
    id.append(module);
    id.append("//");
    id
}

/// The directory that the calendar of a module is written to.
pub fn output_directory(entry: &CalendarEntry) -> (directory: String)
    ensures
        directory@ == directory_of(entry@),
{
    let mut directory = "files/".to_owned();
    directory.append(entry.year.as_str());
    directory.append("/");
    directory.append(entry.department.as_str());
    directory.append("/");
    directory.append(entry.institute.as_str());
    directory
}

/// The path of the calendar file of a module.
pub fn output_file_name(module: &str, entry: &CalendarEntry) -> (file_name: String)
    ensures
        file_name@ == file_name_of(module@, entry@),
{
    let mut file_name = output_directory(entry);
    let stem = sanitize_module_name(module);
    file_name.append("/");
    file_name.append(stem.as_str());
    file_name.append(".ics");
    file_name
}

/// The line of the index that links to the calendar file `file_name` of
/// `module`, the link beginning with `prefix`.
pub fn index_line_with_prefix(prefix: &str, file_name: &str, module: &str) -> (line: String)
    ensures
        line@ == index_line_under(prefix@, file_name@, module@),
{
    let mut line = "<li> <a href=\"".to_owned();
    line.append(prefix);
    line.append(file_name);
    line.append("\">");
    line.append(module);
    line.append("</a> </li>\n");
    line
}

/// The line of the index that links to the calendar file of a module.
pub fn index_line(module: &str, entry: &CalendarEntry) -> (line: String)
    ensures
        line@ == index_line_of(module@, entry@),
{
    let file_name = output_file_name(module, entry);
    index_line_with_prefix(LINK_PREFIX, file_name.as_str(), module)
}

/// Whether the calendar of the entry can be printed: see
/// [`are_printable_events`].
pub fn entry_is_printable(entry: &CalendarEntry) -> (printable: bool)
    ensures
        printable == are_printable_events(entry@.events),
{
    events_are_printable(&entry.events)
}

/// All that is written for the module `module` with the entry `entry`.
pub fn render_module(module: String, entry: CalendarEntry) -> (output: ModuleOutput)
    requires
        are_printable_events(entry@.events),
    ensures
        is_output_of(module@, entry@, output),
{
    let directory = output_directory(&entry);
    let file_name = output_file_name(module.as_str(), &entry);
    let index_line = index_line(module.as_str(), &entry);
    let id = product_id(module.as_str(), &entry);
    let event_count = entry.events.len();
    let calendar = generate_calendar(CALENDAR_VERSION, id.as_str(), entry.events);
    ModuleOutput { module, directory, file_name, calendar, index_line, event_count }
}

/// All that is written for the module `module` with the entry `entry`;
/// nothing where the calendar of the entry cannot be printed.
pub fn try_render_module(module: String, entry: CalendarEntry) -> (output: Option<ModuleOutput>)
    ensures
        output is Some <==> are_printable_events(entry@.events),
        output matches Some(written) ==> is_output_of(module@, entry@, written),
{
    if entry_is_printable(&entry) {
        Some(render_module(module, entry))
    } else {
        None
    }
}

/// The names of the modules that the outputs are for, in their order.
pub open spec fn modules_of(outputs: Seq<ModuleOutput>) -> Seq<Seq<char>> {
    Seq::new(outputs.len(), |i: int| outputs[i].module@)
}

/// The calendar of every module of the index can be printed.
pub open spec fn is_printable_index(index: ModuleIndex) -> bool {
    forall|i: int|
        0 <= i < index.entries().len() ==> are_printable_events(
            (#[trigger] index.entries()[i]).events,
        )
}

/// `outputs` is what is written for the modules of `index`: one output for
/// each module, in the order of the index, which is ascending by name.
pub open spec fn are_outputs_of(index: ModuleIndex, outputs: Seq<ModuleOutput>) -> bool {
    &&& outputs.len() == index.modules().len()
    &&& forall|i: int|
        0 <= i < outputs.len() ==> is_output_of(
            index.modules()[i],
            index.entries()[i],
            #[trigger] outputs[i],
        )
    &&& modules_of(outputs) == index.modules()
    &&& ascending(modules_of(outputs))
}

/// Whether the calendar of every module of the index can be printed.
pub fn index_is_printable(index: &ModuleIndex) -> (printable: bool)
    requires
        index.wf(),
    ensures
        printable == is_printable_index(*index),
{
    let mut i: usize = 0;
    while i < index.len()
        invariant
            index.wf(),
            i <= index.modules().len(),
            forall|k: int|
                0 <= k < i ==> are_printable_events((#[trigger] index.entries()[k]).events),
        decreases index.modules().len() - i,
    {
        if !entry_is_printable(index.entry(i)) {
            return false;
        }
        i += 1;
    }
    true
}

/// All that is written for the modules of the index, module by module in
/// the order of the index: ascending by name.
pub fn render_index(index: ModuleIndex) -> (outputs: Vec<ModuleOutput>)
    requires
        index.wf(),
        is_printable_index(index),
    ensures
        are_outputs_of(index, outputs@),
{
    let ghost names_view = index.modules();
    let ghost entries_view = index.entries();
    let (names, entries) = index.into_parts();
    let mut outputs: Vec<ModuleOutput> = Vec::new();
    let ghost given = entries@;
    for entry in it: entries
        invariant
            it.seq() == given,
            given.len() == names.len(),
            names.deep_view() == names_view,
            entries_view.len() == given.len(),
            forall|i: int| 0 <= i < given.len() ==> entries_view[i] == (#[trigger] given[i])@,
            forall|i: int|
                0 <= i < entries_view.len() ==> are_printable_events(
                    (#[trigger] entries_view[i]).events,
                ),
            outputs.len() == it.index(),
            forall|i: int|
                0 <= i < outputs.len() ==> is_output_of(
                    names_view[i],
                    entries_view[i],
                    #[trigger] outputs[i],
                ),
    {
        let at = outputs.len();
        assert(names_view[at as int] == names@[at as int]@);
        assert(entries_view[at as int] == entry@);
        let module = names[at].clone();
        outputs.push(render_module(module, entry));
    }
    assert(modules_of(outputs@) =~= names_view);
    outputs
}

/// All that is written for the modules of the index, module by module in
/// ascending order of their names; nothing where the calendar of some
/// module cannot be printed.
pub fn try_render_index(index: ModuleIndex) -> (outputs: Option<Vec<ModuleOutput>>)
    requires
        index.wf(),
    ensures
        outputs is Some <==> is_printable_index(index),
        outputs matches Some(written) ==> are_outputs_of(index, written@),
{
    if index_is_printable(&index) {
        Some(render_index(index))
    } else {
        None
    }
}

} // verus!
