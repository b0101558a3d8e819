use fh_kiel_ical_splitter::event::{Alarm, CalendarEvent, Property};
use fh_kiel_ical_splitter::ics::{
    event_is_printable, events_are_printable, properties_are_printable, property_is_printable,
    value_is_printable, values_are_printable,
};
use fh_kiel_ical_splitter::index::{CalendarEntry, ModuleIndex};
use fh_kiel_ical_splitter::output::{
    entry_is_printable, index_footer, index_is_printable, index_line, index_line_with_prefix,
    output_directory, output_file_name, product_id, render_index, render_module,
    try_render_module, CALENDAR_VERSION, INDEX_FOOTER_END, INDEX_FOOTER_START, INDEX_HEADER,
    LINK_PREFIX, PROJECT_LINK_PREFIX,
};

fn property(name: &str, value: &str) -> Property {
    Property { name: name.to_string(), params: None, value: Some(value.to_string()) }
}

fn with_param(name: &str, key: &str, values: &[&str], value: &str) -> Property {
    Property {
        name: name.to_string(),
        params: Some(vec![(key.to_string(), values.iter().map(|v| v.to_string()).collect())]),
        value: Some(value.to_string()),
    }
}

fn event(summary: &str, start: &str, end: &str) -> CalendarEvent {
    CalendarEvent {
        properties: vec![
            property("SUMMARY", summary),
            property("DTSTART", start),
            property("DTEND", end),
        ],
        alarms: Vec::new(),
    }
}

fn entry(events: Vec<CalendarEvent>) -> CalendarEntry {
    CalendarEntry {
        events,
        department: "iue".to_string(),
        year: "WiSe_2425".to_string(),
        institute: "semester_1".to_string(),
    }
}

#[test]
fn the_version_is_fixed() {
    assert_eq!(CALENDAR_VERSION, "2.0");
}

#[test]
fn product_id_names_tags_and_module() {
    assert_eq!(
        product_id("Mathe 1", &entry(Vec::new())),
        "-//Veranstaltungsplan der FH Kiel//WiSe_2425//iue//semester_1//Mathe 1//"
    );
}

#[test]
fn files_go_to_year_department_institute() {
    let e = entry(Vec::new());
    assert_eq!(output_directory(&e), "files/WiSe_2425/iue/semester_1");
    assert_eq!(
        output_file_name("C/C++ - Lab 1", &e),
        "files/WiSe_2425/iue/semester_1/C_C++___Lab_1.ics"
    );
    assert_eq!(output_file_name("", &e), "files/WiSe_2425/iue/semester_1/.ics");
}

#[test]
fn index_lines_link_to_the_file() {
    assert_eq!(
        index_line("Mathe 1", &entry(Vec::new())),
        "<li> <a href=\"/files/WiSe_2425/iue/semester_1/Mathe_1.ics\">Mathe 1</a> </li>\n"
    );
}

#[test]
fn the_index_frame_is_a_german_page() {
    assert!(INDEX_HEADER.starts_with("<!DOCTYPE html><html lang=\"de\">\n<head>\n"));
    assert!(INDEX_HEADER.contains("<title>iCalender der Vorlesungspläne der FH-Kiel für jedes Module</title>\n"));
    assert!(INDEX_HEADER.contains(
        "<h4>Absolut kein Gewähr auf <b>Richtigkeit</b> oder <b>Vollständigkeit</b>. Überprüft vor der Nutzung bitte die offiziellen FH-Kiel-Pläne.</h4>\n"
    ));
    assert!(INDEX_HEADER.ends_with("<div>\n<ul>\n"));
    assert_eq!(
        index_footer("28.10.2026 12:00:00"),
        "</ul>\n</div>\n<footer>\n<p>Quelle: <a href=\"https://fh-kalender.de/\">https://fh-kalender.de/</a></p><p>Generiert am: 28.10.2026 12:00:00</p>\n</footer>\n</body>\n</html>\n"
    );
    assert_eq!(index_footer(""), format!("{}{}", INDEX_FOOTER_START, INDEX_FOOTER_END));
}

#[test]
fn printable_values_keep_their_escapes_before_what_is_not_ascii() {
    assert!(value_is_printable("Europe/Berlin"));
    assert!(value_is_printable("a;b:c,d\\e\"f\ng"));
    assert!(value_is_printable("\"quoted, value\""));
    assert!(value_is_printable("Joerg Müller"));
    assert!(value_is_printable("x"));
    assert!(value_is_printable("ä"));
    assert!(value_is_printable("\u{7ff}"));
    assert!(value_is_printable("Raum: 1, Süd"));
    assert!(value_is_printable("a;b\\c\"d\ne,ä"));
    assert!(value_is_printable("\"äb"));
    assert!(!value_is_printable(""));
    assert!(!value_is_printable("Müller, Jörg"));
    assert!(!value_is_printable("\"Müller\""));
    assert!(!value_is_printable("\"aä"));
    assert!(!value_is_printable("Ärger"));
    assert!(!value_is_printable("ää"));
    assert!(!value_is_printable("€"));
    assert!(!value_is_printable("\u{800}"));
    assert!(!value_is_printable("😀"));
    assert!(!value_is_printable("aä\n"));
    assert!(!value_is_printable("aä\""));
}

#[test]
fn printable_is_checked_through_all_levels() {
    let good = with_param("DTSTART", "TZID", &["Europe/Berlin", "x"], "1");
    let bad = with_param("ATTENDEE", "CN", &["ok", ""], "1");
    let none = with_param("X", "K", &[], "1");
    assert!(values_are_printable(&vec!["a".to_string(), "b".to_string()]));
    assert!(values_are_printable(&Vec::new()));
    assert!(!values_are_printable(&vec!["a".to_string(), String::new()]));
    assert!(property_is_printable(&good));
    assert!(property_is_printable(&none));
    assert!(property_is_printable(&property("SUMMARY", "Ärger, \"immer\"")));
    assert!(!property_is_printable(&bad));
    assert!(properties_are_printable(&vec![good.clone(), none.clone()]));
    assert!(!properties_are_printable(&vec![good.clone(), bad.clone()]));
    let mut e = event("Mathe", "1", "2");
    assert!(event_is_printable(&e));
    e.alarms.push(Alarm { properties: vec![good.clone()] });
    assert!(event_is_printable(&e));
    e.alarms.push(Alarm { properties: vec![bad.clone()] });
    assert!(!event_is_printable(&e));
    let mut f = event("Mathe", "1", "2");
    f.properties.push(bad);
    assert!(!event_is_printable(&f));
    assert!(events_are_printable(&vec![event("a", "1", "2"), event("b", "1", "2")]));
    assert!(!events_are_printable(&vec![event("a", "1", "2"), f.clone()]));
    assert!(entry_is_printable(&entry(vec![event("a", "1", "2")])));
    assert!(!entry_is_printable(&entry(vec![f])));
}

#[test]
fn a_module_is_written_as_one_calendar() {
    let events = vec![
        event("Mathe 1", "20250102T080000", "20250102T093000"),
        CalendarEvent {
            properties: vec![
                property("SUMMARY", "Mathe 1"),
                with_param("DTSTART", "TZID", &["Europe/Berlin"], "20250109T080000"),
                with_param("DTEND", "TZID", &["Europe/Berlin"], "20250109T093000"),
            ],
            alarms: vec![Alarm { properties: vec![property("ACTION", "DISPLAY")] }],
        },
    ];
    let output = render_module("Mathe 1".to_string(), entry(events));
    assert_eq!(output.module, "Mathe 1");
    assert_eq!(output.directory, "files/WiSe_2425/iue/semester_1");
    assert_eq!(output.file_name, "files/WiSe_2425/iue/semester_1/Mathe_1.ics");
    assert_eq!(
        output.index_line,
        "<li> <a href=\"/files/WiSe_2425/iue/semester_1/Mathe_1.ics\">Mathe 1</a> </li>\n"
    );
    assert_eq!(output.event_count, 2);
    assert_eq!(
        output.calendar,
        "BEGIN:VCALENDAR\r\n\
         VERSION:2.0\r\n\
         CALSCALE:GREGORIAN\r\n\
         PRODID:-//Veranstaltungsplan der FH Kiel//WiSe_2425//iue//semester_1//Mathe\r\n  1//\r\n\
         BEGIN:VEVENT\r\n\
         SUMMARY:Mathe 1\r\n\
         DTSTART:20250102T080000\r\n\
         DTEND:20250102T093000\r\n\
         END:VEVENT\r\n\
         BEGIN:VEVENT\r\n\
         SUMMARY:Mathe 1\r\n\
         DTSTART;TZID=Europe/Berlin:20250109T080000\r\n\
         DTEND;TZID=Europe/Berlin:20250109T093000\r\n\
         BEGIN:VALARM\r\n\
         ACTION:DISPLAY\r\n\
         END:VALARM\r\n\
         END:VEVENT\r\n\
         END:VCALENDAR\r\n"
    );
}

#[test]
fn an_index_is_written_module_by_module_in_order() {
    let mut index = ModuleIndex::new();
    index.add_event(event("Physik", "1", "2"), "y", "d", "i");
    index.add_event(event("Algebra", "1", "2"), "y", "d", "i");
    index.add_event(event("Mathe", "1", "2"), "y2", "d2", "i2");
    index.add_event(event("Mathe", "3", "4"), "y3", "d3", "i3");
    assert!(index_is_printable(&index));
    let outputs = render_index(index);
    let modules: Vec<&str> = outputs.iter().map(|o| o.module.as_str()).collect();
    assert_eq!(modules, vec!["Algebra", "Mathe", "Physik"]);
    assert_eq!(outputs[1].file_name, "files/y2/d2/i2/Mathe.ics");
    assert_eq!(outputs[1].event_count, 2);
    assert_eq!(
        outputs[1].calendar,
        "BEGIN:VCALENDAR\r\nVERSION:2.0\r\nCALSCALE:GREGORIAN\r\n\
         PRODID:-//Veranstaltungsplan der FH Kiel//y2//d2//i2//Mathe//\r\n\
         BEGIN:VEVENT\r\nSUMMARY:Mathe\r\nDTSTART:1\r\nDTEND:2\r\nEND:VEVENT\r\n\
         BEGIN:VEVENT\r\nSUMMARY:Mathe\r\nDTSTART:3\r\nDTEND:4\r\nEND:VEVENT\r\n\
         END:VCALENDAR\r\n"
    );
    let lines: String = outputs.iter().map(|o| o.index_line.as_str()).collect();
    assert_eq!(
        lines,
        "<li> <a href=\"/files/y/d/i/Algebra.ics\">Algebra</a> </li>\n\
         <li> <a href=\"/files/y2/d2/i2/Mathe.ics\">Mathe</a> </li>\n\
         <li> <a href=\"/files/y/d/i/Physik.ics\">Physik</a> </li>\n"
    );
}

#[test]
fn an_index_with_an_unprintable_value_is_found_out() {
    let mut index = ModuleIndex::new();
    index.add_event(event("Algebra", "1", "2"), "y", "d", "i");
    let mut e = event("Mathe", "1", "2");
    e.properties.push(with_param("ATTENDEE", "CN", &[""], "x"));
    index.add_event(e, "y", "d", "i");
    assert!(!index_is_printable(&index));
    assert!(index_is_printable(&ModuleIndex::new()));
    assert!(render_index(ModuleIndex::new()).is_empty());
}

#[test]
fn every_value_that_counts_as_printable_is_printed() {
    let alphabet = ['a', '"', '\n', ';', ':', ',', '\\', ' '];
    let mut values: Vec<String> = Vec::new();
    for a in alphabet {
        values.push(a.to_string());
        for b in alphabet {
            values.push([a, b].iter().collect());
            for c in alphabet {
                values.push([a, b, c].iter().collect());
                values.push([a, b, c, '"'].iter().collect());
            }
        }
    }
    for plain in ["aä", "Joerg Müller", "x😀", "a\u{7ff}b", "zß", "Raum Ö1 Süd"] {
        values.push(plain.to_string());
    }
    let count = values.len();
    let mut e = event("Mathe", "1", "2");
    for value in &values {
        assert!(value_is_printable(value), "{:?}", value);
        e.properties.push(with_param("X-NOTE", "K", &[value.as_str()], "v"));
    }
    e.properties.push(with_param("X-ALL", "K", &values.iter().map(|v| v.as_str()).collect::<Vec<_>>(), "v"));
    assert!(event_is_printable(&e));
    let output = render_module("Mathe".to_string(), entry(vec![e]));
    assert_eq!(output.event_count, 1);
    assert!(output.calendar.starts_with("BEGIN:VCALENDAR\r\nVERSION:2.0\r\n"));
    assert!(output.calendar.ends_with("END:VEVENT\r\nEND:VCALENDAR\r\n"));
    assert_eq!(output.calendar.matches("\r\nX-NOTE;K=").count(), count);
    assert!(output.calendar.contains("\r\nX-NOTE;K=a\\;a:v\r\n"));
    assert!(output.calendar.contains("\r\nX-NOTE;K=Joerg Müller:v\r\n"));
}

#[test]
fn index_lines_begin_with_the_prefix_of_the_site() {
    assert_eq!(LINK_PREFIX, "/");
    assert_eq!(PROJECT_LINK_PREFIX, "/fh_kiel_ical_splitter/");
    assert_eq!(
        index_line_with_prefix(LINK_PREFIX, "files/y/d/i/Mathe_1.ics", "Mathe 1"),
        "<li> <a href=\"/files/y/d/i/Mathe_1.ics\">Mathe 1</a> </li>\n"
    );
    assert_eq!(
        index_line_with_prefix(PROJECT_LINK_PREFIX, "files/y/d/i/Mathe_1.ics", "Mathe 1"),
        "<li> <a href=\"/fh_kiel_ical_splitter/files/y/d/i/Mathe_1.ics\">Mathe 1</a> </li>\n"
    );
    assert_eq!(index_line_with_prefix("", "", ""), "<li> <a href=\"\"></a> </li>\n");
}

#[test]
fn a_module_that_cannot_be_printed_gives_nothing() {
    let good = entry(vec![event("Mathe", "1", "2")]);
    let written = try_render_module("Mathe".to_string(), good.clone()).unwrap();
    assert_eq!(written, render_module("Mathe".to_string(), good));
    let mut e = event("Mathe", "1", "2");
    e.properties.push(with_param("ATTENDEE", "CN", &[""], "x"));
    assert!(try_render_module("Mathe".to_string(), entry(vec![e])).is_none());
}

#[test]
fn every_short_value_that_counts_as_printable_is_printed() {
    let alphabet = ['a', '"', '\n', ';', '\\', 'ä', '€'];
    let mut all: Vec<String> = vec![String::new()];
    let mut values: Vec<String> = Vec::new();
    for _ in 0..4 {
        let mut longer = Vec::new();
        for value in &all {
            for c in alphabet {
                let mut next = value.clone();
                next.push(c);
                longer.push(next);
            }
        }
        values.extend(longer.iter().cloned());
        all = longer;
    }
    assert_eq!(values.len(), 7 + 49 + 343 + 2401);
    let printable: Vec<&String> = values.iter().filter(|v| value_is_printable(v)).collect();
    assert!(printable.len() > 1000);
    assert!(printable.iter().any(|v| !v.is_ascii()));
    let mut e = event("Mathe", "1", "2");
    for value in &printable {
        e.properties.push(with_param("X-NOTE", "K", &[value.as_str()], "v"));
    }
    assert!(event_is_printable(&e));
    let output = render_module("Mathe".to_string(), entry(vec![e]));
    assert_eq!(output.calendar.matches("\r\nX-NOTE;K=").count(), printable.len());
    assert!(output.calendar.contains("\r\nX-NOTE;K=a\\;ä:v\r\n"));
    assert!(output.calendar.contains("\r\nX-NOTE;K=ä:v\r\n"));
}
