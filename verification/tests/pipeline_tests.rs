use fh_kiel_ical_splitter::crawl::{
    add_to_counts, Crawl, CrawlAction, CrawlEvent, PageKind, Stage,
};
use fh_kiel_ical_splitter::error::Error;
use fh_kiel_ical_splitter::event::{CalendarEvent, Property};
use fh_kiel_ical_splitter::fetch::{Fetch, FetchAction, FetchEvent};
use fh_kiel_ical_splitter::index::{CalendarReport, ModuleIndex};
use fh_kiel_ical_splitter::output::{index_is_printable, render_index, try_render_index};

const FRONT_PAGE: &str = "<html><body>\n\
    <a href=\"/informatik-elektrotechnik\" role=\"button\" class=\"contrast\"> Informatik </a>\n\
    <a href=\"/medien\" role=\"button\" class=\"contrast\"> Medien </a>\n\
    </body></html>";

const INSTITUTE_PAGE_ONE: &str = "<ul>\n\
    <li><a href=\"/files/iue/WiSe_2425/semester_1/1_Sem_Gruppe_1.ics\">Gruppe 1</a></li>\n\
    <li><a href=\"/files/iue/WiSe_2425/dozenten/Meier.ics\">Meier</a></li>\n\
    </ul>";

const INSTITUTE_PAGE_TWO: &str = "<ul>\n\
    <li><a href=\"/files/medien/WiSe_2425/semester_3/3_Sem_Gruppe_2.ics\">Gruppe 2</a></li>\n\
    </ul>";

const CALENDAR_FILE: &str = "BEGIN:VCALENDAR\r\n\
    VERSION:2.0\r\n\
    PRODID:-//fh-kalender//\r\n\
    BEGIN:VEVENT\r\n\
    UID:1\r\n\
    SUMMARY:Feiertag\r\n\
    DTSTART:20250101T000000\r\n\
    DTEND:20250101T235900\r\n\
    END:VEVENT\r\n\
    BEGIN:VEVENT\r\n\
    UID:2\r\n\
    SUMMARY:Mathematik - Grundlagen  1\r\n\
    DTSTART;TZID=Europe/Berlin:20250102T080000\r\n\
    DTEND;TZID=Europe/Berlin:20250102T093000\r\n\
    LOCATION:C12-1.01\r\n\
    END:VEVENT\r\n\
    END:VCALENDAR\r\n";

fn cached(url: &str, content: &str) -> String {
    let (mut fetch, first) = Fetch::start(url);
    assert!(matches!(first, FetchAction::ReadCache { .. }));
    match fetch.step(FetchEvent::CacheHit(content.to_string())) {
        Some(FetchAction::Finish(Ok(body))) => body,
        other => panic!("{:?}", other),
    }
}

fn plain(name: &str, value: &str) -> Property {
    Property { name: name.to_string(), params: None, value: Some(value.to_string()) }
}

fn zoned(name: &str, value: &str) -> Property {
    Property {
        name: name.to_string(),
        params: Some(vec![("TZID".to_string(), vec!["Europe/Berlin".to_string()])]),
        value: Some(value.to_string()),
    }
}

#[test]
fn a_file_is_read_calendar_by_calendar() {
    let mut index = ModuleIndex::new();
    let reports = index.ingest(CALENDAR_FILE, "WiSe_2425", "iue", "semester_1");
    assert_eq!(reports, vec![Ok(CalendarReport { counted: 1, ignored: 1, incomplete: 0 })]);
    assert_eq!(index.len(), 1);
    assert_eq!(index.module(0), "Mathematik Grundlagen 1");
    assert_eq!(
        index.entry(0).events,
        vec![CalendarEvent {
            properties: vec![
                plain("UID", "2"),
                plain("SUMMARY", "Mathematik Grundlagen 1"),
                zoned("DTSTART", "20250102T080000"),
                zoned("DTEND", "20250102T093000"),
                plain("LOCATION", "C12-1.01"),
            ],
            alarms: Vec::new(),
        }]
    );
}

#[test]
fn a_file_without_calendars_changes_nothing() {
    let mut index = ModuleIndex::new();
    assert!(index.ingest("", "y", "d", "i").is_empty());
    assert_eq!(index.len(), 0);
}

#[test]
fn a_broken_calendar_is_reported_and_the_next_is_read() {
    let text = format!("BEGIN:VCALENDAR\r\nBEGIN:VNONSENSE\r\nEND:VCALENDAR\r\n{}", CALENDAR_FILE);
    let mut index = ModuleIndex::new();
    let reports = index.ingest(&text, "y", "d", "i");
    assert!(reports.len() >= 2);
    assert_eq!(reports[0], Err("invalid component".to_string()));
    assert_eq!(
        reports[reports.len() - 1],
        Ok(CalendarReport { counted: 1, ignored: 1, incomplete: 0 })
    );
    assert!(reports[1..reports.len() - 1].iter().all(|r| r.is_err()));
    assert_eq!(index.len(), 1);
}

#[test]
fn events_without_summary_start_or_end_are_skipped() {
    let text = "BEGIN:VCALENDAR\r\n\
        BEGIN:VEVENT\r\nDTSTART:1\r\nDTEND:2\r\nEND:VEVENT\r\n\
        BEGIN:VEVENT\r\nSUMMARY:A\r\nDTEND:2\r\nEND:VEVENT\r\n\
        BEGIN:VEVENT\r\nSUMMARY:A\r\nDTSTART:1\r\nEND:VEVENT\r\n\
        BEGIN:VEVENT\r\nSUMMARY:\r\nDTSTART:1\r\nDTEND:2\r\nEND:VEVENT\r\n\
        BEGIN:VEVENT\r\nSUMMARY:A\r\nDTSTART:1\r\nDTEND:2\r\nEND:VEVENT\r\n\
        END:VCALENDAR\r\n";
    let mut index = ModuleIndex::new();
    let reports = index.ingest(text, "y", "d", "i");
    assert_eq!(reports, vec![Ok(CalendarReport { counted: 1, ignored: 0, incomplete: 4 })]);
    assert_eq!(index.len(), 1);
    assert_eq!(index.entry(0).events.len(), 1);
}

fn site(url: &str) -> Option<&'static str> {
    match url {
        "https://fh-kalender.de/" => Some(FRONT_PAGE),
        "https://fh-kalender.de/informatik-elektrotechnik" => Some(INSTITUTE_PAGE_ONE),
        "https://fh-kalender.de/medien" => Some(INSTITUTE_PAGE_TWO),
        "https://fh-kalender.de//files/iue/WiSe_2425/semester_1/1_Sem_Gruppe_1.ics" => {
            Some(CALENDAR_FILE)
        }
        "https://fh-kalender.de//files/medien/WiSe_2425/semester_3/3_Sem_Gruppe_2.ics" => {
            Some(CALENDAR_FILE)
        }
        _ => None,
    }
}

#[test]
fn two_pages_with_the_same_lecture_give_one_module_with_one_event() {
    let (mut crawl, mut action) = Crawl::start();
    let mut fetched = Vec::new();
    let mut calendars = 0;
    let mut total_events = 0;
    let mut ignored = 0;
    loop {
        let url = match action {
            CrawlAction::Fetch { url, kind } => {
                fetched.push(kind);
                url
            }
            CrawlAction::Finish => break,
            other => panic!("{:?}", other),
        };
        let page = cached(&url, site(&url).unwrap());
        let step = crawl.step(CrawlEvent::Fetched(page)).unwrap();
        for report in step.reports {
            let report = report.unwrap();
            calendars += 1;
            total_events += report.counted;
            ignored += report.ignored;
        }
        action = step.action;
    }

    assert_eq!(
        fetched,
        vec![
            PageKind::FrontPage,
            PageKind::Department,
            PageKind::Calendar,
            PageKind::Department,
            PageKind::Calendar,
        ]
    );
    assert_eq!(crawl.stage(), Stage::Over);
    assert_eq!(crawl.departments_found(), 2);
    assert_eq!(crawl.modules_found(), 1);
    assert_eq!(crawl.calendars_found(), 2);
    assert_eq!(crawl.events_counted(), 2);
    assert_eq!(calendars, 2);
    assert_eq!(total_events, 2);
    assert_eq!(ignored, 2);

    let index = crawl.into_index();
    assert_eq!(index.len(), 1);
    assert_eq!(index.module(0), "Mathematik Grundlagen 1");
    let entry = index.entry(0);
    assert_eq!(entry.events.len(), 1);
    assert_eq!(entry.year, "WiSe_2425");
    assert_eq!(entry.department, "iue");
    assert_eq!(entry.institute, "semester_1");

    assert!(index_is_printable(&index));
    let outputs = render_index(index);
    assert_eq!(outputs.len(), 1);
    assert_eq!(
        outputs[0].file_name,
        "files/WiSe_2425/iue/semester_1/Mathematik_Grundlagen_1.ics"
    );
    assert!(!outputs[0].calendar.contains("Feiertag"));
    assert_eq!(
        outputs[0].calendar,
        "BEGIN:VCALENDAR\r\n\
         VERSION:2.0\r\n\
         CALSCALE:GREGORIAN\r\n\
         PRODID:-//Veranstaltungsplan der FH Kiel//WiSe_2425//iue//semester_1//Mathe\r\n \
         matik Grundlagen 1//\r\n\
         BEGIN:VEVENT\r\n\
         UID:2\r\n\
         SUMMARY:Mathematik Grundlagen 1\r\n\
         DTSTART;TZID=Europe/Berlin:20250102T080000\r\n\
         DTEND;TZID=Europe/Berlin:20250102T093000\r\n\
         LOCATION:C12-1.01\r\n\
         END:VEVENT\r\n\
         END:VCALENDAR\r\n"
    );
}

#[test]
fn the_walk_begins_with_the_front_page() {
    let (crawl, action) = Crawl::start();
    assert!(matches!(
        action,
        CrawlAction::Fetch { url, kind: PageKind::FrontPage } if url == "https://fh-kalender.de/"
    ));
    assert_eq!(crawl.stage(), Stage::FrontPage);
    assert_eq!(crawl.departments_found(), 0);
    assert_eq!(crawl.modules_found(), 0);
    assert_eq!(crawl.calendars_found(), 0);
    assert_eq!(crawl.events_counted(), 0);
}

#[test]
fn without_the_front_page_the_walk_is_given_up() {
    let (mut crawl, _) = Crawl::start();
    let step = crawl.step(CrawlEvent::Failed).unwrap();
    assert!(matches!(step.action, CrawlAction::GiveUp));
    assert!(step.reports.is_empty());
    assert_eq!(crawl.stage(), Stage::Over);
    assert!(crawl.step(CrawlEvent::Failed).is_none());
    assert!(crawl.step(CrawlEvent::Fetched(FRONT_PAGE.to_string())).is_none());
}

#[test]
fn a_front_page_without_departments_ends_the_walk() {
    let (mut crawl, _) = Crawl::start();
    let step = crawl.step(CrawlEvent::Fetched("<html></html>".to_string())).unwrap();
    assert!(matches!(step.action, CrawlAction::Finish));
    assert_eq!(crawl.stage(), Stage::Over);
    assert_eq!(crawl.into_index().len(), 0);
}

#[test]
fn pages_and_files_that_fail_are_passed_over() {
    let (mut crawl, _) = Crawl::start();
    let step = crawl.step(CrawlEvent::Fetched(FRONT_PAGE.to_string())).unwrap();
    assert!(matches!(
        step.action,
        CrawlAction::Fetch { url, kind: PageKind::Department }
            if url == "https://fh-kalender.de/informatik-elektrotechnik"
    ));
    assert_eq!(crawl.stage(), Stage::Page);
    let step = crawl.step(CrawlEvent::Failed).unwrap();
    assert!(matches!(
        step.action,
        CrawlAction::Fetch { url, kind: PageKind::Department } if url == "https://fh-kalender.de/medien"
    ));
    let step = crawl.step(CrawlEvent::Fetched(INSTITUTE_PAGE_TWO.to_string())).unwrap();
    assert!(matches!(
        step.action,
        CrawlAction::Fetch { url, kind: PageKind::Calendar }
            if url == "https://fh-kalender.de//files/medien/WiSe_2425/semester_3/3_Sem_Gruppe_2.ics"
    ));
    assert_eq!(crawl.stage(), Stage::File);
    let step = crawl.step(CrawlEvent::Failed).unwrap();
    assert!(matches!(step.action, CrawlAction::Finish));
    assert!(step.reports.is_empty());
    assert_eq!(crawl.departments_found(), 2);
    assert_eq!(crawl.into_index().len(), 0);
}

#[test]
fn a_path_of_another_shape_breaks_the_walk_off() {
    let page = "<a href=\"/files/iue/WiSe_2425/semester_1/a.ics\">a</a>\n\
        <a href=\"/downloads/plan.ics\">b</a>\n\
        <a href=\"/files/iue/WiSe_2425/semester_1/c.ics\">c</a>";
    let (mut crawl, _) = Crawl::start();
    crawl.step(CrawlEvent::Fetched(FRONT_PAGE.to_string())).unwrap();
    let step = crawl.step(CrawlEvent::Fetched(page.to_string())).unwrap();
    assert!(matches!(step.action, CrawlAction::Fetch { kind: PageKind::Calendar, .. }));
    let step = crawl.step(CrawlEvent::Fetched(CALENDAR_FILE.to_string())).unwrap();
    assert_eq!(step.reports, vec![Ok(CalendarReport { counted: 1, ignored: 1, incomplete: 0 })]);
    assert!(matches!(
        step.action,
        CrawlAction::Abort(Error::InvalidUrl(url)) if url == "/downloads/plan.ics"
    ));
    assert_eq!(crawl.stage(), Stage::Over);
    assert!(crawl.step(CrawlEvent::Failed).is_none());
}

#[test]
fn the_tags_are_those_of_the_file_that_was_asked_for() {
    let page = "<a href=\"/files/iue/WiSe_2425/semester_1/a.ics\">a</a>\n\
        <a href=\"/files/bau/SoSe_25/semester_2/b.ics\">b</a>";
    let file = |summary: &str| {
        format!(
            "BEGIN:VCALENDAR\r\nBEGIN:VEVENT\r\nSUMMARY:{}\r\nDTSTART:1\r\nDTEND:2\r\nEND:VEVENT\r\nEND:VCALENDAR\r\n",
            summary
        )
    };
    let (mut crawl, _) = Crawl::start();
    crawl.step(CrawlEvent::Fetched("<a href=\"/x\" role=\"button\">".to_string())).unwrap();
    crawl.step(CrawlEvent::Fetched(page.to_string())).unwrap();
    crawl.step(CrawlEvent::Fetched(file("Statik"))).unwrap();
    let step = crawl.step(CrawlEvent::Fetched(file("Analysis"))).unwrap();
    assert!(matches!(step.action, CrawlAction::Finish));
    let index = crawl.into_index();
    assert_eq!(index.len(), 2);
    let analysis = index.get("Analysis").unwrap();
    assert_eq!(
        (analysis.year.as_str(), analysis.department.as_str(), analysis.institute.as_str()),
        ("SoSe_25", "bau", "semester_2")
    );
    let statik = index.get("Statik").unwrap();
    assert_eq!(
        (statik.year.as_str(), statik.department.as_str(), statik.institute.as_str()),
        ("WiSe_2425", "iue", "semester_1")
    );
}

#[test]
fn the_counts_grow_by_what_the_reports_count() {
    let report = |counted: usize| Ok(CalendarReport { counted, ignored: 7, incomplete: 9 });
    let reports = vec![report(3), Err("broken".to_string()), report(0), report(4)];
    assert_eq!(add_to_counts(&reports, 10, 100), Some((13, 107)));
    assert_eq!(add_to_counts(&Vec::new(), 10, 100), Some((10, 100)));
    assert_eq!(add_to_counts(&vec![Err("x".to_string())], u32::MAX, u32::MAX), Some((u32::MAX, u32::MAX)));
    assert_eq!(add_to_counts(&reports, u32::MAX - 3, u32::MAX - 7), Some((u32::MAX, u32::MAX)));
}

#[test]
fn counts_that_no_longer_fit_are_not_wrapped() {
    let report = |counted: usize| Ok(CalendarReport { counted, ignored: 0, incomplete: 0 });
    assert_eq!(add_to_counts(&vec![report(0)], u32::MAX, 0), None);
    assert_eq!(add_to_counts(&vec![report(1)], 0, u32::MAX), None);
    assert_eq!(add_to_counts(&vec![report(usize::MAX)], 0, 0), None);
    assert_eq!(add_to_counts(&vec![report(5), report(5)], 0, u32::MAX - 9), None);
    assert_eq!(add_to_counts(&vec![report(5), report(5)], 0, u32::MAX - 10), Some((2, u32::MAX)));
}

#[test]
fn a_broken_calendar_is_not_counted_by_the_walk() {
    let text = format!("BEGIN:VCALENDAR\r\nBEGIN:VNONSENSE\r\nEND:VCALENDAR\r\n{}", CALENDAR_FILE);
    let (mut crawl, _) = Crawl::start();
    crawl.step(CrawlEvent::Fetched(FRONT_PAGE.to_string())).unwrap();
    crawl.step(CrawlEvent::Fetched(INSTITUTE_PAGE_ONE.to_string())).unwrap();
    let step = crawl.step(CrawlEvent::Fetched(text)).unwrap();
    assert!(step.reports.len() >= 2);
    assert_eq!(crawl.calendars_found(), 1);
    assert_eq!(crawl.events_counted(), 1);
}

#[test]
fn an_index_that_cannot_be_printed_gives_nothing() {
    let mut index = ModuleIndex::new();
    let mut event = CalendarEvent {
        properties: vec![plain("SUMMARY", "Mathe"), plain("DTSTART", "1"), plain("DTEND", "2")],
        alarms: Vec::new(),
    };
    index.add_event(event.clone(), "y", "d", "i");
    let outputs = try_render_index(index.clone()).unwrap();
    assert_eq!(outputs, render_index(index.clone()));
    event.properties[1].value = Some("3".to_string());
    event.properties.push(Property {
        name: "ATTENDEE".to_string(),
        params: Some(vec![("CN".to_string(), vec![String::new()])]),
        value: None,
    });
    index.add_event(event, "y", "d", "i");
    assert!(!index_is_printable(&index));
    assert!(try_render_index(index).is_none());
}
