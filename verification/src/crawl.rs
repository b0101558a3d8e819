//! The walk over the calendar site: the front page, then each department
//! page, then each calendar file of courses that the page links to.
//!
//! The library decides; the caller fetches. [`Crawl::start`] and
//! [`Crawl::step`] say which page to fetch next, the caller fetches it and
//! reports the text, or that the fetch failed. A department page or a
//! calendar file that cannot be fetched is passed over. The walk is given
//! up where the front page cannot be fetched, and it is broken off where
//! the path of a calendar file has not the expected shape.

use crate::error::{Error, ErrorView};
use crate::event::EventView;
use crate::ics::parsed_calendars;
use crate::index::{
    after_calendars, count_events, is_counted_event, outcome_reported, outcomes_reported,
    CalendarReport, EntryView, ModuleIndex,
};
use crate::links::{
    course_links_of, department_links_of, extract_components_from_url, extract_course_links,
    extract_department_links_from_website, page_url, url_components, url_of,
    UrlComponents, CALENDAR_BASE_URL, DEPARTMENT_LINK_PATTERN, ICS_LINK_PATTERN,
    URL_COMPONENTS_PATTERN,
};
use crate::pattern::{leftmost_match, successive_matches};
use vstd::prelude::*;

verus! {

/// What kind of page a fetch is for.
#[derive(Debug, Clone, Copy, PartialEq, Eq, Structural)]
pub enum PageKind {
    /// The front page of the site, which links to the departments.
    FrontPage,
    /// The page of a department, which links to calendar files.
    Department,
    /// A calendar file.
    Calendar,
}

/// What the walk is waiting for.
#[derive(Debug, Clone, Copy, PartialEq, Eq, Structural)]
pub enum Stage {
    /// For the front page.
    FrontPage,
    /// For the page of a department.
    Page,
    /// For a calendar file.
    File,
    /// For nothing: the walk is over.
    Over,
}

/// What the caller reports to the walk.
#[derive(Debug)]
pub enum CrawlEvent {
    /// The text of the page that was asked for.
    Fetched(String),
    /// The page that was asked for could not be fetched.
    Failed,
}

/// What the walk asks the caller to do next.
#[derive(Debug)]
pub enum CrawlAction {
    /// Fetch the page at `url`.
    Fetch { url: String, kind: PageKind },
    /// Every page was visited: write what the index holds.
    Finish,
    /// End the run with this error.
    Abort(Error),
    /// End the run with the error of the fetch that failed.
    GiveUp,
    /// End the run: there are more calendars or events than can be counted.
    Overflow,
}

/// What one step of the walk comes to.
#[derive(Debug)]
pub struct CrawlStep {
    /// Where the step read a calendar file: what became of each of its
    /// calendars. Empty otherwise.
    pub reports: Vec<Result<CalendarReport, String>>,
    /// What to do next.
    pub action: CrawlAction,
}

/// Mathematical model of a [`CrawlEvent`].
pub enum CrawlEventView {
    Fetched(Seq<char>),
    Failed,
}

/// Mathematical model of a [`CrawlAction`].
pub enum CrawlActionView {
    Fetch { url: Seq<char>, kind: PageKind },
    Finish,
    Abort(ErrorView),
    GiveUp,
    Overflow,
}

/// Mathematical model of a [`Crawl`].
pub struct CrawlView {
    /// What the walk is waiting for.
    pub stage: Stage,
    /// The departments that the front page links to.
    pub departments: Seq<Seq<char>>,
    /// How many of the departments were asked for.
    pub department: nat,
    /// The calendar files of courses that the current page links to.
    pub links: Seq<Seq<char>>,
    /// How many of the links were taken up.
    pub link: nat,
    /// The tags of the calendar file that was asked for last.
    pub tags: UrlComponents,
    /// The modules gathered so far.
    pub index: Map<Seq<char>, EntryView>,
    /// How many calendars were read so far.
    pub calendars: nat,
    /// How many events were counted so far: all that were complete and not
    /// on the ignore list, duplicates included.
    pub events: nat,
}

impl View for CrawlEvent {
    type V = CrawlEventView;

    open spec fn view(&self) -> CrawlEventView {
        match self {
            CrawlEvent::Fetched(text) => CrawlEventView::Fetched(text@),
            CrawlEvent::Failed => CrawlEventView::Failed,
        }
    }
}

impl View for CrawlAction {
    type V = CrawlActionView;

    open spec fn view(&self) -> CrawlActionView {
        match self {
            CrawlAction::Fetch { url, kind } => CrawlActionView::Fetch { url: url@, kind: *kind },
            CrawlAction::Finish => CrawlActionView::Finish,
            CrawlAction::Abort(error) => CrawlActionView::Abort(error@),
            CrawlAction::GiveUp => CrawlActionView::GiveUp,
            CrawlAction::Overflow => CrawlActionView::Overflow,
        }
    }
}

/// The state in which the walk begins.
pub open spec fn initial() -> CrawlView {
    CrawlView {
        stage: Stage::FrontPage,
        departments: Seq::empty(),
        department: 0,
        links: Seq::empty(),
        link: 0,
        tags: UrlComponents {
            year: Seq::empty(),
            department: Seq::empty(),
            institute: Seq::empty(),
        },
        index: Map::empty(),
        calendars: 0,
        events: 0,
    }
}

/// How many of the calendars of a file could be read.
pub open spec fn calendars_in(calendars: Seq<Result<Seq<EventView>, Seq<char>>>) -> nat
    decreases calendars.len(),
{
    if calendars.len() == 0 {
        0
    } else {
        calendars_in(calendars.drop_last()) + if calendars.last() is Ok {
            1nat
        } else {
            0nat
        }
    }
}

/// How many events of the calendars of a file are counted: all that are
/// complete and not on the ignore list, duplicates included.
pub open spec fn events_in(calendars: Seq<Result<Seq<EventView>, Seq<char>>>) -> nat
    decreases calendars.len(),
{
    if calendars.len() == 0 {
        0
    } else {
        events_in(calendars.drop_last()) + match calendars.last() {
            Ok(events) => count_events(events, |e: EventView| is_counted_event(e)),
            Err(_) => 0nat,
        }
    }
}

/// How many of the reports are of a calendar that could be read.
pub open spec fn calendars_reported(reports: Seq<Result<CalendarReport, String>>) -> nat
    decreases reports.len(),
{
    if reports.len() == 0 {
        0
    } else {
        calendars_reported(reports.drop_last()) + if reports.last() is Ok {
            1nat
        } else {
            0nat
        }
    }
}

/// How many events the reports count together.
pub open spec fn events_reported(reports: Seq<Result<CalendarReport, String>>) -> nat
    decreases reports.len(),
{
    if reports.len() == 0 {
        0
    } else {
        events_reported(reports.drop_last()) + match reports.last() {
            Ok(report) => report.counted as nat,
            Err(_) => 0nat,
        }
    }
}

/// The reports on the calendars of a file count what the file holds.
pub proof fn lemma_reports_count_the_file(
    calendars: Seq<Result<Seq<EventView>, Seq<char>>>,
    reports: Seq<Result<CalendarReport, String>>,
)
    requires
        outcomes_reported(calendars, reports),
    ensures
        calendars_reported(reports) == calendars_in(calendars),
        events_reported(reports) == events_in(calendars),
    decreases calendars.len(),
{
    if calendars.len() > 0 {
        let last = calendars.len() - 1;
        assert(outcomes_reported(calendars.drop_last(), reports.drop_last())) by {
            assert forall|i: int| 0 <= i < last implies outcome_reported(
                #[trigger] calendars.drop_last()[i],
                reports.drop_last()[i],
            ) by {
                assert(outcome_reported(calendars[i], reports[i]));
            }
        }
        lemma_reports_count_the_file(calendars.drop_last(), reports.drop_last());
        assert(outcome_reported(calendars[last], reports[last]));
    }
}

/// The first reports count no more than all of them.
pub proof fn lemma_reports_grow(reports: Seq<Result<CalendarReport, String>>, n: int)
    requires
        0 <= n <= reports.len(),
    ensures
        calendars_reported(reports.take(n)) <= calendars_reported(reports),
        events_reported(reports.take(n)) <= events_reported(reports),
    decreases reports.len(),
{
    if n == reports.len() {
        assert(reports.take(n) =~= reports);
    } else {
        assert(reports.drop_last().take(n) =~= reports.take(n));
        lemma_reports_grow(reports.drop_last(), n);
    }
}

/// The counts after the reports were added to them; `None` where one of
/// them no longer fits.
pub fn add_to_counts(
    reports: &Vec<Result<CalendarReport, String>>,
    calendars: u32,
    events: u32,
) -> (counts: Option<(u32, u32)>)
    ensures
        match counts {
            Some((c, e)) => c == calendars + calendars_reported(reports@) && e == events
                + events_reported(reports@),
            None => calendars + calendars_reported(reports@) > u32::MAX || events
                + events_reported(reports@) > u32::MAX,
        },
{
    let mut c: u32 = calendars;
    let mut e: u32 = events;
    let mut i: usize = 0;
    assert(reports@.take(0) =~= Seq::empty());
    while i < reports.len()
        invariant
            i <= reports.len(),
            c == calendars + calendars_reported(reports@.take(i as int)),
            e == events + events_reported(reports@.take(i as int)),
        decreases reports.len() - i,
    {
        proof {
            assert(reports@.take(i + 1).drop_last() =~= reports@.take(i as int));
            assert(reports@.take(i + 1).last() == reports@[i as int]);
            lemma_reports_grow(reports@, i + 1);
        }
        match &reports[i] {
            Ok(report) => {
                if c == u32::MAX || report.counted > (u32::MAX - e) as usize {
                    return None;
                }
                c = c + 1;
                e = e + report.counted as u32;
            },
            Err(_) => {},
        }
        i += 1;
    }
    assert(reports@.take(reports.len() as int) =~= reports@);
    Some((c, e))
}

/// The first thing the walk asks for: the front page.
pub open spec fn first_action() -> CrawlActionView {
    CrawlActionView::Fetch { url: CALENDAR_BASE_URL@, kind: PageKind::FrontPage }
}

/// The walk over, with nothing else changed.
pub open spec fn over(state: CrawlView) -> CrawlView {
    CrawlView { stage: Stage::Over, ..state }
}

/// What the walk turns to when it is done with a page or file: the next
/// calendar file of the current page, else the next department, else the
/// end. The tags of a calendar file are read from its path before the file
/// is asked for; a path that does not give them breaks the walk off.
pub open spec fn advance(state: CrawlView) -> (CrawlView, CrawlActionView) {
    if state.link < state.links.len() {
        let link = state.links[state.link as int];
        match url_components(link, leftmost_match(URL_COMPONENTS_PATTERN@, true, link)) {
            Ok(tags) => (
                CrawlView { stage: Stage::File, link: state.link + 1, tags, ..state },
                CrawlActionView::Fetch { url: url_of(link), kind: PageKind::Calendar },
            ),
            Err(error) => (over(state), CrawlActionView::Abort(error)),
        }
    } else if state.department < state.departments.len() {
        (
            CrawlView { stage: Stage::Page, department: state.department + 1, ..state },
            CrawlActionView::Fetch {
                url: url_of(state.departments[state.department as int]),
                kind: PageKind::Department,
            },
        )
    } else {
        (over(state), CrawlActionView::Finish)
    }
}

/// The state after `event` and the action asked for then; `None` where the
/// walk is over.
///
/// The front page gives the departments; without it the walk is given up.
/// A department page gives the calendar files of its courses; one that
/// could not be fetched gives none. A calendar file is read into the index
/// under the tags of its path; one that could not be fetched is passed
/// over. A pattern that is refused breaks the walk off. The calendars read
/// and the events counted are added up; the walk ends where a sum no
/// longer fits.
pub open spec fn next(state: CrawlView, event: CrawlEventView) -> Option<
    (CrawlView, CrawlActionView),
> {
    match (state.stage, event) {
        (Stage::Over, _) => None,
        (Stage::FrontPage, CrawlEventView::Failed) => Some((over(state), CrawlActionView::GiveUp)),
        (Stage::FrontPage, CrawlEventView::Fetched(page)) => match department_links_of(
            successive_matches(DEPARTMENT_LINK_PATTERN@, true, page),
        ) {
            Ok(departments) => Some(advance(CrawlView { departments, department: 0, ..state })),
            Err(error) => Some((over(state), CrawlActionView::Abort(error))),
        },
        (Stage::Page, CrawlEventView::Failed) => Some(
            advance(CrawlView { links: Seq::empty(), link: 0, ..state }),
        ),
        (Stage::Page, CrawlEventView::Fetched(page)) => match course_links_of(
            successive_matches(ICS_LINK_PATTERN@, true, page),
        ) {
            Ok(links) => Some(advance(CrawlView { links, link: 0, ..state })),
            Err(error) => Some((over(state), CrawlActionView::Abort(error))),
        },
        (Stage::File, CrawlEventView::Failed) => Some(advance(state)),
        (Stage::File, CrawlEventView::Fetched(text)) => {
            let read = CrawlView {
                index: after_calendars(
                    state.index,
                    parsed_calendars(text),
                    state.tags.year,
                    state.tags.department,
                    state.tags.institute,
                ),
                ..state
            };
            let calendars = state.calendars + calendars_in(parsed_calendars(text));
            let events = state.events + events_in(parsed_calendars(text));
            if calendars <= u32::MAX && events <= u32::MAX {
                Some(advance(CrawlView { calendars, events, ..read }))
            } else {
                Some((over(read), CrawlActionView::Overflow))
            }
        },
    }
}

/// The calendars that a step reads: those of the file that was fetched,
/// none where the step is about anything else.
pub open spec fn calendars_read(state: CrawlView, event: CrawlEventView) -> Seq<
    Result<Seq<EventView>, Seq<char>>,
> {
    match (state.stage, event) {
        (Stage::File, CrawlEventView::Fetched(text)) => parsed_calendars(text),
        _ => Seq::empty(),
    }
}

/// The walk over the site, with the index that it fills.
pub struct Crawl {
    stage: Stage,
    departments: Vec<String>,
    department: usize,
    links: Vec<String>,
    link: usize,
    year: String,
    department_tag: String,
    institute: String,
    index: ModuleIndex,
    calendars: u32,
    events: u32,
}

impl View for Crawl {
    type V = CrawlView;

    closed spec fn view(&self) -> CrawlView {
        CrawlView {
            stage: self.stage,
            departments: self.departments.deep_view(),
            department: self.department as nat,
            links: self.links.deep_view(),
            link: self.link as nat,
            tags: UrlComponents {
                year: self.year@,
                department: self.department_tag@,
                institute: self.institute@,
            },
            index: self.index@,
            calendars: self.calendars as nat,
            events: self.events as nat,
        }
    }
}

impl Crawl {
    #[verifier::type_invariant]
    spec fn sound(&self) -> bool {
        &&& self.index.wf()
        &&& self.department <= self.departments.len()
        &&& self.link <= self.links.len()
    }

    /// Begins the walk: the first action is the fetch of the front page.
    pub fn start() -> (begun: (Crawl, CrawlAction))
        ensures
            begun.0@ == initial(),
            begun.1@ == first_action(),
    {
        let crawl = Crawl {
            stage: Stage::FrontPage,
            departments: Vec::new(),
            department: 0,
            links: Vec::new(),
            link: 0,
            year: String::new(),
            department_tag: String::new(),
            institute: String::new(),
            index: ModuleIndex::new(),
            calendars: 0,
            events: 0,
        };
        assert(crawl@.departments =~= Seq::empty());
        assert(crawl@.links =~= Seq::empty());
        (crawl, CrawlAction::Fetch { url: CALENDAR_BASE_URL.to_owned(), kind: PageKind::FrontPage })
    }

    /// What the walk is waiting for.
    pub fn stage(&self) -> (stage: Stage)
        ensures
            stage == self@.stage,
    {
        self.stage
    }

    /// The number of departments that the front page links to.
    pub fn departments_found(&self) -> (n: usize)
        ensures
            n == self@.departments.len(),
    {
        self.departments.len()
    }

    /// The number of calendars read so far.
    pub fn calendars_found(&self) -> (n: u32)
        ensures
            n == self@.calendars,
    {
        self.calendars
    }

    /// The number of events counted so far: all that were complete and not
    /// on the ignore list, duplicates included.
    pub fn events_counted(&self) -> (n: u32)
        ensures
            n == self@.events,
    {
        self.events
    }

    /// The index that the walk has filled so far.
    pub closed spec fn gathered(&self) -> ModuleIndex {
        self.index
    }

    /// The number of modules gathered so far.
    pub fn modules_found(&self) -> (n: usize)
        ensures
            n == self.gathered().modules().len(),
    {
        proof {
            use_type_invariant(self);
        }
        self.index.len()
    }

    /// Ends the walk and hands out the index that it has filled.
    pub fn into_index(self) -> (index: ModuleIndex)
        ensures
            index == self.gathered(),
            index.wf(),
            index@ == self@.index,
    {
        proof {
            use_type_invariant(&self);
        }
        self.index
    }

    fn advance(&mut self) -> (action: CrawlAction)
        ensures
            (final(self)@, action@) == advance(old(self)@),
    {
        proof {
            use_type_invariant(&*self);
        }
        if self.link < self.links.len() {
            assert(self@.links[self.link as int] == self.links@[self.link as int]@);
            match extract_components_from_url(self.links[self.link].as_str()) {
                Ok((year, department, institute)) => {
                    let url = page_url(self.links[self.link].as_str());
                    self.year = year;
                    self.department_tag = department;
                    self.institute = institute;
                    self.link = self.link + 1;
                    self.stage = Stage::File;
                    CrawlAction::Fetch { url, kind: PageKind::Calendar }
                },
                Err(error) => {
                    self.stage = Stage::Over;
                    CrawlAction::Abort(error)
                },
            }
        } else if self.department < self.departments.len() {
            assert(self@.departments[self.department as int]
                == self.departments@[self.department as int]@);
            let url = page_url(self.departments[self.department].as_str());
            self.department = self.department + 1;
            self.stage = Stage::Page;
            CrawlAction::Fetch { url, kind: PageKind::Department }
        } else {
            self.stage = Stage::Over;
            CrawlAction::Finish
        }
    }

    /// Takes what the caller reports and says what to do next. Once the
    /// walk is over, nothing changes and nothing is asked for.
    pub fn step(&mut self, event: CrawlEvent) -> (step: Option<CrawlStep>)
        ensures
            match next(old(self)@, event@) {
                Some((state, action)) => {
                    &&& final(self)@ == state
                    &&& step matches Some(s) && s.action@ == action && outcomes_reported(
                        calendars_read(old(self)@, event@),
                        s.reports@,
                    )
                },
                None => final(self)@ == old(self)@ && step is None,
            },
    {
        proof {
            use_type_invariant(&*self);
        }
        let mut reports: Vec<Result<CalendarReport, String>> = Vec::new();
        let action = match (self.stage, event) {
            (Stage::Over, _) => {
                return None;
            },
            (Stage::FrontPage, CrawlEvent::Failed) => {
                self.stage = Stage::Over;
                CrawlAction::GiveUp
            },
            (Stage::FrontPage, CrawlEvent::Fetched(page)) => {
                match extract_department_links_from_website(page.as_str()) {
                    Ok(departments) => {
                        self.department = 0;
                        self.departments = departments;
                        self.advance()
                    },
                    Err(error) => {
                        self.stage = Stage::Over;
                        CrawlAction::Abort(error)
                    },
                }
            },
            (Stage::Page, CrawlEvent::Failed) => {
                self.link = 0;
                self.links = Vec::new();
                assert(self@.links =~= Seq::empty());
                self.advance()
            },
            (Stage::Page, CrawlEvent::Fetched(page)) => {
                match extract_course_links(page.as_str()) {
                    Ok(links) => {
                        self.link = 0;
                        self.links = links;
                        self.advance()
                    },
                    Err(error) => {
                        self.stage = Stage::Over;
                        CrawlAction::Abort(error)
                    },
                }
            },
            (Stage::File, CrawlEvent::Failed) => self.advance(),
            (Stage::File, CrawlEvent::Fetched(text)) => {
                let mut index = ModuleIndex::new();
                std::mem::swap(&mut self.index, &mut index);
                reports = index.ingest(
                    text.as_str(),
                    self.year.as_str(),
                    self.department_tag.as_str(),
                    self.institute.as_str(),
                );
                self.index = index;
                proof {
                    lemma_reports_count_the_file(parsed_calendars(text@), reports@);
                }
                match add_to_counts(&reports, self.calendars, self.events) {
                    Some((calendars, events)) => {
                        self.calendars = calendars;
                        self.events = events;
                        self.advance()
                    },
                    None => {
                        self.stage = Stage::Over;
                        CrawlAction::Overflow
                    },
                }
            },
        };
        Some(CrawlStep { reports, action })
    }
}

} // verus!
