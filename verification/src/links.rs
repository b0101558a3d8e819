//! The links of the calendar site: department pages on the front page,
//! calendar files on a department page, and the tags in a file's path.

use crate::error::{Error, ErrorView};
use crate::pattern::{captures, captures_iter, leftmost_match, successive_matches, Groups};
use crate::text::{contains, str_contains};
use vstd::prelude::*;
use vstd::string::StringExecFns;

verus! {

/// The address of the calendar site; the path of a page is put behind it.
pub const CALENDAR_BASE_URL: &'static str = "https://fh-kalender.de/";

/// An anchor that leads to a department page; group 1 is the department.
pub const DEPARTMENT_LINK_PATTERN: &'static str = "<a href=\"/([a-zA-Z-]+?)\" role=\"button\"";

/// An anchor that leads to a calendar file; group 1 is the path.
pub const ICS_LINK_PATTERN: &'static str = "a href=\"(.*?\\.ics)\"";

/// The path of a calendar file; groups 1 to 3 are department, year and
/// institute.
pub const URL_COMPONENTS_PATTERN: &'static str = "/files/(.*?)/(.*?)/(.*?)/.*?\\.ics";

/// What marks the path of a calendar that lists a teacher, not a course.
pub const TEACHER_MARK: &'static str = "/dozenten/";

/// The address of the page or file at `path` of the calendar site.
pub open spec fn url_of(path: Seq<char>) -> Seq<char> {
    CALENDAR_BASE_URL@ + path
}

/// The address of the page or file at `path` of the calendar site.
pub fn page_url(path: &str) -> (url: String)
    ensures
        url@ == url_of(path@),
{
    let mut url = CALENDAR_BASE_URL.to_owned();
    url.append(path);
    url
}

/// The text of group `group` in each of the matches that have such a group
/// and in which it took part, in the order of the matches.
pub open spec fn group_texts(matches: Seq<Seq<Option<Seq<char>>>>, group: int) -> Seq<Seq<char>>
    decreases matches.len(),
{
    if matches.len() == 0 {
        Seq::empty()
    } else {
        let before = group_texts(matches.drop_last(), group);
        let last = matches.last();
        if 0 <= group < last.len() && last[group] is Some {
            before.push(last[group].unwrap())
        } else {
            before
        }
    }
}

/// The text of group `group` of each match, in the order of the matches.
pub fn texts_of_group(matches: &Vec<Groups>, group: usize) -> (texts: Vec<String>)
    ensures
        texts.deep_view() == group_texts(matches.deep_view(), group as int),
{
    let mut texts: Vec<String> = Vec::new();
    let ghost all = matches.deep_view();
    let mut i: usize = 0;
    assert(all.take(0) =~= Seq::empty());
    assert(texts.deep_view() =~= Seq::empty());
    while i < matches.len()
        invariant
            i <= matches.len(),
            all == matches.deep_view(),
            texts.deep_view() == group_texts(all.take(i as int), group as int),
        decreases matches.len() - i,
    {
        let ghost done = texts.deep_view();
        assert(all.take(i + 1).drop_last() =~= all.take(i as int));
        assert(all.take(i + 1).last() == matches@[i as int].deep_view());
        let groups = &matches[i];
        if group < groups.len() {
            assert(groups.deep_view()[group as int] == groups@[group as int].deep_view());
            match &groups[group] {
                Some(text) => {
                    texts.push(text.clone());
                    assert(texts.deep_view() =~= done.push(text@));
                },
                None => {},
            }
        }
        i += 1;
    }
    assert(all.take(matches.len() as int) =~= all);
    texts
}

/// A character that the name of a department may hold: an ASCII letter or
/// a hyphen.
pub open spec fn is_name_char(c: char) -> bool {
    ('a' <= c && c <= 'z') || ('A' <= c && c <= 'Z') || c == '-'
}

/// `name` holds ASCII letters and hyphens only.
pub open spec fn is_department_name(name: Seq<char>) -> bool {
    forall|i: int| 0 <= i < name.len() ==> is_name_char(#[trigger] name[i])
}

/// The links that are names of departments, in their order.
pub open spec fn department_names(links: Seq<Seq<char>>) -> Seq<Seq<char>> {
    links.filter(|link: Seq<char>| is_department_name(link))
}

/// Whether `name` holds ASCII letters and hyphens only.
pub fn holds_department_name(name: &str) -> (plain: bool)
    ensures
        plain == is_department_name(name@),
{
    for c in it: name.chars()
        invariant
            it.seq() == name@,
            forall|i: int| 0 <= i < it.index() ==> is_name_char(#[trigger] name@[i]),
    {
        if !(('a' <= c && c <= 'z') || ('A' <= c && c <= 'Z') || c == '-') {
            assert(!is_name_char(name@[it.index() as int]));
            return false;
        }
    }
    true
}

/// Leaves out the links that hold anything but ASCII letters and hyphens.
pub fn only_department_names(links: Vec<String>) -> (kept: Vec<String>)
    ensures
        kept.deep_view() == department_names(links.deep_view()),
{
    let mut kept: Vec<String> = Vec::new();
    let ghost all = links.deep_view();
    let ghost keep = |link: Seq<char>| is_department_name(link);
    let mut i: usize = 0;
    assert(all.take(0) =~= Seq::empty());
    assert(kept.deep_view() =~= all.take(0).filter(keep));
    while i < links.len()
        invariant
            i <= links.len(),
            all == links.deep_view(),
            keep == |link: Seq<char>| is_department_name(link),
            kept.deep_view() == all.take(i as int).filter(keep),
        decreases links.len() - i,
    {
        let ghost done = kept.deep_view();
        assert(all.take(i + 1).drop_last() =~= all.take(i as int));
        assert(all.take(i + 1).last() == links@[i as int]@);
        proof {
            reveal(Seq::filter);
        }
        if holds_department_name(links[i].as_str()) {
            kept.push(links[i].clone());
            assert(kept.deep_view() =~= done.push(links@[i as int]@));
        }
        i += 1;
    }
    assert(all.take(links.len() as int) =~= all);
    kept
}

/// Whether the path leads to the calendar of a teacher.
pub fn is_teacher_link(link: &str) -> (teacher: bool)
    ensures
        teacher == contains(link@, TEACHER_MARK@),
{
    str_contains(link, TEACHER_MARK)
}

/// The links without those that hold `TEACHER_MARK`, in their order.
pub open spec fn course_links(links: Seq<Seq<char>>) -> Seq<Seq<char>> {
    links.filter(|link: Seq<char>| !contains(link, TEACHER_MARK@))
}

/// Leaves out the links to calendars of teachers.
pub fn without_teacher_links(links: Vec<String>) -> (kept: Vec<String>)
    ensures
        kept.deep_view() == course_links(links.deep_view()),
{
    let mut kept: Vec<String> = Vec::new();
    let ghost all = links.deep_view();
    let ghost keep = |link: Seq<char>| !contains(link, TEACHER_MARK@);
    let mut i: usize = 0;
    assert(all.take(0) =~= Seq::empty());
    assert(kept.deep_view() =~= all.take(0).filter(keep));
    while i < links.len()
        invariant
            i <= links.len(),
            all == links.deep_view(),
            keep == |link: Seq<char>| !contains(link, TEACHER_MARK@),
            kept.deep_view() == all.take(i as int).filter(keep),
        decreases links.len() - i,
    {
        let ghost done = kept.deep_view();
        assert(all.take(i + 1).drop_last() =~= all.take(i as int));
        assert(all.take(i + 1).last() == links@[i as int]@);
        proof {
            reveal(Seq::filter);
        }
        if !is_teacher_link(links[i].as_str()) {
            kept.push(links[i].clone());
            assert(kept.deep_view() =~= done.push(links@[i as int]@));
        }
        i += 1;
    }
    assert(all.take(links.len() as int) =~= all);
    kept
}

/// The model of a result that holds strings.
pub open spec fn links_view(result: Result<Vec<String>, Error>) -> Result<Seq<Seq<char>>, ErrorView> {
    match result {
        Ok(links) => Ok(links.deep_view()),
        Err(error) => Err(error@),
    }
}

/// The links that the matches of a pattern give: group 1 of each match;
/// where the pattern was refused, the error that says so.
pub open spec fn links_of(found: Option<Seq<Seq<Option<Seq<char>>>>>) -> Result<
    Seq<Seq<char>>,
    ErrorView,
> {
    match found {
        Some(matches) => Ok(group_texts(matches, 1)),
        None => Err(ErrorView::RegexPattern),
    }
}

/// The departments among the links that the matches of a pattern give:
/// those that hold ASCII letters and hyphens only.
pub open spec fn department_links_of(found: Option<Seq<Seq<Option<Seq<char>>>>>) -> Result<
    Seq<Seq<char>>,
    ErrorView,
> {
    match links_of(found) {
        Ok(links) => Ok(department_names(links)),
        Err(error) => Err(error),
    }
}

/// The links of courses among the links that the matches of a pattern
/// give.
pub open spec fn course_links_of(found: Option<Seq<Seq<Option<Seq<char>>>>>) -> Result<
    Seq<Seq<char>>,
    ErrorView,
> {
    match links_of(found) {
        Ok(links) => Ok(course_links(links)),
        Err(error) => Err(error),
    }
}

/// The departments that the front page links to, in the order of the page;
/// one that is linked twice comes twice. The pattern is matched without
/// regard to case, which lets a few letters beyond ASCII pass: a name that
/// holds anything but ASCII letters and hyphens is left out.
pub fn extract_department_links_from_website(website_source: &str) -> (links: Result<
    Vec<String>,
    Error,
>)
    ensures
        links_view(links) == department_links_of(
            successive_matches(DEPARTMENT_LINK_PATTERN@, true, website_source@),
        ),
{
    match captures_iter(DEPARTMENT_LINK_PATTERN, true, website_source) {
        Ok(matches) => Ok(only_department_names(texts_of_group(&matches, 1))),
        Err(error) => Err(Error::from(error)),
    }
}

/// The paths of the calendar files that a department page links to, in the
/// order of the page, those of teachers included.
pub fn extract_ics_links(page: &str) -> (links: Result<Vec<String>, Error>)
    ensures
        links_view(links) == links_of(successive_matches(ICS_LINK_PATTERN@, true, page@)),
{
    match captures_iter(ICS_LINK_PATTERN, true, page) {
        Ok(matches) => Ok(texts_of_group(&matches, 1)),
        Err(error) => Err(Error::from(error)),
    }
}

/// The paths of the calendar files of courses that a department page links
/// to, in the order of the page.
pub fn extract_course_links(page: &str) -> (links: Result<Vec<String>, Error>)
    ensures
        links_view(links) == course_links_of(successive_matches(ICS_LINK_PATTERN@, true, page@)),
{
    match extract_ics_links(page) {
        Ok(links) => Ok(without_teacher_links(links)),
        Err(error) => Err(error),
    }
}

/// Year, department and institute of a calendar file, as its path names
/// them.
pub struct UrlComponents {
    pub year: Seq<char>,
    pub department: Seq<char>,
    pub institute: Seq<char>,
}

/// The tags that the groups of a match of `URL_COMPONENTS_PATTERN` give:
/// group 1 is the department, group 2 the year, group 3 the institute.
/// Where nothing matched, or a group is missing, the URL is invalid.
pub open spec fn components_of(url: Seq<char>, found: Option<Seq<Option<Seq<char>>>>) -> Result<
    UrlComponents,
    ErrorView,
> {
    match found {
        Some(groups) => if groups.len() > 3 && groups[1] is Some && groups[2] is Some
            && groups[3] is Some {
            Ok(
                UrlComponents {
                    year: groups[2].unwrap(),
                    department: groups[1].unwrap(),
                    institute: groups[3].unwrap(),
                },
            )
        } else {
            Err(ErrorView::InvalidUrl(url))
        },
        None => Err(ErrorView::InvalidUrl(url)),
    }
}

/// The model of a result that holds year, department and institute.
pub open spec fn components_view(result: Result<(String, String, String), Error>) -> Result<
    UrlComponents,
    ErrorView,
> {
    match result {
        Ok((year, department, institute)) => Ok(
            UrlComponents { year: year@, department: department@, institute: institute@ },
        ),
        Err(error) => Err(error@),
    }
}

/// Year, department and institute from the groups of a match of
/// `URL_COMPONENTS_PATTERN` in `url`, in this order.
pub fn components_from_groups(url: &str, found: Option<Groups>) -> (components: Result<
    (String, String, String),
    Error,
>)
    ensures
        components_view(components) == components_of(url@, found.deep_view()),
{
    match found {
        Some(groups) => {
            if groups.len() > 3 {
                assert(groups.deep_view()[1] == groups@[1].deep_view());
                assert(groups.deep_view()[2] == groups@[2].deep_view());
                assert(groups.deep_view()[3] == groups@[3].deep_view());
                match (&groups[1], &groups[2], &groups[3]) {
                    (Some(department), Some(year), Some(institute)) => Ok(
                        (year.clone(), department.clone(), institute.clone()),
                    ),
                    _ => Err(Error::InvalidUrl(url.to_owned())),
                }
            } else {
                Err(Error::InvalidUrl(url.to_owned()))
            }
        },
        None => Err(Error::InvalidUrl(url.to_owned())),
    }
}

/// The tags of the calendar file at `url`, given what a search for
/// `URL_COMPONENTS_PATTERN` in it came to.
pub open spec fn url_components(
    url: Seq<char>,
    searched: Option<Option<Seq<Option<Seq<char>>>>>,
) -> Result<UrlComponents, ErrorView> {
    match searched {
        Some(found) => components_of(url, found),
        None => Err(ErrorView::RegexPattern),
    }
}

/// Year, department and institute of the calendar file at `url`, in this
/// order. A path that `URL_COMPONENTS_PATTERN` does not match is invalid.
pub fn extract_components_from_url(url: &str) -> (components: Result<
    (String, String, String),
    Error,
>)
    ensures
        components_view(components) == url_components(
            url@,
            leftmost_match(URL_COMPONENTS_PATTERN@, true, url@),
        ),
{
    match captures(URL_COMPONENTS_PATTERN, true, url) {
        Ok(found) => components_from_groups(url, found),
        Err(error) => Err(Error::from(error)),
    }
}

} // verus!
