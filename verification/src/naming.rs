//! The naming rules: how the summary of an event becomes the name of its
//! module, which names are left out, and how names become file names.

use crate::text::{
    chars_of, eq_ignore_ascii_case, eq_ignoring_ascii_case,
    lemma_eq_ignoring_ascii_case_equivalence, replace_all, replace_chars, replace_each, string_of,
};
use vstd::prelude::*;

verus! {

/// The name of the module that an event with the summary `summary` belongs
/// to: the summary without any `"- "`, then with each `"  "` of what is left
/// made one space. Both passes run once, left to right.
pub open spec fn cleaned(summary: Seq<char>) -> Seq<char> {
    replace_all(replace_all(summary, seq!['-', ' '], Seq::empty()), seq![' ', ' '], seq![' '])
}

/// The module name for a summary.
pub fn clean_module_name(summary: &str) -> (name: String)
    ensures
        name@ == cleaned(summary@),
{
    let chars = chars_of(summary);
    let dash_space: Vec<char> = vec!['-', ' '];
    let nothing: Vec<char> = Vec::new();
    let two_spaces: Vec<char> = vec![' ', ' '];
    let one_space: Vec<char> = vec![' '];
    assert(dash_space@ =~= seq!['-', ' ']);
    assert(two_spaces@ =~= seq![' ', ' ']);
    assert(one_space@ =~= seq![' ']);
    let without_dashes = replace_chars(chars.as_slice(), dash_space.as_slice(), nothing.as_slice());
    let collapsed = replace_chars(
        without_dashes.as_slice(),
        two_spaces.as_slice(),
        one_space.as_slice(),
    );
    string_of(collapsed.as_slice())
}

/// The names of events that belong to no module: public holidays and fairs.
pub const IGNORED_EVENT_NAMES: [&'static str; 7] = [
    "Christi Himmelfahrt",
    "Feiertag",
    "Jobmesse",
    "Karfreitag",
    "Markt der Möglichkeiten",
    "Ostermontag",
    "Pfingstmontag",
];

/// `name` is one of the ignored names, up to the case of ASCII letters.
pub open spec fn is_ignored(name: Seq<char>) -> bool {
    exists|k: int|
        0 <= k < IGNORED_EVENT_NAMES@.len() && eq_ignoring_ascii_case(
            name,
            (#[trigger] IGNORED_EVENT_NAMES@[k])@,
        )
}

/// Whether events called `name` are left out.
pub fn is_ignored_event_name(name: &str) -> (ignored: bool)
    ensures
        ignored == is_ignored(name@),
{
    let mut i: usize = 0;
    while i < IGNORED_EVENT_NAMES.len()
        invariant
            i <= IGNORED_EVENT_NAMES@.len(),
            forall|k: int|
                0 <= k < i ==> !eq_ignoring_ascii_case(name@, (#[trigger] IGNORED_EVENT_NAMES@[k])@),
        decreases IGNORED_EVENT_NAMES@.len() - i,
    {
        if eq_ignore_ascii_case(name, IGNORED_EVENT_NAMES[i]) {
            return true;
        }
        i += 1;
    }
    false
}

/// Names that differ only in the case of ASCII letters are ignored alike.
pub proof fn law_ignore_list_is_case_insensitive(a: Seq<char>, b: Seq<char>)
    requires
        eq_ignoring_ascii_case(a, b),
    ensures
        is_ignored(a) == is_ignored(b),
{
    if is_ignored(a) {
        let k = choose|k: int|
            0 <= k < IGNORED_EVENT_NAMES@.len() && eq_ignoring_ascii_case(
                a,
                (#[trigger] IGNORED_EVENT_NAMES@[k])@,
            );
        lemma_eq_ignoring_ascii_case_equivalence(a, b, IGNORED_EVENT_NAMES@[k]@);
        lemma_eq_ignoring_ascii_case_equivalence(b, a, IGNORED_EVENT_NAMES@[k]@);
        assert(eq_ignoring_ascii_case(b, IGNORED_EVENT_NAMES@[k]@));
    }
    if is_ignored(b) {
        let k = choose|k: int|
            0 <= k < IGNORED_EVENT_NAMES@.len() && eq_ignoring_ascii_case(
                b,
                (#[trigger] IGNORED_EVENT_NAMES@[k])@,
            );
        lemma_eq_ignoring_ascii_case_equivalence(a, b, IGNORED_EVENT_NAMES@[k]@);
        assert(eq_ignoring_ascii_case(a, IGNORED_EVENT_NAMES@[k]@));
    }
}

/// The name of the cache entry of `url`: the URL with `_` for each `/`.
pub open spec fn cache_name(url: Seq<char>) -> Seq<char> {
    replace_each(url, |c: char| c == '/', '_')
}

/// The file name of a module: its name with `_` for each `/`, space and `-`.
pub open spec fn sanitized(module: Seq<char>) -> Seq<char> {
    replace_each(module, |c: char| c == '/' || c == ' ' || c == '-', '_')
}

/// The name of the cache entry that holds the body fetched from `url`.
pub fn cache_file_name(url: &str) -> (name: String)
    ensures
        name@ == cache_name(url@),
{
    let mut name = String::new();
    for c in it: url.chars()
        invariant
            it.seq() == url@,
            name@ == cache_name(url@).take(it.index()),
    {
        if c == '/' {
            name.push('_');
        } else {
            name.push(c);
        }
        assert(name@ =~= cache_name(url@).take(it.index() + 1));
    }
    assert(name@ =~= cache_name(url@));
    name
}

/// The file name, without extension, of the calendar of `module`.
pub fn sanitize_module_name(module: &str) -> (name: String)
    ensures
        name@ == sanitized(module@),
{
    let mut name = String::new();
    for c in it: module.chars()
        invariant
            it.seq() == module@,
            name@ == sanitized(module@).take(it.index()),
    {
        if c == '/' || c == ' ' || c == '-' {
            name.push('_');
        } else {
            name.push(c);
        }
        assert(name@ =~= sanitized(module@).take(it.index() + 1));
    }
    assert(name@ =~= sanitized(module@));
    name
}

} // verus!
