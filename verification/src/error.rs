//! The errors of the library.

use crate::text::string_of;
use reqwest::StatusCode;
use vstd::prelude::*;
use vstd::string::StringExecFns;

verus! {

/// What can go wrong in the library.
#[derive(Debug)]
pub enum Error {
    /// Every attempt to fetch was answered with a status that is no success;
    /// the status of the last answer.
    RequestFailed(u16),
    /// The body of a successful response was empty.
    EmptyResponse,
    /// The path of a calendar file does not have the expected shape.
    InvalidUrl(String),
    /// A pattern was refused when it was compiled.
    RegexPattern(regex::Error),
}

/// Mathematical model of an [`Error`]. Of a refused pattern it keeps only
/// that it was refused.
pub enum ErrorView {
    RequestFailed(u16),
    EmptyResponse,
    InvalidUrl(Seq<char>),
    RegexPattern,
}

impl DeepView for Error {
    type V = ErrorView;

    open spec fn deep_view(&self) -> ErrorView {
        match self {
            Error::RequestFailed(status) => ErrorView::RequestFailed(*status),
            Error::EmptyResponse => ErrorView::EmptyResponse,
            Error::InvalidUrl(url) => ErrorView::InvalidUrl(url@),
            Error::RegexPattern(_) => ErrorView::RegexPattern,
        }
    }
}

impl View for Error {
    type V = ErrorView;

    open spec fn view(&self) -> ErrorView {
        self.deep_view()
    }
}

impl From<regex::Error> for Error {
    fn from(value: regex::Error) -> (error: Error)
        ensures
            error == Error::RegexPattern(value),
    {
        Error::RegexPattern(value)
    }
}

impl vstd::std_specs::convert::FromSpecImpl<regex::Error> for Error {
    open spec fn obeys_from_spec() -> bool {
        true
    }

    open spec fn from_spec(value: regex::Error) -> Error {
        Error::RegexPattern(value)
    }
}

/// The decimal digit for `d`.
pub open spec fn digit(d: nat) -> char
    recommends
        d < 10,
{
    (('0' as u32) + d) as char
}

/// The decimal numeral of `n`, without leading zeros.
pub open spec fn decimal(n: nat) -> Seq<char>
    decreases n,
{
    if n < 10 {
        seq![digit(n)]
    } else {
        decimal(n / 10).push(digit(n % 10))
    }
}

fn digit_char(d: u16) -> (c: char)
    requires
        d < 10,
    ensures
        c == digit(d as nat),
{
    if d == 0 {
        '0'
    } else if d == 1 {
        '1'
    } else if d == 2 {
        '2'
    } else if d == 3 {
        '3'
    } else if d == 4 {
        '4'
    } else if d == 5 {
        '5'
    } else if d == 6 {
        '6'
    } else if d == 7 {
        '7'
    } else if d == 8 {
        '8'
    } else {
        '9'
    }
}

fn push_decimal(out: &mut Vec<char>, n: u16)
    ensures
        final(out)@ == old(out)@ + decimal(n as nat),
    decreases n,
{
    if n >= 10 {
        push_decimal(out, n / 10);
    }
    out.push(digit_char(n % 10));
    assert(final(out)@ =~= old(out)@ + decimal(n as nat));
}

/// The decimal numeral of `n`.
pub fn decimal_string(n: u16) -> (text: String)
    ensures
        text@ == decimal(n as nat),
{
    let mut digits: Vec<char> = Vec::new();
    push_decimal(&mut digits, n);
    assert(digits@ =~= decimal(n as nat));
    string_of(digits.as_slice())
}

/// How `reqwest` words an HTTP status: what the `Display` of
/// `reqwest::StatusCode` prints for the status that `StatusCode::from_u16`
/// makes of `status`, the code and its reason; `None` where `from_u16`
/// takes no such code.
pub uninterp spec fn status_text(status: u16) -> Option<Seq<char>>;

/// Makes a status of `status` with `StatusCode::from_u16` and words it with
/// its `Display`, through `to_string`. The contract names the result and
/// claims that it is a function of the code.
#[verifier::external_body]
fn status_display(status: u16) -> (text: Option<String>)
    ensures
        text.deep_view() == status_text(status),
{
    StatusCode::from_u16(status).ok().map(|code| code.to_string())
}

/// The text with which `regex` describes the error: what `to_string`
/// gives through the `Display` of `regex::Error`. Nothing is claimed of it.
#[verifier::external_body]
fn regex_error_text(error: &regex::Error) -> String {
    error.to_string()
}

/// How a status reads in a message: as `reqwest` words it, code and
/// reason; a code that `reqwest` takes for no status reads as its numeral.
pub open spec fn status_words(status: u16, worded: Option<Seq<char>>) -> Seq<char> {
    match worded {
        Some(text) => text,
        None => decimal(status as nat),
    }
}

/// What the message of an error says, but for the part about a refused
/// pattern that `regex` words.
pub open spec fn message_of(error: ErrorView) -> Seq<char> {
    match error {
        ErrorView::RequestFailed(status) => "Request failed with status code: "@ + status_words(
            status,
            status_text(status),
        ),
        ErrorView::EmptyResponse => "Received empty response"@,
        ErrorView::InvalidUrl(url) => "Invalid URL: "@ + url,
        ErrorView::RegexPattern => "Regex pattern error: "@,
    }
}

/// How the status reads in a message, given how `reqwest` words it.
pub fn words_of_status(status: u16, worded: Option<String>) -> (text: String)
    ensures
        text@ == status_words(status, worded.deep_view()),
{
    match worded {
        Some(text) => text,
        None => decimal_string(status),
    }
}

impl Error {
    /// The message of the error, for a reader. For a refused pattern it is
    /// `message_of` followed by the description that `regex` gives.
    pub fn message(&self) -> (text: String)
        ensures
            self@ is RegexPattern ==> message_of(self@).is_prefix_of(text@),
            !(self@ is RegexPattern) ==> text@ == message_of(self@),
    {
        match self {
            Error::RequestFailed(status) => {
                let mut text = "Request failed with status code: ".to_owned();
                let words = words_of_status(*status, status_display(*status));
                text.append(words.as_str());
                text
            },
            Error::EmptyResponse => "Received empty response".to_owned(),
            Error::InvalidUrl(url) => {
                let mut text = "Invalid URL: ".to_owned();
                text.append(url.as_str());
                text
            },
            Error::RegexPattern(error) => {
                let mut text = "Regex pattern error: ".to_owned();
                let detail = regex_error_text(error);
                text.append(detail.as_str());
                text
            },
        }
    }
}

} // verus!
