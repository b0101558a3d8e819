//! One calendar per course module from the calendar files of a university
//! site: which pages to fetch and how, what the files hold, which events
//! belong to which module, and what is written for each module.

pub mod crawl;
pub mod error;
pub mod event;
pub mod fetch;
pub mod ics;
pub mod index;
pub mod links;
pub mod naming;
pub mod output;
pub mod pattern;
pub mod text;
