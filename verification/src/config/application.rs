//! Filters on the focused application and on the active mode.

use vstd::prelude::*;
use crate::text::{clone_strings, has_string, views};

verus! {

/// Restricts an entry to some applications: to those listed under `only`,
/// or to all but those listed under `not`.
#[derive(Debug)]
pub struct Application {
    pub only: Option<Vec<String>>,
    pub not: Option<Vec<String>>,
}

/// The mathematical value of an [`Application`] filter.
pub struct ApplicationView {
    pub only: Option<Seq<Seq<char>>>,
    pub not: Option<Seq<Seq<char>>>,
}

/// The mathematical value of an optional list of strings.
pub open spec fn optional_strings(list: Option<Vec<String>>) -> Option<Seq<Seq<char>>> {
    match list {
        Some(l) => Some(views(l@)),
        None => None,
    }
}

impl View for Application {
    type V = ApplicationView;

    open spec fn view(&self) -> ApplicationView {
        ApplicationView { only: optional_strings(self.only), not: optional_strings(self.not) }
    }
}

/// The mathematical value of an optional application filter.
pub open spec fn optional_application(filter: Option<Application>) -> Option<ApplicationView> {
    match filter {
        Some(f) => Some(f@),
        None => None,
    }
}

impl ApplicationView {
    /// Whether the filter lets an entry apply while `application` has the
    /// focus; `None` stands for no known application.  With `only`, the
    /// application must be listed; otherwise, with `not`, it must not be
    /// listed; a filter with neither list admits nothing.
    pub open spec fn admits(self, application: Option<Seq<char>>) -> bool {
        match self.only {
            Some(only) => application is Some && only.contains(application->0),
            None => match self.not {
                Some(not) => !(application is Some && not.contains(application->0)),
                None => false,
            },
        }
    }
}

/// Whether an optional application filter lets an entry apply: no filter
/// admits everything.
pub open spec fn application_passes(
    filter: Option<ApplicationView>,
    application: Option<Seq<char>>,
) -> bool {
    match filter {
        Some(f) => f.admits(application),
        None => true,
    }
}

/// Whether a mode filter lets an entry apply in `mode`: no filter admits
/// every mode, a list admits the modes it holds.
pub open spec fn mode_passes(filter: Option<Seq<Seq<char>>>, mode: Seq<char>) -> bool {
    match filter {
        Some(modes) => modes.contains(mode),
        None => true,
    }
}

/// The mathematical value of an optional string.
pub open spec fn optional_string(s: Option<String>) -> Option<Seq<char>> {
    match s {
        Some(s) => Some(s@),
        None => None,
    }
}

/// A copy of an optional list of strings.
pub fn clone_optional_strings(list: &Option<Vec<String>>) -> (copy: Option<Vec<String>>)
    ensures
        optional_strings(copy) == optional_strings(*list),
{
    match list {
        Some(l) => Some(clone_strings(l)),
        None => None,
    }
}

impl Clone for Application {
    fn clone(&self) -> (copy: Application)
        ensures
            copy@ == self@,
    {
        Application {
            only: clone_optional_strings(&self.only),
            not: clone_optional_strings(&self.not),
        }
    }
}

/// A copy of an optional application filter.
pub fn clone_optional_application(filter: &Option<Application>) -> (copy: Option<Application>)
    ensures
        optional_application(copy) == optional_application(*filter),
{
    match filter {
        Some(f) => Some(f.clone()),
        None => None,
    }
}

impl Application {
    /// Whether the filter admits the focused application.
    pub fn matches(&self, application: &Option<String>) -> (b: bool)
        ensures
            b == self@.admits(optional_string(*application)),
    {
        match &self.only {
            Some(only) => match application {
                Some(app) => has_string(only, app),
                None => false,
            },
            None => match &self.not {
                Some(not) => match application {
                    Some(app) => !has_string(not, app),
                    None => true,
                },
                None => false,
            },
        }
    }
}

/// Whether an optional application filter admits the focused application.
pub fn match_application(filter: &Option<Application>, application: &Option<String>) -> (b: bool)
    ensures
        b == application_passes(optional_application(*filter), optional_string(*application)),
{
    match filter {
        Some(f) => f.matches(application),
        None => true,
    }
}

/// Whether an optional mode filter admits `mode`.
pub fn match_mode(filter: &Option<Vec<String>>, mode: &String) -> (b: bool)
    ensures
        b == mode_passes(optional_strings(*filter), mode@),
{
    match filter {
        Some(modes) => has_string(modes, mode),
        None => true,
    }
}

} // verus!
