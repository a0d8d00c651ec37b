//! The oracle that names the focused application.

use vstd::prelude::*;

verus! {

/// A way to ask a window manager or compositor which application has the
/// focus.  Nothing is assumed of an implementation: it may answer anything
/// at any time.
pub trait Client {
    /// Whether the window manager can be asked at all.
    fn supported(&mut self) -> (supported: bool);

    /// The class of the focused window, or `None` if it cannot be told.
    fn current_application(&mut self) -> (application: Option<String>);
}

/// A client together with the answer it gave when first asked whether it is
/// supported.  An unsupported client is never asked for the application.
pub struct WMClient {
    name: String,
    client: Box<dyn Client>,
    supported: Option<bool>,
}

impl WMClient {
    /// What is known of whether the client is supported: `None` until it has
    /// been asked.
    pub closed spec fn known_support(&self) -> Option<bool> {
        self.supported
    }

    /// The name that the client was given.
    pub closed spec fn name_view(&self) -> Seq<char> {
        self.name@
    }

    pub fn new(name: &str, client: Box<dyn Client>) -> (wm: WMClient)
        ensures
            wm.known_support() is None,
            wm.name_view() == name@,
    {
        WMClient { name: name.to_owned(), client, supported: None }
    }

    /// The name that the client was given.
    pub fn name(&self) -> (name: &String)
        ensures
            name@ == self.name_view(),
    {
        &self.name
    }

    /// Whether the client is supported, asking it the first time only.
    pub fn is_supported(&mut self) -> (supported: bool)
        ensures
            final(self).known_support() == Some(supported),
            old(self).known_support() is Some ==> final(self).known_support() == old(
                self,
            ).known_support(),
            final(self).name_view() == old(self).name_view(),
    {
        match self.supported {
            Some(supported) => supported,
            None => {
                let supported = self.client.supported();
                self.supported = Some(supported);
                supported
            },
        }
    }

    /// The focused application.  A client that is known not to be supported
    /// is not asked, and the answer is `None`.
    pub fn current_application(&mut self) -> (application: Option<String>)
        ensures
            final(self).known_support() is Some,
            old(self).known_support() is Some ==> final(self).known_support() == old(
                self,
            ).known_support(),
            final(self).known_support() == Some(false) ==> application is None,
            final(self).name_view() == old(self).name_view(),
    {
        if !self.is_supported() {
            return None;
        }
        self.client.current_application()
    }
}

} // verus!
