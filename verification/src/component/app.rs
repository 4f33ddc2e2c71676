use vstd::prelude::*;
use crate::component::element::Element;

verus! {

/// Top-level application builder: holds the root element.
pub struct TezzeraApp {
    root: Option<Element>,
}

impl View for TezzeraApp {
    type V = Option<Element>;

    closed spec fn view(&self) -> Option<Element> {
        self.root
    }
}

impl TezzeraApp {
    /// An application with no root element.
    pub fn new() -> (a: TezzeraApp)
        ensures
            a@ is None,
    {
        TezzeraApp { root: None }
    }

    /// Sets the root element of the application.
    pub fn child(self, element: Element) -> (a: TezzeraApp)
        ensures
            a@ == Some(element),
    {
        TezzeraApp { root: Some(element) }
    }
}

impl Default for TezzeraApp {
    fn default() -> (a: TezzeraApp)
        ensures
            a@ is None,
    {
        TezzeraApp::new()
    }
}

} // verus!
