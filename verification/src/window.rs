//! Window snapshots, as the compositor reports them with each event.

use vstd::prelude::*;

verus! {

/// One window at the time of an event.
///
/// The identifier is stable while the window is open. Nothing else is
/// carried over from one event to the next.
#[derive(Clone, Debug, PartialEq, Eq)]
pub struct Window {
    pub id: u64,
    pub title: Option<String>,
    pub app_id: Option<String>,
    pub pid: Option<i32>,
    pub is_focused: bool,
    pub is_floating: bool,
    pub is_urgent: bool,
}

/// The mathematical content of a [`Window`].
pub struct WindowView {
    pub id: u64,
    pub title: Option<Seq<char>>,
    pub app_id: Option<Seq<char>>,
    pub pid: Option<i32>,
    pub is_focused: bool,
    pub is_floating: bool,
    pub is_urgent: bool,
}

/// The content of an optional text.
pub open spec fn text_view(text: Option<String>) -> Option<Seq<char>> {
    match text {
        Some(s) => Some(s@),
        None => None,
    }
}

/// An optional text, with the empty text standing for an absent one.
pub open spec fn text_or_empty(text: Option<Seq<char>>) -> Seq<char> {
    match text {
        Some(s) => s,
        None => Seq::empty(),
    }
}

impl View for Window {
    type V = WindowView;

    open spec fn view(&self) -> WindowView {
        WindowView {
            id: self.id,
            title: text_view(self.title),
            app_id: text_view(self.app_id),
            pid: self.pid,
            is_focused: self.is_focused,
            is_floating: self.is_floating,
            is_urgent: self.is_urgent,
        }
    }
}

impl Window {
    /// A window with the given identifier and nothing else known of it:
    /// no title, no application identifier, no process, all flags off.
    pub fn new(id: u64) -> (w: Window)
        ensures
            w@ == (WindowView {
                id,
                title: None,
                app_id: None,
                pid: None,
                is_focused: false,
                is_floating: false,
                is_urgent: false,
            }),
    {
        Window {
            id,
            title: None,
            app_id: None,
            pid: None,
            is_focused: false,
            is_floating: false,
            is_urgent: false,
        }
    }

    /// The title, or the empty text if the window has none.
    pub fn title_text(&self) -> (t: &str)
        ensures
            t@ == text_or_empty(self@.title),
    {
        match &self.title {
            Some(s) => s.as_str(),
            None => {
                proof {
                    reveal_strlit("");
                }
                assert(""@ =~= Seq::<char>::empty());
                ""
            },
        }
    }

    /// The application identifier, or the empty text if the window has none.
    pub fn app_id_text(&self) -> (t: &str)
        ensures
            t@ == text_or_empty(self@.app_id),
    {
        match &self.app_id {
            Some(s) => s.as_str(),
            None => {
                proof {
                    reveal_strlit("");
                }
                assert(""@ =~= Seq::<char>::empty());
                ""
            },
        }
    }
}

} // verus!
