//! The captures of one match of the directory pattern.

use vstd::prelude::*;

verus! {

/// IMatch represents all name captures of one match of the directory pattern on a line. The
/// pattern has three alternatives: a listing fills `name`, `email` and `options`, a time stamp
/// fills `date`, and a line of statistics fills `name2`, `email2`, `latency` and `uptime`.
#[derive(Debug, PartialEq, Eq)]
pub struct IMatch {
    pub name: Option<String>,
    pub email: Option<String>,
    pub options: Option<String>,
    pub date: Option<String>,
    pub name2: Option<String>,
    pub email2: Option<String>,
    pub latency: Option<String>,
    pub uptime: Option<String>,
}

/// The captures of one match as the contracts see them.
pub struct IMatchView {
    pub name: Option<Seq<char>>,
    pub email: Option<Seq<char>>,
    pub options: Option<Seq<char>>,
    pub date: Option<Seq<char>>,
    pub name2: Option<Seq<char>>,
    pub email2: Option<Seq<char>>,
    pub latency: Option<Seq<char>>,
    pub uptime: Option<Seq<char>>,
}

/// A capture as the contracts see it.
pub open spec fn capture_view(capture: Option<String>) -> Option<Seq<char>> {
    match capture {
        Some(text) => Some(text@),
        None => None,
    }
}

/// No capture at all: what a line gives that matches none of the alternatives.
pub open spec fn no_match() -> IMatchView {
    IMatchView {
        name: None,
        email: None,
        options: None,
        date: None,
        name2: None,
        email2: None,
        latency: None,
        uptime: None,
    }
}

impl View for IMatch {
    type V = IMatchView;

    open spec fn view(&self) -> IMatchView {
        IMatchView {
            name: capture_view(self.name),
            email: capture_view(self.email),
            options: capture_view(self.options),
            date: capture_view(self.date),
            name2: capture_view(self.name2),
            email2: capture_view(self.email2),
            latency: capture_view(self.latency),
            uptime: capture_view(self.uptime),
        }
    }
}

impl Default for IMatch {
    fn default() -> (captures: Self)
        ensures
            captures@ == no_match(),
    {
        IMatch {
            name: None,
            email: None,
            options: None,
            date: None,
            name2: None,
            email2: None,
            latency: None,
            uptime: None,
        }
    }
}

} // verus!
