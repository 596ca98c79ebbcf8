//! One calendar feed: the record that the registry keeps for it.

use vstd::prelude::*;

verus! {

/// A calendar feed as the registry keeps it.
#[derive(Debug, PartialEq, Eq)]
pub struct Calendar {
    /// The id by which the registry finds the record.
    pub id: String,
    /// The label shown for the feed.
    pub name: String,
    /// The colour in which its events are drawn.
    pub color: String,
    /// Where the feed's content is fetched from.
    pub source_url: String,
    /// Whether the feed is shown.
    pub enabled: bool,
}

/// The value of a [`Calendar`] in contracts.
pub struct CalendarView {
    pub id: Seq<char>,
    pub name: Seq<char>,
    pub color: Seq<char>,
    pub source_url: Seq<char>,
    pub enabled: bool,
}

impl View for Calendar {
    type V = CalendarView;

    open spec fn view(&self) -> CalendarView {
        CalendarView {
            id: self.id@,
            name: self.name@,
            color: self.color@,
            source_url: self.source_url@,
            enabled: self.enabled,
        }
    }
}

impl DeepView for Calendar {
    type V = CalendarView;

    open spec fn deep_view(&self) -> CalendarView {
        self@
    }
}

impl Clone for Calendar {
    fn clone(&self) -> (copy: Self)
        ensures
            copy == *self,
    {
        Calendar {
            id: self.id.clone(),
            name: self.name.clone(),
            color: self.color.clone(),
            source_url: self.source_url.clone(),
            enabled: self.enabled,
        }
    }
}

/// What an operator fills in for a calendar. The box for the flag sends a
/// value where it is ticked and nothing where it is not.
#[derive(Debug)]
pub struct CalendarForm {
    pub name: String,
    pub color: String,
    pub source_url: String,
    pub enabled: Option<String>,
}

impl CalendarForm {
    /// The record that the form describes, under the id `id`: enabled where
    /// the box sent anything at all.
    pub open spec fn filled_in(self, id: Seq<char>) -> CalendarView {
        CalendarView {
            id,
            name: self.name@,
            color: self.color@,
            source_url: self.source_url@,
            enabled: self.enabled is Some,
        }
    }

    /// The record that the form describes, under the id `id`. A blank id
    /// leaves the choice of one to the registry.
    pub fn into_calendar(self, id: String) -> (c: Calendar)
        ensures
            c@ == self.filled_in(id@),
    {
        let enabled = self.enabled.is_some();
        Calendar {
            id,
            name: self.name,
            color: self.color,
            source_url: self.source_url,
            enabled,
        }
    }
}

} // verus!
