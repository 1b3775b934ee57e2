//! Events in the life of an individual or a family, and the citations that
//! back them.

use crate::text::lemma_push_deep_view;
use vstd::prelude::*;

verus! {

/// What kind of event a record tells of.
#[derive(Debug, Clone, Copy, PartialEq, Eq, Structural)]
pub enum EventType {
    Adoption,
    Birth,
    Burial,
    Death,
    Marriage,
    Residence,
    Other,
}

/// A reference to a source record, with the page that holds the evidence.
#[derive(Debug, PartialEq, Eq)]
pub struct SourceCitation {
    /// The cross-reference id of the source.
    pub xref: String,
    pub page: Option<String>,
}

/// A source citation with its strings as character sequences.
pub struct SourceCitationView {
    pub xref: Seq<char>,
    pub page: Option<Seq<char>>,
}

impl View for SourceCitation {
    type V = SourceCitationView;

    open spec fn view(&self) -> SourceCitationView {
        SourceCitationView { xref: self.xref@, page: self.page.deep_view() }
    }
}

impl DeepView for SourceCitation {
    type V = SourceCitationView;

    open spec fn deep_view(&self) -> SourceCitationView {
        self@
    }
}

/// An event with its date, its place and the citations that back it.
#[derive(Debug, PartialEq, Eq)]
pub struct Event {
    pub event: EventType,
    pub date: Option<String>,
    pub place: Option<String>,
    /// For the events that a source covers as a whole: the kinds of event it
    /// records, as written.
    pub source_data: Option<String>,
    pub citations: Vec<SourceCitation>,
}

/// An event with its strings as character sequences.
pub struct EventView {
    pub event: EventType,
    pub date: Option<Seq<char>>,
    pub place: Option<Seq<char>>,
    pub source_data: Option<Seq<char>>,
    pub citations: Seq<SourceCitationView>,
}

impl EventView {
    /// The event of the given kind of which nothing else is known.
    pub open spec fn new(event: EventType) -> EventView {
        EventView { event, date: None, place: None, source_data: None, citations: Seq::empty() }
    }
}

impl View for Event {
    type V = EventView;

    open spec fn view(&self) -> EventView {
        EventView {
            event: self.event,
            date: self.date.deep_view(),
            place: self.place.deep_view(),
            source_data: self.source_data.deep_view(),
            citations: self.citations.deep_view(),
        }
    }
}

impl DeepView for Event {
    type V = EventView;

    open spec fn deep_view(&self) -> EventView {
        self@
    }
}

impl Event {
    /// An event of the given kind with nothing else set.
    pub fn new(event: EventType) -> (made: Event)
        ensures
            made@ == EventView::new(event),
    {
        let made = Event { event, date: None, place: None, source_data: None, citations: Vec::new() };
        assert(made@.citations =~= Seq::empty());
        made
    }

    /// Appends a citation; the earlier ones keep their places.
    pub fn add_citation(&mut self, citation: SourceCitation)
        ensures
            final(self)@ == (EventView {
                citations: old(self)@.citations.push(citation@),
                ..old(self)@
            }),
    {
        let ghost before = self.citations;
        self.citations.push(citation);
        proof {
            lemma_push_deep_view(before, self.citations, citation);
        }
    }

    /// Notes which kinds of event the source records; replaces an earlier note.
    pub fn with_source_data(&mut self, annotation: String)
        ensures
            final(self)@ == (EventView { source_data: Some(annotation@), ..old(self)@ }),
    {
        self.source_data = Some(annotation);
    }
}

} // verus!
