//! Sources of genealogical facts.

use crate::text::lemma_push_deep_view;
use crate::types::event::{Event, EventView};
use crate::types::repository::{RepoCitation, RepoCitationView};
use vstd::prelude::*;

verus! {

/// What a source covers: the events it records and the agency behind it.
#[derive(Debug, PartialEq, Eq)]
pub struct SourceData {
    pub events: Vec<Event>,
    pub agency: Option<String>,
}

/// Source data with its strings as character sequences.
pub struct SourceDataView {
    pub events: Seq<EventView>,
    pub agency: Option<Seq<char>>,
}

impl View for SourceData {
    type V = SourceDataView;

    open spec fn view(&self) -> SourceDataView {
        SourceDataView { events: self.events.deep_view(), agency: self.agency.deep_view() }
    }
}

impl DeepView for SourceData {
    type V = SourceDataView;

    open spec fn deep_view(&self) -> SourceDataView {
        self@
    }
}

impl SourceData {
    /// Appends an event; the earlier ones keep their places.
    pub fn add_event(&mut self, event: Event)
        ensures
            final(self)@ == (SourceDataView {
                events: old(self)@.events.push(event@),
                ..old(self)@
            }),
    {
        let ghost before = self.events;
        self.events.push(event);
        proof {
            lemma_push_deep_view(before, self.events, event);
        }
    }
}

/// A source record.
#[derive(Debug, PartialEq, Eq)]
pub struct Source {
    pub xref: Option<String>,
    pub data: SourceData,
    pub abbreviation: Option<String>,
    pub title: Option<String>,
    pub repo_citations: Vec<RepoCitation>,
}

/// A source with its strings as character sequences.
pub struct SourceView {
    pub xref: Option<Seq<char>>,
    pub data: SourceDataView,
    pub abbreviation: Option<Seq<char>>,
    pub title: Option<Seq<char>>,
    pub repo_citations: Seq<RepoCitationView>,
}

impl SourceView {
    /// The source `xref` of which nothing else is known.
    pub open spec fn new(xref: Option<Seq<char>>) -> SourceView {
        SourceView {
            xref,
            data: SourceDataView { events: Seq::empty(), agency: None },
            abbreviation: None,
            title: None,
            repo_citations: Seq::empty(),
        }
    }
}

impl View for Source {
    type V = SourceView;

    open spec fn view(&self) -> SourceView {
        SourceView {
            xref: self.xref.deep_view(),
            data: self.data@,
            abbreviation: self.abbreviation.deep_view(),
            title: self.title.deep_view(),
            repo_citations: self.repo_citations.deep_view(),
        }
    }
}

impl DeepView for Source {
    type V = SourceView;

    open spec fn deep_view(&self) -> SourceView {
        self@
    }
}

impl Source {
    /// A source with the given id and nothing else set.
    pub fn new(xref: Option<String>) -> (source: Source)
        ensures
            source@ == SourceView::new(xref.deep_view()),
    {
        let source = Source {
            xref,
            data: SourceData { events: Vec::new(), agency: None },
            abbreviation: None,
            title: None,
            repo_citations: Vec::new(),
        };
        assert(source@.data.events =~= Seq::empty());
        assert(source@.repo_citations =~= Seq::empty());
        source
    }

    /// Appends a repository citation; the earlier ones keep their places.
    pub fn add_repo_citation(&mut self, citation: RepoCitation)
        ensures
            final(self)@ == (SourceView {
                repo_citations: old(self)@.repo_citations.push(citation@),
                ..old(self)@
            }),
    {
        let ghost before = self.repo_citations;
        self.repo_citations.push(citation);
        proof {
            lemma_push_deep_view(before, self.repo_citations, citation);
        }
    }
}

} // verus!
