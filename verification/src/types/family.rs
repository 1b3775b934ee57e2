//! Families: two partners, their children, and the events of the family.

use crate::text::lemma_push_deep_view;
use crate::types::event::{Event, EventView};
use vstd::prelude::*;

verus! {

/// A family. Its members are named by their ids; the records of the
/// individuals live elsewhere in the tree.
#[derive(Debug, PartialEq, Eq)]
pub struct Family {
    pub xref: Option<String>,
    pub individual1: Option<String>,
    pub individual2: Option<String>,
    pub children: Vec<String>,
    pub events: Vec<Event>,
}

/// A family with its strings as character sequences.
pub struct FamilyView {
    pub xref: Option<Seq<char>>,
    pub individual1: Option<Seq<char>>,
    pub individual2: Option<Seq<char>>,
    pub children: Seq<Seq<char>>,
    pub events: Seq<EventView>,
}

impl FamilyView {
    /// The family `xref` of which nothing else is known.
    pub open spec fn new(xref: Option<Seq<char>>) -> FamilyView {
        FamilyView {
            xref,
            individual1: None,
            individual2: None,
            children: Seq::empty(),
            events: Seq::empty(),
        }
    }
}

impl View for Family {
    type V = FamilyView;

    open spec fn view(&self) -> FamilyView {
        FamilyView {
            xref: self.xref.deep_view(),
            individual1: self.individual1.deep_view(),
            individual2: self.individual2.deep_view(),
            children: self.children.deep_view(),
            events: self.events.deep_view(),
        }
    }
}

impl DeepView for Family {
    type V = FamilyView;

    open spec fn deep_view(&self) -> FamilyView {
        self@
    }
}

impl Family {
    /// A family with the given id, without members or events.
    #[must_use]
    pub fn new(xref: Option<String>) -> (family: Family)
        ensures
            family@ == FamilyView::new(xref.deep_view()),
    {
        let family = Family {
            xref,
            individual1: None,
            individual2: None,
            children: Vec::new(),
            events: Vec::new(),
        };
        assert(family@.children =~= Seq::empty());
        assert(family@.events =~= Seq::empty());
        family
    }

    /// Names the first partner.
    pub fn set_individual1(&mut self, xref: String)
        ensures
            final(self)@ == (FamilyView { individual1: Some(xref@), ..old(self)@ }),
    {
        self.individual1 = Some(xref);
    }

    /// Names the second partner.
    pub fn set_individual2(&mut self, xref: String)
        ensures
            final(self)@ == (FamilyView { individual2: Some(xref@), ..old(self)@ }),
    {
        self.individual2 = Some(xref);
    }

    /// Appends a child; the earlier ones keep their places.
    pub fn add_child(&mut self, xref: String)
        ensures
            final(self)@ == (FamilyView {
                children: old(self)@.children.push(xref@),
                ..old(self)@
            }),
    {
        let ghost before = self.children;
        self.children.push(xref);
        proof {
            lemma_push_deep_view(before, self.children, xref);
        }
    }

    /// Appends an event; the earlier ones keep their places.
    pub fn add_event(&mut self, event: Event)
        ensures
            final(self)@ == (FamilyView { events: old(self)@.events.push(event@), ..old(self)@ }),
    {
        let ghost before = self.events;
        self.events.push(event);
        proof {
            lemma_push_deep_view(before, self.events, event);
        }
    }
}

} // verus!
