//! People, their names, and their links to families.

use crate::text::{eq_ignore_case, lemma_push_deep_view, lowercase, str_eq};
use crate::types::event::{Event, EventView};
use vstd::prelude::*;
use vstd::utf8::is_ascii_chars;

verus! {

/// The gender of an individual.
#[derive(Debug, Clone, Copy, PartialEq, Eq, Structural)]
pub enum Gender {
    Male,
    Female,
    Nonbinary,
    Unknown,
}

/// The gender that a line value names: one capital letter, and nothing else.
pub open spec fn gender_of(text: Seq<char>) -> Option<Gender> {
    if text == "M"@ {
        Some(Gender::Male)
    } else if text == "F"@ {
        Some(Gender::Female)
    } else if text == "N"@ {
        Some(Gender::Nonbinary)
    } else if text == "U"@ {
        Some(Gender::Unknown)
    } else {
        None
    }
}

impl Gender {
    /// Reads a gender from a line value; `None` for a value that names none.
    pub fn from_text(text: &str) -> (gender: Option<Gender>)
        ensures
            gender == gender_of(text@),
    {
        if str_eq(text, "M") {
            Some(Gender::Male)
        } else if str_eq(text, "F") {
            Some(Gender::Female)
        } else if str_eq(text, "N") {
            Some(Gender::Nonbinary)
        } else if str_eq(text, "U") {
            Some(Gender::Unknown)
        } else {
            None
        }
    }
}

/// How an individual belongs to a family.
#[derive(Debug, Clone, Copy, PartialEq, Eq, Structural)]
pub enum FamilyLinkType {
    Spouse,
    Child,
}

/// How a child came into a family.
#[derive(Debug, Clone, Copy, PartialEq, Eq, Structural)]
pub enum Pedigree {
    Adopted,
    Birth,
    Foster,
    Sealing,
}

/// The pedigree that a line value names, whatever the case of its letters.
pub open spec fn pedigree_of(text: Seq<char>) -> Option<Pedigree> {
    if lowercase(text) == "adopted"@ {
        Some(Pedigree::Adopted)
    } else if lowercase(text) == "birth"@ {
        Some(Pedigree::Birth)
    } else if lowercase(text) == "foster"@ {
        Some(Pedigree::Foster)
    } else if lowercase(text) == "sealing"@ {
        Some(Pedigree::Sealing)
    } else {
        None
    }
}

/// The kind of link that a tag introduces.
pub open spec fn link_type_of(tag: Seq<char>) -> FamilyLinkType {
    if tag == "FAMC"@ {
        FamilyLinkType::Child
    } else {
        FamilyLinkType::Spouse
    }
}

impl Pedigree {
    /// Reads a pedigree from a line value; `None` for a value that names none.
    pub fn from_text(text: &str) -> (pedigree: Option<Pedigree>)
        ensures
            pedigree == pedigree_of(text@),
    {
        proof {
            reveal_strlit("adopted");
            reveal_strlit("birth");
            reveal_strlit("foster");
            reveal_strlit("sealing");
            assert(is_ascii_chars("adopted"@));
            assert(is_ascii_chars("birth"@));
            assert(is_ascii_chars("foster"@));
            assert(is_ascii_chars("sealing"@));
        }
        if eq_ignore_case(text, "adopted") {
            Some(Pedigree::Adopted)
        } else if eq_ignore_case(text, "birth") {
            Some(Pedigree::Birth)
        } else if eq_ignore_case(text, "foster") {
            Some(Pedigree::Foster)
        } else if eq_ignore_case(text, "sealing") {
            Some(Pedigree::Sealing)
        } else {
            None
        }
    }
}

/// A link from an individual to a family: the family's id, the kind of
/// link, and the pedigree where one was given.
#[derive(Debug, PartialEq, Eq)]
pub struct FamilyLink(String, FamilyLinkType, Option<Pedigree>);

/// A family link with its id as a character sequence.
pub struct FamilyLinkView {
    pub xref: Seq<char>,
    pub link_type: FamilyLinkType,
    pub pedigree: Option<Pedigree>,
}

impl View for FamilyLink {
    type V = FamilyLinkView;

    closed spec fn view(&self) -> FamilyLinkView {
        FamilyLinkView { xref: self.0@, link_type: self.1, pedigree: self.2 }
    }
}

impl DeepView for FamilyLink {
    type V = FamilyLinkView;

    open spec fn deep_view(&self) -> FamilyLinkView {
        self@
    }
}

impl FamilyLink {
    /// A link to the family `xref`, of the kind that `tag` introduces, with no
    /// pedigree yet.
    #[must_use]
    pub fn new(xref: String, tag: &str) -> (link: FamilyLink)
        requires
            tag@ == "FAMC"@ || tag@ == "FAMS"@,
        ensures
            link@ == (FamilyLinkView {
                xref: xref@,
                link_type: link_type_of(tag@),
                pedigree: None,
            }),
    {
        let link_type = if str_eq(tag, "FAMC") {
            FamilyLinkType::Child
        } else {
            FamilyLinkType::Spouse
        };
        FamilyLink(xref, link_type, None)
    }

    /// Sets the pedigree that `pedigree_text` names.
    pub fn set_pedigree(&mut self, pedigree_text: &str)
        requires
            pedigree_of(pedigree_text@) is Some,
        ensures
            final(self)@ == (FamilyLinkView {
                pedigree: pedigree_of(pedigree_text@),
                ..old(self)@
            }),
    {
        self.2 = Pedigree::from_text(pedigree_text);
    }

    /// The id of the family.
    pub fn xref(&self) -> (xref: &String)
        ensures
            xref@ == self@.xref,
    {
        &self.0
    }

    /// Whether the individual is a spouse or a child in the family.
    pub fn link_type(&self) -> (link_type: FamilyLinkType)
        ensures
            link_type == self@.link_type,
    {
        self.1
    }

    /// The pedigree, where one was given.
    pub fn pedigree(&self) -> (pedigree: Option<Pedigree>)
        ensures
            pedigree == self@.pedigree,
    {
        self.2
    }
}

/// The name of an individual.
#[derive(Debug, PartialEq, Eq)]
pub struct Name {
    /// The name as written, with the surname between slashes.
    pub value: Option<String>,
    pub given: Option<String>,
    pub surname: Option<String>,
}

/// A name with its strings as character sequences.
pub struct NameView {
    pub value: Option<Seq<char>>,
    pub given: Option<Seq<char>>,
    pub surname: Option<Seq<char>>,
}

impl View for Name {
    type V = NameView;

    open spec fn view(&self) -> NameView {
        NameView {
            value: self.value.deep_view(),
            given: self.given.deep_view(),
            surname: self.surname.deep_view(),
        }
    }
}

impl DeepView for Name {
    type V = NameView;

    open spec fn deep_view(&self) -> NameView {
        self@
    }
}

/// Whether one of `links` leads to the family `xref`.
pub open spec fn knows_family(links: Seq<FamilyLinkView>, xref: Seq<char>) -> bool {
    exists|i: int| 0 <= i < links.len() && (#[trigger] links[i]).xref == xref
}

/// No two of `links` lead to the same family.
pub open spec fn distinct_families(links: Seq<FamilyLinkView>) -> bool {
    forall|i: int, j: int|
        0 <= i < j < links.len() ==> (#[trigger] links[i]).xref != (#[trigger] links[j]).xref
}

/// `links` with `link` at its end, unless one of them leads to the same
/// family already: then `links` as it was.
pub open spec fn with_family(links: Seq<FamilyLinkView>, link: FamilyLinkView) -> Seq<
    FamilyLinkView,
> {
    if knows_family(links, link.xref) {
        links
    } else {
        links.push(link)
    }
}

/// A person within the family tree.
#[derive(Debug, PartialEq, Eq)]
pub struct Individual {
    pub xref: Option<String>,
    pub name: Option<Name>,
    pub sex: Gender,
    pub events: Vec<Event>,
    pub families: Vec<FamilyLink>,
}

/// An individual with its strings as character sequences.
pub struct IndividualView {
    pub xref: Option<Seq<char>>,
    pub name: Option<NameView>,
    pub sex: Gender,
    pub events: Seq<EventView>,
    pub families: Seq<FamilyLinkView>,
}

impl IndividualView {
    /// The individual `xref` of whom nothing else is known.
    pub open spec fn new(xref: Option<Seq<char>>) -> IndividualView {
        IndividualView {
            xref,
            name: None,
            sex: Gender::Unknown,
            events: Seq::empty(),
            families: Seq::empty(),
        }
    }

    /// The individual is linked to each family at most once.
    pub open spec fn wf(self) -> bool {
        distinct_families(self.families)
    }
}

impl View for Individual {
    type V = IndividualView;

    open spec fn view(&self) -> IndividualView {
        IndividualView {
            xref: self.xref.deep_view(),
            name: self.name.deep_view(),
            sex: self.sex,
            events: self.events.deep_view(),
            families: self.families.deep_view(),
        }
    }
}

impl DeepView for Individual {
    type V = IndividualView;

    open spec fn deep_view(&self) -> IndividualView {
        self@
    }
}

impl Individual {
    /// An individual with the given id, of unknown gender, with no name, no
    /// events and no families.
    #[must_use]
    pub fn new(xref: Option<String>) -> (individual: Individual)
        ensures
            individual@ == IndividualView::new(xref.deep_view()),
            individual@.wf(),
    {
        let individual = Individual {
            xref,
            name: None,
            sex: Gender::Unknown,
            events: Vec::new(),
            families: Vec::new(),
        };
        assert(individual@.events =~= Seq::empty());
        assert(individual@.families =~= Seq::empty());
        individual
    }

    /// Appends a family link, unless the individual is linked to that family
    /// already: then the earlier link stays and `link` is dropped.
    pub fn add_family(&mut self, link: FamilyLink)
        ensures
            final(self)@ == (IndividualView {
                families: with_family(old(self)@.families, link@),
                ..old(self)@
            }),
            old(self)@.wf() ==> final(self)@.wf(),
    {
        let mut do_add = true;
        let mut i: usize = 0;
        while i < self.families.len()
            invariant
                *self == *old(self),
                i <= self.families.len(),
                do_add == !knows_family(self.families.deep_view().take(i as int), link@.xref),
            decreases self.families.len() - i,
        {
            let ghost seen = self.families.deep_view().take(i as int);
            let ghost more = self.families.deep_view().take(i as int + 1);
            let same = str_eq(self.families[i].0.as_str(), link.0.as_str());
            proof {
                assert(more == seen.push(self.families.deep_view()[i as int]));
                if same {
                    assert(more[i as int].xref == link@.xref);
                } else if knows_family(more, link@.xref) {
                    let k = choose|k: int| 0 <= k < more.len() && (#[trigger] more[k]).xref == link@.xref;
                    assert(seen[k].xref == link@.xref);
                } else if knows_family(seen, link@.xref) {
                    let k = choose|k: int| 0 <= k < seen.len() && (#[trigger] seen[k]).xref == link@.xref;
                    assert(more[k].xref == link@.xref);
                }
            }
            if same {
                do_add = false;
            }
            i += 1;
        }
        assert(self.families.deep_view().take(i as int) == self.families.deep_view());
        if do_add {
            let ghost before = self.families;
            self.families.push(link);
            proof {
                lemma_push_deep_view(before, self.families, link);
                if old(self)@.wf() {
                    lemma_with_family_distinct(old(self)@.families, link@);
                }
            }
        }
    }

    /// Appends an event; the earlier ones keep their places.
    pub fn add_event(&mut self, event: Event)
        ensures
            final(self)@ == (IndividualView {
                events: old(self)@.events.push(event@),
                ..old(self)@
            }),
    {
        let ghost before = self.events;
        self.events.push(event);
        proof {
            lemma_push_deep_view(before, self.events, event);
        }
    }
}

/// Adding a link under the rule of `with_family` keeps the families distinct.
pub proof fn lemma_with_family_distinct(links: Seq<FamilyLinkView>, link: FamilyLinkView)
    requires
        distinct_families(links),
    ensures
        distinct_families(with_family(links, link)),
{
    if !knows_family(links, link.xref) {
        let grown = links.push(link);
        assert forall|i: int, j: int| 0 <= i < j < grown.len() implies (#[trigger] grown[i]).xref
            != (#[trigger] grown[j]).xref by {
            if j < links.len() {
                assert(links[i].xref != links[j].xref);
            } else {
                assert(links[i].xref != link.xref);
            }
        }
    }
}

} // verus!
