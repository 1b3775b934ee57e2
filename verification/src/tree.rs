//! The tree of records that a parse builds.

use crate::text::{lemma_push_deep_view, str_eq};
use crate::types::{
    Family, FamilyView, Individual, IndividualView, Repository, RepositoryView, Source, SourceView,
    Submitter, SubmitterView,
};
use vstd::prelude::*;

verus! {

/// All records of a file, each kind in the order in which the file gave them.
/// Records are only ever appended.
#[derive(Debug, PartialEq, Eq)]
pub struct GedcomData {
    pub families: Vec<Family>,
    pub individuals: Vec<Individual>,
    pub repositories: Vec<Repository>,
    pub sources: Vec<Source>,
    pub submitters: Vec<Submitter>,
}

/// A tree with its records as views.
pub struct GedcomDataView {
    pub families: Seq<FamilyView>,
    pub individuals: Seq<IndividualView>,
    pub repositories: Seq<RepositoryView>,
    pub sources: Seq<SourceView>,
    pub submitters: Seq<SubmitterView>,
}

impl GedcomDataView {
    /// The tree without records.
    pub open spec fn empty() -> GedcomDataView {
        GedcomDataView {
            families: Seq::empty(),
            individuals: Seq::empty(),
            repositories: Seq::empty(),
            sources: Seq::empty(),
            submitters: Seq::empty(),
        }
    }
}

/// The position of the first of `ids` that is `xref`, if there is one.
pub open spec fn first_with_id(ids: Seq<Option<Seq<char>>>, xref: Seq<char>) -> Option<int>
    decreases ids.len(),
{
    if ids.len() == 0 {
        None
    } else if ids.last() == Some(xref) && first_with_id(ids.drop_last(), xref) is None {
        Some(ids.len() - 1)
    } else {
        first_with_id(ids.drop_last(), xref)
    }
}

/// What `first_with_id` finds is a position of `xref` with none before it;
/// it finds nothing only where `xref` is not among `ids`.
pub proof fn lemma_first_with_id(ids: Seq<Option<Seq<char>>>, xref: Seq<char>)
    ensures
        match first_with_id(ids, xref) {
            Some(i) => 0 <= i < ids.len() && ids[i] == Some(xref) && forall|j: int|
                0 <= j < i ==> ids[j] != Some(xref),
            None => forall|j: int| 0 <= j < ids.len() ==> ids[j] != Some(xref),
        },
    decreases ids.len(),
{
    if ids.len() > 0 {
        lemma_first_with_id(ids.drop_last(), xref);
        assert forall|j: int| 0 <= j < ids.len() - 1 implies ids[j] == ids.drop_last()[j] by {}
    }
}

impl GedcomDataView {
    /// The ids of the families, in their order.
    pub open spec fn family_ids(self) -> Seq<Option<Seq<char>>> {
        self.families.map_values(|record: FamilyView| record.xref)
    }

    /// The ids of the individuals, in their order.
    pub open spec fn individual_ids(self) -> Seq<Option<Seq<char>>> {
        self.individuals.map_values(|record: IndividualView| record.xref)
    }

    /// The ids of the repositories, in their order.
    pub open spec fn repository_ids(self) -> Seq<Option<Seq<char>>> {
        self.repositories.map_values(|record: RepositoryView| record.xref)
    }

    /// The ids of the sources, in their order.
    pub open spec fn source_ids(self) -> Seq<Option<Seq<char>>> {
        self.sources.map_values(|record: SourceView| record.xref)
    }

    /// The ids of the submitters, in their order.
    pub open spec fn submitter_ids(self) -> Seq<Option<Seq<char>>> {
        self.submitters.map_values(|record: SubmitterView| record.xref)
    }
}

impl View for GedcomData {
    type V = GedcomDataView;

    open spec fn view(&self) -> GedcomDataView {
        GedcomDataView {
            families: self.families.deep_view(),
            individuals: self.individuals.deep_view(),
            repositories: self.repositories.deep_view(),
            sources: self.sources.deep_view(),
            submitters: self.submitters.deep_view(),
        }
    }
}

impl Default for GedcomData {
    fn default() -> (data: GedcomData)
        ensures
            data@ == GedcomDataView::empty(),
    {
        let data = GedcomData {
            families: Vec::new(),
            individuals: Vec::new(),
            repositories: Vec::new(),
            sources: Vec::new(),
            submitters: Vec::new(),
        };
        assert(data@.families =~= Seq::empty());
        assert(data@.individuals =~= Seq::empty());
        assert(data@.repositories =~= Seq::empty());
        assert(data@.sources =~= Seq::empty());
        assert(data@.submitters =~= Seq::empty());
        data
    }
}

impl GedcomData {
    /// Appends a family record.
    pub fn add_family(&mut self, family: Family)
        ensures
            final(self)@ == (GedcomDataView {
                families: old(self)@.families.push(family@),
                ..old(self)@
            }),
    {
        let ghost before = self.families;
        self.families.push(family);
        proof {
            lemma_push_deep_view(before, self.families, family);
        }
    }

    /// Appends an individual record.
    pub fn add_individual(&mut self, individual: Individual)
        ensures
            final(self)@ == (GedcomDataView {
                individuals: old(self)@.individuals.push(individual@),
                ..old(self)@
            }),
    {
        let ghost before = self.individuals;
        self.individuals.push(individual);
        proof {
            lemma_push_deep_view(before, self.individuals, individual);
        }
    }

    /// Appends a repository record.
    pub fn add_repository(&mut self, repository: Repository)
        ensures
            final(self)@ == (GedcomDataView {
                repositories: old(self)@.repositories.push(repository@),
                ..old(self)@
            }),
    {
        let ghost before = self.repositories;
        self.repositories.push(repository);
        proof {
            lemma_push_deep_view(before, self.repositories, repository);
        }
    }

    /// Appends a source record.
    pub fn add_source(&mut self, source: Source)
        ensures
            final(self)@ == (GedcomDataView {
                sources: old(self)@.sources.push(source@),
                ..old(self)@
            }),
    {
        let ghost before = self.sources;
        self.sources.push(source);
        proof {
            lemma_push_deep_view(before, self.sources, source);
        }
    }

    /// Appends a submitter record.
    pub fn add_submitter(&mut self, submitter: Submitter)
        ensures
            final(self)@ == (GedcomDataView {
                submitters: old(self)@.submitters.push(submitter@),
                ..old(self)@
            }),
    {
        let ghost before = self.submitters;
        self.submitters.push(submitter);
        proof {
            lemma_push_deep_view(before, self.submitters, submitter);
        }
    }

    /// The first family with the id `xref`.
    pub fn family(&self, xref: &str) -> (found: Option<&Family>)
        ensures
            match first_with_id(self@.family_ids(), xref@) {
                Some(i) => found matches Some(record) && record@ == self@.families[i],
                None => found is None,
            },
    {
        let mut i: usize = 0;
        while i < self.families.len()
            invariant
                i <= self.families.len(),
                first_with_id(self@.family_ids().take(i as int), xref@) is None,
            decreases self.families.len() - i,
        {
            let same = match &self.families[i].xref {
                Some(id) => str_eq(id.as_str(), xref),
                None => false,
            };
            proof {
                let ids = self@.family_ids();
                assert(ids.take(i as int + 1).drop_last() == ids.take(i as int));
                assert(ids.take(i as int + 1).last() == self@.families[i as int].xref);
            }
            if same {
                proof {
                    let ids = self@.family_ids();
                    lemma_first_stays(ids, i as int + 1, xref@);
                }
                return Some(&self.families[i]);
            }
            i += 1;
        }
        assert(self@.family_ids().take(i as int) == self@.family_ids());
        None
    }

    /// The first individual with the id `xref`.
    pub fn individual(&self, xref: &str) -> (found: Option<&Individual>)
        ensures
            match first_with_id(self@.individual_ids(), xref@) {
                Some(i) => found matches Some(record) && record@ == self@.individuals[i],
                None => found is None,
            },
    {
        let mut i: usize = 0;
        while i < self.individuals.len()
            invariant
                i <= self.individuals.len(),
                first_with_id(self@.individual_ids().take(i as int), xref@) is None,
            decreases self.individuals.len() - i,
        {
            let same = match &self.individuals[i].xref {
                Some(id) => str_eq(id.as_str(), xref),
                None => false,
            };
            proof {
                let ids = self@.individual_ids();
                assert(ids.take(i as int + 1).drop_last() == ids.take(i as int));
                assert(ids.take(i as int + 1).last() == self@.individuals[i as int].xref);
            }
            if same {
                proof {
                    let ids = self@.individual_ids();
                    lemma_first_stays(ids, i as int + 1, xref@);
                }
                return Some(&self.individuals[i]);
            }
            i += 1;
        }
        assert(self@.individual_ids().take(i as int) == self@.individual_ids());
        None
    }

    /// The first repository with the id `xref`.
    pub fn repository(&self, xref: &str) -> (found: Option<&Repository>)
        ensures
            match first_with_id(self@.repository_ids(), xref@) {
                Some(i) => found matches Some(record) && record@ == self@.repositories[i],
                None => found is None,
            },
    {
        let mut i: usize = 0;
        while i < self.repositories.len()
            invariant
                i <= self.repositories.len(),
                first_with_id(self@.repository_ids().take(i as int), xref@) is None,
            decreases self.repositories.len() - i,
        {
            let same = match &self.repositories[i].xref {
                Some(id) => str_eq(id.as_str(), xref),
                None => false,
            };
            proof {
                let ids = self@.repository_ids();
                assert(ids.take(i as int + 1).drop_last() == ids.take(i as int));
                assert(ids.take(i as int + 1).last() == self@.repositories[i as int].xref);
            }
            if same {
                proof {
                    let ids = self@.repository_ids();
                    lemma_first_stays(ids, i as int + 1, xref@);
                }
                return Some(&self.repositories[i]);
            }
            i += 1;
        }
        assert(self@.repository_ids().take(i as int) == self@.repository_ids());
        None
    }

    /// The first source with the id `xref`.
    pub fn source(&self, xref: &str) -> (found: Option<&Source>)
        ensures
            match first_with_id(self@.source_ids(), xref@) {
                Some(i) => found matches Some(record) && record@ == self@.sources[i],
                None => found is None,
            },
    {
        let mut i: usize = 0;
        while i < self.sources.len()
            invariant
                i <= self.sources.len(),
                first_with_id(self@.source_ids().take(i as int), xref@) is None,
            decreases self.sources.len() - i,
        {
            let same = match &self.sources[i].xref {
                Some(id) => str_eq(id.as_str(), xref),
                None => false,
            };
            proof {
                let ids = self@.source_ids();
                assert(ids.take(i as int + 1).drop_last() == ids.take(i as int));
                assert(ids.take(i as int + 1).last() == self@.sources[i as int].xref);
            }
            if same {
                proof {
                    let ids = self@.source_ids();
                    lemma_first_stays(ids, i as int + 1, xref@);
                }
                return Some(&self.sources[i]);
            }
            i += 1;
        }
        assert(self@.source_ids().take(i as int) == self@.source_ids());
        None
    }

    /// The first submitter with the id `xref`.
    pub fn submitter(&self, xref: &str) -> (found: Option<&Submitter>)
        ensures
            match first_with_id(self@.submitter_ids(), xref@) {
                Some(i) => found matches Some(record) && record@ == self@.submitters[i],
                None => found is None,
            },
    {
        let mut i: usize = 0;
        while i < self.submitters.len()
            invariant
                i <= self.submitters.len(),
                first_with_id(self@.submitter_ids().take(i as int), xref@) is None,
            decreases self.submitters.len() - i,
        {
            let same = match &self.submitters[i].xref {
                Some(id) => str_eq(id.as_str(), xref),
                None => false,
            };
            proof {
                let ids = self@.submitter_ids();
                assert(ids.take(i as int + 1).drop_last() == ids.take(i as int));
                assert(ids.take(i as int + 1).last() == self@.submitters[i as int].xref);
            }
            if same {
                proof {
                    let ids = self@.submitter_ids();
                    lemma_first_stays(ids, i as int + 1, xref@);
                }
                return Some(&self.submitters[i]);
            }
            i += 1;
        }
        assert(self@.submitter_ids().take(i as int) == self@.submitter_ids());
        None
    }
}

/// What is first among the leading `n` ids is first among them all.
pub proof fn lemma_first_stays(ids: Seq<Option<Seq<char>>>, n: int, xref: Seq<char>)
    requires
        0 <= n <= ids.len(),
        first_with_id(ids.take(n), xref) is Some,
    ensures
        first_with_id(ids, xref) == first_with_id(ids.take(n), xref),
    decreases ids.len() - n,
{
    if n < ids.len() {
        assert(ids.take(n + 1).drop_last() == ids.take(n));
        lemma_first_stays(ids, n + 1, xref);
    } else {
        assert(ids.take(n) == ids);
    }
}

} // verus!
