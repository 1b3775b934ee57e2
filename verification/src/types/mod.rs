//! The typed records that a parse produces.

pub mod address;
pub mod event;
pub mod family;
pub mod individual;
pub mod repository;
pub mod source;
pub mod submitter;

pub use address::{Address, AddressView};
pub use event::{Event, EventType, EventView, SourceCitation, SourceCitationView};
pub use family::{Family, FamilyView};
pub use individual::{
    distinct_families, gender_of, knows_family, link_type_of, pedigree_of, with_family, FamilyLink,
    FamilyLinkType, FamilyLinkView, Gender, Individual, IndividualView, Name, NameView, Pedigree,
};
pub use repository::{RepoCitation, RepoCitationView, Repository, RepositoryView};
pub use source::{Source, SourceData, SourceDataView, SourceView};
pub use submitter::{Submitter, SubmitterView};
