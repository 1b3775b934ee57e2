//! Repositories that hold sources, and the citations that point to them.

use crate::types::address::{Address, AddressView};
use vstd::prelude::*;

verus! {

/// A place where sources are kept.
#[derive(Debug, PartialEq, Eq)]
pub struct Repository {
    pub xref: Option<String>,
    pub name: Option<String>,
    pub address: Option<Address>,
}

/// A repository with its strings as character sequences.
pub struct RepositoryView {
    pub xref: Option<Seq<char>>,
    pub name: Option<Seq<char>>,
    pub address: Option<AddressView>,
}

impl RepositoryView {
    /// The repository `xref` of which nothing else is known.
    pub open spec fn new(xref: Option<Seq<char>>) -> RepositoryView {
        RepositoryView { xref, name: None, address: None }
    }
}

impl View for Repository {
    type V = RepositoryView;

    open spec fn view(&self) -> RepositoryView {
        RepositoryView {
            xref: self.xref.deep_view(),
            name: self.name.deep_view(),
            address: self.address.deep_view(),
        }
    }
}

impl DeepView for Repository {
    type V = RepositoryView;

    open spec fn deep_view(&self) -> RepositoryView {
        self@
    }
}

/// A reference from a source to the repository that holds it.
#[derive(Debug, PartialEq, Eq)]
pub struct RepoCitation {
    /// The cross-reference id of the repository.
    pub xref: String,
    pub call_number: Option<String>,
}

/// A repository citation with its strings as character sequences.
pub struct RepoCitationView {
    pub xref: Seq<char>,
    pub call_number: Option<Seq<char>>,
}

impl View for RepoCitation {
    type V = RepoCitationView;

    open spec fn view(&self) -> RepoCitationView {
        RepoCitationView { xref: self.xref@, call_number: self.call_number.deep_view() }
    }
}

impl DeepView for RepoCitation {
    type V = RepoCitationView;

    open spec fn deep_view(&self) -> RepoCitationView {
        self@
    }
}

} // verus!
