//! Submitters of the file's data.

use crate::types::address::{Address, AddressView};
use vstd::prelude::*;

verus! {

/// Who handed the data in.
#[derive(Debug, PartialEq, Eq)]
pub struct Submitter {
    pub xref: Option<String>,
    pub name: Option<String>,
    pub address: Option<Address>,
    pub phone: Option<String>,
}

/// A submitter with its strings as character sequences.
pub struct SubmitterView {
    pub xref: Option<Seq<char>>,
    pub name: Option<Seq<char>>,
    pub address: Option<AddressView>,
    pub phone: Option<Seq<char>>,
}

impl SubmitterView {
    /// The submitter `xref` of whom nothing else is known.
    pub open spec fn new(xref: Option<Seq<char>>) -> SubmitterView {
        SubmitterView { xref, name: None, address: None, phone: None }
    }
}

impl View for Submitter {
    type V = SubmitterView;

    open spec fn view(&self) -> SubmitterView {
        SubmitterView {
            xref: self.xref.deep_view(),
            name: self.name.deep_view(),
            address: self.address.deep_view(),
            phone: self.phone.deep_view(),
        }
    }
}

impl DeepView for Submitter {
    type V = SubmitterView;

    open spec fn deep_view(&self) -> SubmitterView {
        self@
    }
}

impl Submitter {
    /// A submitter with the given id and nothing else set.
    #[must_use]
    pub fn new(xref: Option<String>) -> (submitter: Submitter)
        ensures
            submitter@ == SubmitterView::new(xref.deep_view()),
    {
        Submitter { xref, name: None, address: None, phone: None }
    }
}

} // verus!
