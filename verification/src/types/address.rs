//! Postal addresses of repositories and submitters.

use vstd::prelude::*;

verus! {

/// An address: the free-form lines as written, and its structured parts.
#[derive(Debug, PartialEq, Eq)]
pub struct Address {
    /// The lead line and its continuation lines, joined by newlines.
    pub value: Option<String>,
    pub adr1: Option<String>,
    pub adr2: Option<String>,
    pub adr3: Option<String>,
    pub city: Option<String>,
    pub state: Option<String>,
    pub post: Option<String>,
    pub country: Option<String>,
}

/// An address with its strings as character sequences.
pub struct AddressView {
    pub value: Option<Seq<char>>,
    pub adr1: Option<Seq<char>>,
    pub adr2: Option<Seq<char>>,
    pub adr3: Option<Seq<char>>,
    pub city: Option<Seq<char>>,
    pub state: Option<Seq<char>>,
    pub post: Option<Seq<char>>,
    pub country: Option<Seq<char>>,
}

impl AddressView {
    /// The address with no part set.
    pub open spec fn empty() -> AddressView {
        AddressView {
            value: None,
            adr1: None,
            adr2: None,
            adr3: None,
            city: None,
            state: None,
            post: None,
            country: None,
        }
    }
}

impl View for Address {
    type V = AddressView;

    open spec fn view(&self) -> AddressView {
        AddressView {
            value: self.value.deep_view(),
            adr1: self.adr1.deep_view(),
            adr2: self.adr2.deep_view(),
            adr3: self.adr3.deep_view(),
            city: self.city.deep_view(),
            state: self.state.deep_view(),
            post: self.post.deep_view(),
            country: self.country.deep_view(),
        }
    }
}

impl DeepView for Address {
    type V = AddressView;

    open spec fn deep_view(&self) -> AddressView {
        self@
    }
}

impl Default for Address {
    fn default() -> (address: Address)
        ensures
            address@ == AddressView::empty(),
    {
        Address {
            value: None,
            adr1: None,
            adr2: None,
            adr3: None,
            city: None,
            state: None,
            post: None,
            country: None,
        }
    }
}

} // verus!
