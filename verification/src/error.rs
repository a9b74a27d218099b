//! What can go wrong between the library and a venue.
use crate::market::Venue;
use vstd::prelude::*;

verus! {

#[derive(Debug, PartialEq, Eq)]
pub enum AdapterError {
    ParseError(String),
    InvalidRequest(String),
    Unavailable { venue: Venue, message: String },
}

/// An error in the model.
pub enum AdapterErrorView {
    ParseError(Seq<char>),
    InvalidRequest(Seq<char>),
    Unavailable { venue: Venue, message: Seq<char> },
}

impl View for AdapterError {
    type V = AdapterErrorView;

    open spec fn view(&self) -> AdapterErrorView {
        match *self {
            AdapterError::ParseError(message) => AdapterErrorView::ParseError(message@),
            AdapterError::InvalidRequest(message) => AdapterErrorView::InvalidRequest(message@),
            AdapterError::Unavailable { venue, message } => AdapterErrorView::Unavailable {
                venue,
                message: message@,
            },
        }
    }
}

impl AdapterError {
    pub fn parse(message: &str) -> (r: AdapterError)
        ensures
            r@ == AdapterErrorView::ParseError(message@),
    {
        AdapterError::ParseError(message.to_string())
    }

    pub fn invalid_request(message: &str) -> (r: AdapterError)
        ensures
            r@ == AdapterErrorView::InvalidRequest(message@),
    {
        AdapterError::InvalidRequest(message.to_string())
    }

    pub fn unavailable(venue: Venue, message: String) -> (r: AdapterError)
        ensures
            r@ == (AdapterErrorView::Unavailable { venue, message: message@ }),
    {
        AdapterError::Unavailable { venue, message }
    }
}

} // verus!
