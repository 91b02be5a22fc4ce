use vstd::prelude::*;

verus! {

/// The mathematical value of a [`Subscriber`].
pub struct SubscriberView {
    pub url: Seq<char>,
    pub name: Seq<char>,
}

/// An endpoint registered to receive the messages of a product type.
///
/// The `url` identifies the subscriber within a product type; `name` is
/// payload that the registry stores and hands back without reading it.
#[derive(Debug, PartialEq, Eq)]
pub struct Subscriber {
    pub url: String,
    pub name: String,
}

impl View for Subscriber {
    type V = SubscriberView;

    open spec fn view(&self) -> SubscriberView {
        SubscriberView { url: self.url@, name: self.name@ }
    }
}

impl Clone for Subscriber {
    fn clone(&self) -> (copy: Self)
        ensures
            copy@ == self@,
    {
        Subscriber { url: self.url.clone(), name: self.name.clone() }
    }
}

} // verus!
