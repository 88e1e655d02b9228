use vstd::prelude::*;

verus! {

/// The identity of a subscription: a category and a callback URL.
pub type SubscriptionKey = (Seq<char>, Seq<char>);

/// A subscriber: a callback URL registered under a category.
///
/// The pair (category, url) is the subscriber's identity.
#[derive(Clone, Debug)]
pub struct Subscriber {
    pub category: String,
    pub url: String,
}

impl Subscriber {
    /// The identity of this subscriber.
    pub open spec fn key(self) -> SubscriptionKey {
        (self.category@, self.url@)
    }

    /// A subscriber for `url` under `category`.
    pub fn new(category: &str, url: &str) -> (s: Subscriber)
        ensures
            s.category@ == category@,
            s.url@ == url@,
    {
        Subscriber { category: category.to_owned(), url: url.to_owned() }
    }
}

impl PartialEq for Subscriber {
    fn eq(&self, other: &Subscriber) -> (r: bool) {
        self.category == other.category && self.url == other.url
    }
}

impl vstd::std_specs::cmp::PartialEqSpecImpl for Subscriber {
    open spec fn obeys_eq_spec() -> bool {
        true
    }

    open spec fn eq_spec(&self, other: &Subscriber) -> bool {
        self.key() == other.key()
    }
}

impl Eq for Subscriber {
}

} // verus!
