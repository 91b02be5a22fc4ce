use crate::model::{Subscriber, SubscriberView};
use crate::store::{
    empty_registry, has_partition, lists_entries, open_partition, partition_get, partition_insert,
    partition_remove, partition_values, partitions,
};
use dashmap::DashMap;
use vstd::prelude::*;

verus! {

/// The mathematical value of a registry: for each product type that has a
/// partition, the subscribers of that partition by URL.
pub type RegistryState = Map<Seq<char>, Map<Seq<char>, SubscriberView>>;

/// Every partition is finite, and so is their number; each subscriber is
/// stored under its own URL.
pub open spec fn well_formed(state: RegistryState) -> bool {
    &&& state.dom().finite()
    &&& forall|product_type: Seq<char>| #[trigger]
        state.contains_key(product_type) ==> state[product_type].dom().finite()
    &&& forall|product_type: Seq<char>, url: Seq<char>|
        state.contains_key(product_type) && #[trigger] state[product_type].contains_key(url)
            ==> state[product_type][url].url == url
}

/// The partition of a product type, empty where the product type has none.
pub open spec fn partition_of(state: RegistryState, product_type: Seq<char>) -> Map<
    Seq<char>,
    SubscriberView,
> {
    if state.contains_key(product_type) {
        state[product_type]
    } else {
        Map::empty()
    }
}

/// The registry after a subscriber was added under a product type: the
/// product type has a partition, and in it the subscriber's URL is bound to
/// the subscriber. Nothing else differs.
pub open spec fn state_after_add(
    state: RegistryState,
    product_type: Seq<char>,
    subscriber: SubscriberView,
) -> RegistryState {
    state.insert(product_type, partition_of(state, product_type).insert(subscriber.url, subscriber))
}

/// The registry after the subscriber with the URL was removed from a product
/// type: where the product type has a partition, the URL is unbound in it,
/// and the partition stays. Nothing else differs.
pub open spec fn state_after_remove(
    state: RegistryState,
    product_type: Seq<char>,
    url: Seq<char>,
) -> RegistryState {
    if state.contains_key(product_type) {
        state.insert(product_type, state[product_type].remove(url))
    } else {
        state
    }
}

/// A two-level registry of subscribers: product type, then URL.
///
/// Whoever changes the registry holds it exclusively for the length of the
/// call, so each operation takes effect as a whole and in some order with
/// the others. What is handed out is a copy: no caller holds a reference into
/// the registry.
pub struct SubscriberRepository {
    subscribers: DashMap<String, DashMap<String, Subscriber>>,
}

impl View for SubscriberRepository {
    type V = RegistryState;

    closed spec fn view(&self) -> RegistryState {
        partitions(self.subscribers)
    }
}

impl SubscriberRepository {
    #[verifier::type_invariant]
    spec fn inv(self) -> bool {
        well_formed(partitions(self.subscribers))
    }

    /// A registry without partitions.
    pub fn new() -> (repository: Self)
        ensures
            repository@ == RegistryState::empty(),
            well_formed(repository@),
    {
        let subscribers = empty_registry();
        assert(partitions(subscribers) =~= RegistryState::empty());
        let repository = SubscriberRepository { subscribers };
        assert(repository@ =~= RegistryState::empty());
        repository
    }

    /// Stores the subscriber under the product type and its own URL, opening
    /// the product type's partition if there is none yet, and replacing an
    /// earlier subscriber with the same URL in that partition. Returns a copy
    /// of what was stored.
    pub fn add(&mut self, product_type: &str, subscriber: Subscriber) -> (stored: Subscriber)
        ensures
            final(self)@ == state_after_add(old(self)@, product_type@, subscriber@),
            well_formed(final(self)@),
            stored@ == subscriber@,
    {
        proof {
            use_type_invariant(&*self);
        }
        let record = subscriber.clone();
        if !has_partition(&self.subscribers, product_type) {
            open_partition(&mut self.subscribers, product_type.to_owned());
        }
        let url = record.url.clone();
        partition_insert(&mut self.subscribers, product_type, url, record);
        proof {
            assert(final(self)@ =~= state_after_add(old(self)@, product_type@, subscriber@));
        }
        subscriber
    }

    /// Whether the product type has a partition, empty or not.
    pub fn has_product_type(&self, product_type: &str) -> (found: bool)
        ensures
            found == self@.contains_key(product_type@),
    {
        has_partition(&self.subscribers, product_type)
    }

    /// A copy of the subscriber stored under the product type and the URL, if
    /// there is one.
    pub fn get(&self, product_type: &str, url: &str) -> (found: Option<Subscriber>)
        ensures
            match found {
                Some(subscriber) => partition_of(self@, product_type@).contains_key(url@)
                    && subscriber@ == partition_of(self@, product_type@)[url@]
                    && subscriber@.url == url@,
                None => !partition_of(self@, product_type@).contains_key(url@),
            },
    {
        proof {
            use_type_invariant(self);
        }
        if has_partition(&self.subscribers, product_type) {
            partition_get(&self.subscribers, product_type, url)
        } else {
            None
        }
    }

    /// Takes out the subscriber stored under the product type and the URL, if
    /// there is one, and returns it. The product type keeps its partition.
    pub fn remove(&mut self, product_type: &str, url: &str) -> (removed: Option<Subscriber>)
        ensures
            final(self)@ == state_after_remove(old(self)@, product_type@, url@),
            well_formed(final(self)@),
            match removed {
                Some(subscriber) => partition_of(old(self)@, product_type@).contains_key(url@)
                    && subscriber@ == partition_of(old(self)@, product_type@)[url@]
                    && subscriber@.url == url@,
                None => !partition_of(old(self)@, product_type@).contains_key(url@),
            },
    {
        proof {
            use_type_invariant(&*self);
        }
        if has_partition(&self.subscribers, product_type) {
            let removed = partition_remove(&mut self.subscribers, product_type, url);
            proof {
                assert(final(self)@ =~= state_after_remove(old(self)@, product_type@, url@));
            }
            removed
        } else {
            None
        }
    }

    /// Copies of the subscribers of a product type, each once, in no stated
    /// order; none where the product type has no partition.
    pub fn list_by_product_type(&self, product_type: &str) -> (listed: Vec<Subscriber>)
        ensures
            listed@.len() == partition_of(self@, product_type@).len(),
            forall|i: int|
                0 <= i < listed@.len() ==> partition_of(self@, product_type@).contains_key(
                    (#[trigger] listed@[i])@.url,
                ) && partition_of(self@, product_type@)[listed@[i]@.url] == listed@[i]@,
            forall|i: int, j: int|
                0 <= i < j < listed@.len() ==> listed@[i]@.url != listed@[j]@.url,
            forall|url: Seq<char>|
                partition_of(self@, product_type@).contains_key(url) ==> exists|i: int|
                    0 <= i < listed@.len() && (#[trigger] listed@[i])@.url == url,
    {
        if has_partition(&self.subscribers, product_type) {
            let listed = partition_values(&self.subscribers, product_type);
            proof {
                use_type_invariant(self);
                let entries = self@[product_type@];
                let keys = choose|keys: Seq<Seq<char>>| lists_entries(entries, keys, listed@);
                assert forall|i: int| 0 <= i < keys.len() implies (#[trigger] listed@[i])@.url
                    == keys[i] by {
                    assert(keys.contains(keys[i]));
                    assert(entries.contains_key(keys[i]));
                }
                keys.unique_seq_to_set();
                assert(keys.to_set() =~= entries.dom());
                assert forall|url: Seq<char>| entries.contains_key(url) implies exists|i: int|
                    0 <= i < listed@.len() && (#[trigger] listed@[i])@.url == url by {
                    assert(keys.contains(url));
                    let i = choose|i: int| 0 <= i < keys.len() && keys[i] == url;
                    assert(listed@[i]@.url == url);
                }
            }
            listed
        } else {
            Vec::new()
        }
    }
}

} // verus!
