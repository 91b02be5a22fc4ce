//! The concurrent map that backs the registry, and what is taken on trust
//! about it.

use crate::model::{Subscriber, SubscriberView};
use dashmap::DashMap;
use vstd::prelude::*;

verus! {

/// `dashmap::DashMap`, taken as an opaque type: nothing is known of a value
/// of it but what the functions below state.
#[verifier::external_type_specification]
#[verifier::external_body]
#[verifier::reject_recursive_types(K)]
#[verifier::reject_recursive_types(V)]
#[verifier::reject_recursive_types(S)]
pub struct ExDashMap<K, V, S>(DashMap<K, V, S>);

/// What a two-level map holds: for each product type that has a partition,
/// the records of that partition by the key they were stored under.
///
/// The map changes only through the functions of this module that take it by
/// `&mut`, so that its contents are a function of the value that the verifier
/// sees.
pub uninterp spec fn partitions(registry: DashMap<String, DashMap<String, Subscriber>>) -> Map<Seq<char>, Map<Seq<char>, SubscriberView>>;

/// Trusted: `DashMap::new` returns a map without entries.
#[verifier::external_body]
pub(crate) fn empty_registry() -> (registry: DashMap<String, DashMap<String, Subscriber>>)
    ensures
        forall|product_type: Seq<char>| !partitions(registry).contains_key(product_type),
{
    DashMap::new()
}

/// Trusted: `DashMap::contains_key` on the outer map tells whether the product
/// type has a partition.
#[verifier::external_body]
pub(crate) fn has_partition(
    registry: &DashMap<String, DashMap<String, Subscriber>>,
    product_type: &str,
) -> (found: bool)
    ensures
        found == partitions(*registry).contains_key(product_type@),
{
    registry.contains_key(product_type)
}

/// Trusted: `DashMap::insert` on the outer map, with a map fresh from
/// `DashMap::new` as the value, binds the product type to an empty partition,
/// replacing whatever it was bound to, and leaves every other product type
/// alone. Neither call panics.
#[verifier::external_body]
pub(crate) fn open_partition(
    registry: &mut DashMap<String, DashMap<String, Subscriber>>,
    product_type: String,
)
    ensures
        partitions(*final(registry)) == partitions(*old(registry)).insert(
            product_type@,
            Map::empty(),
        ),
    no_unwind
{
    registry.insert(product_type, DashMap::new());
}

/// Trusted: `DashMap::get` on the outer map yields the partition of a product
/// type that has one, and `DashMap::insert` on that partition binds the key to
/// the record, replacing an earlier record under the same key; nothing else
/// changes. `get` finds nothing, and the body would panic, where the product
/// type has no partition: the precondition leaves that out, and on what it
/// admits neither call panics.
#[verifier::external_body]
pub(crate) fn partition_insert(
    registry: &mut DashMap<String, DashMap<String, Subscriber>>,
    product_type: &str,
    url: String,
    subscriber: Subscriber,
)
    requires
        partitions(*old(registry)).contains_key(product_type@),
    ensures
        partitions(*final(registry)) == partitions(*old(registry)).insert(
            product_type@,
            partitions(*old(registry))[product_type@].insert(url@, subscriber@),
        ),
    no_unwind
{
    registry.get(product_type).unwrap().insert(url, subscriber);
}

/// Trusted: `DashMap::get` on the outer map and then on the partition found
/// yields the record stored under the key, if there is one; the record is
/// handed out as a clone. The precondition leaves out the product types
/// without a partition, on which the body would panic.
#[verifier::external_body]
pub(crate) fn partition_get(
    registry: &DashMap<String, DashMap<String, Subscriber>>,
    product_type: &str,
    url: &str,
) -> (found: Option<Subscriber>)
    requires
        partitions(*registry).contains_key(product_type@),
    ensures
        match found {
            Some(subscriber) => partitions(*registry)[product_type@].contains_key(url@)
                && subscriber@ == partitions(*registry)[product_type@][url@],
            None => !partitions(*registry)[product_type@].contains_key(url@),
        },
{
    registry.get(product_type).unwrap().get(url).map(|entry| entry.value().clone())
}

/// Trusted: `DashMap::get` on the outer map yields the partition of a product
/// type that has one, and `DashMap::remove` on that partition takes out the
/// entry under the key, if there is one, and returns its record; nothing else
/// changes, and the partition stays, emptied or not. The precondition leaves
/// out the product types without a partition, on which the body would panic;
/// on what it admits neither call panics.
#[verifier::external_body]
pub(crate) fn partition_remove(
    registry: &mut DashMap<String, DashMap<String, Subscriber>>,
    product_type: &str,
    url: &str,
) -> (removed: Option<Subscriber>)
    requires
        partitions(*old(registry)).contains_key(product_type@),
    ensures
        partitions(*final(registry)) == partitions(*old(registry)).insert(
            product_type@,
            partitions(*old(registry))[product_type@].remove(url@),
        ),
        match removed {
            Some(subscriber) => partitions(*old(registry))[product_type@].contains_key(url@)
                && subscriber@ == partitions(*old(registry))[product_type@][url@],
            None => !partitions(*old(registry))[product_type@].contains_key(url@),
        },
    no_unwind
{
    registry.get(product_type).unwrap().remove(url).map(|(_, subscriber)| subscriber)
}

/// The records `listed` are those of `entries`, each once, in the order of
/// the keys `keys`.
pub open spec fn lists_entries(
    entries: Map<Seq<char>, SubscriberView>,
    keys: Seq<Seq<char>>,
    listed: Seq<Subscriber>,
) -> bool {
    &&& keys.len() == listed.len()
    &&& keys.no_duplicates()
    &&& forall|key: Seq<char>| entries.contains_key(key) <==> keys.contains(key)
    &&& forall|i: int| 0 <= i < keys.len() ==> entries[#[trigger] keys[i]] == listed[i]@
}

/// Trusted: `DashMap::get` on the outer map yields the partition of a product
/// type that has one, and `DashMap::iter` on that partition visits each of its
/// entries once, in an order that is not stated; the records are handed out as
/// clones. The precondition leaves out the product types without a partition,
/// on which the body would panic.
#[verifier::external_body]
pub(crate) fn partition_values(
    registry: &DashMap<String, DashMap<String, Subscriber>>,
    product_type: &str,
) -> (listed: Vec<Subscriber>)
    requires
        partitions(*registry).contains_key(product_type@),
    ensures
        exists|keys: Seq<Seq<char>>|
            lists_entries(partitions(*registry)[product_type@], keys, listed@),
{
    registry.get(product_type).unwrap().iter().map(|entry| entry.value().clone()).collect()
}

} // verus!
