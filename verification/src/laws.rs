//! What holds of the registry's operations, stated over the registry's
//! mathematical value and proved.

use crate::model::SubscriberView;
use crate::repository::{partition_of, state_after_add, state_after_remove, well_formed, RegistryState};
use vstd::prelude::*;

verus! {

/// The registry after the subscribers were added under one product type, one
/// after the other in the order of the sequence.
pub open spec fn state_after_add_all(
    state: RegistryState,
    product_type: Seq<char>,
    subscribers: Seq<SubscriberView>,
) -> RegistryState
    decreases subscribers.len(),
{
    if subscribers.len() == 0 {
        state
    } else {
        state_after_add(
            state_after_add_all(state, product_type, subscribers.drop_last()),
            product_type,
            subscribers.last(),
        )
    }
}

/// No two subscribers of the sequence share a URL.
pub open spec fn distinct_urls(subscribers: Seq<SubscriberView>) -> bool {
    forall|i: int, j: int|
        0 <= i < j < subscribers.len() ==> subscribers[i].url != subscribers[j].url
}

/// Adding a subscriber to a well-formed registry leaves a well-formed
/// registry.
pub proof fn lemma_add_preserves_well_formed(
    state: RegistryState,
    product_type: Seq<char>,
    subscriber: SubscriberView,
)
    requires
        well_formed(state),
    ensures
        well_formed(state_after_add(state, product_type, subscriber)),
{
}

/// Removing a subscriber from a well-formed registry leaves a well-formed
/// registry.
pub proof fn lemma_remove_preserves_well_formed(
    state: RegistryState,
    product_type: Seq<char>,
    url: Seq<char>,
)
    requires
        well_formed(state),
    ensures
        well_formed(state_after_remove(state, product_type, url)),
{
}

/// The last write wins. After two subscribers with the same URL were added
/// under one product type, the registry is what adding the second alone
/// would have made it: the URL is bound to the second subscriber, and the
/// partition holds that one entry beside the entries that it had under other
/// URLs.
pub proof fn lemma_add_overwrites(
    state: RegistryState,
    product_type: Seq<char>,
    first: SubscriberView,
    second: SubscriberView,
)
    requires
        well_formed(state),
        first.url == second.url,
    ensures
        state_after_add(state_after_add(state, product_type, first), product_type, second)
            == state_after_add(state, product_type, second),
        partition_of(
            state_after_add(state_after_add(state, product_type, first), product_type, second),
            product_type,
        ) == partition_of(state, product_type).remove(second.url).insert(second.url, second),
        partition_of(
            state_after_add(state_after_add(state, product_type, first), product_type, second),
            product_type,
        ).len() == partition_of(state, product_type).remove(second.url).len() + 1,
{
    let once = state_after_add(state, product_type, second);
    let twice = state_after_add(state_after_add(state, product_type, first), product_type, second);
    assert(twice =~~= once);
    let others = partition_of(state, product_type).remove(second.url);
    assert(partition_of(twice, product_type) =~= others.insert(second.url, second));
    assert(others.dom().finite());
}

/// Partitions are isolated. Adding a subscriber under one product type
/// neither opens a partition for another product type nor changes the
/// partition that the other has.
pub proof fn lemma_add_isolates_partitions(
    state: RegistryState,
    product_type: Seq<char>,
    subscriber: SubscriberView,
    other: Seq<char>,
)
    requires
        other != product_type,
    ensures
        state_after_add(state, product_type, subscriber).contains_key(other) == state.contains_key(
            other,
        ),
        partition_of(state_after_add(state, product_type, subscriber), other) == partition_of(
            state,
            other,
        ),
{
}

/// Within a partition, adding a subscriber touches its own URL only: every
/// other URL is bound as before, or unbound as before.
pub proof fn lemma_add_keeps_other_urls(
    state: RegistryState,
    product_type: Seq<char>,
    subscriber: SubscriberView,
    url: Seq<char>,
)
    requires
        url != subscriber.url,
    ensures
        partition_of(state_after_add(state, product_type, subscriber), product_type).contains_key(
            url,
        ) == partition_of(state, product_type).contains_key(url),
        partition_of(state, product_type).contains_key(url) ==> partition_of(
            state_after_add(state, product_type, subscriber),
            product_type,
        )[url] == partition_of(state, product_type)[url],
{
}

/// A partition, once opened, stays: neither adding nor removing a subscriber,
/// under any product type, closes the partition of a product type, not even
/// when its last subscriber leaves.
pub proof fn lemma_partitions_persist(
    state: RegistryState,
    product_type: Seq<char>,
    subscriber: SubscriberView,
    url: Seq<char>,
    opened: Seq<char>,
)
    requires
        state.contains_key(opened),
    ensures
        state_after_add(state, product_type, subscriber).contains_key(opened),
        state_after_remove(state, product_type, url).contains_key(opened),
{
}

/// No write is lost. After subscribers with pairwise distinct URLs were
/// added under a product type that had no partition, in whatever order the
/// additions took effect, the partition holds exactly as many entries as
/// there were additions, and each subscriber is found under its own URL.
pub proof fn lemma_distinct_adds_all_present(
    state: RegistryState,
    product_type: Seq<char>,
    subscribers: Seq<SubscriberView>,
)
    requires
        well_formed(state),
        !state.contains_key(product_type),
        distinct_urls(subscribers),
    ensures
        well_formed(state_after_add_all(state, product_type, subscribers)),
        partition_of(state_after_add_all(state, product_type, subscribers), product_type).len()
            == subscribers.len(),
        forall|i: int|
            0 <= i < subscribers.len() ==> {
                let partition = partition_of(
                    state_after_add_all(state, product_type, subscribers),
                    product_type,
                );
                partition.contains_key(#[trigger] subscribers[i].url) && partition[subscribers[i].url]
                    == subscribers[i]
            },
{
    let urls = subscribers.map_values(|subscriber: SubscriberView| subscriber.url);
    lemma_add_all_partition(state, product_type, subscribers);
    assert(urls.no_duplicates());
    urls.unique_seq_to_set();
    let partition = partition_of(
        state_after_add_all(state, product_type, subscribers),
        product_type,
    );
    assert forall|i: int| 0 <= i < subscribers.len() implies partition.contains_key(
        #[trigger] subscribers[i].url,
    ) by {
        assert(urls[i] == subscribers[i].url);
        assert(urls.to_set().contains(urls[i]));
    }
}

/// The partition that a run of additions leaves under a product type without
/// an earlier partition: its URLs are those of the subscribers added, and
/// each is bound to the subscriber that came with it.
proof fn lemma_add_all_partition(
    state: RegistryState,
    product_type: Seq<char>,
    subscribers: Seq<SubscriberView>,
)
    requires
        well_formed(state),
        !state.contains_key(product_type),
        distinct_urls(subscribers),
    ensures
        well_formed(state_after_add_all(state, product_type, subscribers)),
        partition_of(state_after_add_all(state, product_type, subscribers), product_type).dom()
            == subscribers.map_values(|subscriber: SubscriberView| subscriber.url).to_set(),
        forall|i: int|
            0 <= i < subscribers.len() ==> partition_of(
                state_after_add_all(state, product_type, subscribers),
                product_type,
            )[#[trigger] subscribers[i].url] == subscribers[i],
    decreases subscribers.len(),
{
    let after = state_after_add_all(state, product_type, subscribers);
    let urls = subscribers.map_values(|subscriber: SubscriberView| subscriber.url);
    if subscribers.len() == 0 {
        assert(partition_of(after, product_type).dom() =~= urls.to_set());
    } else {
        let earlier = subscribers.drop_last();
        let last = subscribers.last();
        let before = state_after_add_all(state, product_type, earlier);
        let earlier_urls = earlier.map_values(|subscriber: SubscriberView| subscriber.url);
        lemma_add_all_partition(state, product_type, earlier);
        assert forall|url: Seq<char>|
            urls.to_set().contains(url) <==> earlier_urls.to_set().insert(last.url).contains(
                url,
            ) by {
            if urls.to_set().contains(url) {
                let i = choose|i: int| 0 <= i < urls.len() && urls[i] == url;
                if i < earlier.len() {
                    assert(earlier_urls[i] == url);
                }
            }
            if earlier_urls.to_set().contains(url) {
                let i = choose|i: int| 0 <= i < earlier_urls.len() && earlier_urls[i] == url;
                assert(urls[i] == url);
            }
            if url == last.url {
                assert(urls[subscribers.len() - 1] == url);
            }
        }
        assert(partition_of(after, product_type).dom() =~= urls.to_set());
        assert forall|i: int| 0 <= i < subscribers.len() implies partition_of(
            after,
            product_type,
        )[#[trigger] subscribers[i].url] == subscribers[i] by {
            if i < earlier.len() {
                assert(earlier[i] == subscribers[i]);
                assert(subscribers[i].url != last.url);
            }
        }
    }
}

} // verus!
