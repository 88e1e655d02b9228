use crate::address::{absolute_url, is_absolute_url, is_valid_category, valid_category};
use crate::dispatch::{DeliveryOutcome, DeliveryReport, Notifier};
use crate::error::NotificationError;
use crate::registry::{add_result, key_of, remove_result, urls_of, views_of, Registry};
use crate::subscriber::{Subscriber, SubscriptionKey};
use vstd::prelude::*;

verus! {

/// Whether a (category, url) pair is acceptable input.
pub open spec fn valid_input(category: Seq<char>, url: Seq<char>) -> bool {
    valid_category(category) && absolute_url(url)
}

/// What subscribing `url` under `category` returns, given the registered
/// pairs `keys`.
pub open spec fn subscribe_result(keys: Set<SubscriptionKey>, category: Seq<char>, url: Seq<char>) -> Result<
    SubscriptionKey,
    NotificationError,
> {
    if !valid_input(category, url) {
        Err(NotificationError::InvalidInput)
    } else {
        add_result(keys, (category, url))
    }
}

/// The registered pairs after subscribing `url` under `category`.
pub open spec fn after_subscribe(keys: Set<SubscriptionKey>, category: Seq<char>, url: Seq<char>) -> Set<
    SubscriptionKey,
> {
    if valid_input(category, url) {
        keys.insert((category, url))
    } else {
        keys
    }
}

/// What unsubscribing `url` from `category` returns, given the registered
/// pairs `keys`.
pub open spec fn unsubscribe_result(keys: Set<SubscriptionKey>, category: Seq<char>, url: Seq<char>) -> Result<
    SubscriptionKey,
    NotificationError,
> {
    if !valid_input(category, url) {
        Err(NotificationError::InvalidInput)
    } else {
        remove_result(keys, (category, url))
    }
}

/// The registered pairs after unsubscribing `url` from `category`.
pub open spec fn after_unsubscribe(keys: Set<SubscriptionKey>, category: Seq<char>, url: Seq<char>) -> Set<
    SubscriptionKey,
> {
    if valid_input(category, url) {
        keys.remove((category, url))
    } else {
        keys
    }
}

fn check_input(category: &str, url: &str) -> (r: bool)
    ensures
        r == valid_input(category@, url@),
{
    is_valid_category(category) && is_absolute_url(url)
}

/// Subscribes the callback URL of `subscriber` to `product_type`.
///
/// The category of the new subscriber is `product_type`; the category that
/// the payload carries is not read. Fails with `InvalidInput` where the
/// category is empty or the URL is not a well-formed absolute URL, and with
/// `DuplicateSubscription` where the pair is already registered; a failure
/// changes nothing.
pub fn subscribe(registry: &mut Registry, product_type: &str, subscriber: Subscriber) -> (r: Result<
    Subscriber,
    NotificationError,
>)
    requires
        old(registry).wf(),
    ensures
        final(registry).wf(),
        key_of(r) == subscribe_result(old(registry)@, product_type@, subscriber.url@),
        final(registry)@ == after_subscribe(old(registry)@, product_type@, subscriber.url@),
{
    if !check_input(product_type, subscriber.url.as_str()) {
        return Err(NotificationError::InvalidInput);
    }
    registry.add(product_type, subscriber.url.as_str())
}

/// Unsubscribes `url` from `product_type` and returns the removed subscriber.
///
/// Fails with `InvalidInput` on malformed input and with
/// `SubscriptionNotFound` where the pair is not registered; a failure
/// changes nothing.
pub fn unsubscribe(registry: &mut Registry, product_type: &str, url: &str) -> (r: Result<
    Subscriber,
    NotificationError,
>)
    requires
        old(registry).wf(),
    ensures
        final(registry).wf(),
        key_of(r) == unsubscribe_result(old(registry)@, product_type@, url@),
        final(registry)@ == after_unsubscribe(old(registry)@, product_type@, url@),
{
    if !check_input(product_type, url) {
        return Err(NotificationError::InvalidInput);
    }
    registry.remove(product_type, url)
}

/// Delivers `event` to every subscriber of `product_type` and reports the
/// outcome for each of them.
///
/// The subscribers are read once, as a snapshot, before any delivery; each
/// URL is handed to `notifier` exactly once, and a failed delivery neither
/// stops the others nor fails the publication. A category without
/// subscribers gives an empty report.
pub fn publish<N: Notifier>(
    registry: &Registry,
    product_type: &str,
    event: &str,
    notifier: &mut N,
) -> (r: DeliveryReport)
    requires
        registry.wf(),
    ensures
        r.targets().no_duplicates(),
        r.targets().to_set() == urls_of(registry@, product_type@),
        r.entries@.len() == urls_of(registry@, product_type@).len(),
        urls_of(registry@, product_type@).is_empty() ==> r.entries@.len() == 0,
{
    let urls = registry.list_for(product_type);
    let mut outcomes: Vec<DeliveryOutcome> = Vec::new();
    let mut i: usize = 0;
    while i < urls.len()
        invariant
            i <= urls@.len(),
            outcomes@.len() == i,
        decreases urls@.len() - i,
    {
        let outcome = notifier.deliver(urls[i].as_str(), event);
        outcomes.push(outcome);
        i = i + 1;
    }
    let r = DeliveryReport::from_outcomes(&urls, &outcomes);
    assert(r.targets() =~= views_of(urls@));
    r
}

/// The registered pairs after subscribing each of `urls` under `category`,
/// in order.
pub open spec fn subscribe_each(keys: Set<SubscriptionKey>, category: Seq<char>, urls: Seq<Seq<char>>) -> Set<
    SubscriptionKey,
>
    decreases urls.len(),
{
    if urls.len() == 0 {
        keys
    } else {
        after_subscribe(subscribe_each(keys, category, urls.drop_last()), category, urls.last())
    }
}

/// A second subscription of a valid pair fails with `DuplicateSubscription`
/// and changes nothing, so the pair is held exactly once.
pub proof fn lemma_subscribe_twice(keys: Set<SubscriptionKey>, category: Seq<char>, url: Seq<char>)
    requires
        valid_input(category, url),
    ensures
        subscribe_result(after_subscribe(keys, category, url), category, url) == Err::<
            SubscriptionKey,
            NotificationError,
        >(NotificationError::DuplicateSubscription),
        after_subscribe(after_subscribe(keys, category, url), category, url) == after_subscribe(
            keys,
            category,
            url,
        ),
        after_subscribe(keys, category, url).filter(|k: SubscriptionKey| k == (category, url))
            == set![(category, url)],
{
    let once = after_subscribe(keys, category, url);
    assert(once.insert((category, url)) =~= once);
    assert(once.filter(|k: SubscriptionKey| k == (category, url)) =~= set![(category, url)]);
}

/// Unsubscribing a valid pair that is not registered fails with
/// `SubscriptionNotFound` and changes nothing.
pub proof fn lemma_unsubscribe_unknown(keys: Set<SubscriptionKey>, category: Seq<char>, url: Seq<char>)
    requires
        valid_input(category, url),
        !keys.contains((category, url)),
    ensures
        unsubscribe_result(keys, category, url) == Err::<SubscriptionKey, NotificationError>(
            NotificationError::SubscriptionNotFound,
        ),
        after_unsubscribe(keys, category, url) == keys,
{
    assert(keys.remove((category, url)) =~= keys);
}

/// Subscribe, unsubscribe and subscribe again with one valid pair: the first
/// call succeeds exactly when the pair was not registered, the other two
/// always succeed, and the pair ends up registered once more.
pub proof fn lemma_resubscribe(keys: Set<SubscriptionKey>, category: Seq<char>, url: Seq<char>)
    requires
        valid_input(category, url),
    ensures
        (subscribe_result(keys, category, url) is Ok) == !keys.contains((category, url)),
        unsubscribe_result(after_subscribe(keys, category, url), category, url) == Ok::<
            SubscriptionKey,
            NotificationError,
        >((category, url)),
        subscribe_result(
            after_unsubscribe(after_subscribe(keys, category, url), category, url),
            category,
            url,
        ) == Ok::<SubscriptionKey, NotificationError>((category, url)),
        after_subscribe(
            after_unsubscribe(after_subscribe(keys, category, url), category, url),
            category,
            url,
        ) == keys.insert((category, url)),
{
    let k = (category, url);
    assert(keys.insert(k).remove(k).insert(k) =~= keys.insert(k));
}

proof fn lemma_subscribe_prefix(
    keys: Set<SubscriptionKey>,
    category: Seq<char>,
    urls: Seq<Seq<char>>,
    n: int,
)
    requires
        0 <= n <= urls.len(),
        valid_category(category),
        forall|i: int| 0 <= i < urls.len() ==> absolute_url(#[trigger] urls[i]),
        urls_of(keys, category).is_empty(),
    ensures
        urls_of(subscribe_each(keys, category, urls.take(n)), category) == urls.take(n).to_set(),
    decreases n,
{
    if n == 0 {
        assert(urls.take(0) =~= Seq::<Seq<char>>::empty());
        assert(urls_of(keys, category) =~= Set::<Seq<char>>::empty());
        assert(urls.take(0).to_set() =~= Set::<Seq<char>>::empty());
    } else {
        lemma_subscribe_prefix(keys, category, urls, n - 1);
        let prev = subscribe_each(keys, category, urls.take(n - 1));
        assert(urls.take(n).drop_last() =~= urls.take(n - 1));
        assert(urls.take(n) =~= urls.take(n - 1).push(urls[n - 1]));
        assert(valid_input(category, urls[n - 1]));
        urls.take(n - 1).lemma_push_to_set_commute(urls[n - 1]);
        assert(urls_of(prev.insert((category, urls[n - 1])), category) =~= urls_of(
            prev,
            category,
        ).insert(urls[n - 1]));
    }
}

/// Subscribing distinct valid URLs, one after another in any order, to a
/// category without subscribers: every call succeeds, and the category then
/// holds exactly those URLs, as many as were subscribed.
pub proof fn lemma_subscribe_distinct(
    keys: Set<SubscriptionKey>,
    category: Seq<char>,
    urls: Seq<Seq<char>>,
)
    requires
        valid_category(category),
        forall|i: int| 0 <= i < urls.len() ==> absolute_url(#[trigger] urls[i]),
        urls.no_duplicates(),
        urls_of(keys, category).is_empty(),
    ensures
        forall|i: int|
            0 <= i < urls.len() ==> #[trigger] subscribe_result(
                subscribe_each(keys, category, urls.take(i)),
                category,
                urls[i],
            ) == Ok::<SubscriptionKey, NotificationError>((category, urls[i])),
        urls_of(subscribe_each(keys, category, urls), category) == urls.to_set(),
        urls_of(subscribe_each(keys, category, urls), category).len() == urls.len(),
{
    assert forall|i: int| 0 <= i < urls.len() implies #[trigger] subscribe_result(
        subscribe_each(keys, category, urls.take(i)),
        category,
        urls[i],
    ) == Ok::<SubscriptionKey, NotificationError>((category, urls[i])) by {
        lemma_subscribe_prefix(keys, category, urls, i);
        assert(valid_input(category, urls[i]));
        if urls.take(i).contains(urls[i]) {
            let j = choose|j: int| 0 <= j < i && urls.take(i)[j] == urls[i];
            assert(urls[j] == urls[i]);
        }
        assert(!urls_of(subscribe_each(keys, category, urls.take(i)), category).contains(urls[i]));
    }
    lemma_subscribe_prefix(keys, category, urls, urls.len() as int);
    assert(urls.take(urls.len() as int) =~= urls);
    urls.unique_seq_to_set();
}

} // verus!
