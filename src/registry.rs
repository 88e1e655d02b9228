use crate::error::NotificationError;
use crate::subscriber::{Subscriber, SubscriptionKey};
use vstd::prelude::*;

verus! {

/// The URLs registered under `category` in the set of subscriptions `keys`.
pub open spec fn urls_of(keys: Set<SubscriptionKey>, category: Seq<char>) -> Set<Seq<char>> {
    Set::new(|u: Seq<char>| keys.contains((category, u)))
}

/// The identity carried by a result of the registry: the key of the
/// subscriber on success, the error otherwise.
pub open spec fn key_of(r: Result<Subscriber, NotificationError>) -> Result<
    SubscriptionKey,
    NotificationError,
> {
    match r {
        Ok(s) => Ok(s.key()),
        Err(e) => Err(e),
    }
}

/// The views of a sequence of strings.
pub open spec fn views_of(v: Seq<String>) -> Seq<Seq<char>> {
    v.map_values(|s: String| s@)
}

/// What adding `key` to `keys` returns.
pub open spec fn add_result(keys: Set<SubscriptionKey>, key: SubscriptionKey) -> Result<
    SubscriptionKey,
    NotificationError,
> {
    if keys.contains(key) {
        Err(NotificationError::DuplicateSubscription)
    } else {
        Ok(key)
    }
}

/// What removing `key` from `keys` returns.
pub open spec fn remove_result(keys: Set<SubscriptionKey>, key: SubscriptionKey) -> Result<
    SubscriptionKey,
    NotificationError,
> {
    if keys.contains(key) {
        Ok(key)
    } else {
        Err(NotificationError::SubscriptionNotFound)
    }
}

/// Some entry of `keys` before position `i` is (category, url).
spec fn listed_before(keys: Seq<SubscriptionKey>, category: Seq<char>, url: Seq<char>, i: int) -> bool {
    exists|j: int| 0 <= j < i && keys[j] == (category, url)
}

/// The in-memory store of subscriptions, viewed as the set of its
/// (category, url) pairs.
///
/// Each pair is held at most once. A category without subscribers is simply
/// a category that no pair names. Mutation takes `&mut self`, so every
/// `add` and `remove` is atomic and all of them are totally ordered; a
/// process that shares a registry between threads puts it behind one lock.
pub struct Registry {
    entries: Vec<Subscriber>,
}

impl View for Registry {
    type V = Set<SubscriptionKey>;

    closed spec fn view(&self) -> Set<SubscriptionKey> {
        self.keys().to_set()
    }
}

impl Registry {
    closed spec fn keys(self) -> Seq<SubscriptionKey> {
        self.entries@.map_values(|s: Subscriber| s.key())
    }

    /// No pair is held twice.
    pub closed spec fn wf(self) -> bool {
        self.keys().no_duplicates()
    }

    /// An empty registry.
    pub fn new() -> (r: Registry)
        ensures
            r.wf(),
            r@ == Set::<SubscriptionKey>::empty(),
    {
        let r = Registry { entries: Vec::new() };
        assert(r.keys() =~= Seq::<SubscriptionKey>::empty());
        assert(r@ =~= Set::<SubscriptionKey>::empty());
        r
    }

    /// The position of the entry for (category, url), if there is one.
    fn find(&self, category: &String, url: &String) -> (r: Option<usize>)
        ensures
            r is Some ==> r->Some_0 < self.entries@.len() && self.entries@[r->Some_0 as int].key()
                == (category@, url@),
            r is None ==> !self@.contains((category@, url@)),
    {
        let mut i: usize = 0;
        while i < self.entries.len()
            invariant
                i <= self.entries@.len(),
                forall|j: int| 0 <= j < i ==> #[trigger] self.keys()[j] != (category@, url@),
            decreases self.entries@.len() - i,
        {
            if self.entries[i].category == *category && self.entries[i].url == *url {
                return Some(i);
            }
            i = i + 1;
        }
        None
    }

    /// Whether (category, url) is registered.
    pub fn contains(&self, category: &str, url: &str) -> (r: bool)
        ensures
            r == self@.contains((category@, url@)),
    {
        let c = category.to_owned();
        let u = url.to_owned();
        match self.find(&c, &u) {
            Some(i) => {
                assert(self.keys().contains((c@, u@))) by {
                    assert(self.keys()[i as int] == (c@, u@));
                }
                true
            },
            None => false,
        }
    }

    /// Registers `url` under `category`, failing with `DuplicateSubscription`
    /// and changing nothing where the pair is already registered.
    pub fn add(&mut self, category: &str, url: &str) -> (r: Result<Subscriber, NotificationError>)
        requires
            old(self).wf(),
        ensures
            final(self).wf(),
            key_of(r) == add_result(old(self)@, (category@, url@)),
            final(self)@ == old(self)@.insert((category@, url@)),
    {
        let c = category.to_owned();
        let u = url.to_owned();
        match self.find(&c, &u) {
            Some(i) => {
                assert(self.keys()[i as int] == (c@, u@));
                assert(self@.contains((c@, u@)));
                assert(self@.insert((c@, u@)) =~= self@);
                Err(NotificationError::DuplicateSubscription)
            },
            None => {
                let ghost old_keys = self.keys();
                let s = Subscriber { category: c.clone(), url: u.clone() };
                self.entries.push(Subscriber { category: c, url: u });
                assert(self.keys() =~= old_keys.push((category@, url@)));
                proof {
                    old_keys.lemma_push_to_set_commute((category@, url@));
                }
                assert(self.keys().no_duplicates()) by {
                    assert(!old_keys.contains((category@, url@)));
                    assert forall|a: int, b: int|
                        0 <= a < self.keys().len() && 0 <= b < self.keys().len() && a != b
                            implies self.keys()[a] != self.keys()[b] by {
                        if a == old_keys.len() as int {
                            assert(old_keys[b] == self.keys()[b]);
                        } else if b == old_keys.len() as int {
                            assert(old_keys[a] == self.keys()[a]);
                        }
                    }
                }
                Ok(s)
            },
        }
    }

    /// Unregisters `url` from `category` and returns the removed subscriber,
    /// failing with `SubscriptionNotFound` where the pair is not registered.
    pub fn remove(&mut self, category: &str, url: &str) -> (r: Result<Subscriber, NotificationError>)
        requires
            old(self).wf(),
        ensures
            final(self).wf(),
            key_of(r) == remove_result(old(self)@, (category@, url@)),
            final(self)@ == old(self)@.remove((category@, url@)),
    {
        let c = category.to_owned();
        let u = url.to_owned();
        match self.find(&c, &u) {
            Some(i) => {
                let ghost old_keys = self.keys();
                let ghost k = (category@, url@);
                assert(old_keys[i as int] == k);
                assert(old_keys.contains(k));
                let s = self.entries.remove(i);
                let ghost new_keys = self.keys();
                assert(new_keys =~= old_keys.remove(i as int));
                assert(new_keys.no_duplicates()) by {
                    assert forall|a: int, b: int|
                        0 <= a < new_keys.len() && 0 <= b < new_keys.len() && a != b
                            implies new_keys[a] != new_keys[b] by {
                        let oa = if a < i { a } else { a + 1 };
                        let ob = if b < i { b } else { b + 1 };
                        assert(new_keys[a] == old_keys[oa]);
                        assert(new_keys[b] == old_keys[ob]);
                    }
                }
                assert(new_keys.to_set() =~= old_keys.to_set().remove(k)) by {
                    assert forall|x: SubscriptionKey| new_keys.contains(x) implies old_keys.contains(
                        x,
                    ) && x != k by {
                        let a = choose|a: int| 0 <= a < new_keys.len() && new_keys[a] == x;
                        let oa = if a < i { a } else { a + 1 };
                        assert(old_keys[oa] == x);
                    }
                    assert forall|x: SubscriptionKey|
                        old_keys.contains(x) && x != k implies new_keys.contains(x) by {
                        let b = choose|b: int| 0 <= b < old_keys.len() && old_keys[b] == x;
                        assert(b != i);
                        let nb = if b < i { b } else { b - 1 };
                        assert(new_keys[nb] == x);
                    }
                }
                Ok(s)
            },
            None => {
                assert(self@.remove((c@, u@)) =~= self@);
                Err(NotificationError::SubscriptionNotFound)
            },
        }
    }

    /// A snapshot of the URLs registered under `category`, each once, in the
    /// order in which they were registered.
    pub fn list_for(&self, category: &str) -> (r: Vec<String>)
        requires
            self.wf(),
        ensures
            views_of(r@).no_duplicates(),
            views_of(r@).to_set() == urls_of(self@, category@),
            r@.len() == urls_of(self@, category@).len(),
    {
        let c = category.to_owned();
        let mut out: Vec<String> = Vec::new();
        let mut i: usize = 0;
        while i < self.entries.len()
            invariant
                i <= self.entries@.len(),
                self.wf(),
                c@ == category@,
                views_of(out@).no_duplicates(),
                forall|m: int|
                    0 <= m < out@.len() ==> listed_before(self.keys(), c@, (#[trigger] out@[m])@, i as int),
                forall|j: int|
                    0 <= j < i && (#[trigger] self.keys()[j]).0 == c@ ==> views_of(
                        out@,
                    ).contains(self.keys()[j].1),
            decreases self.entries@.len() - i,
        {
            if self.entries[i].category == c {
                let ghost before = out@;
                let u = self.entries[i].url.clone();
                assert(self.keys()[i as int] == (c@, u@));
                assert(!views_of(before).contains(u@)) by {
                    if views_of(before).contains(u@) {
                        let m = choose|m: int|
                            0 <= m < views_of(before).len() && views_of(before)[m] == u@;
                        assert(before[m]@ == u@);
                        let j = choose|j: int| 0 <= j < i && self.keys()[j] == (c@, before[m]@);
                        assert(self.keys()[j] == self.keys()[i as int]);
                    }
                }
                out.push(u);
                assert(views_of(out@) =~= views_of(before).push(u@));
                assert forall|m: int| 0 <= m < out@.len() implies listed_before(
                    self.keys(),
                    c@,
                    (#[trigger] out@[m])@,
                    i + 1,
                ) by {
                    if m == before.len() {
                        assert(self.keys()[i as int] == (c@, out@[m]@));
                    } else {
                        assert(out@[m] == before[m]);
                        let j = choose|j: int| 0 <= j < i && self.keys()[j] == (c@, before[m]@);
                        assert(self.keys()[j] == (c@, out@[m]@));
                    }
                }
                assert forall|j: int|
                    0 <= j < i + 1 && (#[trigger] self.keys()[j]).0 == c@ implies views_of(
                        out@,
                    ).contains(self.keys()[j].1) by {
                    if j == i {
                        assert(views_of(out@)[before.len() as int] == u@);
                    } else {
                        let m = choose|m: int|
                            0 <= m < views_of(before).len() && views_of(before)[m]
                                == self.keys()[j].1;
                        assert(views_of(out@)[m] == self.keys()[j].1);
                    }
                }
            } else {
                assert forall|m: int| 0 <= m < out@.len() implies listed_before(
                    self.keys(),
                    c@,
                    (#[trigger] out@[m])@,
                    i + 1,
                ) by {
                    let j = choose|j: int| 0 <= j < i && self.keys()[j] == (c@, out@[m]@);
                    assert(self.keys()[j] == (c@, out@[m]@));
                }
            }
            i = i + 1;
        }
        assert(views_of(out@).to_set() =~= urls_of(self@, category@)) by {
            assert forall|u: Seq<char>| views_of(out@).contains(u) implies self.keys().contains(
                (c@, u),
            ) by {
                let m = choose|m: int| 0 <= m < views_of(out@).len() && views_of(out@)[m] == u;
                assert(out@[m]@ == u);
                let j = choose|j: int|
                    0 <= j < self.entries@.len() && self.keys()[j] == (c@, out@[m]@);
                assert(self.keys()[j] == (c@, u));
            }
            assert forall|u: Seq<char>| self.keys().contains((c@, u)) implies views_of(
                out@,
            ).contains(u) by {
                let j = choose|j: int| 0 <= j < self.keys().len() && self.keys()[j] == (c@, u);
                assert(self.keys()[j].0 == c@);
            }
        }
        proof {
            views_of(out@).unique_seq_to_set();
        }
        out
    }
}

} // verus!
