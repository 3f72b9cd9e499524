//! The registry of product names that were delivered already.
//!
//! One registry serves all feeds: a name seen on one feed is not delivered
//! again when another feed lists it. Every listing, once it is taken in,
//! forgets the names that were last listed six hours ago or earlier, and a
//! name that was forgotten counts as new when it is listed again.

use vstd::prelude::*;
use std::time::Instant;
use crate::archive::{listing_of, member_names, open, zip_readable};
use crate::error::Error;
use crate::product::{extracted_by_name, matches_extraction, Product};

verus! {

/// How long a name is remembered after it was last listed: six hours, in
/// nanoseconds.
pub const RETENTION_NANOS: u128 = 21_600_000_000_000;

/// A name and the time at which it was last listed.
#[derive(Debug)]
struct Sighting {
    name: String,
    at: u128,
}

/// The names delivered so far, each with the time at which it was last
/// listed, in nanoseconds on the registry's own clock.
#[derive(Debug)]
pub struct StreamState {
    last_seen_at: Vec<Sighting>,
    started: Instant,
}

/// Whether the name at `i` is listed there for the first time: it is not
/// among the `known` names and does not stand earlier in `names`.
pub open spec fn is_new(known: Set<Seq<char>>, names: Seq<Seq<char>>, i: int) -> bool {
    !known.contains(names[i]) && !names.take(i).contains(names[i])
}

/// The names of `names` that are new, in the order of `names`.
pub open spec fn new_names(known: Set<Seq<char>>, names: Seq<Seq<char>>) -> Seq<Seq<char>>
    decreases names.len(),
{
    if names.len() == 0 {
        Seq::empty()
    } else {
        let earlier = new_names(known, names.drop_last());
        if is_new(known, names, names.len() - 1) {
            earlier.push(names.last())
        } else {
            earlier
        }
    }
}

/// Whether a name last listed at `at` is still remembered at `now`: less than
/// the retention window lies between the two. On a clock that runs backwards
/// nothing has aged.
pub open spec fn retained(now: u128, at: u128) -> bool {
    now - at < RETENTION_NANOS
}

/// The registry after `names` were listed at `now`: each of them stands at
/// `now`, and of the others those stay that are still remembered, at the time
/// they had.
pub open spec fn registry_after(
    before: Map<Seq<char>, u128>,
    names: Seq<Seq<char>>,
    now: u128,
) -> Map<Seq<char>, u128> {
    Map::new(
        |name: Seq<char>|
            names.contains(name) || (before.contains_key(name) && retained(now, before[name])),
        |name: Seq<char>|
            if names.contains(name) {
                now
            } else {
                before[name]
            },
    )
}

/// The registry after each of `calls` was taken in, in order. A call is the
/// names listed and the time of the listing.
pub open spec fn registry_through(
    before: Map<Seq<char>, u128>,
    calls: Seq<(Seq<Seq<char>>, u128)>,
) -> Map<Seq<char>, u128>
    decreases calls.len(),
{
    if calls.len() == 0 {
        before
    } else {
        registry_after(registry_through(before, calls.drop_last()), calls.last().0, calls.last().1)
    }
}

/// What `new_names` returns: exactly the names of `names` that are not known,
/// each once.
pub proof fn lemma_new_names_are_the_unknown(known: Set<Seq<char>>, names: Seq<Seq<char>>)
    ensures
        forall|name: Seq<char>|
            #[trigger] new_names(known, names).contains(name) <==> (names.contains(name)
                && !known.contains(name)),
        new_names(known, names).no_duplicates(),
    decreases names.len(),
{
    let result = new_names(known, names);
    if names.len() > 0 {
        let front = names.drop_last();
        let earlier = new_names(known, front);
        lemma_new_names_are_the_unknown(known, front);
        assert(names.take(names.len() - 1) =~= front);
        assert forall|name: Seq<char>| names.contains(name) <==> (front.contains(name) || name
            == names.last()) by {
            if names.contains(name) {
                let k = choose|k: int| 0 <= k < names.len() && names[k] == name;
                if k < front.len() {
                    assert(front[k] == name);
                }
            }
            if front.contains(name) {
                let k = choose|k: int| 0 <= k < front.len() && front[k] == name;
                assert(names[k] == name);
            }
            if name == names.last() {
                assert(names[names.len() - 1] == name);
            }
        }
        assert forall|name: Seq<char>| #[trigger]
            result.contains(name) <==> (names.contains(name) && !known.contains(name)) by {
            if is_new(known, names, names.len() - 1) {
                assert(result =~= earlier.push(names.last()));
                if result.contains(name) {
                    let k = choose|k: int| 0 <= k < result.len() && result[k] == name;
                    if k < earlier.len() {
                        assert(earlier[k] == name);
                    }
                }
                if earlier.contains(name) {
                    let k = choose|k: int| 0 <= k < earlier.len() && earlier[k] == name;
                    assert(result[k] == name);
                }
                if name == names.last() {
                    assert(result[earlier.len() as int] == name);
                }
            }
        }
        if is_new(known, names, names.len() - 1) {
            assert(!earlier.contains(names.last()));
            assert forall|i: int, j: int| 0 <= i < j < result.len() implies result[i]
                != result[j] by {
                if j == earlier.len() {
                    assert(earlier[i] == result[i]);
                }
            }
        }
    }
}

/// A name that is remembered is not delivered again, whenever it is listed.
pub proof fn lemma_remembered_name_is_excluded(
    registry: Map<Seq<char>, u128>,
    names: Seq<Seq<char>>,
    name: Seq<char>,
)
    requires
        registry.contains_key(name),
    ensures
        !new_names(registry.dom(), names).contains(name),
{
    lemma_new_names_are_the_unknown(registry.dom(), names);
}

/// A name that is not remembered is delivered when it is listed.
pub proof fn lemma_unknown_name_is_included(
    registry: Map<Seq<char>, u128>,
    names: Seq<Seq<char>>,
    name: Seq<char>,
)
    requires
        !registry.contains_key(name),
        names.contains(name),
    ensures
        new_names(registry.dom(), names).contains(name),
{
    lemma_new_names_are_the_unknown(registry.dom(), names);
}

/// The retention window: a name seen at `seen` stays remembered through any
/// number of listings whose times lie less than the window after `seen`
/// (and not before it), whether they list the name or not. Its time never
/// goes back, and whatever is listed next, at any time, does not deliver it.
pub proof fn lemma_name_is_excluded_within_window(
    before: Map<Seq<char>, u128>,
    name: Seq<char>,
    seen: u128,
    calls: Seq<(Seq<Seq<char>>, u128)>,
    next: Seq<Seq<char>>,
)
    requires
        before.contains_key(name),
        before[name] == seen,
        forall|i: int|
            0 <= i < calls.len() ==> seen <= (#[trigger] calls[i]).1 < seen + RETENTION_NANOS,
    ensures
        registry_through(before, calls).contains_key(name),
        seen <= registry_through(before, calls)[name] < seen + RETENTION_NANOS,
        !new_names(registry_through(before, calls).dom(), next).contains(name),
    decreases calls.len(),
{
    if calls.len() > 0 {
        let front = calls.drop_last();
        assert forall|i: int| 0 <= i < front.len() implies seen <= (#[trigger] front[i]).1 < seen
            + RETENTION_NANOS by {
            assert(front[i] == calls[i]);
        }
        lemma_name_is_excluded_within_window(before, name, seen, front, next);
        assert(seen <= calls[calls.len() - 1].1 < seen + RETENTION_NANOS);
    }
    lemma_remembered_name_is_excluded(registry_through(before, calls), next, name);
}

/// A name is new again once it was forgotten: after a listing that does not
/// hold the name, at a time at which the name is no longer retained, the next
/// listing that holds it delivers it.
pub proof fn lemma_name_is_new_after_expiry(
    before: Map<Seq<char>, u128>,
    name: Seq<char>,
    between: Seq<Seq<char>>,
    at: u128,
    next: Seq<Seq<char>>,
)
    requires
        before.contains_key(name),
        !retained(at, before[name]),
        !between.contains(name),
        next.contains(name),
    ensures
        !registry_after(before, between, at).contains_key(name),
        new_names(registry_after(before, between, at).dom(), next).contains(name),
{
    lemma_unknown_name_is_included(registry_after(before, between, at), next, name);
}

/// Listing the same names again brings nothing new: every name of a listing
/// is remembered right after it.
pub proof fn lemma_listing_again_is_empty(
    before: Map<Seq<char>, u128>,
    names: Seq<Seq<char>>,
    now: u128,
)
    ensures
        new_names(registry_after(before, names, now).dom(), names) == Seq::<Seq<char>>::empty(),
{
    let after = registry_after(before, names, now);
    lemma_new_names_are_the_unknown(after.dom(), names);
    let again = new_names(after.dom(), names);
    if again.len() > 0 {
        assert(again.contains(again[0]));
    }
    assert(again =~= Seq::<Seq<char>>::empty());
}

/// Times never go back: on a clock that does not run backwards, a name that
/// stays remembered stands at a time no earlier than before.
pub proof fn lemma_times_do_not_decrease(
    before: Map<Seq<char>, u128>,
    names: Seq<Seq<char>>,
    now: u128,
    name: Seq<char>,
)
    requires
        before.contains_key(name),
        before[name] <= now,
        registry_after(before, names, now).contains_key(name),
    ensures
        before[name] <= registry_after(before, names, now)[name],
{
}

/// Whether `products` are what the new members of the archive `bytes` come
/// to, given the names that were `known` before: one outcome for each new
/// name of the archive's listing, in the listing's order, each what taking
/// that member out of the archive comes to.
pub open spec fn are_new_products(
    products: Seq<Result<Product, Error>>,
    known: Set<Seq<char>>,
    bytes: Seq<u8>,
) -> bool {
    let fresh = new_names(known, listing_of(bytes));
    &&& products.len() == fresh.len()
    &&& forall|i: int|
        0 <= i < fresh.len() ==> matches_extraction(
            #[trigger] products[i],
            extracted_by_name(bytes, fresh[i]),
        )
}

spec fn listed(entries: Seq<Sighting>, name: Seq<char>) -> bool {
    exists|i: int| 0 <= i < entries.len() && #[trigger] entries[i].name@ == name
}

spec fn index_of(entries: Seq<Sighting>, name: Seq<char>) -> int {
    choose|i: int| 0 <= i < entries.len() && #[trigger] entries[i].name@ == name
}

spec fn distinct(entries: Seq<Sighting>) -> bool {
    forall|i: int, j: int|
        0 <= i < j < entries.len() ==> #[trigger] entries[i].name@ != #[trigger] entries[j].name@
}

spec fn as_map(entries: Seq<Sighting>) -> Map<Seq<char>, u128> {
    Map::new(
        |name: Seq<char>| listed(entries, name),
        |name: Seq<char>| entries[index_of(entries, name)].at,
    )
}

/// Whether `entry` is one of `entries` from index `from` on, and retained at
/// `now`.
spec fn kept_from(entries: Seq<Sighting>, entry: Sighting, from: int, now: u128) -> bool {
    exists|j: int|
        from <= j < entries.len() && #[trigger] entries[j] == entry && retained(now, entry.at)
}

/// The registry while `names` are being taken in at `now`, before anything
/// is forgotten.
spec fn noted(before: Map<Seq<char>, u128>, names: Seq<Seq<char>>, now: u128) -> Map<
    Seq<char>,
    u128,
> {
    Map::new(
        |name: Seq<char>| names.contains(name) || before.contains_key(name),
        |name: Seq<char>|
            if names.contains(name) {
                now
            } else {
                before[name]
            },
    )
}

proof fn lemma_entry_in_map(entries: Seq<Sighting>, i: int)
    requires
        distinct(entries),
        0 <= i < entries.len(),
    ensures
        as_map(entries).contains_key(entries[i].name@),
        as_map(entries)[entries[i].name@] == entries[i].at,
{
    let name = entries[i].name@;
    assert(listed(entries, name));
    let j = index_of(entries, name);
    assert(j == i);
}

proof fn lemma_refresh(entries: Seq<Sighting>, i: int, entry: Sighting)
    requires
        distinct(entries),
        0 <= i < entries.len(),
        entry.name@ == entries[i].name@,
    ensures
        distinct(entries.update(i, entry)),
        as_map(entries.update(i, entry)) == as_map(entries).insert(entry.name@, entry.at),
{
    let updated = entries.update(i, entry);
    assert forall|name: Seq<char>| listed(updated, name) <==> listed(entries, name) by {
        if listed(updated, name) {
            let k = index_of(updated, name);
            assert(entries[k].name@ == name);
        }
        if listed(entries, name) {
            let k = index_of(entries, name);
            assert(updated[k].name@ == name);
        }
    }
    assert(listed(entries, entry.name@));
    assert forall|name: Seq<char>| listed(updated, name) implies #[trigger] as_map(updated)[name]
        == as_map(entries).insert(entry.name@, entry.at)[name] by {
        let k = index_of(updated, name);
        let j = index_of(entries, name);
        assert(entries[k].name@ == name);
        assert(k == j);
    }
    assert(as_map(updated) =~= as_map(entries).insert(entry.name@, entry.at));
}

proof fn lemma_enter(entries: Seq<Sighting>, entry: Sighting)
    requires
        distinct(entries),
        !listed(entries, entry.name@),
    ensures
        distinct(entries.push(entry)),
        as_map(entries.push(entry)) == as_map(entries).insert(entry.name@, entry.at),
{
    let longer = entries.push(entry);
    assert forall|i: int, j: int| 0 <= i < j < longer.len() implies #[trigger] longer[i].name@
        != #[trigger] longer[j].name@ by {
        if j == entries.len() {
            assert(entries[i].name@ != entry.name@);
        }
    }
    assert forall|name: Seq<char>| listed(longer, name) <==> (listed(entries, name) || name
        == entry.name@) by {
        if listed(longer, name) {
            let k = index_of(longer, name);
            if k < entries.len() {
                assert(entries[k].name@ == name);
            }
        }
        if listed(entries, name) {
            let k = index_of(entries, name);
            assert(longer[k].name@ == name);
        }
        if name == entry.name@ {
            assert(longer[entries.len() as int].name@ == name);
        }
    }
    assert forall|name: Seq<char>| listed(longer, name) implies #[trigger] as_map(longer)[name]
        == as_map(entries).insert(entry.name@, entry.at)[name] by {
        let k = index_of(longer, name);
        if name != entry.name@ {
            let j = index_of(entries, name);
            assert(longer[j].name@ == name);
            assert(k == j);
        } else {
            assert(longer[entries.len() as int].name@ == name);
            assert(k == entries.len());
        }
    }
    assert(as_map(longer) =~= as_map(entries).insert(entry.name@, entry.at));
}

proof fn lemma_noted_step(
    before: Map<Seq<char>, u128>,
    names: Seq<Seq<char>>,
    i: int,
    now: u128,
)
    requires
        0 <= i < names.len(),
    ensures
        noted(before, names.take(i + 1), now) == noted(before, names.take(i), now).insert(
            names[i],
            now,
        ),
{
    let shorter = names.take(i);
    let longer = names.take(i + 1);
    assert(longer =~= shorter.push(names[i]));
    assert forall|name: Seq<char>| longer.contains(name) <==> (shorter.contains(name) || name
        == names[i]) by {
        if shorter.contains(name) {
            let k = choose|k: int| 0 <= k < shorter.len() && shorter[k] == name;
            assert(longer[k] == name);
        }
        if name == names[i] {
            assert(longer[i] == name);
        }
    }
    assert(noted(before, longer, now) =~= noted(before, shorter, now).insert(names[i], now));
}

proof fn lemma_new_names_step(known: Set<Seq<char>>, names: Seq<Seq<char>>, i: int)
    requires
        0 <= i < names.len(),
    ensures
        new_names(known, names.take(i + 1)) == if is_new(known, names, i) {
            new_names(known, names.take(i)).push(names[i])
        } else {
            new_names(known, names.take(i))
        },
{
    let longer = names.take(i + 1);
    assert(longer.drop_last() =~= names.take(i));
    assert(longer.take(i) =~= names.take(i));
    assert(longer.last() == names[i]);
}

/// The index at which `entries` hold `name`, if they do.
fn position(entries: &Vec<Sighting>, name: &str) -> (found: Option<usize>)
    ensures
        match found {
            Some(i) => i < entries@.len() && entries@[i as int].name@ == name@,
            None => !listed(entries@, name@),
        },
{
    let mut i: usize = 0;
    while i < entries.len()
        invariant
            i <= entries@.len(),
            forall|k: int| 0 <= k < i ==> entries@[k].name@ != name@,
        decreases entries@.len() - i,
    {
        if crate::text::same_name(entries[i].name.as_str(), name) {
            return Some(i);
        }
        i += 1;
    }
    None
}

/// Takes `names` into `entries` at `now`, forgetting nothing, and returns the
/// names that were new.
fn note_all(entries: &mut Vec<Sighting>, names: Vec<String>, now: u128) -> (fresh: Vec<String>)
    requires
        distinct(old(entries)@),
    ensures
        distinct(final(entries)@),
        as_map(final(entries)@) == noted(as_map(old(entries)@), names.deep_view(), now),
        fresh.deep_view() == new_names(as_map(old(entries)@).dom(), names.deep_view()),
{
    let ghost before = as_map(entries@);
    let ghost all = names.deep_view();
    let mut fresh: Vec<String> = Vec::new();
    let mut i: usize = 0;
    proof {
        assert(all.take(0) =~= Seq::empty());
        assert(before =~= noted(before, all.take(0), now));
        assert(fresh.deep_view() =~= Seq::empty());
    }
    while i < names.len()
        invariant
            i <= names.len(),
            all == names.deep_view(),
            distinct(entries@),
            as_map(entries@) == noted(before, all.take(i as int), now),
            fresh.deep_view() == new_names(before.dom(), all.take(i as int)),
        decreases names.len() - i,
    {
        let name = names[i].clone();
        let ghost held = entries@;
        let ghost so_far = fresh.deep_view();
        proof {
            lemma_noted_step(before, all, i as int, now);
            lemma_new_names_step(before.dom(), all, i as int);
            assert(all[i as int] == name@);
        }
        match position(entries, name.as_str()) {
            Some(at) => {
                proof {
                    lemma_entry_in_map(held, at as int);
                    assert(as_map(held).contains_key(all[i as int]));
                    assert(!is_new(before.dom(), all, i as int));
                }
                entries.set(at, Sighting { name, at: now });
                proof {
                    lemma_refresh(held, at as int, entries@[at as int]);
                }
            },
            None => {
                proof {
                    assert(!as_map(held).contains_key(all[i as int]));
                    assert(is_new(before.dom(), all, i as int));
                }
                fresh.push(name.clone());
                entries.push(Sighting { name, at: now });
                proof {
                    lemma_enter(held, entries@[held.len() as int]);
                    assert(fresh.deep_view() =~= so_far.push(all[i as int]));
                }
            },
        }
        i += 1;
    }
    assert(all.take(i as int) =~= all);
    fresh
}

/// The entries of `entries` that are still retained at `now`.
fn retained_of(entries: Vec<Sighting>, now: u128) -> (kept: Vec<Sighting>)
    requires
        distinct(entries@),
    ensures
        distinct(kept@),
        as_map(kept@) == as_map(entries@).restrict(
            Set::new(
                |name: Seq<char>|
                    as_map(entries@).contains_key(name) && retained(now, as_map(entries@)[name]),
            ),
        ),
{
    let ghost given = entries@;
    let mut entries = entries;
    let mut kept: Vec<Sighting> = Vec::new();
    while entries.len() > 0
        invariant
            distinct(given),
            distinct(kept@),
            entries@ == given.take(entries@.len() as int),
            entries@.len() <= given.len(),
            forall|k: int|
                0 <= k < kept@.len() ==> kept_from(
                    given,
                    #[trigger] kept@[k],
                    entries@.len() as int,
                    now,
                ),
            forall|j: int|
                entries@.len() <= j < given.len() && retained(now, given[j].at)
                    ==> listed(kept@, #[trigger] given[j].name@),
        decreases entries@.len(),
    {
        let ghost n = entries@.len() - 1;
        let ghost shorter = kept@;
        let entry = entries.pop().unwrap();
        assert(entry == given[n]);
        if entry.at >= now || now - entry.at < RETENTION_NANOS {
            assert(!listed(shorter, entry.name@)) by {
                if listed(shorter, entry.name@) {
                    let k = index_of(shorter, entry.name@);
                    assert(kept_from(given, shorter[k], n + 1, now));
                    let j = choose|j: int| n < j < given.len() && given[j] == shorter[k];
                    assert(given[n].name@ != given[j].name@);
                }
            }
            kept.push(entry);
            proof {
                lemma_enter(shorter, entry);
            }
        }
        proof {
            assert forall|j: int|
                n <= j < given.len() && retained(now, given[j].at) implies listed(
                kept@,
                #[trigger] given[j].name@,
            ) by {
                if j == n {
                    assert(kept@[shorter.len() as int].name@ == given[j].name@);
                } else {
                    let k = index_of(shorter, given[j].name@);
                    assert(kept@[k].name@ == given[j].name@);
                }
            }
            assert forall|k: int| 0 <= k < kept@.len() implies kept_from(
                given,
                #[trigger] kept@[k],
                n,
                now,
            ) by {
                if k < shorter.len() {
                    assert(kept_from(given, shorter[k], n + 1, now));
                    let j = choose|j: int| n < j < given.len() && given[j] == shorter[k];
                    assert(given[j] == kept@[k]);
                } else {
                    assert(given[n] == kept@[k]);
                }
            }
        }
        assert(entries@ =~= given.take(n));
    }
    proof {
        let wanted = as_map(given).restrict(
            Set::new(
                |name: Seq<char>|
                    as_map(given).contains_key(name) && retained(now, as_map(given)[name]),
            ),
        );
        assert forall|name: Seq<char>| listed(kept@, name) <==> wanted.contains_key(name) by {
            if listed(kept@, name) {
                let k = index_of(kept@, name);
                assert(kept_from(given, kept@[k], 0, now));
                let j = choose|j: int| 0 <= j < given.len() && given[j] == kept@[k];
                lemma_entry_in_map(given, j);
            }
            if wanted.contains_key(name) {
                let j = index_of(given, name);
                lemma_entry_in_map(given, j);
            }
        }
        assert forall|name: Seq<char>| listed(kept@, name) implies #[trigger] as_map(kept@)[name]
            == wanted[name] by {
            let k = index_of(kept@, name);
            assert(kept_from(given, kept@[k], 0, now));
            let j = choose|j: int| 0 <= j < given.len() && given[j] == kept@[k];
            lemma_entry_in_map(given, j);
        }
        assert(as_map(kept@) =~= wanted);
    }
    kept
}

impl View for StreamState {
    type V = Map<Seq<char>, u128>;

    /// The registry as a map from each remembered name to the time at which
    /// it was last listed.
    closed spec fn view(&self) -> Map<Seq<char>, u128> {
        as_map(self.last_seen_at@)
    }
}

impl StreamState {
    #[verifier::type_invariant]
    spec fn no_name_twice(&self) -> bool {
        distinct(self.last_seen_at@)
    }

    /// An empty registry, whose clock starts now.
    pub fn new() -> (state: Self)
        ensures
            state@ == Map::<Seq<char>, u128>::empty(),
    {
        let state = StreamState { last_seen_at: Vec::new(), started: Instant::now() };
        assert(state@ =~= Map::<Seq<char>, u128>::empty());
        state
    }

    /// The time at which `name` was last listed, if it is remembered.
    pub fn last_seen(&self, name: &str) -> (at: Option<u128>)
        ensures
            at == if self@.contains_key(name@) {
                Some(self@[name@])
            } else {
                None
            },
    {
        proof {
            use_type_invariant(self);
        }
        match position(&self.last_seen_at, name) {
            Some(i) => {
                proof {
                    lemma_entry_in_map(self.last_seen_at@, i as int);
                }
                Some(self.last_seen_at[i].at)
            },
            None => None,
        }
    }

    /// The reading of the registry's clock: the nanoseconds since the
    /// registry was made.
    pub fn now(&self) -> u128 {
        self.started.elapsed().as_nanos()
    }

    /// Takes in the names listed at `now` and returns those that are new.
    ///
    /// The names are taken in order, each against the registry as the names
    /// before it left it: a name that is remembered, or that `names` held
    /// already, is refreshed to `now` and left out; a name that is neither is
    /// entered at `now` and returned. After the last name, every entry that is
    /// no longer retained at `now` is forgotten.
    pub fn add_filenames_at(&mut self, names: Vec<String>, now: u128) -> (fresh: Vec<String>)
        ensures
            fresh.deep_view() == new_names(old(self)@.dom(), names.deep_view()),
            final(self)@ == registry_after(old(self)@, names.deep_view(), now),
    {
        proof {
            use_type_invariant(&*self);
        }
        let ghost before = self@;
        let mut entries: Vec<Sighting> = Vec::new();
        std::mem::swap(&mut self.last_seen_at, &mut entries);
        let fresh = note_all(&mut entries, names, now);
        self.last_seen_at = retained_of(entries, now);
        assert(self@ =~= registry_after(before, names.deep_view(), now));
        fresh
    }

    /// Takes in the names listed now, by the registry's clock, and returns
    /// those that are new, as [`StreamState::add_filenames_at`] does for the
    /// clock's reading.
    pub fn add_filenames_in(&mut self, names: Vec<String>) -> (fresh: Vec<String>)
        ensures
            fresh.deep_view() == new_names(old(self)@.dom(), names.deep_view()),
            exists|now: u128|
                final(self)@ == registry_after(old(self)@, names.deep_view(), now),
    {
        let now = self.now();
        self.add_filenames_at(names, now)
    }

    /// Unpacks the batch `bytes`, listed at `now`: the products among its
    /// members that were not delivered before.
    ///
    /// Bytes that are no archive are an [`Error::ArchiveFormat`], and leave
    /// the registry as it was. Of an archive, the listing is taken into the
    /// registry as [`StreamState::add_filenames_at`] does, and each new member
    /// is taken out in the listing's order. A member that fails does so in
    /// its own place and keeps no other member from being taken out.
    pub fn new_products_at(&mut self, bytes: Vec<u8>, now: u128) -> (outcome: Result<
        Vec<Result<Product, Error>>,
        Error,
    >)
        ensures
            outcome is Ok <==> zip_readable(bytes@),
            match outcome {
                Ok(products) => {
                    &&& final(self)@ == registry_after(old(self)@, listing_of(bytes@), now)
                    &&& are_new_products(products@, old(self)@.dom(), bytes@)
                },
                Err(error) => error is ArchiveFormat && final(self)@ == old(self)@,
            },
    {
        let mut archive = match open(bytes) {
            Ok(archive) => archive,
            Err(error) => {
                return Err(error);
            },
        };
        let names = member_names(&archive);
        let fresh = self.add_filenames_at(names, now);
        let mut products: Vec<Result<Product, Error>> = Vec::new();
        let mut i: usize = 0;
        while i < fresh.len()
            invariant
                i <= fresh.len(),
                products@.len() == i,
                crate::archive::archive_bytes(archive) == bytes@,
                forall|k: int|
                    0 <= k < i ==> matches_extraction(
                        #[trigger] products@[k],
                        extracted_by_name(bytes@, fresh.deep_view()[k]),
                    ),
            decreases fresh.len() - i,
        {
            let product = Product::extract(&mut archive, fresh[i].as_str());
            products.push(product);
            i += 1;
        }
        Ok(products)
    }

    /// Unpacks the batch `bytes`, listed now by the registry's clock, as
    /// [`StreamState::new_products_at`] does for the clock's reading.
    pub fn new_products_in(&mut self, bytes: Vec<u8>) -> (outcome: Result<
        Vec<Result<Product, Error>>,
        Error,
    >)
        ensures
            outcome is Ok <==> zip_readable(bytes@),
            match outcome {
                Ok(products) => {
                    &&& exists|now: u128|
                        final(self)@ == registry_after(old(self)@, listing_of(bytes@), now)
                    &&& are_new_products(products@, old(self)@.dom(), bytes@)
                },
                Err(error) => error is ArchiveFormat && final(self)@ == old(self)@,
            },
    {
        let now = self.now();
        self.new_products_at(bytes, now)
    }
}

} // verus!
