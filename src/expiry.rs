use vstd::prelude::*;
use std::time::{Duration, Instant};

verus! {

#[verifier::external_type_specification]
#[verifier::external_body]
pub struct ExInstant(Instant);

/// Relies on std's `Instant::now`: the current instant. Nothing is promised
/// of its value.
pub assume_specification[ Instant::now ]() -> Instant;

/// Relies on std's `Instant::elapsed`: the time since the instant. Nothing is
/// promised of its value.
pub assume_specification[ Instant::elapsed ](instant: &Instant) -> Duration;

/// Relies on std's ordering of `Duration` (`>`): whether `elapsed` is longer
/// than `timeout`. Nothing is promised of the result.
#[verifier::external_body]
fn longer_than(elapsed: &Duration, timeout: &Duration) -> bool {
    *elapsed > *timeout
}

/// The ids of a list of strings, as a set.
pub open spec fn id_set(ids: Seq<String>) -> Set<Seq<char>> {
    ids.map_values(|s: String| s@).to_set()
}

/// Storage of access timestamps, one per id.
pub trait TimeoutRepository {
    /// The ids whose last access is stored.
    spec fn known_ids(&self) -> Set<Seq<char>>;

    /// Sets the last access time of `id` to now.
    fn save_last_access(&mut self, id: &String)
        ensures
            final(self).known_ids() == old(self).known_ids().insert(id@),
    ;

    /// Hands out, and forgets, the ids whose last access is older than
    /// `timeout`.
    fn get_expired(&mut self, timeout: &Duration) -> (r: Vec<String>)
        ensures
            id_set(r@).subset_of(old(self).known_ids()),
            final(self).known_ids() == old(self).known_ids().difference(id_set(r@)),
    ;

    /// Forgets `id`.
    fn remove(&mut self, id: &String)
        ensures
            final(self).known_ids() == old(self).known_ids().remove(id@),
    ;
}

/// The elements of `s` whose flag in `flags` equals `keep`, in order.
pub open spec fn filter_by<A>(s: Seq<A>, flags: Seq<bool>, keep: bool) -> Seq<A>
    decreases s.len(),
{
    if s.len() == 0 {
        Seq::empty()
    } else {
        let rest = filter_by(s.drop_last(), flags.subrange(0, s.len() - 1), keep);
        if flags[s.len() - 1] == keep {
            rest.push(s.last())
        } else {
            rest
        }
    }
}

proof fn lemma_filter_by_contains<A>(s: Seq<A>, flags: Seq<bool>, keep: bool, x: A)
    requires
        flags.len() == s.len(),
    ensures
        filter_by(s, flags, keep).contains(x) <==> exists|j: int|
            0 <= j < s.len() && flags[j] == keep && s[j] == x,
    decreases s.len(),
{
    if s.len() > 0 {
        let n = s.len() - 1;
        let s0 = s.drop_last();
        let f0 = flags.subrange(0, n);
        let rest = filter_by(s0, f0, keep);
        let out = filter_by(s, flags, keep);
        lemma_filter_by_contains(s0, f0, keep, x);
        if out.contains(x) {
            let k = choose|k: int| 0 <= k < out.len() && out[k] == x;
            if flags[n] == keep && k == rest.len() {
                assert(0 <= n < s.len() && flags[n] == keep && s[n] == x);
            } else {
                assert(rest[k] == x);
                assert(rest.contains(x));
                let j = choose|j: int| 0 <= j < s0.len() && f0[j] == keep && s0[j] == x;
                assert(0 <= j < s.len() && flags[j] == keep && s[j] == x);
            }
        }
        if exists|j: int| 0 <= j < s.len() && flags[j] == keep && s[j] == x {
            let j = choose|j: int| 0 <= j < s.len() && flags[j] == keep && s[j] == x;
            if j == n {
                assert(out[out.len() - 1] == x);
            } else {
                assert(0 <= j < s0.len() && f0[j] == keep && s0[j] == x);
                assert(rest.contains(x));
                let k = choose|k: int| 0 <= k < rest.len() && rest[k] == x;
                assert(out[k] == x);
            }
        }
    }
}

proof fn lemma_filter_by_no_duplicates<A>(s: Seq<A>, flags: Seq<bool>, keep: bool)
    requires
        flags.len() == s.len(),
        s.no_duplicates(),
    ensures
        filter_by(s, flags, keep).no_duplicates(),
    decreases s.len(),
{
    if s.len() > 0 {
        let n = s.len() - 1;
        let rest = filter_by(s.drop_last(), flags.subrange(0, n), keep);
        lemma_filter_by_no_duplicates(s.drop_last(), flags.subrange(0, n), keep);
        if flags[n] == keep {
            lemma_filter_by_contains(s.drop_last(), flags.subrange(0, n), keep, s.last());
            assert(!rest.contains(s.last()));
            assert forall|a: int, b: int|
                0 <= a < rest.len() + 1 && 0 <= b < rest.len() + 1 && a != b implies rest.push(s.last())[a]
                != rest.push(s.last())[b] by {
                if a == rest.len() {
                    assert(rest[b] != s.last());
                } else if b == rest.len() {
                    assert(rest[a] != s.last());
                }
            }
        }
    }
}

/// Access timestamps keyed by id: a list of entries in which each id occurs
/// at most once.
pub struct HashMapTimeoutRepository {
    times: Vec<(String, Instant)>,
}

/// The ids of a list of entries, in order.
pub open spec fn entry_ids(times: Seq<(String, Instant)>) -> Seq<Seq<char>> {
    times.map_values(|e: (String, Instant)| e.0@)
}

impl HashMapTimeoutRepository {
    #[verifier::type_invariant]
    spec fn ids_unique(&self) -> bool {
        entry_ids(self.times@).no_duplicates()
    }

    /// The ids of the stored entries, in order.
    pub closed spec fn ids(&self) -> Seq<Seq<char>> {
        entry_ids(self.times@)
    }

    pub fn new() -> (r: HashMapTimeoutRepository)
        ensures
            r.ids() == Seq::<Seq<char>>::empty(),
            r.known_ids() == Set::<Seq<char>>::empty(),
    {
        let r = HashMapTimeoutRepository { times: Vec::new() };
        assert(entry_ids(r.times@) =~= Seq::<Seq<char>>::empty());
        assert(entry_ids(r.times@).to_set() =~= Set::<Seq<char>>::empty());
        r
    }

    /// Drops the entries whose flag in `expired` is set, one flag per entry
    /// in order, and hands out their ids in order.
    pub fn split_expired(&mut self, expired: &Vec<bool>) -> (r: Vec<String>)
        requires
            expired@.len() == old(self).ids().len(),
        ensures
            r@.map_values(|s: String| s@) == filter_by(old(self).ids(), expired@, true),
            final(self).ids() == filter_by(old(self).ids(), expired@, false),
    {
        proof {
            use_type_invariant(&*self);
        }
        let ghost ids = self.ids();
        let mut kept: Vec<(String, Instant)> = Vec::new();
        let mut out: Vec<String> = Vec::new();
        let mut i: usize = 0;
        while i < self.times.len()
            invariant
                ids == entry_ids(self.times@),
                expired@.len() == ids.len(),
                i <= ids.len(),
                out@.map_values(|s: String| s@) == filter_by(
                    ids.subrange(0, i as int),
                    expired@.subrange(0, i as int),
                    true,
                ),
                entry_ids(kept@) == filter_by(
                    ids.subrange(0, i as int),
                    expired@.subrange(0, i as int),
                    false,
                ),
            decreases ids.len() - i,
        {
            let id = self.times[i].0.clone();
            let ghost prev_out = out@.map_values(|s: String| s@);
            let ghost prev_kept = entry_ids(kept@);
            if expired[i] {
                out.push(id);
            } else {
                kept.push((id, self.times[i].1));
            }
            proof {
                let next = i + 1;
                assert(ids.subrange(0, next as int).drop_last() =~= ids.subrange(0, i as int));
                assert(expired@.subrange(0, next as int).subrange(0, i as int) =~= expired@.subrange(0, i as int));
                assert(out@.map_values(|s: String| s@) =~= filter_by(
                    ids.subrange(0, next as int),
                    expired@.subrange(0, next as int),
                    true,
                ));
                assert(entry_ids(kept@) =~= filter_by(
                    ids.subrange(0, next as int),
                    expired@.subrange(0, next as int),
                    false,
                ));
            }
            i += 1;
        }
        proof {
            assert(ids.subrange(0, i as int) =~= ids);
            assert(expired@.subrange(0, i as int) =~= expired@);
            lemma_filter_by_no_duplicates(ids, expired@, false);
        }
        self.times = kept;
        out
    }
}

proof fn lemma_entry_ids_push(times: Seq<(String, Instant)>, e: (String, Instant))
    ensures
        entry_ids(times.push(e)) == entry_ids(times).push(e.0@),
{
    assert(entry_ids(times.push(e)) =~= entry_ids(times).push(e.0@));
}

/// Splitting a list of distinct ids by flags gives the ids flagged `true`,
/// all of them stored, and leaves exactly the other stored ids.
proof fn lemma_split_sets(ids: Seq<Seq<char>>, flags: Seq<bool>)
    requires
        ids.no_duplicates(),
        flags.len() == ids.len(),
    ensures
        filter_by(ids, flags, true).to_set().subset_of(ids.to_set()),
        filter_by(ids, flags, false).to_set() == ids.to_set().difference(
            filter_by(ids, flags, true).to_set(),
        ),
{
    assert forall|x: Seq<char>| filter_by(ids, flags, true).to_set().contains(x) implies ids.to_set().contains(x) by {
        lemma_filter_by_contains(ids, flags, true, x);
        let j = choose|j: int| 0 <= j < ids.len() && flags[j] == true && ids[j] == x;
        assert(ids[j] == x);
    }
    assert forall|x: Seq<char>|
        filter_by(ids, flags, false).to_set().contains(x) <==> ids.to_set().difference(
            filter_by(ids, flags, true).to_set(),
        ).contains(x) by {
        lemma_filter_by_contains(ids, flags, false, x);
        lemma_filter_by_contains(ids, flags, true, x);
        if filter_by(ids, flags, false).contains(x) {
            let j = choose|j: int| 0 <= j < ids.len() && flags[j] == false && ids[j] == x;
            assert(ids.contains(x));
            if filter_by(ids, flags, true).contains(x) {
                let k = choose|k: int| 0 <= k < ids.len() && flags[k] == true && ids[k] == x;
                assert(ids[j] == ids[k]);
            }
        }
        if ids.contains(x) && !filter_by(ids, flags, true).contains(x) {
            let j = choose|j: int| 0 <= j < ids.len() && ids[j] == x;
            if flags[j] {
                assert(0 <= j < ids.len() && flags[j] == true && ids[j] == x);
            }
            assert(0 <= j < ids.len() && flags[j] == false && ids[j] == x);
        }
    }
    assert(filter_by(ids, flags, false).to_set() =~= ids.to_set().difference(
        filter_by(ids, flags, true).to_set(),
    ));
}

impl TimeoutRepository for HashMapTimeoutRepository {
    closed spec fn known_ids(&self) -> Set<Seq<char>> {
        entry_ids(self.times@).to_set()
    }

    fn save_last_access(&mut self, id: &String) {
        proof {
            use_type_invariant(&*self);
        }
        let ghost ids = self.ids();
        let now = Instant::now();
        let mut next: Vec<(String, Instant)> = Vec::new();
        let mut found = false;
        let mut i: usize = 0;
        while i < self.times.len()
            invariant
                ids == entry_ids(self.times@),
                i <= ids.len(),
                entry_ids(next@) == ids.subrange(0, i as int),
                found == ids.subrange(0, i as int).contains(id@),
            decreases ids.len() - i,
        {
            let ghost prev = next@;
            let key = self.times[i].0.clone();
            let same = key == *id;
            if same {
                next.push((key, now));
                found = true;
            } else {
                next.push((key, self.times[i].1));
            }
            proof {
                let sub = ids.subrange(0, i + 1);
                lemma_entry_ids_push(prev, next@.last());
                assert(next@ == prev.push(next@.last()));
                assert(next@.last().0@ == ids[i as int]);
                assert(entry_ids(next@) =~= sub);
                assert(sub.drop_last() =~= ids.subrange(0, i as int));
                if !same && sub.contains(id@) {
                    let k = choose|k: int| 0 <= k < sub.len() && sub[k] == id@;
                    assert(ids.subrange(0, i as int)[k] == id@);
                }
                if same {
                    assert(sub[i as int] == id@);
                }
                if ids.subrange(0, i as int).contains(id@) {
                    let k = choose|k: int| 0 <= k < i && ids.subrange(0, i as int)[k] == id@;
                    assert(sub[k] == id@);
                }
            }
            i += 1;
        }
        assert(ids.subrange(0, i as int) =~= ids);
        if !found {
            next.push((id.clone(), now));
            proof {
                assert(entry_ids(next@) =~= ids.push(id@));
                assert forall|a: int, b: int|
                    0 <= a < ids.len() + 1 && 0 <= b < ids.len() + 1 && a != b implies ids.push(id@)[a]
                    != ids.push(id@)[b] by {
                    if a == ids.len() {
                        assert(ids[b] != id@);
                    } else if b == ids.len() {
                        assert(ids[a] != id@);
                    }
                }
                assert forall|y: Seq<char>| ids.push(id@).contains(y) <==> ids.to_set().insert(id@).contains(y) by {
                    if ids.push(id@).contains(y) {
                        let k = choose|k: int| 0 <= k < ids.len() + 1 && ids.push(id@)[k] == y;
                        if k < ids.len() {
                            assert(ids[k] == y);
                        }
                    }
                    if ids.contains(y) {
                        let k = choose|k: int| 0 <= k < ids.len() && ids[k] == y;
                        assert(ids.push(id@)[k] == y);
                    }
                    if y == id@ {
                        assert(ids.push(id@)[ids.len() as int] == y);
                    }
                }
                assert(ids.push(id@).to_set() =~= ids.to_set().insert(id@));
            }
        } else {
            assert(ids.to_set() =~= ids.to_set().insert(id@));
        }
        self.times = next;
    }

    fn get_expired(&mut self, timeout: &Duration) -> (r: Vec<String>) {
        let mut expired: Vec<bool> = Vec::new();
        let mut i: usize = 0;
        while i < self.times.len()
            invariant
                expired@.len() == i,
                i <= self.times@.len(),
            decreases self.times@.len() - i,
        {
            let elapsed = self.times[i].1.elapsed();
            expired.push(longer_than(&elapsed, timeout));
            i += 1;
        }
        proof {
            use_type_invariant(&*self);
            lemma_split_sets(self.ids(), expired@);
        }
        self.split_expired(&expired)
    }

    fn remove(&mut self, id: &String) {
        let ghost ids = self.ids();
        let mut same: Vec<bool> = Vec::new();
        let mut i: usize = 0;
        while i < self.times.len()
            invariant
                ids == entry_ids(self.times@),
                same@.len() == i,
                i <= ids.len(),
                forall|j: int| 0 <= j < i ==> same@[j] == (ids[j] == id@),
            decreases ids.len() - i,
        {
            let hit = self.times[i].0 == *id;
            same.push(hit);
            i += 1;
        }
        self.split_expired(&same);
        proof {
            assert forall|x: Seq<char>|
                filter_by(ids, same@, false).to_set().contains(x) <==> ids.to_set().remove(id@).contains(x) by {
                lemma_filter_by_contains(ids, same@, false, x);
                if ids.contains(x) && x != id@ {
                    let j = choose|j: int| 0 <= j < ids.len() && ids[j] == x;
                    assert(same@[j] == false);
                }
            }
            assert(filter_by(ids, same@, false).to_set() =~= ids.to_set().remove(id@));
        }
    }
}

} // verus!
