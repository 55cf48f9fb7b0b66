//! The instance registry: which entity has a live worker, and when that
//! worker was last used.
//!
//! The registry is modelled as a map from identifier to instance. It is held
//! as a list of entries in which no identifier occurs twice, so an identifier
//! never has more than one live worker.

use vstd::prelude::*;
use crate::clock::{idle_at, is_idle, Timestamp};

verus! {

/// A live worker: the handle that the runtime gave for it, and the time of
/// the last command routed to it.
pub struct EntityInstance<W> {
    pub last_used: Timestamp,
    pub actor: W,
}

/// The registry as a mathematical object.
pub type Instances<W> = Map<Seq<char>, EntityInstance<W>>;

/// The registry after a command for the live entity `id` at `now`: the
/// worker is the one that was there, its last use is `now`.
pub open spec fn touched<W>(m: Instances<W>, id: Seq<char>, now: Timestamp) -> Instances<W> {
    m.insert(id, EntityInstance { last_used: now, actor: m[id].actor })
}

/// The registry after a worker `actor` was created for `id` at `now`.
pub open spec fn activated<W>(m: Instances<W>, id: Seq<char>, actor: W, now: Timestamp) -> Instances<W> {
    m.insert(id, EntityInstance { last_used: now, actor })
}

/// The entries that a sweep at `now` evicts: those idle past the window.
pub open spec fn idle_part<W>(m: Instances<W>, now: Timestamp, sleep_after_secs: u64) -> Instances<W> {
    Map::new(
        |id: Seq<char>| m.contains_key(id) && idle_at(m[id].last_used, now, sleep_after_secs),
        |id: Seq<char>| m[id],
    )
}

/// The entries that a sweep at `now` retains, each unchanged.
pub open spec fn active_part<W>(m: Instances<W>, now: Timestamp, sleep_after_secs: u64) -> Instances<W> {
    Map::new(
        |id: Seq<char>| m.contains_key(id) && !idle_at(m[id].last_used, now, sleep_after_secs),
        |id: Seq<char>| m[id],
    )
}

/// Whether some entry of `s` is for `id`.
pub open spec fn holds_id<W>(s: Seq<(String, EntityInstance<W>)>, id: Seq<char>) -> bool {
    exists|i: int| 0 <= i < s.len() && (#[trigger] s[i]).0@ == id
}

/// No identifier has two entries in `s`.
pub open spec fn distinct_ids<W>(s: Seq<(String, EntityInstance<W>)>) -> bool {
    forall|i: int, j: int|
        0 <= i < j < s.len() ==> (#[trigger] s[i]).0@ != (#[trigger] s[j]).0@
}

/// The place in `s` of an entry for `id`.
pub open spec fn index_of<W>(s: Seq<(String, EntityInstance<W>)>, id: Seq<char>) -> int {
    choose|i: int| 0 <= i < s.len() && (#[trigger] s[i]).0@ == id
}

/// The map that a list of entries stands for.
pub open spec fn entries_map<W>(s: Seq<(String, EntityInstance<W>)>) -> Instances<W> {
    Map::new(|id: Seq<char>| holds_id(s, id), |id: Seq<char>| s[index_of(s, id)].1)
}

/// In a list without repeated identifiers, the entry at `i` is the one that
/// the map has for its identifier.
pub proof fn lemma_entry_at<W>(s: Seq<(String, EntityInstance<W>)>, i: int)
    requires
        distinct_ids(s),
        0 <= i < s.len(),
    ensures
        entries_map(s).contains_key(s[i].0@),
        entries_map(s)[s[i].0@] == s[i].1,
{
    let id = s[i].0@;
    assert(holds_id(s, id));
    let j = index_of(s, id);
    assert(0 <= j < s.len() && s[j].0@ == id);
    if j < i {
        assert(s[j].0@ != s[i].0@);
    }
    if i < j {
        assert(s[i].0@ != s[j].0@);
    }
}

/// A list without repeated identifiers stands for a map with as many keys as
/// the list has entries.
pub proof fn lemma_entries_len<W>(s: Seq<(String, EntityInstance<W>)>)
    requires
        distinct_ids(s),
    ensures
        entries_map(s).dom().finite(),
        entries_map(s).dom().len() == s.len(),
    decreases s.len(),
{
    if s.len() == 0 {
        assert(entries_map(s).dom() =~= Set::<Seq<char>>::empty());
    } else {
        let head = s.drop_last();
        let id = s.last().0@;
        assert(distinct_ids(head)) by {
            assert forall|i: int, j: int| 0 <= i < j < head.len() implies (#[trigger] head[i]).0@
                != (#[trigger] head[j]).0@ by {
                assert(head[i] == s[i] && head[j] == s[j]);
            }
        }
        lemma_entries_len(head);
        assert(!holds_id(head, id)) by {
            if holds_id(head, id) {
                let i = index_of(head, id);
                assert(head[i] == s[i]);
                assert(s[i].0@ != s[s.len() - 1].0@);
            }
        }
        assert(entries_map(s).dom() =~= entries_map(head).dom().insert(id)) by {
            assert forall|k: Seq<char>| holds_id(s, k) <==> (holds_id(head, k) || k == id) by {
                if holds_id(s, k) {
                    let i = index_of(s, k);
                    if i < head.len() {
                        assert(head[i] == s[i]);
                    }
                }
                if holds_id(head, k) {
                    let i = index_of(head, k);
                    assert(head[i] == s[i]);
                }
                if k == id {
                    assert(s[s.len() - 1].0@ == k);
                }
            }
        }
    }
}

/// A list without repeated identifiers stands for `m` when each of its
/// entries is in `m` and every key of `m` has an entry.
pub proof fn lemma_entries_are<W>(s: Seq<(String, EntityInstance<W>)>, m: Instances<W>)
    requires
        distinct_ids(s),
        forall|i: int|
            0 <= i < s.len() ==> m.contains_key((#[trigger] s[i]).0@) && m[s[i].0@] == s[i].1,
        forall|id: Seq<char>| #[trigger] m.contains_key(id) ==> holds_id(s, id),
    ensures
        entries_map(s) == m,
{
    assert forall|id: Seq<char>| entries_map(s).contains_key(id) implies m.contains_key(id)
        && entries_map(s)[id] == m[id] by {
        let i = index_of(s, id);
        lemma_entry_at(s, i);
    }
    assert(entries_map(s) =~= m);
}

/// A selection `part` of the entries of `all`, taken from the places
/// `from`, stands for the part `m` of the map of `all` when it holds only
/// entries of `m` and the place of every key of `m` was taken.
proof fn lemma_split<W>(
    all: Seq<(String, EntityInstance<W>)>,
    part: Seq<(String, EntityInstance<W>)>,
    from: Seq<int>,
    m: Instances<W>,
)
    requires
        distinct_ids(all),
        from.len() == part.len(),
        from.no_duplicates(),
        forall|i: int|
            0 <= i < part.len() ==> 0 <= (#[trigger] from[i]) < all.len() && part[i]
                == all[from[i]] && m.contains_key(all[from[i]].0@),
        forall|id: Seq<char>| #[trigger]
            m.contains_key(id) ==> entries_map(all).contains_key(id) && m[id] == entries_map(
                all,
            )[id] && from.contains(index_of(all, id)),
    ensures
        distinct_ids(part),
        entries_map(part) == m,
{
    assert forall|i: int, j: int| 0 <= i < j < part.len() implies (#[trigger] part[i]).0@ != (
    #[trigger] part[j]).0@ by {
        let a = from[i];
        let b = from[j];
        assert(a != b);
        if a < b {
            assert(all[a].0@ != all[b].0@);
        } else {
            assert(all[b].0@ != all[a].0@);
        }
    }
    assert forall|i: int| 0 <= i < part.len() implies m.contains_key((#[trigger] part[i]).0@)
        && m[part[i].0@] == part[i].1 by {
        lemma_entry_at(all, from[i]);
    }
    assert forall|id: Seq<char>| m.contains_key(id) implies holds_id(part, id) by {
        assert(holds_id(all, id));
        let j = index_of(all, id);
        assert(from.contains(j));
        let i = choose|i: int| 0 <= i < from.len() && from[i] == j;
        assert(part[i].0@ == id);
    }
    lemma_entries_are(part, m);
}

/// The instance registry.
pub struct Registry<W> {
    slots: Vec<(String, EntityInstance<W>)>,
}

impl<W> View for Registry<W> {
    type V = Instances<W>;

    closed spec fn view(&self) -> Instances<W> {
        entries_map(self.slots@)
    }
}

impl<W> Registry<W> {
    #[verifier::type_invariant]
    spec fn well_formed(self) -> bool {
        distinct_ids(self.slots@)
    }

    /// A registry without entries.
    pub fn new() -> (r: Self)
        ensures
            r@ == Map::<Seq<char>, EntityInstance<W>>::empty(),
    {
        let r = Registry { slots: Vec::new() };
        assert(r@ =~= Map::<Seq<char>, EntityInstance<W>>::empty());
        r
    }

    /// The number of live workers. It is the number of live identifiers: no
    /// identifier accounts for two workers.
    pub fn len(&self) -> (n: usize)
        ensures
            self@.dom().finite(),
            n == self@.dom().len(),
    {
        proof {
            use_type_invariant(self);
            lemma_entries_len(self.slots@);
        }
        self.slots.len()
    }

    fn position(&self, id: &String) -> (at: Option<usize>)
        ensures
            match at {
                Some(i) => i < self.slots@.len() && self.slots@[i as int].0@ == id@,
                None => !holds_id(self.slots@, id@),
            },
    {
        let mut i: usize = 0;
        while i < self.slots.len()
            invariant
                i <= self.slots@.len(),
                forall|j: int| 0 <= j < i ==> (#[trigger] self.slots@[j]).0@ != id@,
            decreases self.slots@.len() - i,
        {
            if self.slots[i].0 == *id {
                return Some(i);
            }
            i += 1;
        }
        None
    }

    /// Whether `id` has a live worker.
    pub fn contains_key(&self, id: &String) -> (live: bool)
        ensures
            live == self@.contains_key(id@),
    {
        match self.position(id) {
            Some(i) => {
                assert(holds_id(self.slots@, id@));
                true
            },
            None => false,
        }
    }

    /// The instance of `id`, if it has a live worker.
    pub fn get(&self, id: &String) -> (found: Option<&EntityInstance<W>>)
        ensures
            match found {
                Some(instance) => self@.contains_key(id@) && *instance == self@[id@],
                None => !self@.contains_key(id@),
            },
    {
        match self.position(id) {
            Some(i) => {
                proof {
                    use_type_invariant(self);
                    lemma_entry_at(self.slots@, i as int);
                }
                Some(&self.slots[i].1)
            },
            None => None,
        }
    }

    /// Records a command for `id` at `now`, if `id` has a live worker: the
    /// worker stays the one it was, and its last use becomes `now`.
    pub fn touch(&mut self, id: &String, now: Timestamp) -> (live: bool)
        ensures
            live == old(self)@.contains_key(id@),
            live ==> final(self)@ == touched(old(self)@, id@, now),
            !live ==> final(self)@ == old(self)@,
    {
        proof {
            use_type_invariant(&*self);
        }
        match self.position(id) {
            Some(i) => {
                let ghost before = self.slots@;
                let mut slots: Vec<(String, EntityInstance<W>)> = Vec::new();
                std::mem::swap(&mut slots, &mut self.slots);
                slots[i].1.last_used = now;
                proof {
                    let after = slots@;
                    assert(holds_id(before, id@));
                    lemma_entry_at(before, i as int);
                    assert forall|j: int| 0 <= j < after.len() implies touched(
                        entries_map(before),
                        id@,
                        now,
                    ).contains_key((#[trigger] after[j]).0@) && touched(
                        entries_map(before),
                        id@,
                        now,
                    )[after[j].0@] == after[j].1 by {
                        lemma_entry_at(before, j);
                    }
                    assert forall|k: Seq<char>|
                        touched(entries_map(before), id@, now).contains_key(k) implies holds_id(
                        after,
                        k,
                    ) by {
                        let j = if k == id@ {
                            i as int
                        } else {
                            index_of(before, k)
                        };
                        assert(after[j].0@ == k);
                    }
                    lemma_entries_are(after, touched(entries_map(before), id@, now));
                }
                self.slots = slots;
                true
            },
            None => false,
        }
    }

    /// Enters the worker `actor`, created for `id` at `now`. An identifier
    /// that already has a live worker keeps it: the registry is left as it
    /// was and `actor` is handed back.
    pub fn activate(&mut self, id: String, actor: W, now: Timestamp) -> (rejected: Option<W>)
        ensures
            old(self)@.contains_key(id@) ==> rejected == Some(actor) && final(self)@ == old(self)@,
            !old(self)@.contains_key(id@) ==> rejected.is_none() && final(self)@ == activated(
                old(self)@,
                id@,
                actor,
                now,
            ),
    {
        proof {
            use_type_invariant(&*self);
        }
        match self.position(&id) {
            Some(i) => {
                assert(holds_id(self.slots@, id@));
                Some(actor)
            },
            None => {
                let ghost before = self.slots@;
                let ghost key = id@;
                let ghost target = activated(entries_map(before), key, actor, now);
                let mut slots: Vec<(String, EntityInstance<W>)> = Vec::new();
                std::mem::swap(&mut slots, &mut self.slots);
                slots.push((id, EntityInstance { last_used: now, actor }));
                proof {
                    let after = slots@;
                    assert forall|j: int| 0 <= j < after.len() implies target.contains_key(
                        (#[trigger] after[j]).0@,
                    ) && target[after[j].0@] == after[j].1 by {
                        if j < before.len() {
                            assert(after[j] == before[j]);
                            lemma_entry_at(before, j);
                        }
                    }
                    assert forall|k: Seq<char>| target.contains_key(k) implies holds_id(
                        after,
                        k,
                    ) by {
                        let j = if k == key {
                            before.len() as int
                        } else {
                            index_of(before, k)
                        };
                        assert(after[j].0@ == k);
                    }
                    lemma_entries_are(after, target);
                }
                self.slots = slots;
                None
            },
        }
    }

    /// Sweeps the registry at `now`: takes out every entry that is idle past
    /// the window and hands those entries back, each once, so that their
    /// workers can be stopped. The other entries stay as they are.
    pub fn drain_idle(&mut self, now: Timestamp, sleep_after_secs: u64) -> (stopped: Vec<
        (String, EntityInstance<W>),
    >)
        ensures
            distinct_ids(stopped@),
            entries_map(stopped@) == idle_part(old(self)@, now, sleep_after_secs),
            final(self)@ == active_part(old(self)@, now, sleep_after_secs),
    {
        proof {
            use_type_invariant(&*self);
        }
        let ghost all = self.slots@;
        let mut rest: Vec<(String, EntityInstance<W>)> = Vec::new();
        std::mem::swap(&mut rest, &mut self.slots);
        let mut keep: Vec<(String, EntityInstance<W>)> = Vec::new();
        let mut stopped: Vec<(String, EntityInstance<W>)> = Vec::new();
        // Where in `all` each entry of `keep` and of `stopped` came from.
        let ghost mut kept_from: Seq<int> = Seq::empty();
        let ghost mut stopped_from: Seq<int> = Seq::empty();
        while rest.len() > 0
            invariant
                distinct_ids(all),
                rest@.len() <= all.len(),
                rest@ == all.subrange(0, rest@.len() as int),
                kept_from.len() == keep@.len(),
                stopped_from.len() == stopped@.len(),
                kept_from.no_duplicates(),
                stopped_from.no_duplicates(),
                forall|i: int|
                    0 <= i < keep@.len() ==> rest@.len() <= (#[trigger] kept_from[i]) < all.len()
                        && keep@[i] == all[kept_from[i]] && !idle_at(
                        all[kept_from[i]].1.last_used,
                        now,
                        sleep_after_secs,
                    ),
                forall|i: int|
                    0 <= i < stopped@.len() ==> rest@.len() <= (#[trigger] stopped_from[i])
                        < all.len() && stopped@[i] == all[stopped_from[i]] && idle_at(
                        all[stopped_from[i]].1.last_used,
                        now,
                        sleep_after_secs,
                    ),
                forall|j: int|
                    rest@.len() <= j < all.len() ==> if idle_at(
                        (#[trigger] all[j]).1.last_used,
                        now,
                        sleep_after_secs,
                    ) {
                        stopped_from.contains(j)
                    } else {
                        kept_from.contains(j)
                    },
            decreases rest@.len(),
        {
            let ghost at = rest@.len() - 1;
            let entry = rest.pop().unwrap();
            assert(entry == all[at]);
            if is_idle(entry.1.last_used, now, sleep_after_secs) {
                stopped.push(entry);
                proof {
                    let earlier = stopped_from;
                    stopped_from = stopped_from.push(at);
                    assert(stopped_from[earlier.len() as int] == at);
                    assert forall|j: int| rest@.len() <= j < all.len() && idle_at(
                        (#[trigger] all[j]).1.last_used,
                        now,
                        sleep_after_secs,
                    ) implies stopped_from.contains(j) by {
                        if j != at {
                            let i = choose|i: int| 0 <= i < earlier.len() && earlier[i] == j;
                            assert(stopped_from[i] == j);
                        }
                    }
                }
            } else {
                keep.push(entry);
                proof {
                    let earlier = kept_from;
                    kept_from = kept_from.push(at);
                    assert(kept_from[earlier.len() as int] == at);
                    assert forall|j: int| rest@.len() <= j < all.len() && !idle_at(
                        (#[trigger] all[j]).1.last_used,
                        now,
                        sleep_after_secs,
                    ) implies kept_from.contains(j) by {
                        if j != at {
                            let i = choose|i: int| 0 <= i < earlier.len() && earlier[i] == j;
                            assert(kept_from[i] == j);
                        }
                    }
                }
            }
        }
        proof {
            let m = entries_map(all);
            lemma_split(all, keep@, kept_from, active_part(m, now, sleep_after_secs));
            lemma_split(all, stopped@, stopped_from, idle_part(m, now, sleep_after_secs));
        }
        self.slots = keep;
        stopped
    }
}

} // verus!
