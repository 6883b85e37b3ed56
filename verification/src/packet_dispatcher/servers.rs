//! When each known server was last heard from. A server that was heard from
//! since the last prune counts as connected.
use crate::dist_mutex::messages::Timestamp;
use crate::server_id::ServerId;
use vstd::prelude::*;

verus! {

pub type LastSeenEntry = (ServerId, Option<Timestamp>);

/// The map that a list of entries stands for: each server to the last value
/// listed for it.
pub open spec fn entries_map(s: Seq<LastSeenEntry>) -> Map<ServerId, Option<Timestamp>>
    decreases s.len(),
{
    if s.len() == 0 {
        Map::empty()
    } else {
        entries_map(s.drop_last()).insert(s.last().0, s.last().1)
    }
}

/// No server is listed twice.
pub open spec fn distinct_servers(s: Seq<LastSeenEntry>) -> bool {
    forall|i: int, j: int| 0 <= i < j < s.len() ==> s[i].0 != s[j].0
}

/// What a prune that drops the servers not seen since `older_than` leaves of
/// the last sighting `seen`.
pub open spec fn pruned(seen: Option<Timestamp>, older_than: Timestamp) -> Option<Timestamp> {
    match seen {
        Some(t) => if t.time < older_than.time {
            None
        } else {
            Some(t)
        },
        None => None,
    }
}

/// The servers of `m` that count as connected.
pub open spec fn connected_set(m: Map<ServerId, Option<Timestamp>>) -> Set<ServerId> {
    m.dom().filter(|s: ServerId| m[s] is Some)
}

proof fn lemma_entries_map_dom(s: Seq<LastSeenEntry>, k: ServerId)
    ensures
        entries_map(s).dom().contains(k) <==> exists|i: int| 0 <= i < s.len() && s[i].0 == k,
    decreases s.len(),
{
    if s.len() > 0 {
        lemma_entries_map_dom(s.drop_last(), k);
        if entries_map(s).dom().contains(k) {
            if k == s.last().0 {
                assert(s[s.len() - 1].0 == k);
            } else {
                let i = choose|i: int| 0 <= i < s.len() - 1 && s.drop_last()[i].0 == k;
                assert(s[i].0 == k);
            }
        }
        if exists|i: int| 0 <= i < s.len() && s[i].0 == k {
            let i = choose|i: int| 0 <= i < s.len() && s[i].0 == k;
            if i < s.len() - 1 {
                assert(s.drop_last()[i].0 == k);
            }
        }
    }
}

proof fn lemma_entries_map_value(s: Seq<LastSeenEntry>, i: int)
    requires
        distinct_servers(s),
        0 <= i < s.len(),
    ensures
        entries_map(s).dom().contains(s[i].0),
        entries_map(s)[s[i].0] == s[i].1,
    decreases s.len(),
{
    if i < s.len() - 1 {
        assert(s.drop_last()[i] == s[i]);
        assert(distinct_servers(s.drop_last()));
        lemma_entries_map_value(s.drop_last(), i);
        assert(s[i].0 != s[s.len() - 1].0);
    }
}

/// When each known server was last heard from.
pub struct ServersLastSeen {
    entries: Vec<LastSeenEntry>,
}

impl View for ServersLastSeen {
    type V = Map<ServerId, Option<Timestamp>>;

    closed spec fn view(&self) -> Map<ServerId, Option<Timestamp>> {
        entries_map(self.entries@)
    }
}

impl ServersLastSeen {
    /// The list is well formed: no server is listed twice.
    pub closed spec fn wf(&self) -> bool {
        distinct_servers(self.entries@)
    }

    /// Every server of `servers` but `me`, none of them seen yet.
    pub fn from_config(servers: &Vec<ServerId>, me: ServerId) -> (r: Self)
        ensures
            r.wf(),
            forall|s: ServerId| #[trigger] r@.dom().contains(s) <==> (servers@.contains(s) && s != me),
            forall|s: ServerId| #[trigger] r@.dom().contains(s) ==> r@[s] is None,
    {
        let mut r = ServersLastSeen { entries: Vec::new() };
        let mut i: usize = 0;
        while i < servers.len()
            invariant
                i <= servers.len(),
                r.wf(),
                forall|x: ServerId| #[trigger] r@.dom().contains(x) <==> (x != me && exists|j: int| 0 <= j < i && servers@[j] == x),
                forall|x: ServerId| #[trigger] r@.dom().contains(x) ==> r@[x] is None,
            decreases servers.len() - i,
        {
            let s = servers[i];
            if s != me && !r.contains(s) {
                r.push_new(s);
            }
            proof {
                assert forall|x: ServerId| #[trigger] r@.dom().contains(x) <==> (x != me && exists|j: int| 0 <= j < i + 1 && servers@[j] == x) by {
                    if x == s {
                        assert(servers@[i as int] == x);
                    }
                    if exists|j: int| 0 <= j < i + 1 && servers@[j] == x {
                        let j = choose|j: int| 0 <= j < i + 1 && servers@[j] == x;
                        if j < i {
                            assert(exists|j: int| 0 <= j < i && servers@[j] == x);
                        }
                    }
                }
            }
            i = i + 1;
        }
        proof {
            assert forall|x: ServerId| #[trigger] r@.dom().contains(x) <==> (servers@.contains(x) && x != me) by {
                if servers@.contains(x) {
                    let j = choose|j: int| 0 <= j < servers@.len() && servers@[j] == x;
                }
            }
        }
        r
    }

    /// Whether `s` is a known server.
    pub fn contains(&self, s: ServerId) -> (r: bool)
        ensures
            r == self@.dom().contains(s),
    {
        match self.find(s) {
            Some(_) => true,
            None => false,
        }
    }

    /// Where `s` is listed, if it is.
    fn find(&self, s: ServerId) -> (r: Option<usize>)
        ensures
            match r {
                Some(i) => i < self.entries.len() && self.entries@[i as int].0 == s && self@.dom().contains(s),
                None => !self@.dom().contains(s),
            },
    {
        let mut i: usize = 0;
        while i < self.entries.len()
            invariant
                i <= self.entries.len(),
                forall|j: int| 0 <= j < i ==> self.entries@[j].0 != s,
            decreases self.entries.len() - i,
        {
            if self.entries[i].0 == s {
                proof {
                    lemma_entries_map_dom(self.entries@, s);
                }
                return Some(i);
            }
            i = i + 1;
        }
        proof {
            lemma_entries_map_dom(self.entries@, s);
        }
        None
    }

    /// Lists `s`, not yet seen, where it is not listed.
    fn push_new(&mut self, s: ServerId)
        requires
            old(self).wf(),
            !old(self)@.dom().contains(s),
        ensures
            final(self).wf(),
            final(self)@ == old(self)@.insert(s, None),
    {
        proof {
            assert forall|j: int| 0 <= j < self.entries@.len() implies self.entries@[j].0 != s by {
                lemma_entries_map_dom(self.entries@, s);
            }
        }
        let ghost before = self.entries@;
        self.entries.push((s, None));
        proof {
            assert(self.entries@.drop_last() =~= before);
        }
    }

    /// Records that `origin` was heard from at `now`, listing it if it was
    /// not known.
    pub fn mark_seen(&mut self, origin: ServerId, now: Timestamp)
        requires
            old(self).wf(),
        ensures
            final(self).wf(),
            final(self)@ == old(self)@.insert(origin, Some(now)),
    {
        match self.find(origin) {
            Some(i) => {
                let ghost before = self.entries@;
                self.entries.set(i, (origin, Some(now)));
                proof {
                    let after = self.entries@;
                    assert(distinct_servers(after)) by {
                        assert forall|a: int, b: int| 0 <= a < b < after.len() implies after[a].0 != after[b].0 by {
                            assert(after[a].0 == before[a].0 && after[b].0 == before[b].0);
                        }
                    }
                    assert(self@ =~= entries_map(before).insert(origin, Some(now))) by {
                        assert forall|k: ServerId| #[trigger] self@.dom().contains(k) <==> entries_map(before).insert(origin, Some(now)).dom().contains(k) by {
                            lemma_entries_map_dom(after, k);
                            lemma_entries_map_dom(before, k);
                            if exists|j: int| 0 <= j < after.len() && after[j].0 == k {
                                let j = choose|j: int| 0 <= j < after.len() && after[j].0 == k;
                                assert(before[j].0 == k);
                            }
                            if exists|j: int| 0 <= j < before.len() && before[j].0 == k {
                                let j = choose|j: int| 0 <= j < before.len() && before[j].0 == k;
                                assert(after[j].0 == k);
                            }
                            if k == origin {
                                assert(after[i as int].0 == k);
                            }
                        }
                        assert forall|k: ServerId| #[trigger] self@.dom().contains(k) implies self@[k] == entries_map(before).insert(origin, Some(now))[k] by {
                            lemma_entries_map_dom(after, k);
                            let j = choose|j: int| 0 <= j < after.len() && after[j].0 == k;
                            lemma_entries_map_value(after, j);
                            if k != origin {
                                assert(before[j] == after[j]);
                                lemma_entries_map_value(before, j);
                            }
                        }
                    }
                }
            },
            None => {
                proof {
                    assert forall|j: int| 0 <= j < self.entries@.len() implies self.entries@[j].0 != origin by {
                        lemma_entries_map_dom(self.entries@, origin);
                    }
                }
                let ghost before = self.entries@;
                self.entries.push((origin, Some(now)));
                proof {
                    assert(self.entries@.drop_last() =~= before);
                }
            },
        }
    }

    /// Drops the servers last heard from before `older_than` from the
    /// connected ones; they stay known.
    pub fn prune(&mut self, older_than: Timestamp)
        requires
            old(self).wf(),
        ensures
            final(self).wf(),
            final(self)@.dom() == old(self)@.dom(),
            forall|s: ServerId| #[trigger] final(self)@.dom().contains(s) ==> final(self)@[s] == pruned(old(self)@[s], older_than),
    {
        let ghost before = self.entries@;
        let mut entries: Vec<LastSeenEntry> = Vec::new();
        let mut i: usize = 0;
        while i < self.entries.len()
            invariant
                self.entries@ == before,
                i <= before.len(),
                entries@.len() == i,
                forall|j: int| 0 <= j < i ==> (#[trigger] entries@[j]).0 == before[j].0 && entries@[j].1 == pruned(before[j].1, older_than),
            decreases before.len() - i,
        {
            let (s, seen) = self.entries[i];
            let kept: Option<Timestamp> = match seen {
                Some(t) => if t.time < older_than.time {
                    None
                } else {
                    Some(t)
                },
                None => None,
            };
            entries.push((s, kept));
            i = i + 1;
        }
        self.entries = entries;
        proof {
            let after = self.entries@;
            assert(distinct_servers(after)) by {
                assert forall|a: int, b: int| 0 <= a < b < after.len() implies after[a].0 != after[b].0 by {
                    assert(after[a].0 == before[a].0 && after[b].0 == before[b].0);
                }
            }
            assert forall|k: ServerId| #[trigger] self@.dom().contains(k) <==> entries_map(before).dom().contains(k) by {
                lemma_entries_map_dom(after, k);
                lemma_entries_map_dom(before, k);
                if exists|j: int| 0 <= j < after.len() && after[j].0 == k {
                    let j = choose|j: int| 0 <= j < after.len() && after[j].0 == k;
                    assert(before[j].0 == k);
                }
                if exists|j: int| 0 <= j < before.len() && before[j].0 == k {
                    let j = choose|j: int| 0 <= j < before.len() && before[j].0 == k;
                    assert(after[j].0 == k);
                }
            }
            assert(self@.dom() =~= entries_map(before).dom());
            assert forall|k: ServerId| #[trigger] self@.dom().contains(k) implies self@[k] == pruned(entries_map(before)[k], older_than) by {
                lemma_entries_map_dom(after, k);
                let j = choose|j: int| 0 <= j < after.len() && after[j].0 == k;
                lemma_entries_map_value(after, j);
                lemma_entries_map_value(before, j);
            }
        }
    }

    /// The servers heard from since the last prune, each once.
    pub fn connected_servers(&self) -> (r: Vec<ServerId>)
        requires
            self.wf(),
        ensures
            r@.to_set() == connected_set(self@),
            r@.no_duplicates(),
    {
        let mut r: Vec<ServerId> = Vec::new();
        let mut i: usize = 0;
        while i < self.entries.len()
            invariant
                self.wf(),
                i <= self.entries.len(),
                r@.no_duplicates(),
                forall|s: ServerId| r@.contains(s) <==> exists|j: int| 0 <= j < i && #[trigger] self.entries@[j].0 == s && self.entries@[j].1 is Some,
            decreases self.entries.len() - i,
        {
            let (s, seen) = self.entries[i];
            if seen.is_some() {
                proof {
                    if r@.contains(s) {
                        let j = choose|j: int| 0 <= j < i && #[trigger] self.entries@[j].0 == s && self.entries@[j].1 is Some;
                        assert(self.entries@[j].0 != self.entries@[i as int].0);
                    }
                }
                let ghost old_r = r@;
                r.push(s);
                proof {
                    assert forall|x: ServerId| r@.contains(x) <==> exists|j: int| 0 <= j < i + 1 && #[trigger] self.entries@[j].0 == x && self.entries@[j].1 is Some by {
                        if r@.contains(x) {
                            let k = choose|k: int| 0 <= k < r@.len() && r@[k] == x;
                            if k < old_r.len() {
                                assert(old_r[k] == x);
                                assert(old_r.contains(x));
                            } else {
                                assert(self.entries@[i as int].0 == x);
                            }
                        }
                        if exists|j: int| 0 <= j < i + 1 && #[trigger] self.entries@[j].0 == x && self.entries@[j].1 is Some {
                            let j = choose|j: int| 0 <= j < i + 1 && #[trigger] self.entries@[j].0 == x && self.entries@[j].1 is Some;
                            if j < i {
                                assert(old_r.contains(x));
                                let k = choose|k: int| 0 <= k < old_r.len() && old_r[k] == x;
                                assert(r@[k] == x);
                            } else {
                                assert(r@[old_r.len() as int] == x);
                            }
                        }
                    }
                }
            } else {
                proof {
                    assert forall|x: ServerId| r@.contains(x) <==> exists|j: int| 0 <= j < i + 1 && #[trigger] self.entries@[j].0 == x && self.entries@[j].1 is Some by {
                        if exists|j: int| 0 <= j < i + 1 && #[trigger] self.entries@[j].0 == x && self.entries@[j].1 is Some {
                            let j = choose|j: int| 0 <= j < i + 1 && #[trigger] self.entries@[j].0 == x && self.entries@[j].1 is Some;
                            assert(j != i);
                        }
                    }
                }
            }
            i = i + 1;
        }
        proof {
            assert forall|s: ServerId| r@.to_set().contains(s) <==> connected_set(self@).contains(s) by {
                lemma_entries_map_dom(self.entries@, s);
                if r@.contains(s) {
                    let j = choose|j: int| 0 <= j < self.entries@.len() && #[trigger] self.entries@[j].0 == s && self.entries@[j].1 is Some;
                    lemma_entries_map_value(self.entries@, j);
                }
                if connected_set(self@).contains(s) {
                    let j = choose|j: int| 0 <= j < self.entries@.len() && self.entries@[j].0 == s;
                    lemma_entries_map_value(self.entries@, j);
                }
            }
            assert(r@.to_set() =~= connected_set(self@));
        }
        r
    }

    /// Every known server, each once.
    pub fn known_servers(&self) -> (r: Vec<ServerId>)
        requires
            self.wf(),
        ensures
            r@.to_set() == self@.dom(),
            r@.no_duplicates(),
    {
        let mut r: Vec<ServerId> = Vec::new();
        let mut i: usize = 0;
        while i < self.entries.len()
            invariant
                self.wf(),
                i <= self.entries.len(),
                r@.len() == i,
                forall|j: int| 0 <= j < i ==> r@[j] == #[trigger] self.entries@[j].0,
            decreases self.entries.len() - i,
        {
            r.push(self.entries[i].0);
            i = i + 1;
        }
        proof {
            assert forall|a: int, b: int| 0 <= a < r@.len() && 0 <= b < r@.len() && a != b implies r@[a] != r@[b] by {
                assert(r@[a] == self.entries@[a].0 && r@[b] == self.entries@[b].0);
            }
            assert forall|s: ServerId| r@.to_set().contains(s) <==> self@.dom().contains(s) by {
                lemma_entries_map_dom(self.entries@, s);
                if r@.contains(s) {
                    let k = choose|k: int| 0 <= k < r@.len() && r@[k] == s;
                    assert(self.entries@[k].0 == s);
                }
                if self@.dom().contains(s) {
                    let j = choose|j: int| 0 <= j < self.entries@.len() && self.entries@[j].0 == s;
                    assert(r@[j] == s);
                }
            }
            assert(r@.to_set() =~= self@.dom());
        }
        r
    }
}

/// Pruning twice with the same bound prunes no more than once.
pub proof fn lemma_prune_idempotent(seen: Option<Timestamp>, older_than: Timestamp)
    ensures
        pruned(pruned(seen, older_than), older_than) == pruned(seen, older_than),
{
}

/// After a prune, the connected servers are those connected before whose
/// last sighting is not older than the bound.
pub proof fn lemma_connected_after_prune(
    before: Map<ServerId, Option<Timestamp>>,
    after: Map<ServerId, Option<Timestamp>>,
    older_than: Timestamp,
)
    requires
        after.dom() == before.dom(),
        forall|s: ServerId| #[trigger] after.dom().contains(s) ==> after[s] == pruned(before[s], older_than),
    ensures
        connected_set(after) == connected_set(before).filter(|s: ServerId| before[s]->Some_0.time >= older_than.time),
{
    assert(connected_set(after) =~= connected_set(before).filter(|s: ServerId| before[s]->Some_0.time >= older_than.time));
}

/// A server that was just heard from counts as connected, and the others
/// keep their state.
pub proof fn lemma_seen_server_connected(m: Map<ServerId, Option<Timestamp>>, s: ServerId, now: Timestamp)
    ensures
        connected_set(m.insert(s, Some(now))) == connected_set(m).insert(s),
{
    assert(connected_set(m.insert(s, Some(now))) =~= connected_set(m).insert(s));
}

} // verus!
