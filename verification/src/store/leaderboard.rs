//! Accumulated voice time per user, and who leads.

use crate::text::same_text;
use vstd::prelude::*;

verus! {

/// Persisted voice rank entry.
#[derive(Debug, PartialEq, Eq)]
pub struct RankEntry {
    pub display_name: String,
    pub total_ms: u64,
}

/// What a rank entry says.
#[verifier::ext_equal]
pub struct RankView {
    pub display_name: Seq<char>,
    pub total_ms: u64,
}

impl View for RankEntry {
    type V = RankView;

    open spec fn view(&self) -> RankView {
        RankView { display_name: self.display_name@, total_ms: self.total_ms }
    }
}

impl Clone for RankEntry {
    fn clone(&self) -> (copy: Self)
        ensures
            copy == *self,
    {
        RankEntry { display_name: self.display_name.clone(), total_ms: self.total_ms }
    }
}

impl Default for RankEntry {
    fn default() -> (entry: Self)
        ensures
            entry.display_name@ == Seq::<char>::empty(),
            entry.total_ms == 0,
    {
        RankEntry { display_name: String::new(), total_ms: 0 }
    }
}

/// The map that results from inserting `entries` in order; a later entry
/// replaces an earlier one with the same key.
pub open spec fn collected(entries: Seq<(String, RankEntry)>) -> Map<Seq<char>, RankView>
    decreases entries.len(),
{
    if entries.len() == 0 {
        Map::empty()
    } else {
        collected(entries.drop_last()).insert(entries.last().0@, entries.last().1@)
    }
}

/// No key occurs twice.
pub open spec fn distinct_keys(entries: Seq<(String, RankEntry)>) -> bool {
    forall|i: int, j: int|
        0 <= i < j < entries.len() ==> (#[trigger] entries[i]).0@ != (#[trigger] entries[j]).0@
}

/// Whether the entry at `a` is listed before the one at `b`: it has more voice
/// time, or the same and comes first in `entries`.
pub open spec fn outranks(entries: Seq<(String, RankEntry)>, a: int, b: int) -> bool {
    ||| entries[a].1.total_ms > entries[b].1.total_ms
    ||| entries[a].1.total_ms == entries[b].1.total_ms && a < b
}

/// `order` lists every index of `entries` once, the leaders first.
pub open spec fn is_ranking(entries: Seq<(String, RankEntry)>, order: Seq<int>) -> bool {
    &&& order.len() == entries.len()
    &&& forall|i: int| 0 <= i < order.len() ==> 0 <= #[trigger] order[i] < entries.len()
    &&& forall|i: int, j: int|
        0 <= i < j < order.len() ==> #[trigger] outranks(entries, order[i], order[j])
    &&& forall|a: int| 0 <= a < entries.len() ==> #[trigger] order.contains(a)
}

/// The order in which `entries` are ranked.
pub open spec fn ranking(entries: Seq<(String, RankEntry)>) -> Seq<int> {
    choose|order: Seq<int>| is_ranking(entries, order)
}

/// The first `limit` of the ranked `entries`.
pub open spec fn ranked(entries: Seq<(String, RankEntry)>, limit: nat) -> Seq<
    (String, RankEntry),
> {
    Seq::new(
        if limit < entries.len() {
            limit
        } else {
            entries.len()
        },
        |i: int| entries[ranking(entries)[i]],
    )
}

/// `top` is what a leaderboard of `limit` places shows of `rank`: its entries,
/// each at most once, by falling voice time, and none left out that has more
/// time than one shown.
pub open spec fn is_leaderboard(
    rank: Map<Seq<char>, RankView>,
    limit: nat,
    top: Seq<(String, RankEntry)>,
) -> bool {
    &&& top.len() == if limit < rank.len() {
        limit
    } else {
        rank.len()
    }
    &&& distinct_keys(top)
    &&& forall|i: int|
        0 <= i < top.len() ==> rank.contains_key((#[trigger] top[i]).0@) && rank[top[i].0@]
            == top[i].1@
    &&& forall|i: int, j: int|
        0 <= i < j < top.len() ==> (#[trigger] top[i]).1.total_ms >= (
        #[trigger] top[j]).1.total_ms
    &&& forall|k: Seq<char>, i: int|
        #![trigger rank.contains_key(k), top[i]]
        rank.contains_key(k) && 0 <= i < top.len() && rank[k].total_ms > top[i].1.total_ms
            ==> exists|j: int| 0 <= j < i && (#[trigger] top[j]).0@ == k
}

/// Two rankings of the same entries are the same.
pub proof fn ranking_is_unique(
    entries: Seq<(String, RankEntry)>,
    p: Seq<int>,
    q: Seq<int>,
)
    requires
        is_ranking(entries, p),
        is_ranking(entries, q),
    ensures
        p == q,
{
    lemma_rankings_agree(entries, p, q, p.len());
    assert(p =~= q);
}

proof fn lemma_rankings_agree(
    entries: Seq<(String, RankEntry)>,
    p: Seq<int>,
    q: Seq<int>,
    n: nat,
)
    requires
        is_ranking(entries, p),
        is_ranking(entries, q),
        n <= p.len(),
    ensures
        forall|i: int| 0 <= i < n ==> p[i] == q[i],
    decreases n,
{
    if n > 0 {
        lemma_rankings_agree(entries, p, q, (n - 1) as nat);
        let last = n - 1;
        assert(q.contains(p[last]));
        assert(p.contains(q[last]));
        let k = choose|k: int| 0 <= k < q.len() && q[k] == p[last];
        let m = choose|m: int| 0 <= m < p.len() && p[m] == q[last];
        if k < last {
            assert(outranks(entries, p[k], p[last]));
        }
        if m < last {
            assert(outranks(entries, q[m], q[last]));
        }
        if k > last {
            assert(outranks(entries, q[last], q[k]));
        }
        if m > last {
            assert(outranks(entries, p[last], p[m]));
        }
    }
}

/// The first `limit` entries by falling voice time; of entries with the same
/// time the one that comes first in `entries` stays first.
pub fn leaders(entries: Vec<(String, RankEntry)>, limit: usize) -> (top: Vec<(String, RankEntry)>)
    ensures
        is_ranking(entries@, ranking(entries@)),
        top@ == ranked(entries@, limit as nat),
{
    let mut top: Vec<(String, RankEntry)> = Vec::new();
    let ghost mut order: Seq<int> = Seq::empty();
    let mut i: usize = 0;
    while i < entries.len()
        invariant
            i <= entries@.len(),
            order.len() == i,
            top@.len() == i,
            forall|k: int| 0 <= k < i ==> 0 <= #[trigger] order[k] < i,
            forall|k: int| 0 <= k < i ==> #[trigger] top@[k] == entries@[order[k]],
            forall|k: int, l: int|
                0 <= k < l < i ==> #[trigger] outranks(entries@, order[k], order[l]),
            forall|a: int| 0 <= a < i ==> #[trigger] order.contains(a),
        decreases entries@.len() - i,
    {
        let mut p: usize = 0;
        while p < top.len() && top[p].1.total_ms >= entries[i].1.total_ms
            invariant
                p <= top@.len(),
                i < entries@.len(),
                forall|k: int| 0 <= k < p ==> (#[trigger] top@[k]).1.total_ms
                    >= entries@[i as int].1.total_ms,
            decreases top@.len() - p,
        {
            p += 1;
        }
        let ghost before = order;
        let ghost shown = top@;
        top.insert(p, (entries[i].0.clone(), entries[i].1.clone()));
        proof {
            order = before.insert(p as int, i as int);
            assert forall|k: int, l: int| 0 <= k < l < i + 1 implies #[trigger] outranks(
                entries@,
                order[k],
                order[l],
            ) by {
                let k0 = if k < p { k } else { k - 1 };
                let l0 = if l < p { l } else { l - 1 };
                if k != p && l != p {
                    assert(outranks(entries@, before[k0], before[l0]));
                } else if k == p {
                    assert(shown[l0] == entries@[before[l0]]);
                    if p < l0 {
                        assert(outranks(entries@, before[p as int], before[l0]));
                        assert(shown[p as int] == entries@[before[p as int]]);
                    }
                } else {
                    assert(shown[k] == entries@[before[k]]);
                }
            }
            assert forall|a: int| 0 <= a < i + 1 implies #[trigger] order.contains(a) by {
                if a == i {
                    assert(order[p as int] == a);
                } else {
                    assert(before.contains(a));
                    let k = choose|k: int| 0 <= k < before.len() && before[k] == a;
                    if k < p {
                        assert(order[k] == a);
                    } else {
                        assert(order[k + 1] == a);
                    }
                }
            }
        }
        i += 1;
    }
    proof {
        assert(is_ranking(entries@, order));
        ranking_is_unique(entries@, order, ranking(entries@));
    }
    top.truncate(limit);
    assert(top@ =~= ranked(entries@, limit as nat));
    top
}

/// A key is in the collected map exactly if one of the entries has it, and with
/// distinct keys every entry is found under its own.
proof fn lemma_collected(entries: Seq<(String, RankEntry)>)
    ensures
        collected(entries).dom().finite(),
        forall|i: int|
            0 <= i < entries.len() ==> collected(entries).contains_key(
                (#[trigger] entries[i]).0@,
            ),
        forall|k: Seq<char>| #[trigger]
            collected(entries).contains_key(k) ==> exists|i: int|
                0 <= i < entries.len() && (#[trigger] entries[i]).0@ == k && entries[i].1@
                    == collected(entries)[k],
        distinct_keys(entries) ==> collected(entries).len() == entries.len(),
        distinct_keys(entries) ==> forall|i: int|
            0 <= i < entries.len() ==> collected(entries)[(#[trigger] entries[i]).0@]
                == entries[i].1@,
    decreases entries.len(),
{
    if entries.len() > 0 {
        let front = entries.drop_last();
        lemma_collected(front);
        assert forall|i: int| 0 <= i < entries.len() implies collected(entries).contains_key(
            (#[trigger] entries[i]).0@,
        ) by {
            if i < front.len() {
                assert(front[i] == entries[i]);
            }
        }
        assert forall|k: Seq<char>| #[trigger] collected(entries).contains_key(k) implies exists|
            i: int,
        |
            0 <= i < entries.len() && (#[trigger] entries[i]).0@ == k && entries[i].1@
                == collected(entries)[k] by {
            if k != entries.last().0@ {
                assert(collected(front).contains_key(k));
                let i = choose|i: int|
                    0 <= i < front.len() && (#[trigger] front[i]).0@ == k && front[i].1@
                        == collected(front)[k];
                assert(entries[i].0@ == k);
            } else {
                assert(entries[entries.len() - 1].0@ == k);
            }
        }
        if distinct_keys(entries) {
            assert forall|i: int, j: int| 0 <= i < j < front.len() implies (
            #[trigger] front[i]).0@ != (#[trigger] front[j]).0@ by {
                assert(entries[i].0@ != entries[j].0@);
            }
            assert(!collected(front).contains_key(entries.last().0@));
            assert forall|i: int| 0 <= i < entries.len() implies collected(
                entries,
            )[(#[trigger] entries[i]).0@] == entries[i].1@ by {
                if i < front.len() {
                    assert(front[i] == entries[i]);
                }
            }
        }
    }
}

/// What entries say.
pub open spec fn entry_views(entries: Seq<(String, RankEntry)>) -> Seq<(Seq<char>, RankView)> {
    entries.map_values(|e: (String, RankEntry)| (e.0@, e.1@))
}

/// A rank survives being saved: what was read back, in whatever order, makes up the
/// same rank if it holds the same entries.
pub proof fn a_saved_rank_is_restored(rank: VoiceRank, saved: Seq<(String, RankEntry)>)
    requires
        rank.wf(),
        forall|e: (Seq<char>, RankView)| #[trigger]
            entry_views(saved).contains(e) <==> entry_views(rank.listed()).contains(e),
    ensures
        collected(saved) == rank@,
{
    let listed = rank.listed();
    lemma_collected(listed);
    lemma_collected(saved);
    let restored = collected(saved);
    assert forall|k: Seq<char>| #[trigger] restored.contains_key(k) implies rank@.contains_key(k)
        && rank@[k] == restored[k] by {
        let i = choose|i: int|
            0 <= i < saved.len() && (#[trigger] saved[i]).0@ == k && saved[i].1@
                == collected(saved)[k];
        assert(entry_views(saved)[i] == (k, collected(saved)[k]));
        assert(entry_views(saved).contains((k, collected(saved)[k])));
        let j = choose|j: int|
            0 <= j < listed.len() && entry_views(listed)[j] == (k, collected(saved)[k]);
        assert(collected(listed)[listed[j].0@] == listed[j].1@);
    }
    assert forall|k: Seq<char>| #[trigger] rank@.contains_key(k) implies collected(
        saved,
    ).contains_key(k) by {
        let i = choose|i: int|
            0 <= i < listed.len() && (#[trigger] listed[i]).0@ == k && listed[i].1@
                == collected(listed)[k];
        assert(entry_views(listed)[i] == (k, rank@[k]));
        assert(entry_views(saved).contains((k, rank@[k])));
        let j = choose|j: int| 0 <= j < saved.len() && entry_views(saved)[j] == (k, rank@[k]);
        assert(saved[j].0@ == k);
    }
    assert(collected(saved) =~= rank@);
}

/// The first places of a ranking of entries with distinct keys are the
/// leaderboard of the map that they make up.
pub proof fn ranked_is_leaderboard(entries: Seq<(String, RankEntry)>, limit: nat)
    requires
        distinct_keys(entries),
        is_ranking(entries, ranking(entries)),
    ensures
        is_leaderboard(collected(entries), limit, ranked(entries, limit)),
{
    lemma_collected(entries);
    let rank = collected(entries);
    let top = ranked(entries, limit);
    let order = ranking(entries);
    assert forall|i: int, j: int| 0 <= i < j < top.len() implies (#[trigger] top[i]).0@ != (
    #[trigger] top[j]).0@ by {
        assert(outranks(entries, order[i], order[j]));
        if order[i] < order[j] {
            assert(entries[order[i]].0@ != entries[order[j]].0@);
        } else {
            assert(entries[order[j]].0@ != entries[order[i]].0@);
        }
    }
    assert forall|i: int, j: int| 0 <= i < j < top.len() implies (
    #[trigger] top[i]).1.total_ms >= (#[trigger] top[j]).1.total_ms by {
        assert(outranks(entries, order[i], order[j]));
    }
    assert forall|k: Seq<char>, i: int|
        #![trigger rank.contains_key(k), top[i]]
        rank.contains_key(k) && 0 <= i < top.len() && rank[k].total_ms
            > top[i].1.total_ms implies exists|j: int|
        0 <= j < i && (#[trigger] top[j]).0@ == k by {
        let a = choose|a: int| 0 <= a < entries.len() && (#[trigger] entries[a]).0@ == k;
        assert(rank[entries[a].0@] == entries[a].1@);
        assert(order.contains(a));
        let j = choose|j: int| 0 <= j < order.len() && order[j] == a;
        if i < j {
            assert(outranks(entries, order[i], order[j]));
        }
        assert(j < i);
        assert(top[j].0@ == k);
    }
}

/// A longer leaderboard starts with the shorter one.
pub proof fn ranked_prefix(entries: Seq<(String, RankEntry)>, fewer: nat, more: nat)
    requires
        fewer <= more,
    ensures
        ranked(entries, fewer).is_prefix_of(ranked(entries, more)),
{
    let short = ranked(entries, fewer);
    assert(short =~= ranked(entries, more).subrange(0, short.len() as int));
}

/// Accumulated voice time per user key.
pub struct VoiceRank {
    entries: Vec<(String, RankEntry)>,
}

impl View for VoiceRank {
    type V = Map<Seq<char>, RankView>;

    closed spec fn view(&self) -> Map<Seq<char>, RankView> {
        collected(self.entries@)
    }
}

impl VoiceRank {
    /// Each key has one entry.
    pub closed spec fn wf(self) -> bool {
        distinct_keys(self.entries@)
    }

    /// The entries in the order in which their keys were first seen.
    pub closed spec fn listed(self) -> Seq<(String, RankEntry)> {
        self.entries@
    }

    /// A rank without entries.
    pub fn new() -> (rank: Self)
        ensures
            rank.wf(),
            rank@ == Map::<Seq<char>, RankView>::empty(),
    {
        VoiceRank { entries: Vec::new() }
    }

    /// The rank that holds `entries`; of two entries with the same key the later
    /// one counts.
    pub fn from_entries(entries: Vec<(String, RankEntry)>) -> (rank: Self)
        ensures
            rank.wf(),
            rank@ == collected(entries@),
    {
        let mut rank = VoiceRank::new();
        let mut i: usize = 0;
        while i < entries.len()
            invariant
                i <= entries@.len(),
                rank.wf(),
                rank@ == collected(entries@.take(i as int)),
            decreases entries@.len() - i,
        {
            assert(entries@.take(i + 1).drop_last() =~= entries@.take(i as int));
            rank.put(entries[i].0.clone(), entries[i].1.clone());
            i += 1;
        }
        assert(entries@.take(i as int) =~= entries@);
        rank
    }

    fn find(&self, key: &str) -> (found: Option<usize>)
        requires
            self.wf(),
        ensures
            match found {
                Some(i) => i < self.entries@.len() && self.entries@[i as int].0@ == key@
                    && self@.contains_key(key@) && self@[key@] == self.entries@[i as int].1@,
                None => !self@.contains_key(key@) && forall|i: int|
                    0 <= i < self.entries@.len() ==> (#[trigger] self.entries@[i]).0@ != key@,
            },
    {
        proof {
            lemma_collected(self.entries@);
        }
        let mut i: usize = 0;
        while i < self.entries.len()
            invariant
                self.wf(),
                i <= self.entries@.len(),
                forall|j: int| 0 <= j < i ==> (#[trigger] self.entries@[j]).0@ != key@,
            decreases self.entries@.len() - i,
        {
            if same_text(self.entries[i].0.as_str(), key) {
                proof {
                    lemma_collected(self.entries@);
                    assert(self@[self.entries@[i as int].0@] == self.entries@[i as int].1@);
                }
                return Some(i);
            }
            i += 1;
        }
        None
    }

    /// The entry of `key`, if there is one.
    pub fn get(&self, key: &str) -> (entry: Option<RankEntry>)
        requires
            self.wf(),
        ensures
            match entry {
                Some(found) => self@.contains_key(key@) && self@[key@] == found@,
                None => !self@.contains_key(key@),
            },
    {
        match self.find(key) {
            Some(i) => Some(self.entries[i].1.clone()),
            None => None,
        }
    }

    /// Sets the entry of `key`.
    pub fn put(&mut self, key: String, entry: RankEntry)
        requires
            old(self).wf(),
        ensures
            final(self).wf(),
            final(self)@ == old(self)@.insert(key@, entry@),
    {
        let ghost before = self.entries@;
        match self.find(key.as_str()) {
            Some(i) => {
                self.entries.set(i, (key, entry));
                proof {
                    let after = self.entries@;
                    assert forall|a: int, b: int| 0 <= a < b < after.len() implies (
                    #[trigger] after[a]).0@ != (#[trigger] after[b]).0@ by {
                        assert(before[a].0@ != before[b].0@);
                    }
                    lemma_collected(before);
                    lemma_collected(after);
                    assert forall|k: Seq<char>| collected(before).contains_key(k) implies
                        collected(after).contains_key(k) by {
                        let a = choose|a: int|
                            0 <= a < before.len() && (#[trigger] before[a]).0@ == k;
                        assert(after[a].0@ == k);
                    }
                    assert forall|k: Seq<char>| collected(after).contains_key(k) implies
                        collected(before).contains_key(k) && (k != key@ ==> collected(after)[k]
                        == collected(before)[k]) by {
                        let a = choose|a: int|
                            0 <= a < after.len() && (#[trigger] after[a]).0@ == k;
                        assert(before[a].0@ == k);
                        assert(collected(after)[after[a].0@] == after[a].1@);
                        assert(collected(before)[before[a].0@] == before[a].1@);
                    }
                    assert(collected(after)[after[i as int].0@] == entry@);
                    assert(collected(after) =~= collected(before).insert(key@, entry@));
                }
            },
            None => {
                self.entries.push((key, entry));
                proof {
                    assert(self.entries@.drop_last() =~= before);
                    assert forall|a: int, b: int| 0 <= a < b < self.entries@.len() implies (
                    #[trigger] self.entries@[a]).0@ != (#[trigger] self.entries@[b]).0@ by {
                        if b < before.len() {
                            assert(before[a].0@ != before[b].0@);
                        } else {
                            assert(before[a].0@ != key@);
                        }
                    }
                }
            },
        }
    }

    /// All entries, in the order in which their keys were first seen.
    pub fn entries(&self) -> (all: Vec<(String, RankEntry)>)
        requires
            self.wf(),
        ensures
            all@ == self.listed(),
            distinct_keys(all@),
            collected(all@) == self@,
    {
        let mut all: Vec<(String, RankEntry)> = Vec::new();
        let mut i: usize = 0;
        while i < self.entries.len()
            invariant
                i <= self.entries@.len(),
                all@ == self.entries@.take(i as int),
            decreases self.entries@.len() - i,
        {
            all.push((self.entries[i].0.clone(), self.entries[i].1.clone()));
            i += 1;
            assert(all@ =~= self.entries@.take(i as int));
        }
        assert(all@ =~= self.entries@);
        all
    }

    /// The leaderboard of `limit` places.
    pub fn top(&self, limit: usize) -> (top: Vec<(String, RankEntry)>)
        requires
            self.wf(),
        ensures
            top@ == ranked(self.listed(), limit as nat),
            is_leaderboard(self@, limit as nat, top@),
    {
        let top = leaders(self.entries(), limit);
        proof {
            ranked_is_leaderboard(self.entries@, limit as nat);
        }
        top
    }
}

} // verus!
