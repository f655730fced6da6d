//! What holds of voice time over several joins and leaves.

use crate::store;
use crate::store::clock;
use crate::store::leaderboard;
use crate::store::leaderboard::{RankEntry, RankView, VoiceRank};
use crate::store::session::{ActiveSession, VoiceSessionView};
use crate::store::{LeaveOutcome, Store, StoreView};
use crate::text;
use vstd::prelude::*;

verus! {

/// Whether the time from `from_ms` to `to_ms` can be counted and added to what is
/// recorded for a user.
pub open spec fn fits(s: StoreView, user_id: u64, from_ms: u128, to_ms: u128) -> bool {
    &&& from_ms <= to_ms
    &&& store::total_ms(s.voice_rank, store::user_key(user_id)) + (to_ms - from_ms) <= u64::MAX
}

/// Two users never share a rank key.
pub proof fn user_keys_differ(a: u64, b: u64)
    requires
        a != b,
    ensures
        store::user_key(a) != store::user_key(b),
{
    if store::user_key(a) == store::user_key(b) {
        text::decimal_is_injective(a as nat, b as nat);
    }
}

/// Joining and then leaving adds the time in between to the user's total, under
/// the name used when joining, and leaves no voice session behind.
pub proof fn visit_adds_its_time(
    s: StoreView,
    user_id: u64,
    name: Seq<char>,
    joined_ms: u128,
    now_ms: u128,
)
    requires
        fits(s, user_id, joined_ms, now_ms),
    ensures
        store::leave_outcome(store::entered(s, user_id, name, joined_ms), user_id, now_ms)
            == LeaveOutcome::Recorded,
        ({
            let after = store::left(store::entered(s, user_id, name, joined_ms), user_id, now_ms);
            let key = store::user_key(user_id);
            &&& after.voice_rank.contains_key(key)
            &&& after.voice_rank[key].total_ms == store::total_ms(s.voice_rank, key) + (now_ms
                - joined_ms)
            &&& after.voice_rank[key].display_name == name
            &&& !after.voice_sessions.contains_key(user_id)
        }),
{
}

/// A stay in voice.
pub struct Visit {
    pub name: Seq<char>,
    pub joined_ms: u128,
    pub left_ms: u128,
}

/// The store after the `visits` of a user.
pub open spec fn after_visits(s: StoreView, user_id: u64, visits: Seq<Visit>) -> StoreView
    decreases visits.len(),
{
    if visits.len() == 0 {
        s
    } else {
        let before = after_visits(s, user_id, visits.drop_last());
        let visit = visits.last();
        store::left(
            store::entered(before, user_id, visit.name, visit.joined_ms),
            user_id,
            visit.left_ms,
        )
    }
}

/// The time that `visits` take.
pub open spec fn time_of(visits: Seq<Visit>) -> int
    decreases visits.len(),
{
    if visits.len() == 0 {
        0
    } else {
        time_of(visits.drop_last()) + (visits.last().left_ms - visits.last().joined_ms)
    }
}

/// Voice time adds up: after any visits, a user's total has grown by the time that
/// they took.
pub proof fn visits_add_up(s: StoreView, user_id: u64, visits: Seq<Visit>)
    requires
        forall|i: int|
            0 <= i < visits.len() ==> (#[trigger] visits[i]).joined_ms <= visits[i].left_ms,
        store::total_ms(s.voice_rank, store::user_key(user_id)) + time_of(visits) <= u64::MAX,
    ensures
        store::total_ms(
            after_visits(s, user_id, visits).voice_rank,
            store::user_key(user_id),
        ) == store::total_ms(s.voice_rank, store::user_key(user_id)) + time_of(visits),
    decreases visits.len(),
{
    if visits.len() > 0 {
        let front = visits.drop_last();
        let visit = visits.last();
        assert(visits[visits.len() - 1] == visit);
        assert forall|i: int| 0 <= i < front.len() implies (#[trigger] front[i]).joined_ms
            <= front[i].left_ms by {
            assert(front[i] == visits[i]);
        }
        visits_add_up(s, user_id, front);
        visit_adds_its_time(
            after_visits(s, user_id, front),
            user_id,
            visit.name,
            visit.joined_ms,
            visit.left_ms,
        );
    }
}

/// Leaving without having joined changes nothing.
pub proof fn leaving_needs_a_session(s: StoreView, user_id: u64, now_ms: u128)
    requires
        !s.voice_sessions.contains_key(user_id),
    ensures
        store::leave_outcome(s, user_id, now_ms) == LeaveOutcome::NotInVoice,
        store::left(s, user_id, now_ms) == s,
{
}

/// Leaving a second time changes nothing: time is counted once.
pub proof fn leaving_twice_counts_once(s: StoreView, user_id: u64, first_ms: u128, second_ms: u128)
    ensures
        store::left(store::left(s, user_id, first_ms), user_id, second_ms) == store::left(
            s,
            user_id,
            first_ms,
        ),
        store::leave_outcome(store::left(s, user_id, first_ms), user_id, second_ms)
            == LeaveOutcome::NotInVoice,
{
}

/// Joining again before leaving restarts the timer: the earlier join is forgotten.
pub proof fn joining_again_restarts(
    s: StoreView,
    user_id: u64,
    first_name: Seq<char>,
    first_ms: u128,
    name: Seq<char>,
    joined_ms: u128,
)
    ensures
        store::entered(
            store::entered(s, user_id, first_name, first_ms),
            user_id,
            name,
            joined_ms,
        ) == store::entered(s, user_id, name, joined_ms),
{
    let first = store::entered(s, user_id, first_name, first_ms);
    assert(store::entered(first, user_id, name, joined_ms).voice_sessions =~= store::entered(
        s,
        user_id,
        name,
        joined_ms,
    ).voice_sessions);
}

/// A channel switch loses no more than the time between leaving and joining again:
/// with that time, the recorded total is the same as for staying all along.
pub proof fn switching_keeps_the_time(
    s: StoreView,
    user_id: u64,
    name: Seq<char>,
    joined_ms: u128,
    left_ms: u128,
    rejoined_ms: u128,
    now_ms: u128,
)
    requires
        joined_ms <= left_ms <= rejoined_ms <= now_ms,
        fits(s, user_id, joined_ms, now_ms),
    ensures
        ({
            let joined = store::entered(s, user_id, name, joined_ms);
            let stayed = store::left(joined, user_id, now_ms);
            let switched = store::entered(
                store::left(joined, user_id, left_ms),
                user_id,
                name,
                rejoined_ms,
            );
            store::total_ms(
                store::left(switched, user_id, now_ms).voice_rank,
                store::user_key(user_id),
            ) + (rejoined_ms - left_ms) == store::total_ms(
                stayed.voice_rank,
                store::user_key(user_id),
            )
        }),
{
    visit_adds_its_time(s, user_id, name, joined_ms, now_ms);
    visit_adds_its_time(s, user_id, name, joined_ms, left_ms);
    let between = store::left(store::entered(s, user_id, name, joined_ms), user_id, left_ms);
    visit_adds_its_time(between, user_id, name, rejoined_ms, now_ms);
}

/// A user's joining and leaving concerns no one else: neither the voice session
/// nor the rank entry of another user changes.
pub proof fn users_are_independent(
    s: StoreView,
    user_id: u64,
    name: Seq<char>,
    joined_ms: u128,
    now_ms: u128,
    other: u64,
)
    requires
        other != user_id,
    ensures
        store::entered(s, user_id, name, joined_ms).voice_sessions.get(other)
            == s.voice_sessions.get(other),
        store::entered(s, user_id, name, joined_ms).voice_rank == s.voice_rank,
        store::left(s, user_id, now_ms).voice_sessions.get(other) == s.voice_sessions.get(other),
        store::left(s, user_id, now_ms).voice_rank.get(store::user_key(other)) == s.voice_rank.get(
            store::user_key(other),
        ),
{
    user_keys_differ(user_id, other);
}

/// The rank changes only with a leave that is reported as recorded, so that
/// persisting it then keeps the saved rank up to date.
pub proof fn only_recorded_leaves_change_the_rank(s: StoreView, user_id: u64, now_ms: u128)
    ensures
        store::leave_outcome(s, user_id, now_ms) != LeaveOutcome::Recorded ==> store::left(
            s,
            user_id,
            now_ms,
        ).voice_rank == s.voice_rank,
{
}

/// A recorded total never falls, and a recorded user is never dropped.
pub proof fn totals_never_fall(s: StoreView, user_id: u64, now_ms: u128, key: Seq<char>)
    ensures
        store::total_ms(store::left(s, user_id, now_ms).voice_rank, key) >= store::total_ms(
            s.voice_rank,
            key,
        ),
        s.voice_rank.contains_key(key) ==> store::left(
            s,
            user_id,
            now_ms,
        ).voice_rank.contains_key(key),
{
}

/// Voice time leaves everything else in the store alone.
pub proof fn voice_time_is_all_that_changes(
    s: StoreView,
    user_id: u64,
    name: Seq<char>,
    joined_ms: u128,
    now_ms: u128,
)
    ensures
        store::entered(s, user_id, name, joined_ms) == (StoreView {
            voice_sessions: store::entered(s, user_id, name, joined_ms).voice_sessions,
            ..s
        }),
        store::left(s, user_id, now_ms) == (StoreView {
            voice_sessions: store::left(s, user_id, now_ms).voice_sessions,
            voice_rank: store::left(s, user_id, now_ms).voice_rank,
            ..s
        }),
{
}

/// A user is ranked under the id in decimal digits.
pub proof fn user_keys_show_the_id(user_id: u64)
    ensures
        text::is_number(store::user_key(user_id)),
        text::number_shown(store::user_key(user_id)) == user_id,
{
    text::decimals_show_their_number(user_id as nat);
}

/// Joining begins a voice session at the time given and under the name given, in place
/// of one that the user had, and changes nothing else.
pub proof fn joining_begins_a_session(
    s: &mut Store,
    user_id: u64,
    display_name: String,
    now_ms: u128,
)
    requires
        old(s).wf(),
        call_ensures(Store::voice_join_at, (s, user_id, display_name, now_ms), ()),
    ensures
        final(s).wf(),
        final(s)@.voice_sessions == old(s)@.voice_sessions.insert(
            user_id,
            VoiceSessionView { joined_at_ms: now_ms, display_name: display_name@ },
        ),
        final(s)@ == (StoreView { voice_sessions: final(s)@.voice_sessions, ..old(s)@ }),
{
}

/// The same, at a time that was read off the clock.
pub proof fn joining_begins_a_session_now(s: &mut Store, user_id: u64, display_name: String)
    requires
        old(s).wf(),
        call_ensures(Store::voice_join, (s, user_id, display_name), ()),
    ensures
        final(s).wf(),
        final(s)@.voice_sessions.contains_key(user_id),
        clock::clock_shows(final(s)@.voice_sessions[user_id].joined_at_ms),
        final(s)@.voice_sessions[user_id].display_name == display_name@,
        final(s)@.voice_sessions.remove(user_id) == old(s)@.voice_sessions.remove(user_id),
        final(s)@ == (StoreView { voice_sessions: final(s)@.voice_sessions, ..old(s)@ }),
{
    let now_ms = choose|now_ms: u128|
        clock::clock_shows(now_ms) && now_ms <= clock::LATEST_MS && final(s)@
            == #[trigger] store::entered(old(s)@, user_id, display_name@, now_ms);
    assert(final(s)@ == store::entered(old(s)@, user_id, display_name@, now_ms));
    assert(final(s)@.voice_sessions.remove(user_id) =~= old(s)@.voice_sessions.remove(user_id));
}

/// What the rank entry of a user becomes when `ms` are added under `name`.
pub open spec fn credited(
    rank: Map<Seq<char>, RankView>,
    key: Seq<char>,
    name: Seq<char>,
    ms: int,
) -> Map<Seq<char>, RankView> {
    let before = if rank.contains_key(key) {
        rank[key].total_ms as int
    } else {
        0
    };
    rank.insert(key, RankView { display_name: name, total_ms: (before + ms) as u64 })
}

/// What becomes of a leave at `now_ms`, from a store that holds `before` to one that
/// holds `after`.
///
/// A user without a voice session leaves nothing. Otherwise the session is over, and
/// the time since it began, which is counted modulo 2^64, is added to what is recorded
/// under the user's id, with the name of the session. Where the session began later
/// than now, or the sum does not fit, nothing is added. Nothing else changes.
pub open spec fn is_leave(
    before: StoreView,
    user_id: u64,
    now_ms: u128,
    outcome: LeaveOutcome,
    after: StoreView,
) -> bool {
    if before.voice_sessions.contains_key(user_id) {
        let session = before.voice_sessions[user_id];
        &&& after == (StoreView {
            voice_sessions: before.voice_sessions.remove(user_id),
            voice_rank: after.voice_rank,
            ..before
        })
        &&& outcome != LeaveOutcome::NotInVoice
        &&& outcome == LeaveOutcome::ClockWentBack <==> session.joined_at_ms > now_ms
        &&& outcome != LeaveOutcome::Recorded ==> after.voice_rank == before.voice_rank
        &&& session.joined_at_ms <= now_ms ==> exists|key: Seq<char>, ms: int|
            {
                let recorded = if before.voice_rank.contains_key(key) {
                    before.voice_rank[key].total_ms as int
                } else {
                    0
                };
                &&& text::is_number(key)
                &&& text::number_shown(key) == user_id
                &&& 0 <= ms < 0x1_0000_0000_0000_0000
                &&& ms == (now_ms - session.joined_at_ms) % 0x1_0000_0000_0000_0000
                &&& outcome == LeaveOutcome::Recorded <==> recorded + ms
                    < 0x1_0000_0000_0000_0000
                &&& outcome == LeaveOutcome::Recorded ==> after.voice_rank
                    == #[trigger] credited(before.voice_rank, key, session.display_name, ms)
            }
    } else {
        outcome == LeaveOutcome::NotInVoice && after == before
    }
}

/// Every leave ends a voice session as it should.
pub proof fn a_leave_ends_a_session(before: StoreView, user_id: u64, now_ms: u128)
    ensures
        is_leave(
            before,
            user_id,
            now_ms,
            store::leave_outcome(before, user_id, now_ms),
            store::left(before, user_id, now_ms),
        ),
{
    user_keys_show_the_id(user_id);
    let outcome = store::leave_outcome(before, user_id, now_ms);
    let after = store::left(before, user_id, now_ms);
    if before.voice_sessions.contains_key(user_id) {
        let session = before.voice_sessions[user_id];
        if session.joined_at_ms <= now_ms {
            let key = store::user_key(user_id);
            let ms: int = (now_ms - session.joined_at_ms) % 0x1_0000_0000_0000_0000;
            assert(ms == store::elapsed_ms(session.joined_at_ms, now_ms));
            let c = credited(before.voice_rank, key, session.display_name, ms);
            if outcome == LeaveOutcome::Recorded {
                assert(after.voice_rank =~= c);
            }
        }
    }
}

/// Leaving ends the voice session of the user and records its time.
pub proof fn leaving_records_the_time(
    s: &mut Store,
    user_id: u64,
    now_ms: u128,
    outcome: LeaveOutcome,
)
    requires
        old(s).wf(),
        call_ensures(Store::voice_leave_at, (s, user_id, now_ms), outcome),
    ensures
        final(s).wf(),
        is_leave(old(s)@, user_id, now_ms, outcome, final(s)@),
{
    a_leave_ends_a_session(old(s)@, user_id, now_ms);
}

/// The same, at a time that was read off the clock.
pub proof fn leaving_records_the_time_now(s: &mut Store, user_id: u64, outcome: LeaveOutcome)
    requires
        old(s).wf(),
        call_ensures(Store::voice_leave, (s, user_id), outcome),
    ensures
        final(s).wf(),
        exists|now_ms: u128|
            clock::clock_shows(now_ms) && #[trigger] is_leave(
                old(s)@,
                user_id,
                now_ms,
                outcome,
                final(s)@,
            ),
{
    let now_ms = choose|now_ms: u128|
        clock::clock_shows(now_ms) && now_ms <= clock::LATEST_MS && outcome
            == store::leave_outcome(old(s)@, user_id, now_ms) && final(s)@
            == #[trigger] store::left(old(s)@, user_id, now_ms);
    a_leave_ends_a_session(old(s)@, user_id, now_ms);
    assert(is_leave(old(s)@, user_id, now_ms, outcome, final(s)@));
}

/// A visit of `ms` milliseconds adds exactly those, however long it was and whoever the
/// user is: to what was recorded, or to nothing where nothing was.
pub proof fn a_visit_is_counted_to_the_millisecond(
    s: StoreView,
    user_id: u64,
    name: Seq<char>,
    joined_ms: u128,
    ms: u64,
)
    requires
        joined_ms + ms <= u128::MAX,
        s.voice_rank.contains_key(store::user_key(user_id)) ==> s.voice_rank[store::user_key(
            user_id,
        )].total_ms + ms <= u64::MAX,
    ensures
        ({
            let now_ms = (joined_ms + ms) as u128;
            let joined = store::entered(s, user_id, name, joined_ms);
            let after = store::left(joined, user_id, now_ms);
            let key = store::user_key(user_id);
            &&& store::leave_outcome(joined, user_id, now_ms) == LeaveOutcome::Recorded
            &&& after.voice_rank.contains_key(key)
            &&& after.voice_rank[key].display_name == name
            &&& after.voice_rank[key].total_ms == if s.voice_rank.contains_key(key) {
                s.voice_rank[key].total_ms + ms
            } else {
                ms as int
            }
            &&& !after.voice_sessions.contains_key(user_id)
        }),
{
}

/// Only a recorded leave is to be persisted.
pub proof fn only_recorded_leaves_are_persisted(outcome: LeaveOutcome, changed: bool)
    requires
        call_ensures(LeaveOutcome::rank_changed, (&outcome,), changed),
    ensures
        changed <==> outcome is Recorded,
{
}

/// Whether `top` are the users with the most voice time in `rank`: each once and with
/// what is recorded, by falling time, as many as there are places or users, and no user
/// who is left out has more time than one who is shown.
pub open spec fn lead(
    rank: Map<Seq<char>, RankView>,
    places: nat,
    top: Seq<(String, RankEntry)>,
) -> bool {
    &&& top.len() <= places
    &&& top.len() <= rank.len()
    &&& top.len() == places || top.len() == rank.len()
    &&& forall|i: int|
        0 <= i < top.len() ==> {
            &&& rank.contains_key((#[trigger] top[i]).0@)
            &&& rank[top[i].0@].total_ms == top[i].1.total_ms
            &&& rank[top[i].0@].display_name == top[i].1.display_name@
        }
    &&& forall|i: int, j: int|
        0 <= i < j < top.len() ==> {
            &&& (#[trigger] top[i]).0@ != (#[trigger] top[j]).0@
            &&& top[i].1.total_ms >= top[j].1.total_ms
        }
    &&& forall|key: Seq<char>, i: int|
        #![trigger rank.contains_key(key), top[i]]
        rank.contains_key(key) && 0 <= i < top.len() ==> rank[key].total_ms <= top[i].1.total_ms
            || exists|j: int| 0 <= j < top.len() && (#[trigger] top[j]).0@ == key
}

/// A leaderboard shows those who lead.
pub proof fn leaderboards_lead(
    rank: Map<Seq<char>, RankView>,
    places: nat,
    top: Seq<(String, RankEntry)>,
)
    requires
        leaderboard::is_leaderboard(rank, places, top),
    ensures
        lead(rank, places, top),
{
    assert forall|key: Seq<char>, i: int|
        #![trigger rank.contains_key(key), top[i]]
        rank.contains_key(key) && 0 <= i < top.len() implies rank[key].total_ms
        <= top[i].1.total_ms || exists|j: int|
        0 <= j < top.len() && (#[trigger] top[j]).0@ == key by {
        if rank[key].total_ms > top[i].1.total_ms {
            let j = choose|j: int| 0 <= j < i && (#[trigger] top[j]).0@ == key;
            assert(top[j].0@ == key);
        }
    }
}

/// The users with the most voice time lead.
pub proof fn leaders_have_the_most_time(
    s: Store,
    limit: usize,
    top: Vec<(String, RankEntry)>,
)
    requires
        s.wf(),
        call_ensures(Store::top_voice, (&s, limit), top),
    ensures
        lead(s@.voice_rank, limit as nat, top@),
{
    leaderboards_lead(s@.voice_rank, limit as nat, top@);
}

/// Entries are ranked by falling time, and those with the same time keep their order.
/// Each is ranked once, and none is left out for one with less time.
pub proof fn leaders_keep_their_order(
    entries: Vec<(String, RankEntry)>,
    limit: usize,
    top: Vec<(String, RankEntry)>,
)
    requires
        call_ensures(leaderboard::leaders, (entries, limit), top),
    ensures
        top@.len() <= limit,
        top@.len() <= entries@.len(),
        top@.len() == limit || top@.len() == entries@.len(),
        exists|order: Seq<int>|
            #![trigger order.len()]
            {
                &&& order.len() == entries@.len()
                &&& forall|i: int| 0 <= i < order.len() ==> 0 <= #[trigger] order[i] < order.len()
                &&& forall|a: int| 0 <= a < order.len() ==> #[trigger] order.contains(a)
                &&& forall|i: int, j: int|
                    0 <= i < j < order.len() ==> {
                        let (x, y) = (#[trigger] order[i], #[trigger] order[j]);
                        ||| entries@[x].1.total_ms > entries@[y].1.total_ms
                        ||| entries@[x].1.total_ms == entries@[y].1.total_ms && x < y
                    }
                &&& forall|i: int| 0 <= i < top@.len() ==> #[trigger] top@[i] == entries@[order[i]]
            },
{
    let order = leaderboard::ranking(entries@);
    assert(leaderboard::is_ranking(entries@, order));
    assert forall|i: int, j: int| 0 <= i < j < order.len() implies ({
        let (x, y) = (#[trigger] order[i], #[trigger] order[j]);
        ||| entries@[x].1.total_ms > entries@[y].1.total_ms
        ||| entries@[x].1.total_ms == entries@[y].1.total_ms && x < y
    }) by {
        assert(leaderboard::outranks(entries@, order[i], order[j]));
    }
    assert(order.len() == entries@.len());
}

/// What is to be saved is the rank: every entry of it once, and nothing else.
pub proof fn the_whole_rank_is_saved(s: Store, all: Vec<(String, RankEntry)>)
    requires
        s.wf(),
        call_ensures(Store::rank_entries, (&s,), all),
    ensures
        forall|i: int, j: int|
            0 <= i < j < all@.len() ==> (#[trigger] all@[i]).0@ != (#[trigger] all@[j]).0@,
        forall|i: int|
            0 <= i < all@.len() ==> s@.voice_rank.contains_key((#[trigger] all@[i]).0@)
                && s@.voice_rank[all@[i].0@].total_ms == all@[i].1.total_ms
                && s@.voice_rank[all@[i].0@].display_name == all@[i].1.display_name@,
        forall|key: Seq<char>| #[trigger]
            s@.voice_rank.contains_key(key) ==> exists|i: int|
                0 <= i < all@.len() && (#[trigger] all@[i]).0@ == key,
{
    the_last_entry_counts(all@);
    assert forall|i: int| 0 <= i < all@.len() implies s@.voice_rank.contains_key(
        (#[trigger] all@[i]).0@,
    ) && s@.voice_rank[all@[i].0@].total_ms == all@[i].1.total_ms
        && s@.voice_rank[all@[i].0@].display_name == all@[i].1.display_name@ by {
        assert forall|j: int| i < j < all@.len() implies (#[trigger] all@[j]).0@ != all@[i].0@ by {}
    }
}

/// A rank that is read back holds exactly the keys that were saved, and of entries with
/// the same key the last one.
pub proof fn the_last_entry_counts(entries: Seq<(String, RankEntry)>)
    ensures
        forall|key: Seq<char>| #[trigger]
            leaderboard::collected(entries).contains_key(key) <==> exists|i: int|
                0 <= i < entries.len() && (#[trigger] entries[i]).0@ == key,
        forall|i: int|
            0 <= i < entries.len() && (forall|j: int|
                i < j < entries.len() ==> (#[trigger] entries[j]).0@ != entries[i].0@) ==> {
                let found = leaderboard::collected(entries)[(#[trigger] entries[i]).0@];
                &&& found.total_ms == entries[i].1.total_ms
                &&& found.display_name == entries[i].1.display_name@
            },
    decreases entries.len(),
{
    let all = leaderboard::collected(entries);
    if entries.len() > 0 {
        let front = entries.drop_last();
        let last = entries.len() - 1;
        the_last_entry_counts(front);
        assert forall|key: Seq<char>| #[trigger] all.contains_key(key) <==> exists|i: int|
            0 <= i < entries.len() && (#[trigger] entries[i]).0@ == key by {
            if all.contains_key(key) && key != entries[last].0@ {
                assert(leaderboard::collected(front).contains_key(key));
                let i = choose|i: int| 0 <= i < front.len() && (#[trigger] front[i]).0@ == key;
                assert(entries[i].0@ == key);
            }
            if exists|i: int| 0 <= i < entries.len() && (#[trigger] entries[i]).0@ == key {
                let i = choose|i: int| 0 <= i < entries.len() && (#[trigger] entries[i]).0@ == key;
                if i < last {
                    assert(front[i].0@ == key);
                    assert(leaderboard::collected(front).contains_key(key));
                }
            }
        }
        assert forall|i: int|
            0 <= i < entries.len() && (forall|j: int|
                i < j < entries.len() ==> (#[trigger] entries[j]).0@
                    != entries[i].0@) implies all[(#[trigger] entries[i]).0@].total_ms
            == entries[i].1.total_ms && all[entries[i].0@].display_name
            == entries[i].1.display_name@ by {
            if i < last {
                assert(front[i] == entries[i]);
                assert(entries[last].0@ != entries[i].0@);
                assert forall|j: int| i < j < front.len() implies (#[trigger] front[j]).0@
                    != front[i].0@ by {
                    assert(entries[j].0@ != entries[i].0@);
                }
            }
        }
    }
}

/// A store begins with the rank that was saved, and with nothing else: nobody is in
/// voice, nothing waits and no session runs.
pub proof fn stores_begin_with_the_saved_rank(
    saved: Option<Vec<(String, RankEntry)>>,
    s: Store,
)
    requires
        call_ensures(Store::new, (saved,), s),
    ensures
        s.wf(),
        s@.pending == Map::<Seq<char>, u64>::empty(),
        s@.active_sessions == Map::<u64, ActiveSession>::empty(),
        s@.voice_sessions == Map::<u64, VoiceSessionView>::empty(),
        s@.bot_name == "Discord Bot"@,
        s@.rank_file == "data/voice_rank.json"@,
        saved is None ==> s@.voice_rank == Map::<Seq<char>, RankView>::empty(),
        saved matches Some(entries) ==> {
            &&& forall|key: Seq<char>| #[trigger]
                s@.voice_rank.contains_key(key) <==> exists|i: int|
                    0 <= i < entries@.len() && (#[trigger] entries@[i]).0@ == key
            &&& forall|i: int|
                0 <= i < entries@.len() && (forall|j: int|
                    i < j < entries@.len() ==> (#[trigger] entries@[j]).0@ != entries@[i].0@) ==> {
                    let found = s@.voice_rank[(#[trigger] entries@[i]).0@];
                    &&& found.total_ms == entries@[i].1.total_ms
                    &&& found.display_name == entries@[i].1.display_name@
                }
        },
{
    if saved is Some {
        the_last_entry_counts(saved->0@);
    }
}

/// The rank that was saved is loaded in the same way.
pub proof fn ranks_are_loaded(saved: Option<Vec<(String, RankEntry)>>, rank: VoiceRank)
    requires
        call_ensures(store::load_rank, (saved,), rank),
    ensures
        rank.wf(),
        saved is None ==> rank@ == Map::<Seq<char>, RankView>::empty(),
        saved matches Some(entries) ==> {
            &&& forall|key: Seq<char>| #[trigger]
                rank@.contains_key(key) <==> exists|i: int|
                    0 <= i < entries@.len() && (#[trigger] entries@[i]).0@ == key
            &&& forall|i: int|
                0 <= i < entries@.len() && (forall|j: int|
                    i < j < entries@.len() ==> (#[trigger] entries@[j]).0@ != entries@[i].0@) ==> {
                    let found = rank@[(#[trigger] entries@[i]).0@];
                    &&& found.total_ms == entries@[i].1.total_ms
                    &&& found.display_name == entries@[i].1.display_name@
                }
        },
{
    if saved is Some {
        the_last_entry_counts(saved->0@);
    }
}

/// What is set for a key is found under it, and every other key keeps what it had.
pub proof fn ranks_hold_what_is_put(
    rank: &mut VoiceRank,
    key: String,
    entry: RankEntry,
    other: &str,
    found: Option<RankEntry>,
)
    requires
        old(rank).wf(),
        call_ensures(VoiceRank::put, (rank, key, entry), ()),
        call_ensures(VoiceRank::get, (&*final(rank), other), found),
    ensures
        final(rank).wf(),
        other@ == key@ ==> found is Some && found->0.total_ms == entry.total_ms
            && found->0.display_name@ == entry.display_name@,
        other@ != key@ ==> (found is Some <==> old(rank)@.contains_key(other@)),
        other@ != key@ && found is Some ==> found->0.total_ms == old(rank)@[other@].total_ms
            && found->0.display_name@ == old(rank)@[other@].display_name,
{
}

/// A rank lists every entry once, and its leaders have the most time.
pub proof fn ranks_list_and_lead(
    rank: VoiceRank,
    all: Vec<(String, RankEntry)>,
    limit: usize,
    top: Vec<(String, RankEntry)>,
)
    requires
        rank.wf(),
        call_ensures(VoiceRank::entries, (&rank,), all),
        call_ensures(VoiceRank::top, (&rank, limit), top),
    ensures
        forall|i: int, j: int|
            0 <= i < j < all@.len() ==> (#[trigger] all@[i]).0@ != (#[trigger] all@[j]).0@,
        forall|key: Seq<char>| #[trigger]
            rank@.contains_key(key) <==> exists|i: int|
                0 <= i < all@.len() && (#[trigger] all@[i]).0@ == key,
        lead(rank@, limit as nat, top@),
{
    the_last_entry_counts(all@);
    leaderboards_lead(rank@, limit as nat, top@);
}

/// A new rank is empty.
pub proof fn new_ranks_are_empty(rank: VoiceRank)
    requires
        call_ensures(VoiceRank::new, (), rank),
    ensures
        rank.wf(),
        forall|key: Seq<char>| !#[trigger] rank@.contains_key(key),
{
}

/// A rank of entries holds exactly their keys, each with its last entry.
pub proof fn ranks_are_made_of_entries(entries: Vec<(String, RankEntry)>, rank: VoiceRank)
    requires
        call_ensures(VoiceRank::from_entries, (entries,), rank),
    ensures
        rank.wf(),
        forall|key: Seq<char>| #[trigger]
            rank@.contains_key(key) <==> exists|i: int|
                0 <= i < entries@.len() && (#[trigger] entries@[i]).0@ == key,
        forall|i: int|
            0 <= i < entries@.len() && (forall|j: int|
                i < j < entries@.len() ==> (#[trigger] entries@[j]).0@ != entries@[i].0@) ==> {
                let found = rank@[(#[trigger] entries@[i]).0@];
                &&& found.total_ms == entries@[i].1.total_ms
                &&& found.display_name == entries@[i].1.display_name@
            },
{
    the_last_entry_counts(entries@);
}

/// A new entry has no time and no name, and a copy says the same as the entry.
pub proof fn entries_begin_empty_and_are_copied(
    new: RankEntry,
    entry: RankEntry,
    copy: RankEntry,
)
    requires
        call_ensures(RankEntry::default, (), new),
        call_ensures(RankEntry::clone, (&entry,), copy),
    ensures
        new.total_ms == 0,
        new.display_name@.len() == 0,
        copy.total_ms == entry.total_ms,
        copy.display_name@ == entry.display_name@,
{
}

/// A clock that shows a time before the Unix epoch counts as zero, and any other counts
/// as what it shows.
pub proof fn clocks_count_from_the_epoch(reading: Option<u128>, ms: u128)
    requires
        call_ensures(clock::ms_or_zero, (reading,), ms),
    ensures
        reading == Some(ms) || (reading is None && ms == 0),
{
}

/// A signal waits for tokens under the user it was set for until it is taken or
/// replaced, and other users' signals are not touched.
pub proof fn tokens_are_expected_per_user(
    s: &mut Store,
    user: String,
    tx: u64,
    replaced: Option<u64>,
    other: Seq<char>,
)
    requires
        call_ensures(Store::expect_tokens, (s, user, tx), replaced),
        other != user@,
    ensures
        final(s)@.pending.contains_key(user@),
        final(s)@.pending[user@] == tx,
        final(s)@.pending.contains_key(other) == old(s)@.pending.contains_key(other),
        old(s)@.pending.contains_key(other) ==> final(s)@.pending[other] == old(s)@.pending[other],
        replaced is Some <==> old(s)@.pending.contains_key(user@),
        replaced is Some ==> replaced->0 == old(s)@.pending[user@],
        final(s)@ == (StoreView { pending: final(s)@.pending, ..old(s)@ }),
{
}

/// Taking a signal removes it, hands it out, and leaves other users' alone.
pub proof fn tokens_are_taken_per_user(
    s: &mut Store,
    user: &str,
    removed: Option<u64>,
    other: Seq<char>,
)
    requires
        call_ensures(Store::take_pending, (s, user), removed),
        other != user@,
    ensures
        !final(s)@.pending.contains_key(user@),
        final(s)@.pending.contains_key(other) == old(s)@.pending.contains_key(other),
        old(s)@.pending.contains_key(other) ==> final(s)@.pending[other] == old(s)@.pending[other],
        removed is Some <==> old(s)@.pending.contains_key(user@),
        removed is Some ==> removed->0 == old(s)@.pending[user@],
        final(s)@ == (StoreView { pending: final(s)@.pending, ..old(s)@ }),
{
}

/// A session is registered in its server alone, and found there.
pub proof fn sessions_are_registered_per_server(
    s: &mut Store,
    guild_id: u64,
    session: ActiveSession,
    replaced: Option<ActiveSession>,
    asked: u64,
    active: bool,
    found: Option<ActiveSession>,
)
    requires
        call_ensures(Store::start_session, (s, guild_id, session), replaced),
        call_ensures(Store::has_session, (&*final(s), asked), active),
        call_ensures(Store::session, (&*final(s), asked), found),
    ensures
        active <==> asked == guild_id || old(s)@.active_sessions.contains_key(asked),
        found is Some <==> active,
        found is Some ==> found->0 == if asked == guild_id {
            session
        } else {
            old(s)@.active_sessions[asked]
        },
        replaced is Some <==> old(s)@.active_sessions.contains_key(guild_id),
        replaced is Some ==> replaced->0 == old(s)@.active_sessions[guild_id],
        final(s)@ == (StoreView { active_sessions: final(s)@.active_sessions, ..old(s)@ }),
{
}

/// A session that ends is no longer found, and those of other servers are.
pub proof fn sessions_end_per_server(
    s: &mut Store,
    guild_id: u64,
    ended: Option<ActiveSession>,
    asked: u64,
    active: bool,
    found: Option<ActiveSession>,
)
    requires
        call_ensures(Store::end_session, (s, guild_id), ended),
        call_ensures(Store::has_session, (&*final(s), asked), active),
        call_ensures(Store::session, (&*final(s), asked), found),
    ensures
        active <==> asked != guild_id && old(s)@.active_sessions.contains_key(asked),
        found is Some <==> active,
        found is Some ==> found->0 == old(s)@.active_sessions[asked],
        ended is Some <==> old(s)@.active_sessions.contains_key(guild_id),
        ended is Some ==> ended->0 == old(s)@.active_sessions[guild_id],
        final(s)@ == (StoreView { active_sessions: final(s)@.active_sessions, ..old(s)@ }),
{
}

/// The bot is called as it was last named.
pub proof fn the_bot_is_called_as_named(s: &mut Store, name: String, shown: &str)
    requires
        call_ensures(Store::set_bot_name, (s, name), ()),
        call_ensures(Store::bot_name, (&*final(s),), shown),
    ensures
        shown@ == name@,
        final(s)@ == (StoreView { bot_name: name@, ..old(s)@ }),
{
}

/// The rank is saved where the store says, which is known before there is a store.
pub proof fn the_rank_file_is_known(
    saved: Option<Vec<(String, RankEntry)>>,
    s: Store,
    path: &str,
    before: String,
)
    requires
        call_ensures(Store::new, (saved,), s),
        call_ensures(Store::rank_file, (&s,), path),
        call_ensures(store::rank_path, (), before),
    ensures
        path@ == before@,
        path@ == "data/voice_rank.json"@,
{
}

} // verus!
