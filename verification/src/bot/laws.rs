//! What holds of gateway events, whatever they say.

use crate::bot;
use crate::bot::{Command, SlashCommand, VoiceChange, VoiceUpdate};
use crate::store;
use crate::store::clock;
use crate::store::session::VoiceSessionView;
use crate::store::{LeaveOutcome, Store, StoreView};
use crate::text;
use vstd::prelude::*;

verus! {

/// Whether the user of `update` is ranked under `name`: as the server shows the user,
/// or else by the id.
pub open spec fn goes_by(update: VoiceUpdate, name: Seq<char>) -> bool {
    match update.display_name {
        Some(shown) => name == shown@,
        None => text::is_number(name) && text::number_shown(name) == update.user_id,
    }
}

/// Whether the user of `update` has a voice session from `joined_ms` in `after`, and
/// all else is as in `before`.
pub open spec fn is_join(
    before: StoreView,
    update: VoiceUpdate,
    joined_ms: u128,
    after: StoreView,
) -> bool {
    &&& after.voice_sessions.contains_key(update.user_id)
    &&& after.voice_sessions[update.user_id].joined_at_ms == joined_ms
    &&& goes_by(update, after.voice_sessions[update.user_id].display_name)
    &&& after == (StoreView {
        voice_sessions: before.voice_sessions.insert(
            update.user_id,
            VoiceSessionView {
                joined_at_ms: joined_ms,
                display_name: after.voice_sessions[update.user_id].display_name,
            },
        ),
        ..before
    })
}

proof fn lemma_is_join(before: StoreView, update: VoiceUpdate, joined_ms: u128)
    ensures
        is_join(
            before,
            update,
            joined_ms,
            store::entered(before, update.user_id, bot::shown_name(update), joined_ms),
        ),
{
    store::laws::user_keys_show_the_id(update.user_id);
}

/// Whether `update` leads from a store that holds `before` to one that holds `after`,
/// when its user leaves, if at all, at `left_ms`, and joins, if at all, at `joined_ms`.
///
/// Only the bot itself is ignored. A user who is in a channel now and was in none joins;
/// one who was in a channel and is in none now leaves; one who was in a channel and is
/// in one now leaves and, unless that went wrong, joins.
pub open spec fn is_update(
    before: StoreView,
    update: VoiceUpdate,
    left_ms: u128,
    joined_ms: u128,
    outcome: Option<LeaveOutcome>,
    after: StoreView,
) -> bool {
    &&& update.user_id == update.bot_id ==> outcome is None && after == before
    &&& update.user_id != update.bot_id ==> match (update.old_channel, update.new_channel) {
        (None, None) => outcome is None && after == before,
        (None, Some(_)) => outcome is None && is_join(before, update, joined_ms, after),
        (Some(_), None) => outcome is Some && store::laws::is_leave(
            before,
            update.user_id,
            left_ms,
            outcome->0,
            after,
        ),
        (Some(_), Some(_)) => outcome is Some && exists|between: StoreView|
            {
                &&& #[trigger] store::laws::is_leave(
                    before,
                    update.user_id,
                    left_ms,
                    outcome->0,
                    between,
                )
                &&& if outcome->0 is ClockWentBack || outcome->0 is TotalOverflow {
                    after == between
                } else {
                    is_join(between, update, joined_ms, after)
                }
            },
    }
}

proof fn lemma_is_update(before: StoreView, update: VoiceUpdate, left_ms: u128, joined_ms: u128)
    ensures
        is_update(
            before,
            update,
            left_ms,
            joined_ms,
            bot::update_outcome(before, update, left_ms),
            bot::updated(before, update, left_ms, joined_ms),
        ),
{
    let user = update.user_id;
    let between = store::left(before, user, left_ms);
    lemma_is_join(before, update, joined_ms);
    lemma_is_join(between, update, joined_ms);
    store::laws::a_leave_ends_a_session(before, user, left_ms);
}

/// Voice state updates are recorded for every user but the bot itself, whether the
/// user's id is smaller or larger than the bot's.
pub proof fn updates_are_recorded(
    s: &mut Store,
    update: VoiceUpdate,
    left_ms: u128,
    joined_ms: u128,
    outcome: Option<LeaveOutcome>,
)
    requires
        old(s).wf(),
        call_ensures(bot::voice_state_update_at, (s, update, left_ms, joined_ms), outcome),
    ensures
        final(s).wf(),
        is_update(old(s)@, update, left_ms, joined_ms, outcome, final(s)@),
{
    lemma_is_update(old(s)@, update, left_ms, joined_ms);
}

/// The same, at times that were read off the clock.
pub proof fn updates_are_recorded_now(
    s: &mut Store,
    update: VoiceUpdate,
    outcome: Option<LeaveOutcome>,
)
    requires
        old(s).wf(),
        call_ensures(bot::voice_state_update, (s, update), outcome),
    ensures
        final(s).wf(),
        exists|left_ms: u128, joined_ms: u128|
            clock::clock_shows(left_ms) && clock::clock_shows(joined_ms) && #[trigger] is_update(
                old(s)@,
                update,
                left_ms,
                joined_ms,
                outcome,
                final(s)@,
            ),
{
    let (left_ms, joined_ms) = choose|left_ms: u128, joined_ms: u128|
        clock::clock_shows(left_ms) && clock::clock_shows(joined_ms) && left_ms
            <= clock::LATEST_MS && joined_ms <= clock::LATEST_MS && outcome
            == bot::update_outcome(old(s)@, update, left_ms) && final(s)@
            == #[trigger] bot::updated(old(s)@, update, left_ms, joined_ms);
    lemma_is_update(old(s)@, update, left_ms, joined_ms);
    assert(is_update(old(s)@, update, left_ms, joined_ms, outcome, final(s)@));
}

/// A user who joins and later leaves is ranked with the time in between, whoever it is
/// but the bot.
pub proof fn a_stay_is_ranked(
    s: StoreView,
    join: VoiceUpdate,
    leave: VoiceUpdate,
    joined_ms: u128,
    left_ms: u128,
)
    requires
        join.user_id != join.bot_id,
        join.old_channel is None,
        join.new_channel is Some,
        leave.user_id == join.user_id,
        leave.bot_id == join.bot_id,
        leave.old_channel is Some,
        leave.new_channel is None,
        joined_ms <= left_ms,
        !s.voice_rank.contains_key(store::user_key(join.user_id)),
        left_ms - joined_ms <= u64::MAX,
    ensures
        ({
            let joined = bot::updated(s, join, 0, joined_ms);
            let after = bot::updated(joined, leave, left_ms, 0);
            let key = store::user_key(join.user_id);
            &&& joined.voice_sessions.contains_key(join.user_id)
            &&& bot::update_outcome(joined, leave, left_ms) == Some(LeaveOutcome::Recorded)
            &&& after.voice_rank.contains_key(key)
            &&& after.voice_rank[key].total_ms == left_ms - joined_ms
            &&& !after.voice_sessions.contains_key(join.user_id)
        }),
{
}

/// An update is nothing for the bot itself and for a user who is in no channel before
/// and after; otherwise it says what its channels say.
pub proof fn changes_follow_the_channels(update: VoiceUpdate, change: VoiceChange)
    requires
        call_ensures(bot::voice_change, (&update,), change),
    ensures
        change is Nothing <==> update.user_id == update.bot_id || (update.old_channel is None
            && update.new_channel is None),
        change is Joined <==> update.user_id != update.bot_id && update.old_channel is None
            && update.new_channel is Some,
        change is Left <==> update.user_id != update.bot_id && update.old_channel is Some
            && update.new_channel is None,
        change is Switched <==> update.user_id != update.bot_id && update.old_channel is Some
            && update.new_channel is Some,
{
}

/// A command is found by its exact name, and no other name finds one.
pub proof fn commands_are_found_by_name(name: &str, command: Option<Command>)
    requires
        call_ensures(bot::interaction_command, (name,), command),
    ensures
        command == Some(Command::StartSpotify) <==> name@ == "start-spotify"@,
        command == Some(Command::StopSpotify) <==> name@ == "stop-spotify"@,
        command == Some(Command::Rank) <==> name@ == "rank"@,
{
    reveal_strlit("start-spotify");
    reveal_strlit("stop-spotify");
    reveal_strlit("rank");
    assert("start-spotify"@.len() == 13 && "stop-spotify"@.len() == 12 && "rank"@.len() == 4);
}

/// Whether `commands` are the three of the bot, with what they are for.
pub open spec fn are_the_commands(commands: Seq<SlashCommand>) -> bool {
    &&& commands.len() == 3
    &&& commands[0].name@ == "start-spotify"@
    &&& commands[0].description@
        == "Connect your Spotify and start playing in your voice channel"@
    &&& commands[1].name@ == "stop-spotify"@
    &&& commands[1].description@ == "Stop the active Spotify Connect session"@
    &&& commands[2].name@ == "rank"@
    &&& commands[2].description@ == "Show the voice channel time leaderboard"@
}

proof fn lemma_commands(commands: Seq<SlashCommand>)
    requires
        bot::labels(commands) == bot::registered(),
    ensures
        are_the_commands(commands),
{
    let shown = bot::labels(commands);
    assert(shown.len() == 3);
    assert(shown[0] == (commands[0].name@, commands[0].description@));
    assert(shown[1] == (commands[1].name@, commands[1].description@));
    assert(shown[2] == (commands[2].name@, commands[2].description@));
}

/// The three commands are offered, each with what it is for.
pub proof fn three_commands_are_offered(commands: Vec<SlashCommand>)
    requires
        call_ensures(bot::slash_commands, (), commands),
    ensures
        are_the_commands(commands@),
{
    lemma_commands(commands@);
}

/// Once the gateway is ready, the bot goes by its username and offers its commands, and
/// all else stays.
pub proof fn readiness_names_the_bot(s: &mut Store, name: String, commands: Vec<SlashCommand>)
    requires
        call_ensures(bot::ready, (s, name), commands),
    ensures
        final(s)@.bot_name == name@,
        final(s)@ == (StoreView { bot_name: final(s)@.bot_name, ..old(s)@ }),
        are_the_commands(commands@),
{
    lemma_commands(commands@);
}

} // verus!
