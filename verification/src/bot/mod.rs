//! The bot's side of the Discord gateway: which commands it offers, and what it
//! makes of voice state updates.

pub mod commands;
pub mod embed;
pub mod laws;

use crate::store;
use crate::store::clock::unix_now_ms;
use crate::store::{LeaveOutcome, Store, StoreView};
use crate::text;
use vstd::prelude::*;

verus! {

/// A slash command as it is registered with Discord.
#[derive(Debug, PartialEq, Eq)]
pub struct SlashCommand {
    pub name: String,
    pub description: String,
}

/// The names and descriptions of the registered commands.
pub open spec fn registered() -> Seq<(Seq<char>, Seq<char>)> {
    seq![
        (
            "start-spotify"@,
            "Connect your Spotify and start playing in your voice channel"@,
        ),
        ("stop-spotify"@, "Stop the active Spotify Connect session"@),
        ("rank"@, "Show the voice channel time leaderboard"@),
    ]
}

/// What commands are called and how they are described.
pub open spec fn labels(commands: Seq<SlashCommand>) -> Seq<(Seq<char>, Seq<char>)> {
    commands.map_values(|c: SlashCommand| (c.name@, c.description@))
}

/// The commands that the bot handles.
#[derive(Debug, Clone, Copy, PartialEq, Eq, Structural)]
pub enum Command {
    StartSpotify,
    StopSpotify,
    Rank,
}

/// The command of that name.
pub open spec fn command_named(name: Seq<char>) -> Option<Command> {
    if name == "start-spotify"@ {
        Some(Command::StartSpotify)
    } else if name == "stop-spotify"@ {
        Some(Command::StopSpotify)
    } else if name == "rank"@ {
        Some(Command::Rank)
    } else {
        None
    }
}

/// The three registered commands are the three that are handled, each its own.
pub proof fn registered_commands_are_handled()
    ensures
        registered().len() == 3,
        command_named(registered()[0].0) == Some(Command::StartSpotify),
        command_named(registered()[1].0) == Some(Command::StopSpotify),
        command_named(registered()[2].0) == Some(Command::Rank),
        forall|name: Seq<char>|
            command_named(name) is Some ==> exists|i: int|
                0 <= i < 3 && name == #[trigger] registered()[i].0,
{
    reveal_strlit("start-spotify");
    reveal_strlit("stop-spotify");
    reveal_strlit("rank");
    assert("start-spotify"@.len() == 13 && "stop-spotify"@.len() == 12 && "rank"@.len() == 4);
    assert forall|name: Seq<char>| command_named(name) is Some implies exists|i: int|
        0 <= i < 3 && name == #[trigger] registered()[i].0 by {
        let all = registered();
        assert(name == all[0].0 || name == all[1].0 || name == all[2].0);
    }
}

/// The commands to register once the gateway is ready.
pub fn slash_commands() -> (commands: Vec<SlashCommand>)
    ensures
        labels(commands@) == registered(),
{
    let mut commands: Vec<SlashCommand> = Vec::new();
    commands.push(
        SlashCommand {
            name: "start-spotify".to_owned(),
            description: "Connect your Spotify and start playing in your voice channel".to_owned(),
        },
    );
    commands.push(
        SlashCommand {
            name: "stop-spotify".to_owned(),
            description: "Stop the active Spotify Connect session".to_owned(),
        },
    );
    commands.push(
        SlashCommand {
            name: "rank".to_owned(),
            description: "Show the voice channel time leaderboard".to_owned(),
        },
    );
    assert(labels(commands@) =~= registered());
    commands
}

/// The gateway is ready: takes over the bot's username, and returns the commands
/// to register.
pub fn ready(store: &mut Store, name: String) -> (commands: Vec<SlashCommand>)
    ensures
        final(store)@ == (StoreView { bot_name: name@, ..old(store)@ }),
        old(store).wf() ==> final(store).wf(),
        labels(commands@) == registered(),
{
    store.set_bot_name(name);
    slash_commands()
}

/// The command that an interaction asks for. Others are ignored.
pub fn interaction_command(name: &str) -> (command: Option<Command>)
    ensures
        command == command_named(name@),
{
    if text::same_text(name, "start-spotify") {
        Some(Command::StartSpotify)
    } else if text::same_text(name, "stop-spotify") {
        Some(Command::StopSpotify)
    } else if text::same_text(name, "rank") {
        Some(Command::Rank)
    } else {
        None
    }
}

/// What a voice state update says.
#[derive(Debug)]
pub struct VoiceUpdate {
    pub user_id: u64,
    /// The bot's own user id.
    pub bot_id: u64,
    /// How the server shows the user, if it is known.
    pub display_name: Option<String>,
    /// The voice channel before the update.
    pub old_channel: Option<u64>,
    /// The voice channel after it.
    pub new_channel: Option<u64>,
}

/// What a voice state update means for voice time.
#[derive(Debug, Clone, Copy, PartialEq, Eq, Structural)]
pub enum VoiceChange {
    /// The bot itself, or a user who is not in voice.
    Nothing,
    Joined,
    Left,
    /// From one channel to another, or a change within one: the session timer
    /// restarts.
    Switched,
}

/// What `update` means for voice time.
pub open spec fn change_of(update: VoiceUpdate) -> VoiceChange {
    if update.user_id == update.bot_id {
        VoiceChange::Nothing
    } else if update.old_channel is None && update.new_channel is Some {
        VoiceChange::Joined
    } else if update.old_channel is Some && update.new_channel is None {
        VoiceChange::Left
    } else if update.old_channel is Some && update.new_channel is Some {
        VoiceChange::Switched
    } else {
        VoiceChange::Nothing
    }
}

/// The name under which the user of `update` is ranked.
pub open spec fn shown_name(update: VoiceUpdate) -> Seq<char> {
    match update.display_name {
        Some(name) => name@,
        None => store::user_key(update.user_id),
    }
}

/// Whether a leave went wrong.
pub open spec fn failed(outcome: LeaveOutcome) -> bool {
    outcome == LeaveOutcome::ClockWentBack || outcome == LeaveOutcome::TotalOverflow
}

/// The store after `update`, when the user leaves, if at all, at `left_ms`, and
/// joins, if at all, at `joined_ms`. A failed leave is not followed by a join.
pub open spec fn updated(
    s: StoreView,
    update: VoiceUpdate,
    left_ms: u128,
    joined_ms: u128,
) -> StoreView {
    let user = update.user_id;
    let name = shown_name(update);
    match change_of(update) {
        VoiceChange::Nothing => s,
        VoiceChange::Joined => store::entered(s, user, name, joined_ms),
        VoiceChange::Left => store::left(s, user, left_ms),
        VoiceChange::Switched => if failed(store::leave_outcome(s, user, left_ms)) {
            store::left(s, user, left_ms)
        } else {
            store::entered(store::left(s, user, left_ms), user, name, joined_ms)
        },
    }
}

/// What became of the leave in `update`, if there was one.
pub open spec fn update_outcome(s: StoreView, update: VoiceUpdate, left_ms: u128) -> Option<
    LeaveOutcome,
> {
    match change_of(update) {
        VoiceChange::Left | VoiceChange::Switched => Some(
            store::leave_outcome(s, update.user_id, left_ms),
        ),
        _ => None,
    }
}

/// What `update` means for voice time.
pub fn voice_change(update: &VoiceUpdate) -> (change: VoiceChange)
    ensures
        change == change_of(*update),
{
    if update.user_id == update.bot_id {
        return VoiceChange::Nothing;
    }
    let was_in_channel = update.old_channel.is_some();
    let is_in_channel = update.new_channel.is_some();
    if !was_in_channel && is_in_channel {
        VoiceChange::Joined
    } else if was_in_channel && !is_in_channel {
        VoiceChange::Left
    } else if was_in_channel && is_in_channel {
        VoiceChange::Switched
    } else {
        VoiceChange::Nothing
    }
}

/// Records a voice state update. The user leaves, if at all, at `left_ms`, and
/// joins, if at all, at `joined_ms`.
pub fn voice_state_update_at(
    store: &mut Store,
    update: VoiceUpdate,
    left_ms: u128,
    joined_ms: u128,
) -> (outcome: Option<LeaveOutcome>)
    requires
        old(store).wf(),
    ensures
        final(store).wf(),
        outcome == update_outcome(old(store)@, update, left_ms),
        final(store)@ == updated(old(store)@, update, left_ms, joined_ms),
{
    let ghost update0 = update;
    let change = voice_change(&update);
    let user_id: u64 = update.user_id;
    let display_name = match update.display_name {
        Some(name) => name,
        None => text::decimal_string(user_id),
    };
    assert(display_name@ == shown_name(update0));
    match change {
        VoiceChange::Nothing => None,
        VoiceChange::Joined => {
            store.voice_join_at(user_id, display_name, joined_ms);
            None
        },
        VoiceChange::Left => Some(store.voice_leave_at(user_id, left_ms)),
        VoiceChange::Switched => {
            let outcome = store.voice_leave_at(user_id, left_ms);
            if outcome != LeaveOutcome::ClockWentBack && outcome != LeaveOutcome::TotalOverflow {
                store.voice_join_at(user_id, display_name, joined_ms);
            }
            Some(outcome)
        },
    }
}

/// Records a voice state update. The user leaves and joins, if at all, at times that
/// the clock shows.
pub fn voice_state_update(store: &mut Store, update: VoiceUpdate) -> (outcome: Option<
    LeaveOutcome,
>)
    requires
        old(store).wf(),
    ensures
        final(store).wf(),
        exists|left_ms: u128, joined_ms: u128|
            store::clock::clock_shows(left_ms) && store::clock::clock_shows(joined_ms) && left_ms
                <= store::clock::LATEST_MS && joined_ms <= store::clock::LATEST_MS && outcome
                == update_outcome(old(store)@, update, left_ms) && final(store)@
                == #[trigger] updated(old(store)@, update, left_ms, joined_ms),
{
    let left_ms = unix_now_ms();
    let joined_ms = unix_now_ms();
    voice_state_update_at(store, update, left_ms, joined_ms)
}

} // verus!
