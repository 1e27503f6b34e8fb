use vstd::prelude::*;

use crate::ids::{elapsed_secs, seconds_between, BotIds};
use crate::text::{decimal, mention_text, push_decimal, push_mention, split_duration, str_eq};

verus! {

/// How long a game must have been followed before a change of activity counts.
pub const MIN_ACTIVITY_SECS: u64 = 30;

/// The game the tracked member is followed as playing, and since when.
pub struct ActivityTracker {
    /// The game last seen; empty when none is followed.
    pub game: String,
    /// When the game began to be followed, in nanoseconds since the Unix epoch.
    pub since: u64,
}

/// What a tracker stands for.
pub struct ActivityModel {
    pub game: Seq<char>,
    pub since: nat,
}

impl View for ActivityTracker {
    type V = ActivityModel;

    open spec fn view(&self) -> ActivityModel {
        ActivityModel { game: self.game@, since: self.since as nat }
    }
}

/// A presence change as the gateway reports it: who, where, and the name of the first
/// activity listed, if any.
pub struct PresenceEvent {
    pub user: u64,
    pub guild: Option<u64>,
    pub first_activity: Option<String>,
}

/// What a presence change leads to.
pub enum PresenceOutcome {
    /// Nothing changes.
    Ignored,
    /// A game begins to be followed; nothing is said.
    Started,
    /// The member changed games: `text` goes to `channel`.
    Switched { channel: u64, text: String },
    /// The member stopped playing: `text` goes to `channel`.
    Stopped { channel: u64, text: String },
}

pub enum PresenceOutcomeView {
    Ignored,
    Started,
    Switched { channel: u64, text: Seq<char> },
    Stopped { channel: u64, text: Seq<char> },
}

impl View for PresenceOutcome {
    type V = PresenceOutcomeView;

    open spec fn view(&self) -> PresenceOutcomeView {
        match self {
            PresenceOutcome::Ignored => PresenceOutcomeView::Ignored,
            PresenceOutcome::Started => PresenceOutcomeView::Started,
            PresenceOutcome::Switched { channel, text } => PresenceOutcomeView::Switched {
                channel: *channel,
                text: text@,
            },
            PresenceOutcome::Stopped { channel, text } => PresenceOutcomeView::Stopped {
                channel: *channel,
                text: text@,
            },
        }
    }
}

/// Activities that never count as a game.
pub open spec fn is_filler_activity(name: Seq<char>) -> bool {
    ||| name == "Spotify"@
    ||| name == "Hang Status"@
    ||| name == "Custom Status"@
}

/// The text that says how long the member played `old` before switching to `current`.
pub open spec fn switch_text(user: nat, current: Seq<char>, secs: nat, old: Seq<char>) -> Seq<char> {
    mention_text(user) + " come\u{00E7}ou a jogar "@ + current + " ap\u{00F3}s "@
        + decimal(secs / 3600) + " horas, "@ + decimal((secs % 3600) / 60) + " minutos e "@
        + decimal(secs % 60) + " segundos jogando "@ + old
}

/// The text that says how long the member played `old` before stopping.
pub open spec fn stop_text(user: nat, old: Seq<char>, secs: nat) -> Seq<char> {
    mention_text(user) + " jogou "@ + old + " por "@ + decimal(secs / 3600) + " horas, "@
        + decimal((secs % 3600) / 60) + " minutos e "@ + decimal(secs % 60) + " segundos."@
}

/// Whether a presence change is about the tracked member in the home server, after the
/// followed game has lasted long enough.
pub open spec fn presence_counts(ids: BotIds, state: ActivityModel, now: nat, user: u64, guild: Option<u64>) -> bool {
    &&& user == ids.tracked_user
    &&& guild == Some(ids.home_guild)
    &&& elapsed_secs(state.since, now) >= MIN_ACTIVITY_SECS
}

/// The next tracker state and the outcome of a presence change.
pub open spec fn presence_next(
    ids: BotIds,
    state: ActivityModel,
    now: nat,
    user: u64,
    guild: Option<u64>,
    first_activity: Option<Seq<char>>,
) -> (ActivityModel, PresenceOutcomeView) {
    let secs = elapsed_secs(state.since, now);
    if !presence_counts(ids, state, now, user, guild) {
        (state, PresenceOutcomeView::Ignored)
    } else {
        match first_activity {
            Some(name) => {
                if is_filler_activity(name) || name == state.game || name.len() == 0 {
                    (state, PresenceOutcomeView::Ignored)
                } else if state.game.len() == 0 {
                    (ActivityModel { game: name, since: now }, PresenceOutcomeView::Started)
                } else {
                    (
                        ActivityModel { game: name, since: now },
                        PresenceOutcomeView::Switched {
                            channel: ids.general_channel,
                            text: switch_text(ids.tracked_user as nat, name, secs, state.game),
                        },
                    )
                }
            },
            None => {
                if state.game.len() == 0 {
                    (state, PresenceOutcomeView::Ignored)
                } else {
                    (
                        ActivityModel { game: Seq::empty(), since: state.since },
                        PresenceOutcomeView::Stopped {
                            channel: ids.general_channel,
                            text: stop_text(ids.tracked_user as nat, state.game, secs),
                        },
                    )
                }
            },
        }
    }
}

/// Whether `presence_update` is defined on an event: the clock has not gone back past the
/// start of the followed game, and an event about the tracked member names its server.
pub open spec fn presence_update_defined(ids: BotIds, state: ActivityModel, now: nat, user: u64, guild: Option<u64>) -> bool {
    &&& state.since <= now
    &&& user == ids.tracked_user ==> guild is Some
}

impl PresenceEvent {
    pub open spec fn first_activity_view(&self) -> Option<Seq<char>> {
        match self.first_activity {
            Some(s) => Some(s@),
            None => None,
        }
    }
}

fn push_duration_parts(s: &mut String, secs: u64)
    ensures
        final(s)@ == old(s)@ + decimal(secs as nat / 3600) + " horas, "@
            + decimal((secs as nat % 3600) / 60) + " minutos e "@ + decimal(secs as nat % 60),
{
    let (h, m, sec) = split_duration(secs);
    push_decimal(s, h);
    s.append(" horas, ");
    push_decimal(s, m);
    s.append(" minutos e ");
    push_decimal(s, sec);
}

impl ActivityTracker {
    /// A tracker that follows no game, started at `now`.
    pub fn new(now: u64) -> (r: ActivityTracker)
        ensures
            r@.game == Seq::<char>::empty(),
            r@.since == now,
    {
        ActivityTracker { game: String::new(), since: now }
    }

    /// Whether `presence_update` can be called with these values.
    pub fn update_defined(&self, ids: &BotIds, now: u64, event: &PresenceEvent) -> (r: bool)
        ensures
            r == presence_update_defined(*ids, self@, now as nat, event.user, event.guild),
    {
        self.since <= now && (event.user != ids.tracked_user || event.guild.is_some())
    }

    /// Handles a presence change: follows the game the tracked member starts, and says how
    /// long a game was played when the member switches games or stops playing.
    pub fn presence_update(&mut self, ids: &BotIds, now: u64, event: &PresenceEvent) -> (r: PresenceOutcome)
        requires
            presence_update_defined(*ids, old(self)@, now as nat, event.user, event.guild),
        ensures
            (final(self)@, r@) == presence_next(
                *ids,
                old(self)@,
                now as nat,
                event.user,
                event.guild,
                event.first_activity_view(),
            ),
            !is_filler_activity(old(self)@.game) ==> !is_filler_activity(final(self)@.game),
    {
        proof {
            if !is_filler_activity(self@.game) {
                law_followed_game_is_never_filler(
                    *ids,
                    self@,
                    now as nat,
                    event.user,
                    event.guild,
                    event.first_activity_view(),
                );
            }
        }
        let secs = seconds_between(self.since, now);
        if !(event.user == ids.tracked_user && event.guild == Some(ids.home_guild) && secs >= MIN_ACTIVITY_SECS) {
            return PresenceOutcome::Ignored;
        }
        match &event.first_activity {
            Some(name) => {
                let name_str = name.as_str();
                if str_eq(name_str, "Spotify") || str_eq(name_str, "Hang Status")
                    || str_eq(name_str, "Custom Status") || str_eq(name_str, self.game.as_str())
                    || name_str.is_empty() {
                    return PresenceOutcome::Ignored;
                }
                if self.game.as_str().is_empty() {
                    self.game = name.clone();
                    self.since = now;
                    PresenceOutcome::Started
                } else {
                    let mut text = String::new();
                    push_mention(&mut text, ids.tracked_user);
                    text.append(" come\u{00E7}ou a jogar ");
                    text.append(name_str);
                    text.append(" ap\u{00F3}s ");
                    push_duration_parts(&mut text, secs);
                    text.append(" segundos jogando ");
                    text.append(self.game.as_str());
                    self.game = name.clone();
                    self.since = now;
                    PresenceOutcome::Switched { channel: ids.general_channel, text }
                }
            },
            None => {
                if self.game.as_str().is_empty() {
                    return PresenceOutcome::Ignored;
                }
                let mut text = String::new();
                push_mention(&mut text, ids.tracked_user);
                text.append(" jogou ");
                text.append(self.game.as_str());
                text.append(" por ");
                push_duration_parts(&mut text, secs);
                text.append(" segundos.");
                self.game = String::new();
                PresenceOutcome::Stopped { channel: ids.general_channel, text }
            },
        }
    }
}


/// A presence change that is not about the tracked member in the home server, or that
/// comes before the followed game has lasted 30 seconds, changes nothing and says nothing.
pub proof fn law_unrelated_presence_ignored(
    ids: BotIds,
    state: ActivityModel,
    now: nat,
    user: u64,
    guild: Option<u64>,
    first_activity: Option<Seq<char>>,
)
    requires
        !presence_counts(ids, state, now, user, guild),
    ensures
        presence_next(ids, state, now, user, guild, first_activity) == (state, PresenceOutcomeView::Ignored),
{
}

/// Music, a hang status and a custom status are never taken for a game, and neither is
/// the game already followed: they leave the tracker as it is and say nothing.
pub proof fn law_filler_and_same_game_ignored(
    ids: BotIds,
    state: ActivityModel,
    now: nat,
    user: u64,
    guild: Option<u64>,
    name: Seq<char>,
)
    requires
        is_filler_activity(name) || name == state.game || name.len() == 0,
    ensures
        presence_next(ids, state, now, user, guild, Some(name)) == (state, PresenceOutcomeView::Ignored),
{
}

/// Only a game that was followed is announced. A switch names the old game and the new
/// one and follows the new one from now; a stop names the old game and follows none; a
/// start follows the new game from now and is only made when none was followed.
pub proof fn law_announcements_follow_the_game(
    ids: BotIds,
    state: ActivityModel,
    now: nat,
    user: u64,
    guild: Option<u64>,
    first_activity: Option<Seq<char>>,
)
    ensures
        ({
            let (next, out) = presence_next(ids, state, now, user, guild, first_activity);
            let secs = elapsed_secs(state.since, now);
            match out {
                PresenceOutcomeView::Ignored => next == state,
                PresenceOutcomeView::Started => {
                    &&& state.game.len() == 0
                    &&& first_activity == Some(next.game)
                    &&& next.game.len() > 0
                    &&& next.since == now
                },
                PresenceOutcomeView::Switched { channel, text } => {
                    &&& state.game.len() > 0
                    &&& first_activity == Some(next.game)
                    &&& next.game != state.game
                    &&& next.since == now
                    &&& channel == ids.general_channel
                    &&& text == switch_text(ids.tracked_user as nat, next.game, secs, state.game)
                },
                PresenceOutcomeView::Stopped { channel, text } => {
                    &&& state.game.len() > 0
                    &&& first_activity is None
                    &&& next.game.len() == 0
                    &&& next.since == state.since
                    &&& channel == ids.general_channel
                    &&& text == stop_text(ids.tracked_user as nat, state.game, secs)
                },
            }
        }),
{
}

/// The followed game is never music, a hang status or a custom status, as long as it
/// was not one to begin with (a new tracker follows none): each change leaves it as it
/// was, empties it, or makes it the first activity reported, and whenever it becomes a
/// new game, that game is followed from the time of the change.
pub proof fn law_followed_game_is_never_filler(
    ids: BotIds,
    state: ActivityModel,
    now: nat,
    user: u64,
    guild: Option<u64>,
    first_activity: Option<Seq<char>>,
)
    requires
        !is_filler_activity(state.game),
    ensures
        ({
            let (next, _) = presence_next(ids, state, now, user, guild, first_activity);
            &&& !is_filler_activity(next.game)
            &&& next.game == state.game || next.game.len() == 0 || first_activity == Some(next.game)
            &&& (next.game != state.game && next.game.len() > 0) ==> next.since == now
        }),
{
    reveal_strlit("Spotify");
    reveal_strlit("Hang Status");
    reveal_strlit("Custom Status");
    let (next, _) = presence_next(ids, state, now, user, guild, first_activity);
    if next.game.len() == 0 {
        assert(!is_filler_activity(next.game));
    }
}

/// Once a game begins to be followed, the same activity reported again at any later time
/// changes nothing and says nothing.
pub proof fn law_repeated_activity_is_stable(
    ids: BotIds,
    state: ActivityModel,
    t1: nat,
    t2: nat,
    user: u64,
    guild: Option<u64>,
    name: Seq<char>,
)
    requires
        presence_next(ids, state, t1, user, guild, Some(name)).1 is Started
            || presence_next(ids, state, t1, user, guild, Some(name)).1 is Switched,
    ensures
        ({
            let (s1, _) = presence_next(ids, state, t1, user, guild, Some(name));
            presence_next(ids, s1, t2, user, guild, Some(name)) == (s1, PresenceOutcomeView::Ignored)
        }),
{
}

/// For the tracked member in the home server, once the followed game has lasted at least
/// 30 seconds, however much longer, a new game that is neither filler nor empty is
/// announced as a switch in the general channel, naming the new game, the seconds played
/// and the old game, and the new game is followed from now.
pub proof fn law_game_switch_announced(ids: BotIds, state: ActivityModel, now: nat, name: Seq<char>)
    requires
        state.game.len() > 0,
        name.len() > 0,
        !is_filler_activity(name),
        name != state.game,
        elapsed_secs(state.since, now) >= 30,
    ensures
        presence_next(ids, state, now, ids.tracked_user, Some(ids.home_guild), Some(name)) == (
            ActivityModel { game: name, since: now },
            PresenceOutcomeView::Switched {
                channel: ids.general_channel,
                text: switch_text(ids.tracked_user as nat, name, elapsed_secs(state.since, now), state.game),
            },
        ),
{
}

/// For the tracked member in the home server, after at least 30 seconds, a game that is
/// neither filler nor empty begins to be followed from now when none was, silently.
pub proof fn law_game_start_followed(ids: BotIds, state: ActivityModel, now: nat, name: Seq<char>)
    requires
        state.game.len() == 0,
        name.len() > 0,
        !is_filler_activity(name),
        elapsed_secs(state.since, now) >= 30,
    ensures
        presence_next(ids, state, now, ids.tracked_user, Some(ids.home_guild), Some(name)) == (
            ActivityModel { game: name, since: now },
            PresenceOutcomeView::Started,
        ),
{
}

/// For the tracked member in the home server, after at least 30 seconds, reporting no
/// activity while a game is followed announces in the general channel how long it was
/// played, and no game is followed any more (its start time is kept).
pub proof fn law_game_stop_announced(ids: BotIds, state: ActivityModel, now: nat)
    requires
        state.game.len() > 0,
        elapsed_secs(state.since, now) >= 30,
    ensures
        presence_next(ids, state, now, ids.tracked_user, Some(ids.home_guild), None) == (
            ActivityModel { game: Seq::empty(), since: state.since },
            PresenceOutcomeView::Stopped {
                channel: ids.general_channel,
                text: stop_text(ids.tracked_user as nat, state.game, elapsed_secs(state.since, now)),
            },
        ),
{
}

} // verus!
