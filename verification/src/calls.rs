use vstd::prelude::*;

use crate::ids::{elapsed_secs, seconds_between, BotIds};
use crate::text::{decimal, mention_text, push_decimal, push_mention, split_duration};

verus! {

/// What the bot remembers of the tracked member's voice calls.
pub struct CallTracker {
    /// When the member last joined a call, in nanoseconds since the Unix epoch.
    pub call_start: u64,
    /// The voice channel the bot last followed the member into.
    pub last_channel: u64,
}

pub struct CallModel {
    pub call_start: nat,
    pub last_channel: u64,
}

impl View for CallTracker {
    type V = CallModel;

    open spec fn view(&self) -> CallModel {
        CallModel { call_start: self.call_start as nat, last_channel: self.last_channel }
    }
}

/// A voice state change as the gateway reports it.
pub struct VoiceEvent {
    /// Whose voice state changed.
    pub user: u64,
    /// The server of the new state, if it names one.
    pub guild: Option<u64>,
    /// The channel of the new state; `None` when the user left voice.
    pub channel: Option<u64>,
    /// The screen-share flag of the new state, if the gateway sent one.
    pub self_stream: Option<bool>,
    /// The previous voice state, if one was cached, by the channel it held.
    pub previous: Option<Option<u64>>,
}

/// What the bot does after a voice state change, or when it comes online.
pub enum CallAction {
    Nothing,
    /// Join `channel` of `guild`; the tracker already records it.
    Join { guild: u64, channel: u64 },
    /// Join `channel` of `guild`; if the join fails, report it with `join_failed`.
    Follow { guild: u64, channel: u64 },
    /// Join `channel` of `guild` to go back where the member is.
    Return { guild: u64, channel: u64 },
    /// Leave the voice call in `guild`.
    Leave { guild: u64 },
    /// Say `text` in `channel` and publish `post`: the member shared the screen.
    Announce { channel: u64, text: String, post: String },
}

pub enum CallActionView {
    Nothing,
    Join { guild: u64, channel: u64 },
    Follow { guild: u64, channel: u64 },
    Return { guild: u64, channel: u64 },
    Leave { guild: u64 },
    Announce { channel: u64, text: Seq<char>, post: Seq<char> },
}

impl View for CallAction {
    type V = CallActionView;

    open spec fn view(&self) -> CallActionView {
        match self {
            CallAction::Nothing => CallActionView::Nothing,
            CallAction::Join { guild, channel } => CallActionView::Join { guild: *guild, channel: *channel },
            CallAction::Follow { guild, channel } => CallActionView::Follow { guild: *guild, channel: *channel },
            CallAction::Return { guild, channel } => CallActionView::Return { guild: *guild, channel: *channel },
            CallAction::Leave { guild } => CallActionView::Leave { guild: *guild },
            CallAction::Announce { channel, text, post } => CallActionView::Announce {
                channel: *channel,
                text: text@,
                post: post@,
            },
        }
    }
}

/// "H horas, M minutos, S segundos" for a number of seconds.
pub open spec fn call_duration_text(secs: nat) -> Seq<char> {
    decimal(secs / 3600) + " horas, "@ + decimal((secs % 3600) / 60) + " minutos, "@
        + decimal(secs % 60) + " segundos para compartilhar a tela"@
}

/// The chat message about how long the member took to share the screen.
pub open spec fn share_text(user: nat, secs: nat) -> Seq<char> {
    mention_text(user) + " demorou "@ + call_duration_text(secs)
}

/// The public post about how long the member took to share the screen.
pub open spec fn share_post(secs: nat) -> Seq<char> {
    "Jotave demorou "@ + call_duration_text(secs)
}

/// The channel the bot should be in: the member's cached voice channel if the cache has
/// the member's voice state, else the one last followed.
pub open spec fn expected_channel(state: CallModel, cached: Option<Option<u64>>) -> u64 {
    match cached {
        Some(c) => c->0,
        None => state.last_channel,
    }
}

/// Whether `voice_state_update` is defined on these values.
pub open spec fn voice_update_defined(
    ids: BotIds,
    state: CallModel,
    now: nat,
    ev: VoiceEvent,
    cached: Option<Option<u64>>,
) -> bool {
    &&& cached matches Some(c) ==> c is Some
    &&& ev.user == ids.tracked_user && ev.channel is Some ==> match ev.previous {
        None => true,
        Some(prev) => match prev {
            None => false,
            Some(p) => p == ev.channel->0 && ev.self_stream is Some ==> state.call_start <= now,
        },
    }
    &&& ev.user != ids.tracked_user && ev.user == ids.bot_user && ev.channel is Some
        && ev.channel->0 != expected_channel(state, cached) ==> ev.guild is Some
    &&& ev.user != ids.tracked_user && ev.user == ids.bot_user && ev.channel is None
        && (cached matches Some(Some(_))) ==> ev.guild is Some
}

/// The next tracker state and the action after a voice state change.
pub open spec fn voice_next(
    ids: BotIds,
    state: CallModel,
    now: nat,
    ev: VoiceEvent,
    cached: Option<Option<u64>>,
) -> (CallModel, CallActionView) {
    if ev.user == ids.tracked_user {
        match ev.channel {
            Some(nc) => match ev.previous {
                None => (
                    CallModel { call_start: now, last_channel: nc },
                    CallActionView::Join { guild: ids.home_guild, channel: nc },
                ),
                Some(prev) => {
                    if nc != prev->0 {
                        (state, CallActionView::Follow { guild: ids.home_guild, channel: nc })
                    } else if ev.self_stream is Some {
                        let secs = elapsed_secs(state.call_start, now);
                        (
                            state,
                            CallActionView::Announce {
                                channel: ids.general_channel,
                                text: share_text(ids.tracked_user as nat, secs),
                                post: share_post(secs),
                            },
                        )
                    } else {
                        (state, CallActionView::Nothing)
                    }
                },
            },
            None => (state, CallActionView::Leave { guild: ids.home_guild }),
        }
    } else if ev.user == ids.bot_user {
        match ev.channel {
            Some(ch) => {
                let expected = expected_channel(state, cached);
                if ch != expected {
                    (state, CallActionView::Return { guild: ev.guild->0, channel: expected })
                } else {
                    (state, CallActionView::Nothing)
                }
            },
            None => match cached {
                Some(Some(member_channel)) => (
                    state,
                    CallActionView::Return { guild: ev.guild->0, channel: member_channel },
                ),
                _ => (state, CallActionView::Nothing),
            },
        }
    } else {
        (state, CallActionView::Nothing)
    }
}

/// What the bot does when it comes online, given the member's cached voice state in the
/// home server by its channel.
pub open spec fn ready_next(ids: BotIds, cached: Option<Option<u64>>) -> CallActionView {
    match cached {
        Some(Some(ch)) => CallActionView::Follow { guild: ids.home_guild, channel: ch },
        _ => CallActionView::Nothing,
    }
}

fn push_call_duration(s: &mut String, secs: u64)
    ensures
        final(s)@ == old(s)@ + call_duration_text(secs as nat),
{
    let (h, m, sec) = split_duration(secs);
    push_decimal(s, h);
    s.append(" horas, ");
    push_decimal(s, m);
    s.append(" minutos, ");
    push_decimal(s, sec);
    s.append(" segundos para compartilhar a tela");
}

impl CallTracker {
    /// The tracker when the bot starts: the call clock starts at `now`, and the channel is
    /// the smallest channel id, as an unset Discord channel id is.
    pub fn new(now: u64) -> (r: CallTracker)
        ensures
            r@.call_start == now,
            r@.last_channel == 1,
    {
        CallTracker { call_start: now, last_channel: 1 }
    }

    /// Whether `voice_state_update` can be called with these values.
    pub fn update_defined(&self, ids: &BotIds, now: u64, ev: &VoiceEvent, cached: Option<Option<u64>>) -> (r: bool)
        ensures
            r == voice_update_defined(*ids, self@, now as nat, *ev, cached),
    {
        if let Some(c) = cached {
            if c.is_none() {
                return false;
            }
        }
        if ev.user == ids.tracked_user && ev.channel.is_some() {
            if let Some(prev) = ev.previous {
                match prev {
                    None => {
                        return false;
                    },
                    Some(p) => {
                        if p == ev.channel.unwrap() && ev.self_stream.is_some() && self.call_start > now {
                            return false;
                        }
                    },
                }
            }
        }
        if ev.user != ids.tracked_user && ev.user == ids.bot_user && ev.channel.is_some() {
            let expected = match cached {
                Some(c) => c.unwrap(),
                None => self.last_channel,
            };
            if ev.channel.unwrap() != expected && ev.guild.is_none() {
                return false;
            }
        }
        if ev.user != ids.tracked_user && ev.user == ids.bot_user && ev.channel.is_none() {
            if let Some(Some(_)) = cached {
                if ev.guild.is_none() {
                    return false;
                }
            }
        }
        true
    }

    /// Decides what a voice state change leads to: follows the tracked member into calls
    /// and out of them, reports how long the member took to share the screen, and brings
    /// the bot back when it is moved away from the member or disconnected while the member
    /// is in a call.
    pub fn voice_state_update(&mut self, ids: &BotIds, now: u64, ev: &VoiceEvent, cached: Option<Option<u64>>) -> (r: CallAction)
        requires
            voice_update_defined(*ids, old(self)@, now as nat, *ev, cached),
        ensures
            (final(self)@, r@) == voice_next(*ids, old(self)@, now as nat, *ev, cached),
    {
        let expected = match cached {
            Some(c) => c.unwrap(),
            None => self.last_channel,
        };
        if ev.user == ids.tracked_user {
            match ev.channel {
                Some(nc) => match ev.previous {
                    None => {
                        self.call_start = now;
                        self.last_channel = nc;
                        CallAction::Join { guild: ids.home_guild, channel: nc }
                    },
                    Some(prev) => {
                        let p = prev.unwrap();
                        if nc != p {
                            CallAction::Follow { guild: ids.home_guild, channel: nc }
                        } else if ev.self_stream.is_some() {
                            let secs = seconds_between(self.call_start, now);
                            let mut text = String::new();
                            push_mention(&mut text, ids.tracked_user);
                            text.append(" demorou ");
                            push_call_duration(&mut text, secs);
                            let mut post = String::new();
                            post.append("Jotave demorou ");
                            push_call_duration(&mut post, secs);
                            CallAction::Announce { channel: ids.general_channel, text, post }
                        } else {
                            CallAction::Nothing
                        }
                    },
                },
                None => CallAction::Leave { guild: ids.home_guild },
            }
        } else if ev.user == ids.bot_user {
            match ev.channel {
                Some(ch) => {
                    if ch != expected {
                        CallAction::Return { guild: ev.guild.unwrap(), channel: expected }
                    } else {
                        CallAction::Nothing
                    }
                },
                None => match cached {
                    Some(Some(member_channel)) => CallAction::Return { guild: ev.guild.unwrap(), channel: member_channel },
                    _ => CallAction::Nothing,
                },
            }
        } else {
            CallAction::Nothing
        }
    }

    /// Records that the join an action asked for failed: a `Follow` then still moves the
    /// remembered channel; every other action leaves the tracker as it was.
    pub fn join_failed(&mut self, action: &CallAction)
        ensures
            match action@ {
                CallActionView::Follow { guild, channel } => final(self)@ == CallModel {
                    last_channel: channel,
                    ..old(self)@
                },
                _ => final(self)@ == old(self)@,
            },
    {
        if let CallAction::Follow { guild: _, channel } = action {
            self.last_channel = *channel;
        }
    }
}

/// Decides whether the bot joins the member when it comes online, given the member's
/// cached voice state in the home server by its channel.
pub fn ready_action(ids: &BotIds, cached: Option<Option<u64>>) -> (r: CallAction)
    ensures
        r@ == ready_next(*ids, cached),
{
    match cached {
        Some(Some(ch)) => CallAction::Follow { guild: ids.home_guild, channel: ch },
        _ => CallAction::Nothing,
    }
}


/// Voice changes of anyone but the tracked member and the bot change nothing and do
/// nothing.
pub proof fn law_other_users_ignored(ids: BotIds, state: CallModel, now: nat, ev: VoiceEvent, cached: Option<Option<u64>>)
    requires
        ev.user != ids.tracked_user,
        ev.user != ids.bot_user,
    ensures
        voice_next(ids, state, now, ev, cached) == (state, CallActionView::Nothing),
{
}

/// When the tracked member leaves voice the bot leaves too; when the member comes into a
/// call from none the bot joins that channel, remembers it and restarts the call clock.
/// Only a join into a call from none touches the tracker.
pub proof fn law_member_calls(ids: BotIds, state: CallModel, now: nat, ev: VoiceEvent, cached: Option<Option<u64>>)
    requires
        ev.user == ids.tracked_user,
    ensures
        ({
            let (next, action) = voice_next(ids, state, now, ev, cached);
            &&& ev.channel is None ==> action == CallActionView::Leave { guild: ids.home_guild }
            &&& (ev.channel is Some && ev.previous is None) ==> {
                &&& action == CallActionView::Join { guild: ids.home_guild, channel: ev.channel->0 }
                &&& next == CallModel { call_start: now, last_channel: ev.channel->0 }
            }
            &&& !(ev.channel is Some && ev.previous is None) ==> next == state
        }),
{
}

/// The bot only moves itself back when it was moved away from where the member is, or was
/// disconnected while the member is in a voice channel, and then goes back there.
pub proof fn law_bot_returns_to_member(ids: BotIds, state: CallModel, now: nat, ev: VoiceEvent, cached: Option<Option<u64>>)
    requires
        ev.user == ids.bot_user,
        ev.user != ids.tracked_user,
    ensures
        ({
            let (next, action) = voice_next(ids, state, now, ev, cached);
            &&& next == state
            &&& match action {
                CallActionView::Return { guild, channel } => {
                    ||| ev.channel is Some && ev.channel->0 != expected_channel(state, cached)
                        && channel == expected_channel(state, cached)
                    ||| ev.channel is None && cached == Some(Some(channel))
                },
                CallActionView::Nothing => match ev.channel {
                    Some(ch) => ch == expected_channel(state, cached),
                    None => !(cached matches Some(Some(_))),
                },
                _ => false,
            }
        }),
{
}

/// When the tracked member moves from one voice channel to another, the bot follows into
/// the new channel, whether or not the member is sharing the screen, and the tracker is
/// left as it was.
pub proof fn law_member_move_is_followed(
    ids: BotIds,
    state: CallModel,
    now: nat,
    ev: VoiceEvent,
    cached: Option<Option<u64>>,
    from: u64,
    to: u64,
)
    requires
        ev.user == ids.tracked_user,
        ev.channel == Some(to),
        ev.previous == Some(Some(from)),
        from != to,
    ensures
        voice_next(ids, state, now, ev, cached) == (state, CallActionView::Follow { guild: ids.home_guild, channel: to }),
{
}

/// When the tracked member's voice state changes without a change of channel and the
/// screen-share flag is sent, the time since the call began is announced in the general
/// channel; without the flag nothing happens. Neither touches the tracker.
pub proof fn law_share_announced_in_same_channel(
    ids: BotIds,
    state: CallModel,
    now: nat,
    ev: VoiceEvent,
    cached: Option<Option<u64>>,
    ch: u64,
)
    requires
        ev.user == ids.tracked_user,
        ev.channel == Some(ch),
        ev.previous == Some(Some(ch)),
    ensures
        ev.self_stream is Some ==> voice_next(ids, state, now, ev, cached) == (
            state,
            CallActionView::Announce {
                channel: ids.general_channel,
                text: share_text(ids.tracked_user as nat, elapsed_secs(state.call_start, now)),
                post: share_post(elapsed_secs(state.call_start, now)),
            },
        ),
        ev.self_stream is None ==> voice_next(ids, state, now, ev, cached) == (state, CallActionView::Nothing),
{
}

} // verus!
