use vstd::prelude::*;

use crate::options::{CommandOption, CommandSpec, CommandSpecView, OptionKind, OptionSpec, OptionSpecView, OptionValue};

verus! {

/// Why `/join` is refused.
#[derive(Clone, Copy, Debug, PartialEq, Eq, Structural)]
pub enum JoinError {
    /// The first option is not a user.
    NoUserMentioned,
    /// The bot knows no server.
    NoGuild,
    /// The mentioned user is in no voice channel.
    NotInVoice,
}

pub open spec fn join_error_message(e: JoinError) -> Seq<char> {
    match e {
        JoinError::NoUserMentioned => "No user mentioned"@,
        JoinError::NoGuild => "No guilds found in cache"@,
        JoinError::NotInVoice => "User is not in a voice channel"@,
    }
}

impl JoinError {
    /// The text the error is shown as.
    pub fn message(&self) -> (r: String)
        ensures
            r@ == join_error_message(*self),
    {
        match self {
            JoinError::NoUserMentioned => String::from_str("No user mentioned"),
            JoinError::NoGuild => String::from_str("No guilds found in cache"),
            JoinError::NotInVoice => String::from_str("User is not in a voice channel"),
        }
    }
}

/// Whose voice channel to join, and in which server to look for it.
#[derive(Clone, Copy, Debug, PartialEq, Eq, Structural)]
pub struct JoinTarget {
    pub user: u64,
    pub guild: u64,
}

/// Reads `/join`: the user is the first option, which must be a user, and the server is
/// the first one the bot knows.
pub fn run(options: &Vec<CommandOption>, first_guild: Option<u64>) -> (r: Result<JoinTarget, JoinError>)
    ensures
        match if options@.len() > 0 { Some(options@[0].value) } else { None } {
            Some(OptionValue::User(user)) => match first_guild {
                Some(guild) => r == Ok::<JoinTarget, JoinError>(JoinTarget { user, guild }),
                None => r == Err::<JoinTarget, JoinError>(JoinError::NoGuild),
            },
            _ => r == Err::<JoinTarget, JoinError>(JoinError::NoUserMentioned),
        },
{
    let user = if options.len() > 0 {
        match &options[0].value {
            OptionValue::User(id) => *id,
            _ => {
                return Err(JoinError::NoUserMentioned);
            },
        }
    } else {
        return Err(JoinError::NoUserMentioned);
    };
    match first_guild {
        Some(guild) => Ok(JoinTarget { user, guild }),
        None => Err(JoinError::NoGuild),
    }
}

/// The voice channel to join, given the target's voice state by its channel, which must
/// be known when the state is.
pub fn channel_to_join(voice_state: Option<Option<u64>>) -> (r: Result<u64, JoinError>)
    requires
        voice_state matches Some(c) ==> c is Some,
    ensures
        match voice_state {
            Some(c) => r == Ok::<u64, JoinError>(c->0),
            None => r == Err::<u64, JoinError>(JoinError::NotInVoice),
        },
{
    match voice_state {
        Some(c) => Ok(c.unwrap()),
        None => Err(JoinError::NotInVoice),
    }
}

/// The `/join` command as registered.
pub open spec fn join_command() -> CommandSpecView {
    CommandSpecView {
        name: "join"@,
        description: "join command"@,
        options: seq![
            OptionSpecView {
                kind: OptionKind::User,
                name: "user"@,
                description: "The user to join the voice channel"@,
                required: true,
                choices: seq![],
            },
        ],
    }
}

/// Declares `/join` with its one required user option.
pub fn register() -> (r: CommandSpec)
    ensures
        r@ == join_command(),
{
    let user = OptionSpec {
        kind: OptionKind::User,
        name: String::from_str("user"),
        description: String::from_str("The user to join the voice channel"),
        required: true,
        choices: Vec::new(),
    };
    let mut options: Vec<OptionSpec> = Vec::new();
    options.push(user);
    let r = CommandSpec {
        name: String::from_str("join"),
        description: String::from_str("join command"),
        options,
    };
    assert(r@.options[0].choices =~= Seq::<(Seq<char>, Seq<char>)>::empty());
    assert(r@.options =~= join_command().options);
    r
}

} // verus!
