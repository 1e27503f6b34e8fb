use vstd::prelude::*;

use crate::commands::{join, pic, ping};
use crate::options::{CommandOption, CommandSpec};
use crate::text::str_eq;

verus! {

/// The answer to a chat message, if it gets one: `teste` is echoed.
pub fn message_reply(content: &str) -> (r: Option<String>)
    ensures
        content@ == "teste"@ ==> (r matches Some(t) && t@ == "teste"@),
        content@ != "teste"@ ==> r is None,
{
    if str_eq(content, "teste") {
        Some(String::from_str("teste"))
    } else {
        None
    }
}

/// Where a slash command is handled.
#[derive(Clone, Copy, Debug, PartialEq, Eq, Structural)]
pub enum CommandRoute {
    Ping,
    Join,
    Foto,
    Unknown,
}

pub open spec fn route_of(name: Seq<char>) -> CommandRoute {
    if name == "ping"@ {
        CommandRoute::Ping
    } else if name == "join"@ {
        CommandRoute::Join
    } else if name == "foto"@ {
        CommandRoute::Foto
    } else {
        CommandRoute::Unknown
    }
}

/// The handler of the slash command called `name`.
pub fn route_command(name: &str) -> (r: CommandRoute)
    ensures
        r == route_of(name@),
{
    if str_eq(name, "ping") {
        CommandRoute::Ping
    } else if str_eq(name, "join") {
        CommandRoute::Join
    } else if str_eq(name, "foto") {
        CommandRoute::Foto
    } else {
        CommandRoute::Unknown
    }
}

/// The text of the answer to a slash command, given how its handler ended.
pub open spec fn reply_text(route: CommandRoute, outcome: Result<(), Seq<char>>) -> Seq<char> {
    match route {
        CommandRoute::Ping => ping::ping_text(),
        CommandRoute::Join => match outcome {
            Ok(_) => "Joined."@,
            Err(e) => "Error: "@ + e,
        },
        CommandRoute::Foto => match outcome {
            Ok(_) => "Changed."@,
            Err(e) => "Error: "@ + e,
        },
        CommandRoute::Unknown => "Not implemented :("@,
    }
}

/// The answer to a slash command: `ping` answers for itself from its options; `join` and
/// `foto` report how their handlers ended (`outcome`); any other command is not
/// implemented.
pub fn interaction_reply(route: CommandRoute, options: &Vec<CommandOption>, outcome: &Result<(), String>) -> (r: String)
    ensures
        r@ == reply_text(
            route,
            match outcome {
                Ok(_) => Ok(()),
                Err(e) => Err(e@),
            },
        ),
{
    match route {
        CommandRoute::Ping => ping::run(options),
        CommandRoute::Join | CommandRoute::Foto => match outcome {
            Ok(_) => {
                if route == CommandRoute::Join {
                    String::from_str("Joined.")
                } else {
                    String::from_str("Changed.")
                }
            },
            Err(e) => {
                let mut t = String::from_str("Error: ");
                t.append(e.as_str());
                t
            },
        },
        CommandRoute::Unknown => String::from_str("Not implemented :("),
    }
}

/// The commands the bot registers in each server when it comes online: `ping`, `join`
/// and `foto`, in that order.
pub fn ready_commands() -> (r: Vec<CommandSpec>)
    ensures
        r@.map_values(|c: CommandSpec| c@) == seq![ping::ping_command(), join::join_command(), pic::pic_command()],
{
    let mut r: Vec<CommandSpec> = Vec::new();
    r.push(ping::register());
    r.push(join::register());
    r.push(pic::register());
    assert(r@.map_values(|c: CommandSpec| c@) =~= seq![ping::ping_command(), join::join_command(), pic::pic_command()]);
    r
}

} // verus!
