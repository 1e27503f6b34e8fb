use vstd::prelude::*;

use crate::options::{CommandOption, CommandSpec, CommandSpecView};

verus! {

/// The answer to `/ping`.
pub open spec fn ping_text() -> Seq<char> {
    "Hey, I'm alive!"@
}

/// Answers `/ping`, whatever its options.
pub fn run(_options: &Vec<CommandOption>) -> (r: String)
    ensures
        r@ == ping_text(),
{
    String::from_str("Hey, I'm alive!")
}

/// The `/ping` command as registered.
pub open spec fn ping_command() -> CommandSpecView {
    CommandSpecView { name: "ping"@, description: "A ping command"@, options: seq![] }
}

/// Declares `/ping`, which takes no options.
pub fn register() -> (r: CommandSpec)
    ensures
        r@ == ping_command(),
{
    let r = CommandSpec {
        name: String::from_str("ping"),
        description: String::from_str("A ping command"),
        options: Vec::new(),
    };
    assert(r@.options =~= ping_command().options);
    r
}

} // verus!
