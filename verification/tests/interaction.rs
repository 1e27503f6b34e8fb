use jotabot::commands::ping;
use jotabot::interaction::{interaction_reply, message_reply, ready_commands, route_command, CommandRoute};
use jotabot::options::CommandOption;

#[test]
fn chat_echo() {
    assert_eq!(message_reply("teste"), Some("teste".to_string()));
    assert_eq!(message_reply("teste "), None);
    assert_eq!(message_reply(""), None);
}

#[test]
fn routes_and_replies() {
    let none: Vec<CommandOption> = Vec::new();
    assert_eq!(route_command("ping"), CommandRoute::Ping);
    assert_eq!(route_command("join"), CommandRoute::Join);
    assert_eq!(route_command("foto"), CommandRoute::Foto);
    assert_eq!(route_command("voice"), CommandRoute::Unknown);
    assert_eq!(route_command("servidor"), CommandRoute::Unknown);
    assert_eq!(interaction_reply(CommandRoute::Join, &none, &Ok(())), "Joined.");
    assert_eq!(interaction_reply(CommandRoute::Join, &none, &Err("No user mentioned".to_string())), "Error: No user mentioned");
    assert_eq!(interaction_reply(CommandRoute::Foto, &none, &Ok(())), "Changed.");
    assert_eq!(interaction_reply(CommandRoute::Foto, &none, &Err("No avatar".to_string())), "Error: No avatar");
    assert_eq!(interaction_reply(CommandRoute::Unknown, &none, &Ok(())), "Not implemented :(");
    assert_eq!(interaction_reply(CommandRoute::Ping, &none, &Ok(())), "Hey, I'm alive!");
}

#[test]
fn commands_registered_on_ready() {
    let names: Vec<String> = ready_commands().into_iter().map(|c| c.name).collect();
    assert_eq!(names, ["ping", "join", "foto"]);
}

#[test]
fn ping_answers_and_registers() {
    assert_eq!(ping::run(&Vec::new()), "Hey, I'm alive!");
    let spec = ping::register();
    assert_eq!(spec.name, "ping");
    assert_eq!(spec.description, "A ping command");
    assert!(spec.options.is_empty());
}
