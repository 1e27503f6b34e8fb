use jotabot::commands::join::{channel_to_join, register, run, JoinError, JoinTarget};
use jotabot::options::{CommandOption, OptionKind, OptionValue};

#[test]
fn join_reads_user_and_server() {
    let opts = vec![CommandOption { name: "user".to_string(), value: OptionValue::User(42) }];
    assert_eq!(run(&opts, Some(7)), Ok(JoinTarget { user: 42, guild: 7 }));
    assert_eq!(run(&opts, None), Err(JoinError::NoGuild));
    let opts = vec![CommandOption { name: "user".to_string(), value: OptionValue::Text("x".to_string())}];
    assert_eq!(run(&opts, Some(7)), Err(JoinError::NoUserMentioned));
    assert_eq!(run(&vec![], None), Err(JoinError::NoUserMentioned));
}

#[test]
fn join_channel_and_messages() {
    assert_eq!(channel_to_join(Some(Some(300))), Ok(300));
    assert_eq!(channel_to_join(None), Err(JoinError::NotInVoice));
    assert_eq!(JoinError::NoUserMentioned.message(), "No user mentioned");
    assert_eq!(JoinError::NoGuild.message(), "No guilds found in cache");
    assert_eq!(JoinError::NotInVoice.message(), "User is not in a voice channel");
}

#[test]
fn join_registration() {
    let c = register();
    assert_eq!(c.name, "join");
    assert_eq!(c.description, "join command");
    assert_eq!(c.options.len(), 1);
    assert_eq!(c.options[0].kind, OptionKind::User);
    assert_eq!(c.options[0].name, "user");
    assert_eq!(c.options[0].description, "The user to join the voice channel");
    assert!(c.options[0].required);
    assert!(c.options[0].choices.is_empty());
}
