use teamchat::chat_client::{handle_command, help_text, plan_input, CommandError, CommandPlan, InputPlan};
use teamchat::chat_types::PacketC2S;

fn err(message: &str) -> CommandError {
    CommandError(message.to_owned())
}

#[test]
fn quit_command() {
    assert_eq!(plan_input("/quit\n", false), Ok(InputPlan::Command(CommandPlan::Quit)));
    assert_eq!(handle_command("/quit now", true), Err(err("Usage: /quit")));
}

#[test]
fn join_needs_exactly_one_argument_and_a_connection() {
    assert_eq!(
        handle_command("/join general", true),
        Ok(CommandPlan::Send(PacketC2S::JoinChannel { name: "general".to_owned() }))
    );
    assert_eq!(handle_command("/join general", false), Err(err("Not connected.")));
    assert_eq!(handle_command("/join", true), Err(err("Usage: /join <channel>")));
    assert_eq!(handle_command("/join a b", true), Err(err("Usage: /join <channel>")));
    assert_eq!(handle_command("/join  a", true), Err(err("Usage: /join <channel>")));
}

#[test]
fn connect_command() {
    assert_eq!(
        handle_command("/connect localhost:5005", false),
        Ok(CommandPlan::Connect { host: "localhost:5005".to_owned() })
    );
    assert_eq!(handle_command("/connect localhost:5005", true), Err(err("Already connected to a server")));
    assert_eq!(handle_command("/connect", false), Err(err("Usage: /connect <host:port>")));
}

#[test]
fn commands_without_arguments() {
    assert_eq!(handle_command("/leave", true), Ok(CommandPlan::Send(PacketC2S::LeaveChannel)));
    assert_eq!(handle_command("/list", true), Ok(CommandPlan::Send(PacketC2S::ListChannels)));
    assert_eq!(handle_command("/stats", true), Ok(CommandPlan::Send(PacketC2S::ListStats)));
    assert_eq!(handle_command("/stats", false), Err(err("Not connected.")));
    assert_eq!(handle_command("/list x", true), Err(err("Usage: /list")));
    assert_eq!(handle_command("/leave x", false), Err(err("Usage: /leave")));
    assert_eq!(handle_command("/help", false), Ok(CommandPlan::ShowHelp));
    assert_eq!(handle_command("/help me", false), Err(err("Usage: /help")));
}

#[test]
fn nick_command() {
    assert_eq!(
        handle_command("/nick bob", true),
        Ok(CommandPlan::Send(PacketC2S::SetNick { nick: "bob".to_owned() }))
    );
    assert_eq!(handle_command("/nick", true), Err(err("Usage: /nick <nick>")));
}

#[test]
fn unknown_command() {
    assert_eq!(handle_command("/bogus", true), Err(err("Unknown command.")));
    assert_eq!(handle_command("/", true), Err(err("Unknown command.")));
}

#[test]
fn plain_lines_are_messages() {
    assert_eq!(
        plan_input("hello world  \r\n", true),
        Ok(InputPlan::Message(PacketC2S::NewMessage { text: "hello world".to_owned() }))
    );
    assert_eq!(plan_input("hello\n", false), Err(err("Not connected.")));
    assert_eq!(
        plan_input("\n", true),
        Ok(InputPlan::Message(PacketC2S::NewMessage { text: "".to_owned() }))
    );
    assert_eq!(
        plan_input(" /join a\n", true),
        Ok(InputPlan::Message(PacketC2S::NewMessage { text: " /join a".to_owned() }))
    );
}

#[test]
fn trailing_whitespace_is_dropped_before_commands() {
    assert_eq!(
        plan_input("/join room \t\n", true),
        Ok(InputPlan::Command(CommandPlan::Send(PacketC2S::JoinChannel { name: "room".to_owned() })))
    );
}

#[test]
fn help_lists_commands() {
    assert_eq!(
        help_text(),
        "List of commands:\n/connect <host:port>\n/help\n/join <channel>\n/leave\n/list\n/nick <nick>\n/stats\n/quit"
    );
}

#[test]
fn member_count_wording() {
    assert_eq!(teamchat::chat_client::member_suffix(1), "");
    assert_eq!(teamchat::chat_client::member_suffix(0), "s");
    assert_eq!(teamchat::chat_client::member_suffix(2), "s");
}
