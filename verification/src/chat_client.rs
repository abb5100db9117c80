//! What the chat client makes of a line typed by its user.
use vstd::prelude::*;
use crate::chat_types::{PacketC2S, PacketC2SView};
use crate::text::{chars_of, lemma_split_nonempty, split_on_space, split_words, strings_view, trim_end, trimmed_len};

verus! {

/// An error in command syntax, to be reported to the user.
#[derive(Debug, PartialEq)]
pub struct CommandError(pub String);

/// What a slash-command asks the client to do.
#[derive(Debug, PartialEq)]
pub enum CommandPlan {
    /// Connect to the server at `host`.
    Connect { host: String },
    /// Print the list of commands.
    ShowHelp,
    /// Send this packet to the server.
    Send(PacketC2S),
    /// Stop the client.
    Quit,
}

/// What a typed line asks the client to do.
#[derive(Debug, PartialEq)]
pub enum InputPlan {
    /// A slash-command.
    Command(CommandPlan),
    /// A plain message, to be sent to the server.
    Message(PacketC2S),
}

/// The outcome of a command, as plain values.
pub enum CommandOutcome {
    Connect(Seq<char>),
    ShowHelp,
    Send(PacketC2SView),
    Quit,
    Fail(Seq<char>),
}

pub open spec fn plan_outcome(r: Result<CommandPlan, CommandError>) -> CommandOutcome {
    match r {
        Ok(CommandPlan::Connect { host }) => CommandOutcome::Connect(host@),
        Ok(CommandPlan::ShowHelp) => CommandOutcome::ShowHelp,
        Ok(CommandPlan::Send(p)) => CommandOutcome::Send(p@),
        Ok(CommandPlan::Quit) => CommandOutcome::Quit,
        Err(e) => CommandOutcome::Fail(e.0@),
    }
}

/// A command that takes one argument: its usage message when the word count is
/// wrong, "Not connected." without a connection, else the packet made from the argument.
pub open spec fn one_arg_outcome(
    words: Seq<Seq<char>>,
    connected: bool,
    usage: Seq<char>,
    packet: PacketC2SView,
) -> CommandOutcome {
    if words.len() != 2 {
        CommandOutcome::Fail(usage)
    } else if !connected {
        CommandOutcome::Fail("Not connected."@)
    } else {
        CommandOutcome::Send(packet)
    }
}

/// A command that takes no argument and sends `packet`.
pub open spec fn no_arg_outcome(
    words: Seq<Seq<char>>,
    connected: bool,
    usage: Seq<char>,
    packet: PacketC2SView,
) -> CommandOutcome {
    if words.len() != 1 {
        CommandOutcome::Fail(usage)
    } else if !connected {
        CommandOutcome::Fail("Not connected."@)
    } else {
        CommandOutcome::Send(packet)
    }
}

/// The outcome of the slash-command `line` (which starts with '/'): the rest of
/// the line, split at spaces, gives the command's name and its arguments.
pub open spec fn command_outcome(line: Seq<char>, connected: bool) -> CommandOutcome {
    let words = split_on_space(line.drop_first());
    let name = words[0];
    if name == "connect"@ {
        if words.len() != 2 {
            CommandOutcome::Fail("Usage: /connect <host:port>"@)
        } else if connected {
            CommandOutcome::Fail("Already connected to a server"@)
        } else {
            CommandOutcome::Connect(words[1])
        }
    } else if name == "help"@ {
        if words.len() != 1 {
            CommandOutcome::Fail("Usage: /help"@)
        } else {
            CommandOutcome::ShowHelp
        }
    } else if name == "join"@ {
        one_arg_outcome(
            words,
            connected,
            "Usage: /join <channel>"@,
            PacketC2SView::JoinChannel { name: words[1] },
        )
    } else if name == "leave"@ {
        no_arg_outcome(words, connected, "Usage: /leave"@, PacketC2SView::LeaveChannel)
    } else if name == "list"@ {
        no_arg_outcome(words, connected, "Usage: /list"@, PacketC2SView::ListChannels)
    } else if name == "nick"@ {
        one_arg_outcome(
            words,
            connected,
            "Usage: /nick <nick>"@,
            PacketC2SView::SetNick { nick: words[1] },
        )
    } else if name == "quit"@ {
        if words.len() != 1 {
            CommandOutcome::Fail("Usage: /quit"@)
        } else {
            CommandOutcome::Quit
        }
    } else if name == "stats"@ {
        no_arg_outcome(words, connected, "Usage: /stats"@, PacketC2SView::ListStats)
    } else {
        CommandOutcome::Fail("Unknown command."@)
    }
}

/// "/quit" with no argument asks the client to quit, whether or not it is connected.
pub proof fn law_quit_needs_no_connection(line: Seq<char>, connected: bool)
    requires
        split_on_space(line.drop_first()) == seq!["quit"@],
    ensures
        command_outcome(line, connected) == CommandOutcome::Quit,
{
    reveal_strlit("quit");
    reveal_strlit("connect");
    reveal_strlit("help");
    reveal_strlit("join");
    reveal_strlit("leave");
    reveal_strlit("list");
    reveal_strlit("nick");
    let q = "quit"@;
    assert(q[0] == 'q');
    assert(q.len() != "connect"@.len());
    assert(q.len() != "leave"@.len());
    assert("help"@[0] == 'h');
    assert("join"@[0] == 'j');
    assert("list"@[0] == 'l');
    assert("nick"@[0] == 'n');
}

/// Commands that do not talk to the server ("/help", "/quit" and unknown ones)
/// give the same outcome whether or not the client is connected.
pub proof fn law_local_commands_ignore_connection(line: Seq<char>)
    requires
        ({
            let name = split_on_space(line.drop_first())[0];
            &&& name != "connect"@
            &&& name != "join"@
            &&& name != "leave"@
            &&& name != "list"@
            &&& name != "nick"@
            &&& name != "stats"@
        }),
    ensures
        command_outcome(line, true) == command_outcome(line, false),
{
}

/// Whether the word `w` is the string `lit`.
fn is_word(w: &String, lit: &str) -> (res: bool)
    ensures
        res == (w@ == lit@),
{
    *w == lit.to_owned()
}

fn fail(message: &str) -> (res: Result<CommandPlan, CommandError>)
    ensures
        plan_outcome(res) == CommandOutcome::Fail(message@),
{
    Err(CommandError(message.to_owned()))
}

/// The outcome of a command with one argument.
fn one_arg(
    words: &Vec<String>,
    connected: bool,
    usage: &str,
    is_join: bool,
) -> (res: Result<CommandPlan, CommandError>)
    requires
        words@.len() >= 1,
    ensures
        plan_outcome(res) == one_arg_outcome(
            strings_view(words@),
            connected,
            usage@,
            if is_join {
                PacketC2SView::JoinChannel { name: strings_view(words@)[1] }
            } else {
                PacketC2SView::SetNick { nick: strings_view(words@)[1] }
            },
        ),
{
    if words.len() != 2 {
        fail(usage)
    } else if !connected {
        fail("Not connected.")
    } else {
        let arg = words[1].clone();
        if is_join {
            Ok(CommandPlan::Send(PacketC2S::JoinChannel { name: arg }))
        } else {
            Ok(CommandPlan::Send(PacketC2S::SetNick { nick: arg }))
        }
    }
}

/// The outcome of a command without argument that sends `packet`.
fn no_arg(words: &Vec<String>, connected: bool, usage: &str, packet: PacketC2S) -> (res: Result<
    CommandPlan,
    CommandError,
>)
    requires
        words@.len() >= 1,
    ensures
        plan_outcome(res) == no_arg_outcome(strings_view(words@), connected, usage@, packet@),
{
    if words.len() != 1 {
        fail(usage)
    } else if !connected {
        fail("Not connected.")
    } else {
        Ok(CommandPlan::Send(packet))
    }
}

/// Handles a slash-command: says what to do, or which error to report.
pub fn handle_command(line: &str, connected: bool) -> (res: Result<CommandPlan, CommandError>)
    requires
        line@.len() > 0,
        line@[0] == '/',
    ensures
        plan_outcome(res) == command_outcome(line@, connected),
        split_on_space(line@.drop_first()) == seq!["quit"@] ==> res == Ok::<
            CommandPlan,
            CommandError,
        >(CommandPlan::Quit),
{
    proof {
        if split_on_space(line@.drop_first()) == seq!["quit"@] {
            law_quit_needs_no_connection(line@, connected);
        }
    }
    let chars = chars_of(line);
    let words = split_words(&chars, 1, chars.len());
    proof {
        assert(chars@.subrange(1, chars@.len() as int) =~= line@.drop_first());
        lemma_split_nonempty(line@.drop_first());
    }
    let ghost ws = strings_view(words@);
    assert(ws[0] == words@[0]@);
    let name = &words[0];
    if is_word(name, "connect") {
        if words.len() != 2 {
            fail("Usage: /connect <host:port>")
        } else if connected {
            fail("Already connected to a server")
        } else {
            Ok(CommandPlan::Connect { host: words[1].clone() })
        }
    } else if is_word(name, "help") {
        if words.len() != 1 {
            fail("Usage: /help")
        } else {
            Ok(CommandPlan::ShowHelp)
        }
    } else if is_word(name, "join") {
        one_arg(&words, connected, "Usage: /join <channel>", true)
    } else if is_word(name, "leave") {
        no_arg(&words, connected, "Usage: /leave", PacketC2S::LeaveChannel)
    } else if is_word(name, "list") {
        no_arg(&words, connected, "Usage: /list", PacketC2S::ListChannels)
    } else if is_word(name, "nick") {
        one_arg(&words, connected, "Usage: /nick <nick>", false)
    } else if is_word(name, "quit") {
        if words.len() != 1 {
            fail("Usage: /quit")
        } else {
            Ok(CommandPlan::Quit)
        }
    } else if is_word(name, "stats") {
        no_arg(&words, connected, "Usage: /stats", PacketC2S::ListStats)
    } else {
        fail("Unknown command.")
    }
}


/// The ending of "member" in a line of the channel list: none for exactly one
/// member, "s" otherwise.
pub fn member_suffix(member_count: u32) -> (res: &'static str)
    ensures
        res@ == (if member_count == 1 {
            ""@
        } else {
            "s"@
        }),
{
    if member_count == 1 {
        ""
    } else {
        "s"
    }
}

/// The list of commands that "/help" prints.
pub fn help_text() -> (res: String)
    ensures
        res@ == "List of commands:\n/connect <host:port>\n/help\n/join <channel>\n/leave\n/list\n/nick <nick>\n/stats\n/quit"@,
{
    "List of commands:\n/connect <host:port>\n/help\n/join <channel>\n/leave\n/list\n/nick <nick>\n/stats\n/quit".to_owned()
}

/// What a line typed by the user asks for: its trailing whitespace is dropped; a
/// line starting with '/' is a command, any other line a message to the current
/// channel, which needs a connection.
pub fn plan_input(line: &str, connected: bool) -> (res: Result<InputPlan, CommandError>)
    ensures
        ({
            let t = trim_end(line@);
            if t.len() > 0 && t[0] == '/' {
                match res {
                    Ok(InputPlan::Command(p)) => plan_outcome(Ok(p)) == command_outcome(t, connected),
                    Ok(InputPlan::Message(_)) => false,
                    Err(e) => plan_outcome(Err(e)) == command_outcome(t, connected),
                }
            } else if connected {
                res matches Ok(InputPlan::Message(p)) && p@ == (PacketC2SView::NewMessage { text: t })
            } else {
                res matches Err(e) && e.0@ == "Not connected."@
            }
        }),
{
    let chars = chars_of(line);
    let n = trimmed_len(&chars);
    let trimmed = line.substring_char(0, n);
    if n > 0 && chars[0] == '/' {
        match handle_command(trimmed, connected) {
            Ok(plan) => Ok(InputPlan::Command(plan)),
            Err(e) => Err(e),
        }
    } else if connected {
        Ok(InputPlan::Message(PacketC2S::NewMessage { text: trimmed.to_owned() }))
    } else {
        Err(CommandError("Not connected.".to_owned()))
    }
}

} // verus!
