//! The messages that the parts of the server send one another.
use vstd::prelude::*;

verus! {

/// What a `Command` holds.
pub enum CommandView {
    Notify(Seq<char>),
    Seen(i32),
    Terminate,
}

/// A message between the parts of the server.
#[derive(Debug, PartialEq, Eq)]
pub enum Command {
    /// A text for the operator.
    Notify(String),
    /// The client with this id has just been heard of.
    Seen(i32),
    /// The receiver is to stop.
    Terminate,
}

impl View for Command {
    type V = CommandView;

    open spec fn view(&self) -> CommandView {
        match self {
            Command::Notify(text) => CommandView::Notify(text@),
            Command::Seen(id) => CommandView::Seen(*id),
            Command::Terminate => CommandView::Terminate,
        }
    }
}

impl Clone for Command {
    fn clone(&self) -> (c: Command)
        ensures
            c@ == self@,
    {
        match self {
            Command::Notify(text) => Command::Notify(text.clone()),
            Command::Seen(id) => Command::Seen(*id),
            Command::Terminate => Command::Terminate,
        }
    }
}

/// The part of the server that a command is meant for.
#[derive(Debug, Clone, Copy, PartialEq, Eq, Structural)]
pub enum Receiver {
    /// The notifier, which sends texts to the operator.
    Notifier,
    /// The watchdog, which keeps track of the clients believed online.
    Watchdog,
    /// Both of them.
    Both,
}

/// The part of the server that a command is meant for: a notification goes
/// to the notifier, a sign of life to the watchdog, `Terminate` to both.
pub open spec fn receiver_of(command: CommandView) -> Receiver {
    match command {
        CommandView::Notify(_) => Receiver::Notifier,
        CommandView::Seen(_) => Receiver::Watchdog,
        CommandView::Terminate => Receiver::Both,
    }
}

impl Command {
    /// The part of the server that this command is meant for.
    pub fn receiver(&self) -> (r: Receiver)
        ensures
            r == receiver_of(self@),
    {
        match self {
            Command::Notify(_) => Receiver::Notifier,
            Command::Seen(_) => Receiver::Watchdog,
            Command::Terminate => Receiver::Both,
        }
    }

    /// The command that carries `text` to the operator.
    pub fn new(text: String) -> (c: Command)
        ensures
            c@ == CommandView::Notify(text@),
    {
        Command::Notify(text)
    }
}

/// What an optional command holds.
pub open spec fn opt_command(c: Option<Command>) -> Option<CommandView> {
    match c {
        Some(c) => Some(c@),
        None => None,
    }
}

} // verus!
