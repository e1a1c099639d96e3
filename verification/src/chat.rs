use vstd::prelude::*;

verus! {

/// The inbound chat occurrences the command handler decides on.  The
/// connection loop that produces them is the driver's concern; only the
/// decisions live here.
pub enum ChatEvent {
    /// The connection to the chat service has been established.
    Hello,
    /// A standard channel message carrying this text arrived.
    MessageText { text: String },
    /// A message of a kind the handler does not act on.
    UnhandledMessage,
    /// The service confirmed delivery of a message this handler sent.
    MessageSent,
    /// Any other occurrence on the connection.
    Unhandled,
}

/// What the command handler asks the connection driver to do.
pub enum ChatAction {
    /// Post this text to the handler's channel.
    Reply { text: String },
    /// End the process: the farewell has been delivered.
    Exit,
    /// Nothing to do.
    Ignore,
}

/// The mathematical image of a `ChatAction`.
pub ghost enum ActionView {
    Reply { text: Seq<char> },
    Exit,
    Ignore,
}

impl View for ChatAction {
    type V = ActionView;

    open spec fn view(&self) -> ActionView {
        match self {
            ChatAction::Reply { text } => ActionView::Reply { text: text@ },
            ChatAction::Exit => ActionView::Exit,
            ChatAction::Ignore => ActionView::Ignore,
        }
    }
}

/// The one channel this handler converses in: every reply it asks for is
/// posted there.
pub open spec fn home_channel() -> Seq<char> {
    "#wurstminebot-test"@
}

/// The name of the channel every reply is posted to.
pub fn channel_name() -> (s: String)
    ensures
        s@ == home_channel(),
{
    "#wurstminebot-test".to_owned()
}

/// The message text that makes the handler acknowledge a test.
pub open spec fn test_command() -> Seq<char> {
    "!test"@
}

/// The message text that makes the handler say farewell and then end the
/// process once the farewell's delivery is confirmed.
pub open spec fn quit_command() -> Seq<char> {
    "!quit"@
}

/// Whether the handler will exit after `event` arrives in state `s`: once
/// set by the quit command, the intent is never withdrawn.
pub open spec fn next_will_exit(s: ChatState, event: ChatEvent) -> bool {
    s.will_exit || (event matches ChatEvent::MessageText { text } && text@ == quit_command())
}

/// The handler's response to `event` in state `s`: a greeting on
/// connection, an acknowledgement of the test command, a farewell on the
/// quit command, an exit once the farewell is confirmed delivered, and
/// nothing otherwise.
pub open spec fn response(s: ChatState, event: ChatEvent) -> ActionView {
    match event {
        ChatEvent::Hello => ActionView::Reply { text: "I'm back!"@ },
        ChatEvent::MessageText { text } => if text@ == test_command() {
            ActionView::Reply { text: "got test msg"@ }
        } else if text@ == quit_command() {
            ActionView::Reply { text: "bye"@ }
        } else {
            ActionView::Ignore
        },
        ChatEvent::MessageSent => if s.will_exit {
            ActionView::Exit
        } else {
            ActionView::Ignore
        },
        _ => ActionView::Ignore,
    }
}

/// The state of the chat command handler: whether a farewell has been sent
/// and the process should end once its delivery is confirmed.
pub struct ChatState {
    pub will_exit: bool,
}

impl ChatState {
    pub fn new() -> (s: ChatState)
        ensures
            !s.will_exit,
    {
        ChatState { will_exit: false }
    }

    /// Decides on one inbound chat occurrence: returns the reply to post,
    /// the order to exit, or nothing, and remembers whether an exit is due.
    pub fn handle_event(&mut self, event: &ChatEvent) -> (a: ChatAction)
        ensures
            final(self).will_exit == next_will_exit(*old(self), *event),
            a@ == response(*old(self), *event),
    {
        match event {
            ChatEvent::Hello => ChatAction::Reply { text: "I'm back!".to_owned() },
            ChatEvent::MessageText { text } => {
                proof {
                    reveal_strlit("!test");
                    reveal_strlit("!quit");
                    assert(test_command()[1] != quit_command()[1]);
                    assert(test_command() !== quit_command());
                }
                let test_word: String = "!test".to_owned();
                let quit_word: String = "!quit".to_owned();
                if *text == test_word {
                    ChatAction::Reply { text: "got test msg".to_owned() }
                } else if *text == quit_word {
                    self.will_exit = true;
                    ChatAction::Reply { text: "bye".to_owned() }
                } else {
                    ChatAction::Ignore
                }
            },
            ChatEvent::MessageSent => {
                if self.will_exit {
                    ChatAction::Exit
                } else {
                    ChatAction::Ignore
                }
            },
            ChatEvent::UnhandledMessage => ChatAction::Ignore,
            ChatEvent::Unhandled => ChatAction::Ignore,
        }
    }
}

impl Default for ChatState {
    /// A fresh handler has no exit pending.
    fn default() -> (s: ChatState)
        ensures
            !s.will_exit,
    {
        ChatState { will_exit: false }
    }
}

} // verus!
