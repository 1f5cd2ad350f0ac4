//! The screens of the chat window: what the user has typed into each, which
//! screen follows which, and what a button asks for.

use vstd::prelude::*;
use crate::platform::{is_whitespace, whitespace};
use crate::text::{chars_of, text_of};

verus! {

/// The screen that is shown, with what the user has typed into it.
#[derive(Debug)]
pub enum InputState {
    Welcome { username: String },
    MainMenu { username: String },
    CreateTopic { username: String, topic_name: String },
    JoinTopic { username: String, ticket: String },
    TopicCreated { username: String, topic_name: String, ticket: String },
    ChatRoom { username: String, message: String },
}

/// A screen as the contracts see it.
pub enum Screen {
    Welcome { username: Seq<char> },
    MainMenu { username: Seq<char> },
    CreateTopic { username: Seq<char>, topic_name: Seq<char> },
    JoinTopic { username: Seq<char>, ticket: Seq<char> },
    TopicCreated { username: Seq<char>, topic_name: Seq<char>, ticket: Seq<char> },
    ChatRoom { username: Seq<char>, message: Seq<char> },
}

impl View for InputState {
    type V = Screen;

    open spec fn view(&self) -> Screen {
        match *self {
            InputState::Welcome { username } => Screen::Welcome { username: username@ },
            InputState::MainMenu { username } => Screen::MainMenu { username: username@ },
            InputState::CreateTopic { username, topic_name } => Screen::CreateTopic {
                username: username@,
                topic_name: topic_name@,
            },
            InputState::JoinTopic { username, ticket } => Screen::JoinTopic {
                username: username@,
                ticket: ticket@,
            },
            InputState::TopicCreated { username, topic_name, ticket } => Screen::TopicCreated {
                username: username@,
                topic_name: topic_name@,
                ticket: ticket@,
            },
            InputState::ChatRoom { username, message } => Screen::ChatRoom {
                username: username@,
                message: message@,
            },
        }
    }
}

/// What happens to the window: the user types, presses a button that leads to
/// another screen, or a topic has been created or joined.
#[derive(Debug)]
pub enum InputEvent {
    UsernameChanged(String),
    TopicNameChanged(String),
    TicketChanged(String),
    MessageChanged(String),
    SubmitUsername,
    CreateTopicSelected,
    JoinTopicSelected,
    BackToMenu,
    EnterChatRoom,
    /// A topic has been created under this name, with this ticket to share.
    TopicCreated { topic_name: String, ticket: String },
    /// A topic has been joined.
    TopicJoined,
    /// The typed message has been sent.
    MessageSent,
}

/// A button that asks for something outside the screens.
#[derive(Clone, Copy, Debug, PartialEq, Eq, Structural)]
pub enum Button {
    SubmitCreateTopic,
    SubmitJoinTopic,
    SendMessage,
    CopyTicket,
}

/// What a button asks for.
#[derive(Debug)]
pub enum Request {
    CreateTopic { topic_name: String },
    JoinTopic { ticket: String },
    SendMessage { username: String, content: String },
    CopyTicket { ticket: String },
}

/// A request as the contracts see it.
pub enum Asked {
    CreateTopic { topic_name: Seq<char> },
    JoinTopic { ticket: Seq<char> },
    SendMessage { username: Seq<char>, content: Seq<char> },
    CopyTicket { ticket: Seq<char> },
}

impl View for Request {
    type V = Asked;

    open spec fn view(&self) -> Asked {
        match *self {
            Request::CreateTopic { topic_name } => Asked::CreateTopic { topic_name: topic_name@ },
            Request::JoinTopic { ticket } => Asked::JoinTopic { ticket: ticket@ },
            Request::SendMessage { username, content } => Asked::SendMessage {
                username: username@,
                content: content@,
            },
            Request::CopyTicket { ticket } => Asked::CopyTicket { ticket: ticket@ },
        }
    }
}

/// A text of white space only, the empty text among them: what is left of it
/// after trimming is empty.
pub open spec fn blank(text: Seq<char>) -> bool {
    forall|i: int| 0 <= i < text.len() ==> whitespace(#[trigger] text[i])
}

/// The name the user has given, which every screen carries.
pub open spec fn username_of(screen: Screen) -> Seq<char> {
    match screen {
        Screen::Welcome { username } => username,
        Screen::MainMenu { username } => username,
        Screen::CreateTopic { username, .. } => username,
        Screen::JoinTopic { username, .. } => username,
        Screen::TopicCreated { username, .. } => username,
        Screen::ChatRoom { username, .. } => username,
    }
}

/// `screen` with another name for the user.
pub open spec fn renamed(screen: Screen, username: Seq<char>) -> Screen {
    match screen {
        Screen::Welcome { .. } => Screen::Welcome { username },
        Screen::MainMenu { .. } => Screen::MainMenu { username },
        Screen::CreateTopic { topic_name, .. } => Screen::CreateTopic { username, topic_name },
        Screen::JoinTopic { ticket, .. } => Screen::JoinTopic { username, ticket },
        Screen::TopicCreated { topic_name, ticket, .. } => Screen::TopicCreated {
            username,
            topic_name,
            ticket,
        },
        Screen::ChatRoom { message, .. } => Screen::ChatRoom { username, message },
    }
}

/// The screen that follows `screen` when `event` happens. An event that has
/// no meaning on a screen leaves it as it is.
pub open spec fn applied(screen: Screen, event: InputEvent) -> Screen {
    let username = username_of(screen);
    match event {
        InputEvent::UsernameChanged(name) => renamed(screen, name@),
        InputEvent::TopicNameChanged(text) => match screen {
            Screen::CreateTopic { .. } => Screen::CreateTopic { username, topic_name: text@ },
            _ => screen,
        },
        InputEvent::TicketChanged(text) => match screen {
            Screen::JoinTopic { .. } => Screen::JoinTopic { username, ticket: text@ },
            _ => screen,
        },
        InputEvent::MessageChanged(text) => match screen {
            Screen::ChatRoom { .. } => Screen::ChatRoom { username, message: text@ },
            _ => screen,
        },
        InputEvent::SubmitUsername => match screen {
            Screen::Welcome { .. } => if blank(username) {
                screen
            } else {
                Screen::MainMenu { username }
            },
            _ => screen,
        },
        InputEvent::CreateTopicSelected => match screen {
            Screen::MainMenu { .. } => Screen::CreateTopic { username, topic_name: Seq::empty() },
            _ => screen,
        },
        InputEvent::JoinTopicSelected => match screen {
            Screen::MainMenu { .. } => Screen::JoinTopic { username, ticket: Seq::empty() },
            _ => screen,
        },
        InputEvent::BackToMenu => Screen::MainMenu { username },
        InputEvent::EnterChatRoom => match screen {
            Screen::TopicCreated { .. } => Screen::ChatRoom { username, message: Seq::empty() },
            _ => screen,
        },
        InputEvent::TopicCreated { topic_name, ticket } => Screen::TopicCreated {
            username,
            topic_name: topic_name@,
            ticket: ticket@,
        },
        InputEvent::TopicJoined => Screen::ChatRoom { username, message: Seq::empty() },
        InputEvent::MessageSent => match screen {
            Screen::ChatRoom { .. } => Screen::ChatRoom { username, message: Seq::empty() },
            _ => screen,
        },
    }
}

/// What `button` asks for on `screen`: something only where the button
/// belongs to the screen and, for a text to submit, the text is not blank.
pub open spec fn asked(screen: Screen, button: Button) -> Option<Asked> {
    match (button, screen) {
        (Button::SubmitCreateTopic, Screen::CreateTopic { topic_name, .. }) => if blank(topic_name) {
            None
        } else {
            Some(Asked::CreateTopic { topic_name })
        },
        (Button::SubmitJoinTopic, Screen::JoinTopic { ticket, .. }) => if blank(ticket) {
            None
        } else {
            Some(Asked::JoinTopic { ticket })
        },
        (Button::SendMessage, Screen::ChatRoom { username, message }) => if blank(message) {
            None
        } else {
            Some(Asked::SendMessage { username, content: message })
        },
        (Button::CopyTicket, Screen::TopicCreated { ticket, .. }) => Some(
            Asked::CopyTicket { ticket },
        ),
        _ => None,
    }
}

/// The title of the window: it names the topic the user is in.
pub open spec fn titled(current_topic: Option<Seq<char>>) -> Seq<char> {
    match current_topic {
        Some(topic) => "Chat - "@ + topic,
        None => "Chat Application"@,
    }
}

/// Only a change of the name changes the name: every other event leaves the
/// user's name as it was, on whatever screen.
pub proof fn lemma_username_kept(screen: Screen, event: InputEvent)
    requires
        !(event is UsernameChanged),
    ensures
        username_of(applied(screen, event)) == username_of(screen),
{
}

/// The chat room is entered from the screen that shows the new topic's ticket,
/// or when a topic has been joined, and by no other way.
pub proof fn lemma_chat_room_entered(screen: Screen, event: InputEvent)
    requires
        !(screen is ChatRoom),
        applied(screen, event) is ChatRoom,
    ensures
        (event is EnterChatRoom && screen is TopicCreated) || event is TopicJoined,
{
}

/// From every screen the menu is one step away.
pub proof fn lemma_back_to_menu(screen: Screen)
    ensures
        applied(screen, InputEvent::BackToMenu) == (Screen::MainMenu { username: username_of(screen) }),
{
}

/// A button asks for nothing while its text is blank, and whatever it asks
/// for carries the text as typed.
pub proof fn lemma_asked_is_typed(screen: Screen, button: Button)
    ensures
        match asked(screen, button) {
            Some(Asked::CreateTopic { topic_name }) => screen matches Screen::CreateTopic {
                topic_name: typed,
                ..
            } && typed == topic_name && !blank(topic_name),
            Some(Asked::JoinTopic { ticket }) => screen matches Screen::JoinTopic {
                ticket: typed,
                ..
            } && typed == ticket && !blank(ticket),
            Some(Asked::SendMessage { username, content }) => screen matches Screen::ChatRoom {
                username: name,
                message: typed,
            } && name == username && typed == content && !blank(content),
            Some(Asked::CopyTicket { ticket }) => screen matches Screen::TopicCreated {
                ticket: shown,
                ..
            } && shown == ticket,
            None => true,
        },
{
}

/// Whether `text` is blank.
pub fn is_blank(text: &str) -> (empty: bool)
    ensures
        empty == blank(text@),
{
    let chars = chars_of(text);
    let mut i: usize = 0;
    while i < chars.len()
        invariant
            i <= chars.len(),
            chars@ == text@,
            forall|j: int| 0 <= j < i ==> whitespace(#[trigger] chars@[j]),
        decreases chars.len() - i,
    {
        if !is_whitespace(chars[i]) {
            return false;
        }
        i = i + 1;
    }
    true
}

/// The title of the window.
pub fn title(current_topic: &Option<String>) -> (text: String)
    ensures
        text@ == titled(text_of(*current_topic)),
{
    match current_topic {
        Some(topic) => String::from_str("Chat - ").concat(topic.as_str()),
        None => String::from_str("Chat Application"),
    }
}

impl Clone for InputState {
    fn clone(&self) -> (copy: Self)
        ensures
            copy@ == self@,
    {
        match self {
            InputState::Welcome { username } => InputState::Welcome { username: username.clone() },
            InputState::MainMenu { username } => InputState::MainMenu { username: username.clone() },
            InputState::CreateTopic { username, topic_name } => InputState::CreateTopic {
                username: username.clone(),
                topic_name: topic_name.clone(),
            },
            InputState::JoinTopic { username, ticket } => InputState::JoinTopic {
                username: username.clone(),
                ticket: ticket.clone(),
            },
            InputState::TopicCreated { username, topic_name, ticket } => InputState::TopicCreated {
                username: username.clone(),
                topic_name: topic_name.clone(),
                ticket: ticket.clone(),
            },
            InputState::ChatRoom { username, message } => InputState::ChatRoom {
                username: username.clone(),
                message: message.clone(),
            },
        }
    }
}

impl InputState {
    /// The screen the window starts with: nothing typed yet.
    pub fn new() -> (screen: InputState)
        ensures
            screen@ == (Screen::Welcome { username: Seq::empty() }),
    {
        InputState::Welcome { username: String::new() }
    }

    /// The name the user has given.
    pub fn get_username(&self) -> (username: &String)
        ensures
            username@ == username_of(self@),
    {
        match self {
            InputState::Welcome { username } => username,
            InputState::MainMenu { username } => username,
            InputState::CreateTopic { username, .. } => username,
            InputState::JoinTopic { username, .. } => username,
            InputState::TopicCreated { username, .. } => username,
            InputState::ChatRoom { username, .. } => username,
        }
    }

    /// The same screen under another name for the user.
    fn rename(self, name: String) -> (screen: InputState)
        ensures
            screen@ == renamed(self@, name@),
    {
        match self {
            InputState::Welcome { .. } => InputState::Welcome { username: name },
            InputState::MainMenu { .. } => InputState::MainMenu { username: name },
            InputState::CreateTopic { topic_name, .. } => InputState::CreateTopic {
                username: name,
                topic_name,
            },
            InputState::JoinTopic { ticket, .. } => InputState::JoinTopic { username: name, ticket },
            InputState::TopicCreated { topic_name, ticket, .. } => InputState::TopicCreated {
                username: name,
                topic_name,
                ticket,
            },
            InputState::ChatRoom { message, .. } => InputState::ChatRoom { username: name, message },
        }
    }

    /// The name the user has given, taken out of the screen.
    fn into_username(self) -> (username: String)
        ensures
            username@ == username_of(self@),
    {
        match self {
            InputState::Welcome { username } => username,
            InputState::MainMenu { username } => username,
            InputState::CreateTopic { username, .. } => username,
            InputState::JoinTopic { username, .. } => username,
            InputState::TopicCreated { username, .. } => username,
            InputState::ChatRoom { username, .. } => username,
        }
    }

    /// The screen that follows this one when `event` happens.
    pub fn apply(self, event: InputEvent) -> (screen: InputState)
        ensures
            screen@ == applied(self@, event),
    {
        match event {
            InputEvent::UsernameChanged(name) => self.rename(name),
            InputEvent::TopicNameChanged(text) => match self {
                InputState::CreateTopic { username, .. } => InputState::CreateTopic {
                    username,
                    topic_name: text,
                },
                other => other,
            },
            InputEvent::TicketChanged(text) => match self {
                InputState::JoinTopic { username, .. } => InputState::JoinTopic {
                    username,
                    ticket: text,
                },
                other => other,
            },
            InputEvent::MessageChanged(text) => match self {
                InputState::ChatRoom { username, .. } => InputState::ChatRoom {
                    username,
                    message: text,
                },
                other => other,
            },
            InputEvent::SubmitUsername => match self {
                InputState::Welcome { username } => if is_blank(username.as_str()) {
                    InputState::Welcome { username }
                } else {
                    InputState::MainMenu { username }
                },
                other => other,
            },
            InputEvent::CreateTopicSelected => match self {
                InputState::MainMenu { username } => InputState::CreateTopic {
                    username,
                    topic_name: String::new(),
                },
                other => other,
            },
            InputEvent::JoinTopicSelected => match self {
                InputState::MainMenu { username } => InputState::JoinTopic {
                    username,
                    ticket: String::new(),
                },
                other => other,
            },
            InputEvent::BackToMenu => InputState::MainMenu { username: self.into_username() },
            InputEvent::EnterChatRoom => match self {
                InputState::TopicCreated { username, .. } => InputState::ChatRoom {
                    username,
                    message: String::new(),
                },
                other => other,
            },
            InputEvent::TopicCreated { topic_name, ticket } => InputState::TopicCreated {
                username: self.into_username(),
                topic_name,
                ticket,
            },
            InputEvent::TopicJoined => InputState::ChatRoom {
                username: self.into_username(),
                message: String::new(),
            },
            InputEvent::MessageSent => match self {
                InputState::ChatRoom { username, .. } => InputState::ChatRoom {
                    username,
                    message: String::new(),
                },
                other => other,
            },
        }
    }

    /// What `button` asks for on this screen, if anything.
    pub fn request(&self, button: Button) -> (request: Option<Request>)
        ensures
            match request {
                Some(wanted) => asked(self@, button) == Some(wanted@),
                None => asked(self@, button) is None,
            },
    {
        match (button, self) {
            (Button::SubmitCreateTopic, InputState::CreateTopic { topic_name, .. }) => {
                if is_blank(topic_name.as_str()) {
                    None
                } else {
                    Some(Request::CreateTopic { topic_name: topic_name.clone() })
                }
            },
            (Button::SubmitJoinTopic, InputState::JoinTopic { ticket, .. }) => {
                if is_blank(ticket.as_str()) {
                    None
                } else {
                    Some(Request::JoinTopic { ticket: ticket.clone() })
                }
            },
            (Button::SendMessage, InputState::ChatRoom { username, message }) => {
                if is_blank(message.as_str()) {
                    None
                } else {
                    Some(
                        Request::SendMessage {
                            username: username.clone(),
                            content: message.clone(),
                        },
                    )
                }
            },
            (Button::CopyTicket, InputState::TopicCreated { ticket, .. }) => Some(
                Request::CopyTicket { ticket: ticket.clone() },
            ),
            _ => None,
        }
    }
}

} // verus!
