//! The finite set of interaction states, the messages that drive them, and
//! the keys that give rise to messages.

use vstd::prelude::*;

verus! {

/// The answer that is currently highlighted in the deletion dialog.
#[derive(Debug, Clone, Copy, PartialEq, Eq, Structural)]
pub enum ConfirmationState {
    Yes,
    No,
}

impl ConfirmationState {
    /// The other answer.
    pub open spec fn toggled(self) -> ConfirmationState {
        match self {
            ConfirmationState::Yes => ConfirmationState::No,
            ConfirmationState::No => ConfirmationState::Yes,
        }
    }

    /// Switches between `Yes` and `No`.
    pub fn toggle(&self) -> (r: ConfirmationState)
        ensures
            r == self.toggled(),
    {
        if *self == ConfirmationState::Yes {
            ConfirmationState::No
        } else {
            ConfirmationState::Yes
        }
    }
}

/// Whether the session goes on.
#[derive(Debug, Clone, Copy, PartialEq, Eq, Structural)]
pub enum RunningState {
    Running,
    Done,
}

/// The interaction states.
#[derive(Debug, Clone, Copy, PartialEq, Eq, Structural)]
pub enum Mode {
    ViewingBoard,
    ViewingCardDetail,
    MovingCard,
    ViewingBoards,
    ConfirmCardDeletion,
}

/// What the session can be asked to do.
#[derive(Debug, PartialEq, Eq)]
pub enum Message {
    NavigateLeft,
    NavigateDown,
    NavigateUp,
    NavigateRight,
    Quit,
    NewCard,
    MoveCardMode,
    MoveCardLeft,
    MoveCardRight,
    EditCard,
    ViewBoardMode,
    ViewCardDetailMode,
    SetError(Option<String>),
    ViewBoardsMode,
    EditBoard,
    NewBoard,
    DeleteCard,
    ConfirmChoice,
}

/// What the host has to do after a step.
#[derive(Debug, Clone, Copy, PartialEq, Eq, Structural)]
pub enum Action {
    /// Nothing.
    Nothing,
    /// Send `InternalEvent::ClearError` once this many seconds have passed.
    ClearErrorAfter(u64),
}

/// The seconds for which an error stays on display.
pub const ERROR_SECONDS: u64 = 10;

/// A key, as far as the session tells keys apart.
#[derive(Debug, Clone, Copy, PartialEq, Eq, Structural)]
pub enum Key {
    Char(char),
    Left,
    Right,
    Up,
    Down,
    Enter,
    Esc,
    Other,
}

/// A signal that the session sends to itself.
#[derive(Debug, Clone, Copy, PartialEq, Eq, Structural)]
pub enum InternalEvent {
    ClearError,
}

/// What reaches the session from outside.
#[derive(Debug, Clone, Copy, PartialEq, Eq, Structural)]
pub enum Event {
    KeyEvent(Key),
    InternalEvent(InternalEvent),
}

impl Mode {
    /// The messages that mean something in each state. `Quit` and `SetError`
    /// mean something in every state.
    pub open spec fn spec_accepts(&self, msg: &Message) -> bool {
        match *msg {
            Message::Quit => true,
            Message::SetError(_) => true,
            Message::ViewBoardMode => *self != Mode::ViewingBoard,
            Message::NavigateLeft => *self == Mode::ViewingBoard || *self
                == Mode::ConfirmCardDeletion,
            Message::NavigateRight => *self == Mode::ViewingBoard || *self
                == Mode::ConfirmCardDeletion,
            Message::NavigateDown => *self == Mode::ViewingBoard || *self == Mode::ViewingBoards,
            Message::NavigateUp => *self == Mode::ViewingBoard || *self == Mode::ViewingBoards,
            Message::NewCard => *self == Mode::ViewingBoard,
            Message::EditCard => *self == Mode::ViewingBoard,
            Message::MoveCardMode => *self == Mode::ViewingBoard,
            Message::ViewCardDetailMode => *self == Mode::ViewingBoard,
            Message::ViewBoardsMode => *self == Mode::ViewingBoard,
            Message::DeleteCard => *self == Mode::ViewingBoard,
            Message::MoveCardLeft => *self == Mode::MovingCard,
            Message::MoveCardRight => *self == Mode::MovingCard,
            Message::ConfirmChoice => *self == Mode::ConfirmCardDeletion,
            Message::EditBoard => *self == Mode::ViewingBoards,
            Message::NewBoard => *self == Mode::ViewingBoards,
        }
    }

    /// Whether `msg` means something in this state.
    #[verifier::when_used_as_spec(spec_accepts)]
    pub fn accepts(&self, msg: &Message) -> (r: bool)
        ensures
            r == self.spec_accepts(msg),
    {
        let board = matches!(*self, Mode::ViewingBoard);
        let boards = matches!(*self, Mode::ViewingBoards);
        let moving = matches!(*self, Mode::MovingCard);
        let confirm = matches!(*self, Mode::ConfirmCardDeletion);
        match msg {
            Message::Quit => true,
            Message::SetError(_) => true,
            Message::ViewBoardMode => !board,
            Message::NavigateLeft => board || confirm,
            Message::NavigateRight => board || confirm,
            Message::NavigateDown => board || boards,
            Message::NavigateUp => board || boards,
            Message::NewCard => board,
            Message::EditCard => board,
            Message::MoveCardMode => board,
            Message::ViewCardDetailMode => board,
            Message::ViewBoardsMode => board,
            Message::DeleteCard => board,
            Message::MoveCardLeft => moving,
            Message::MoveCardRight => moving,
            Message::ConfirmChoice => confirm,
            Message::EditBoard => boards,
            Message::NewBoard => boards,
        }
    }

    /// The words that name each state on the mode line.
    pub open spec fn spec_label(&self) -> Seq<char> {
        match *self {
            Mode::ViewingBoard => "VIEWING BOARD"@,
            Mode::ViewingCardDetail => "VIEWING CARD"@,
            Mode::MovingCard => "MOVING CARD"@,
            Mode::ConfirmCardDeletion => "DELETING CARD"@,
            Mode::ViewingBoards => "VIEWING BOARDS"@,
        }
    }

    /// The words that name this state on the mode line.
    pub fn label(&self) -> (text: &'static str)
        ensures
            text@ == self.spec_label(),
    {
        match self {
            Mode::ViewingBoard => "VIEWING BOARD",
            Mode::ViewingCardDetail => "VIEWING CARD",
            Mode::MovingCard => "MOVING CARD",
            Mode::ConfirmCardDeletion => "DELETING CARD",
            Mode::ViewingBoards => "VIEWING BOARDS",
        }
    }
}

/// The message that a key stands for in each state, if any.
pub open spec fn key_message(mode: Mode, key: Key) -> Option<Message> {
    match mode {
        Mode::ViewingBoard => match key {
            Key::Char('h') | Key::Left => Some(Message::NavigateLeft),
            Key::Char('j') | Key::Down => Some(Message::NavigateDown),
            Key::Char('k') | Key::Up => Some(Message::NavigateUp),
            Key::Char('l') | Key::Right => Some(Message::NavigateRight),
            Key::Char('q') => Some(Message::Quit),
            Key::Char('m') => Some(Message::MoveCardMode),
            Key::Char('n') => Some(Message::NewCard),
            Key::Char('e') => Some(Message::EditCard),
            Key::Char('d') => Some(Message::DeleteCard),
            Key::Char('b') => Some(Message::ViewBoardsMode),
            Key::Enter => Some(Message::ViewCardDetailMode),
            _ => None,
        },
        Mode::MovingCard => match key {
            Key::Char('h') | Key::Left => Some(Message::MoveCardLeft),
            Key::Char('l') | Key::Right => Some(Message::MoveCardRight),
            Key::Char('q') => Some(Message::Quit),
            Key::Char('m') | Key::Enter | Key::Esc => Some(Message::ViewBoardMode),
            _ => None,
        },
        Mode::ConfirmCardDeletion => match key {
            Key::Char('h') | Key::Left => Some(Message::NavigateLeft),
            Key::Char('l') | Key::Right => Some(Message::NavigateRight),
            Key::Enter => Some(Message::ConfirmChoice),
            _ => None,
        },
        Mode::ViewingCardDetail => match key {
            Key::Enter | Key::Esc => Some(Message::ViewBoardMode),
            Key::Char('q') => Some(Message::Quit),
            _ => None,
        },
        Mode::ViewingBoards => match key {
            Key::Char('j') | Key::Down => Some(Message::NavigateDown),
            Key::Char('k') | Key::Up => Some(Message::NavigateUp),
            Key::Char('n') => Some(Message::NewBoard),
            Key::Char('e') => Some(Message::EditBoard),
            Key::Char('q') => Some(Message::Quit),
            Key::Enter => Some(Message::ViewBoardMode),
            _ => None,
        },
    }
}

/// The message that an event stands for in each state, if any.
pub open spec fn event_message(mode: Mode, event: Event) -> Option<Message> {
    match event {
        Event::KeyEvent(key) => key_message(mode, key),
        Event::InternalEvent(InternalEvent::ClearError) => Some(Message::SetError(None)),
    }
}

} // verus!
