//! The keyboard navigation of the terminal front end: which message a key
//! press produces in each widget, and how a message changes the screen state.
use vstd::prelude::*;

verus! {

/// The number of tabs in the top menu.
pub const TAB_COUNT: usize = 2;

/// The stage the front end is in.
#[derive(Debug, Clone, Copy, PartialEq, Eq, Structural)]
pub enum AppState {
    AskMasterPassword,
    NoConfigFound,
    CreateNewVault,
    OpenExistingVault,
    Exit,
}

/// The widget that receives key presses.
#[derive(Debug, Clone, Copy, PartialEq, Eq, Structural)]
pub enum FocusedWidget {
    Top,
    CenterLeft,
    CenterRight,
}

/// A change the front end is asked to make.
#[derive(Debug)]
pub enum Message {
    NextTab,
    PreviousTab,
    SetFocusedWidget(FocusedWidget),
    UpdateState(AppState),
    EnterDir(String),
    Quit,
}

/// The keys the front end reacts to; every other key is `Other`.
#[derive(Debug, Clone, Copy, PartialEq, Eq, Structural)]
pub enum Key {
    Char(char),
    Left,
    Right,
    Up,
    Down,
    Enter,
    Other,
}

/// A key press: the key, and whether Control was held.
#[derive(Debug, Clone, Copy, PartialEq, Eq, Structural)]
pub struct KeyPress {
    pub code: Key,
    pub control: bool,
}

/// The state of the top menu: the selected tab.
#[derive(Debug)]
pub struct TopWidgetState {
    pub selected_tab: usize,
}

impl TopWidgetState {
    /// The first tab selected.
    pub fn new() -> (r: TopWidgetState)
        ensures
            r.selected_tab == 0,
    {
        TopWidgetState { selected_tab: 0 }
    }
}

/// The message the top menu makes of a key press: Left and Right move
/// between tabs, Control-Down moves the focus to the left panel.
pub open spec fn top_message(key: KeyPress) -> Option<Message> {
    match key.code {
        Key::Right => Some(Message::NextTab),
        Key::Left => Some(Message::PreviousTab),
        Key::Down if key.control => Some(Message::SetFocusedWidget(FocusedWidget::CenterLeft)),
        _ => None,
    }
}

/// The message the left panel makes of a key press in stage `state`:
/// Control-Right and Control-Up move the focus to the right panel and the top
/// menu; when no configuration was found, Enter starts creating a vault and
/// Up moves the focus to the top menu.
pub open spec fn center_left_message(key: KeyPress, state: AppState) -> Option<Message> {
    if key.code == Key::Right && key.control {
        Some(Message::SetFocusedWidget(FocusedWidget::CenterRight))
    } else if key.code == Key::Up && (key.control || state == AppState::NoConfigFound) {
        Some(Message::SetFocusedWidget(FocusedWidget::Top))
    } else if key.code == Key::Enter && state == AppState::NoConfigFound {
        Some(Message::UpdateState(AppState::CreateNewVault))
    } else {
        None
    }
}

/// The message the focused widget makes of a key press; the right panel
/// makes none.
pub open spec fn focused_message(widget: FocusedWidget, key: KeyPress, state: AppState) -> Option<
    Message,
> {
    match widget {
        FocusedWidget::Top => top_message(key),
        FocusedWidget::CenterLeft => center_left_message(key, state),
        FocusedWidget::CenterRight => None,
    }
}

/// The top menu.
#[derive(Debug)]
pub struct TopWidget;

impl TopWidget {
    /// The message this widget makes of a key press.
    pub fn handle_key_event(key: KeyPress) -> (r: Option<Message>)
        ensures
            r == top_message(key),
    {
        match key.code {
            Key::Right => Some(Message::NextTab),
            Key::Left => Some(Message::PreviousTab),
            Key::Down if key.control => Some(Message::SetFocusedWidget(FocusedWidget::CenterLeft)),
            _ => None,
        }
    }
}

/// The left panel.
#[derive(Debug)]
pub struct CenterLeftWidget;

impl CenterLeftWidget {
    /// The message this widget makes of a key press in stage `state`.
    pub fn handle_key_event(key: KeyPress, state: AppState) -> (r: Option<Message>)
        ensures
            r == center_left_message(key, state),
    {
        match key.code {
            Key::Right if key.control => Some(Message::SetFocusedWidget(FocusedWidget::CenterRight)),
            Key::Up if key.control => Some(Message::SetFocusedWidget(FocusedWidget::Top)),
            Key::Enter if state == AppState::NoConfigFound => Some(
                Message::UpdateState(AppState::CreateNewVault),
            ),
            Key::Up if state == AppState::NoConfigFound => Some(
                Message::SetFocusedWidget(FocusedWidget::Top),
            ),
            _ => None,
        }
    }
}

impl FocusedWidget {
    /// The message the focused widget makes of a key press; the right panel
    /// makes none.
    pub fn handle_key_event(&self, key: KeyPress, state: AppState) -> (r: Option<Message>)
        ensures
            r == focused_message(*self, key, state),
    {
        match self {
            FocusedWidget::Top => TopWidget::handle_key_event(key),
            FocusedWidget::CenterLeft => CenterLeftWidget::handle_key_event(key, state),
            FocusedWidget::CenterRight => None,
        }
    }
}

/// What the front end shows: its stage, the top menu, the focused widget and
/// the directory the file panel is in.
#[derive(Debug)]
pub struct UiState {
    pub state: AppState,
    pub top_state: TopWidgetState,
    pub focused_widget: FocusedWidget,
    pub current_dir: String,
}

impl UiState {
    /// The starting screen: the password prompt if a configuration was found,
    /// the set-up stage otherwise; first tab, focus on the top menu, file
    /// panel at the root directory.
    pub fn new(config_found: bool) -> (r: UiState)
        ensures
            r.state == (if config_found {
                AppState::AskMasterPassword
            } else {
                AppState::NoConfigFound
            }),
            r.top_state.selected_tab == 0,
            r.focused_widget == FocusedWidget::Top,
            r.current_dir@ == seq!['/'],
    {
        let state = if config_found {
            AppState::AskMasterPassword
        } else {
            AppState::NoConfigFound
        };
        let current_dir = String::from_str("/");
        proof {
            reveal_strlit("/");
        }
        UiState {
            state,
            top_state: TopWidgetState::new(),
            focused_widget: FocusedWidget::Top,
            current_dir,
        }
    }

    /// Control-C quits from anywhere; every other key goes to the focused
    /// widget.
    pub fn handle_key_event(&self, key: KeyPress) -> (r: Option<Message>)
        ensures
            key.code == Key::Char('c') && key.control ==> r == Some(Message::Quit),
            !(key.code == Key::Char('c') && key.control) ==> r == focused_message(
                self.focused_widget,
                key,
                self.state,
            ),
    {
        match key.code {
            Key::Char('c') if key.control => Some(Message::Quit),
            _ => self.focused_widget.handle_key_event(key, self.state),
        }
    }

    /// Applies a message. With two tabs, the next and the previous tab are the
    /// same one. Nothing follows from a message.
    pub fn update(&mut self, message: Message) -> (r: Option<Message>)
        ensures
            r is None,
            match message {
                Message::NextTab | Message::PreviousTab => final(self).top_state.selected_tab == (
                old(self).top_state.selected_tab + 1) % (TAB_COUNT as int) && final(self).state
                    == old(self).state && final(self).focused_widget == old(self).focused_widget
                    && final(self).current_dir == old(self).current_dir,
                Message::SetFocusedWidget(w) => final(self).focused_widget == w && final(self).state
                    == old(self).state && final(self).top_state == old(self).top_state
                    && final(self).current_dir == old(self).current_dir,
                Message::UpdateState(s) => final(self).state == s && final(self).focused_widget
                    == old(self).focused_widget && final(self).top_state == old(self).top_state
                    && final(self).current_dir == old(self).current_dir,
                Message::EnterDir(dir) => final(self).current_dir == dir && final(self).state
                    == old(self).state && final(self).focused_widget == old(self).focused_widget
                    && final(self).top_state == old(self).top_state,
                Message::Quit => final(self).state == AppState::Exit && final(self).focused_widget
                    == old(self).focused_widget && final(self).top_state == old(self).top_state
                    && final(self).current_dir == old(self).current_dir,
            },
    {
        match message {
            Message::NextTab => {
                self.top_state.selected_tab = (self.top_state.selected_tab % TAB_COUNT + 1) % TAB_COUNT;
            },
            Message::PreviousTab => {
                self.top_state.selected_tab = (self.top_state.selected_tab % TAB_COUNT + TAB_COUNT - 1)
                    % TAB_COUNT;
            },
            Message::SetFocusedWidget(widget) => {
                self.focused_widget = widget;
            },
            Message::UpdateState(new_state) => {
                self.state = new_state;
            },
            Message::EnterDir(dir) => {
                self.current_dir = dir;
            },
            Message::Quit => {
                self.state = AppState::Exit;
            },
        }
        None
    }
}

} // verus!
