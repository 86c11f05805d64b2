//! The client's home screen: the message pane, the list of rooms, and what
//! each key does there.
use vstd::prelude::*;
use vstd::string::*;
use crate::client::Action;
use crate::input::InputField;
use crate::message_box::MessageBox;

verus! {

/// A key as the pages of the client tell them apart.
#[derive(Clone, Copy, Debug, PartialEq, Eq, Structural)]
pub enum PageKey {
    Enter,
    /// Tab; `shift` when Shift is the only modifier held.
    Tab { shift: bool },
    Up,
    Down,
    Esc,
    Char(char),
    Other,
}

/// A position on the terminal.
#[derive(Clone, Copy, Debug, PartialEq, Eq, Structural)]
pub struct Position {
    pub x: u16,
    pub y: u16,
}

/// A rectangle on the terminal.
#[derive(Clone, Copy, Debug, PartialEq, Eq, Structural)]
pub struct Area {
    pub x: u16,
    pub y: u16,
    pub width: u16,
    pub height: u16,
}

impl Area {
    /// A rectangle at `(x, y)`; its width and height are cut so that it
    /// ends within the terminal's coordinates.
    pub fn new(x: u16, y: u16, width: u16, height: u16) -> (res: Area)
        ensures
            res.x == x,
            res.y == y,
            res.width == (if x + width > u16::MAX { u16::MAX - x } else { width as int }),
            res.height == (if y + height > u16::MAX { u16::MAX - y } else { height as int }),
    {
        let w = if width > u16::MAX - x { u16::MAX - x } else { width };
        let h = if height > u16::MAX - y { u16::MAX - y } else { height };
        Area { x, y, width: w, height: h }
    }

    /// The empty rectangle at the origin.
    pub fn empty() -> (res: Area)
        ensures
            res == (Area { x: 0, y: 0, width: 0, height: 0 }),
    {
        Area { x: 0, y: 0, width: 0, height: 0 }
    }

    pub open spec fn spec_is_empty(&self) -> bool {
        self.width == 0 || self.height == 0
    }

    /// Whether the rectangle has no area.
    pub fn is_empty(&self) -> (res: bool)
        ensures
            res == self.spec_is_empty(),
    {
        self.width == 0 || self.height == 0
    }
}

/// The parts of the home screen that can have the focus.
#[derive(Clone, Copy, Debug, PartialEq, Eq, Structural)]
pub enum HomeField {
    MessageInput,
    RoomSelection,
    Settings,
}

/// Where Tab moves the focus from `f`.
pub open spec fn tab_field(f: HomeField) -> HomeField {
    match f {
        HomeField::MessageInput => HomeField::Settings,
        HomeField::RoomSelection => HomeField::MessageInput,
        HomeField::Settings => HomeField::RoomSelection,
    }
}

/// Three presses of Tab bring the focus back.
pub proof fn lemma_tab_cycle(f: HomeField)
    ensures
        tab_field(tab_field(tab_field(f))) == f,
{
}

/// The state of the home screen.
#[derive(Debug)]
pub struct HomeState {
    pub current_room_name: String,
    pub current_field: HomeField,
    /// The messages received, as they arrived.
    pub messages: Vec<String>,
    /// The room under the cursor in the room list.
    pub room_index: usize,
}

impl HomeState {
    pub fn new(current_room_name: String) -> (res: Self)
        ensures
            res.current_room_name@ == current_room_name@,
            res.current_field == HomeField::MessageInput,
            res.messages@.len() == 0,
            res.room_index == 0,
    {
        Self { current_room_name, current_field: HomeField::MessageInput, messages: Vec::new(), room_index: 0 }
    }
}

/// The text field that a key is passed on to.
#[derive(Clone, Copy, Debug, PartialEq, Eq, Structural)]
pub enum HomeInput {
    /// The message being typed.
    Message,
    /// The name of a room being created.
    Misc,
}

/// What a key on the home screen leads to: an action for the client's event
/// loop, an action for the client's own queue, and the text field that
/// receives the key.
#[derive(Debug)]
pub struct HomeOutcome {
    pub event: Option<Action>,
    pub ui: Option<Action>,
    pub forward_to: Option<HomeInput>,
}

/// The home screen.
#[derive(Debug)]
pub struct HomePage {
    pub state: HomeState,
    pub message_input: InputField,
    pub message_box: MessageBox,
    pub rooms: Vec<String>,
    pub cursor_position: Position,
    pub help_message: String,
    /// The room-name prompt; empty when it is closed.
    pub modal: Area,
    pub misc_input: InputField,
}

/// The keys on which the home screen would overflow a counter: scrolling down
/// at the largest scroll position, moving down the room list at the largest
/// index or with the cursor on the top row, and moving up the room list with
/// the cursor in the last column.
pub open spec fn home_key_overflows(page: HomePage, key: PageKey) -> bool {
    ||| key == PageKey::Down && page.state.current_field == HomeField::MessageInput
        && page.message_box.scroll_amount == usize::MAX
    ||| key == PageKey::Down && page.state.current_field == HomeField::RoomSelection && (
    page.state.room_index == usize::MAX || (page.state.room_index + 1 < page.rooms@.len()
        && page.cursor_position.y == 0))
    ||| key == PageKey::Up && page.state.current_field == HomeField::RoomSelection
        && page.state.room_index > 0 && page.cursor_position.x == u16::MAX
}

impl HomePage {
    /// A home screen in the room "Global", its pane a third of the
    /// terminal's `columns` wide.
    pub fn new(columns: u16) -> (res: Self)
        ensures
            res.state.current_room_name@ == "Global"@,
            res.state.current_field == HomeField::MessageInput,
            res.state.messages@.len() == 0,
            res.state.room_index == 0,
            res.message_box.width == columns as usize / 3,
            res.message_box.lines == 0,
            res.message_box.scroll_amount == 0,
            res.message_box.text@.len() == 0,
            res.rooms@.len() == 0,
            res.cursor_position == (Position { x: 0, y: 0 }),
            res.help_message@.len() == 0,
            res.modal == (Area { x: 0, y: 0, width: 0, height: 0 }),
            res.message_input.text@.len() == 0,
            !res.message_input.hidden,
            res.misc_input.text@.len() == 0,
            !res.misc_input.hidden,
    {
        Self {
            state: HomeState::new(String::from_str("Global")),
            message_input: InputField::default(),
            message_box: MessageBox::new(columns as usize / 3),
            rooms: Vec::new(),
            cursor_position: Position { x: 0, y: 0 },
            help_message: String::new(),
            modal: Area::empty(),
            misc_input: InputField::default(),
        }
    }

    /// Applies a key to the home screen.
    ///
    /// Enter sends the typed message (if any), or, in the room list, submits
    /// the room-name prompt when it is open and otherwise switches to the
    /// room under the cursor (unless it is the current room), clearing the
    /// pane. Tab moves the focus. Up and Down scroll the pane or move
    /// through the room list. In the room list, `e` opens the room-name
    /// prompt; other keys go to the prompt when it is open. Other keys in the
    /// message field go to it.
    pub fn handle_event(&mut self, key: PageKey) -> (res: HomeOutcome)
        requires
            !home_key_overflows(*old(self), key),
        ensures
            home_step(*old(self), *final(self), key, res),
    {
        let ghost pre = *self;
        match key {
            PageKey::Enter => {
                match self.state.current_field {
                    HomeField::MessageInput => {
                        if !self.message_input.is_empty() {
                            let contents = self.message_input.value_and_reset();
                            return HomeOutcome { event: Some(Action::SendMessage { contents }), ui: None, forward_to: None };
                        }
                        HomeOutcome { event: None, ui: None, forward_to: None }
                    },
                    HomeField::RoomSelection => {
                        if !self.modal.is_empty() {
                            let name = self.misc_input.value_and_reset();
                            self.modal = Area::empty();
                            return HomeOutcome { event: None, ui: Some(Action::RoomCreationAttempt { name }), forward_to: None };
                        }
                        if self.state.room_index >= self.rooms.len() {
                            return HomeOutcome { event: None, ui: None, forward_to: None };
                        }
                        let new_room_name = self.rooms[self.state.room_index].clone();
                        if self.state.current_room_name == new_room_name {
                            return HomeOutcome { event: None, ui: None, forward_to: None };
                        }
                        let action = Action::RoomChange {
                            new_room_name: new_room_name.clone(),
                            old_room_name: self.state.current_room_name.clone(),
                        };
                        self.state.current_room_name = new_room_name;
                        self.message_box.text.clear();
                        HomeOutcome { event: None, ui: Some(action), forward_to: None }
                    },
                    HomeField::Settings => HomeOutcome { event: None, ui: None, forward_to: None },
                }
            },
            PageKey::Tab { .. } => {
                self.state.current_field = match self.state.current_field {
                    HomeField::MessageInput => HomeField::Settings,
                    HomeField::RoomSelection => HomeField::MessageInput,
                    HomeField::Settings => HomeField::RoomSelection,
                };
                HomeOutcome { event: None, ui: None, forward_to: None }
            },
            PageKey::Down => {
                match self.state.current_field {
                    HomeField::MessageInput => {
                        if self.message_box.lines > self.message_box.scroll_amount + 1 {
                            self.message_box.scroll_amount = self.message_box.scroll_amount + 1;
                        }
                    },
                    HomeField::RoomSelection => {
                        if self.state.room_index + 1 < self.rooms.len() {
                            self.cursor_position.y = self.cursor_position.y - 1;
                            self.state.room_index = self.state.room_index + 1;
                        }
                    },
                    HomeField::Settings => {},
                }
                HomeOutcome { event: None, ui: None, forward_to: None }
            },
            PageKey::Up => {
                match self.state.current_field {
                    HomeField::MessageInput => {
                        if self.message_box.scroll_amount > 0 {
                            self.message_box.scroll_amount = self.message_box.scroll_amount - 1;
                        }
                    },
                    HomeField::RoomSelection => {
                        if self.state.room_index > 0 {
                            self.cursor_position.x = self.cursor_position.x + 1;
                            self.state.room_index = self.state.room_index - 1;
                        }
                    },
                    HomeField::Settings => {},
                }
                HomeOutcome { event: None, ui: None, forward_to: None }
            },
            _ => {
                match self.state.current_field {
                    HomeField::MessageInput => HomeOutcome { event: None, ui: None, forward_to: Some(HomeInput::Message) },
                    HomeField::RoomSelection => {
                        if self.modal.is_empty() && key == PageKey::Char('e') {
                            let half = self.message_box.width / 2;
                            let half16 = half as u16;
                            self.modal = Area::new(half16, half16, 10, 10);
                            HomeOutcome { event: None, ui: None, forward_to: None }
                        } else if !self.modal.is_empty() {
                            HomeOutcome { event: None, ui: None, forward_to: Some(HomeInput::Misc) }
                        } else {
                            HomeOutcome { event: None, ui: None, forward_to: None }
                        }
                    },
                    HomeField::Settings => HomeOutcome { event: None, ui: None, forward_to: None },
                }
            },
        }
    }

    /// Puts the cursor on the room under selection in a room list drawn in
    /// `area`, and shows how to create a room.
    pub fn focus_rooms(&mut self, area: Area)
        requires
            old(self).state.current_field == HomeField::RoomSelection,
            area.x + 1 <= u16::MAX,
            area.y + old(self).state.room_index + 1 <= u16::MAX,
        ensures
            final(self).cursor_position == (Position { x: (area.x + 1) as u16, y: (area.y + old(self).state.room_index + 1) as u16 }),
            final(self).help_message@ == "Press <e> to create new room"@,
            final(self).state == old(self).state,
            final(self).rooms == old(self).rooms,
            final(self).message_box == old(self).message_box,
    {
        self.cursor_position.x = area.x + 1;
        self.cursor_position.y = area.y + self.state.room_index as u16 + 1;
        self.help_message = String::from_str("Press <e> to create new room");
    }
}

/// Nothing changes and nothing is sent.
pub open spec fn unchanged(pre: HomePage, post: HomePage, res: HomeOutcome) -> bool {
    post == pre && res.event is None && res.ui is None && res.forward_to is None
}

/// What a key does to the home screen (see `HomePage::handle_event`).
pub open spec fn home_step(pre: HomePage, post: HomePage, key: PageKey, res: HomeOutcome) -> bool {
    match key {
        PageKey::Enter => match pre.state.current_field {
            HomeField::MessageInput => if pre.message_input.text@.len() == 0 {
                unchanged(pre, post, res)
            } else {
                &&& res.event matches Some(Action::SendMessage { contents }) && contents@ == pre.message_input.text@
                &&& res.ui is None && res.forward_to is None
                &&& post.message_input.text@.len() == 0
                &&& post.message_input.label == pre.message_input.label
                &&& post.message_input.hidden == pre.message_input.hidden
                &&& post.message_input.focused == pre.message_input.focused
                &&& post.state == pre.state && post.message_box == pre.message_box && post.rooms == pre.rooms
                &&& post.modal == pre.modal && post.cursor_position == pre.cursor_position
                &&& post.misc_input == pre.misc_input && post.help_message == pre.help_message
            },
            HomeField::RoomSelection => if !pre.modal.spec_is_empty() {
                &&& res.ui matches Some(Action::RoomCreationAttempt { name }) && name@ == pre.misc_input.text@
                &&& res.event is None && res.forward_to is None
                &&& post.misc_input.text@.len() == 0
                &&& post.misc_input.label == pre.misc_input.label
                &&& post.misc_input.hidden == pre.misc_input.hidden
                &&& post.misc_input.focused == pre.misc_input.focused
                &&& post.modal == (Area { x: 0, y: 0, width: 0, height: 0 })
                &&& post.state == pre.state && post.message_box == pre.message_box && post.rooms == pre.rooms
                &&& post.cursor_position == pre.cursor_position
                &&& post.message_input == pre.message_input && post.help_message == pre.help_message
            } else if pre.state.room_index >= pre.rooms@.len()
                || pre.rooms@[pre.state.room_index as int]@ == pre.state.current_room_name@ {
                unchanged(pre, post, res)
            } else {
                let new_name = pre.rooms@[pre.state.room_index as int]@;
                &&& res.ui matches Some(Action::RoomChange { new_room_name, old_room_name })
                    && new_room_name@ == new_name && old_room_name@ == pre.state.current_room_name@
                &&& res.event is None && res.forward_to is None
                &&& post.state.current_room_name@ == new_name
                &&& post.state.current_field == pre.state.current_field
                &&& post.state.messages == pre.state.messages
                &&& post.state.room_index == pre.state.room_index
                &&& post.message_box.text@.len() == 0
                &&& post.message_box.lines == pre.message_box.lines
                &&& post.message_box.width == pre.message_box.width
                &&& post.message_box.scroll_amount == pre.message_box.scroll_amount
                &&& post.rooms == pre.rooms && post.modal == pre.modal
                &&& post.cursor_position == pre.cursor_position
                &&& post.message_input == pre.message_input && post.misc_input == pre.misc_input
                &&& post.help_message == pre.help_message
            },
            HomeField::Settings => unchanged(pre, post, res),
        },
        PageKey::Tab { .. } => {
            &&& res.event is None && res.ui is None && res.forward_to is None
            &&& post == (HomePage {
                state: HomeState { current_field: tab_field(pre.state.current_field), ..pre.state },
                ..pre
            })
        },
        PageKey::Down => {
            &&& res.event is None && res.ui is None && res.forward_to is None
            &&& match pre.state.current_field {
                HomeField::MessageInput => if pre.message_box.lines > pre.message_box.scroll_amount + 1 {
                    post == (HomePage {
                        message_box: MessageBox { scroll_amount: (pre.message_box.scroll_amount + 1) as usize, ..pre.message_box },
                        ..pre
                    })
                } else {
                    post == pre
                },
                HomeField::RoomSelection => if pre.state.room_index + 1 < pre.rooms@.len() {
                    post == (HomePage {
                        state: HomeState { room_index: (pre.state.room_index + 1) as usize, ..pre.state },
                        cursor_position: Position { y: (pre.cursor_position.y - 1) as u16, ..pre.cursor_position },
                        ..pre
                    })
                } else {
                    post == pre
                },
                HomeField::Settings => post == pre,
            }
        },
        PageKey::Up => {
            &&& res.event is None && res.ui is None && res.forward_to is None
            &&& match pre.state.current_field {
                HomeField::MessageInput => if pre.message_box.scroll_amount > 0 {
                    post == (HomePage {
                        message_box: MessageBox { scroll_amount: (pre.message_box.scroll_amount - 1) as usize, ..pre.message_box },
                        ..pre
                    })
                } else {
                    post == pre
                },
                HomeField::RoomSelection => if pre.state.room_index > 0 {
                    post == (HomePage {
                        state: HomeState { room_index: (pre.state.room_index - 1) as usize, ..pre.state },
                        cursor_position: Position { x: (pre.cursor_position.x + 1) as u16, ..pre.cursor_position },
                        ..pre
                    })
                } else {
                    post == pre
                },
                HomeField::Settings => post == pre,
            }
        },
        _ => {
            &&& res.event is None && res.ui is None
            &&& match pre.state.current_field {
                HomeField::MessageInput => post == pre && res.forward_to == Some(HomeInput::Message),
                HomeField::RoomSelection => if pre.modal.spec_is_empty() && key == PageKey::Char('e') {
                    let half = (pre.message_box.width / 2) as u16;
                    &&& res.forward_to is None
                    &&& post == (HomePage {
                        modal: Area {
                            x: half,
                            y: half,
                            width: (if half + 10 > u16::MAX { u16::MAX - half } else { 10 }) as u16,
                            height: (if half + 10 > u16::MAX { u16::MAX - half } else { 10 }) as u16,
                        },
                        ..pre
                    })
                } else if !pre.modal.spec_is_empty() {
                    post == pre && res.forward_to == Some(HomeInput::Misc)
                } else {
                    post == pre && res.forward_to is None
                },
                HomeField::Settings => post == pre && res.forward_to is None,
            }
        },
    }
}

} // verus!
