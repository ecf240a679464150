//! What the user's keys do.

use crate::request::Request;
use crate::text::{address_of, dotted, law_reading_undoes_writing, parse_ipv4};
use vstd::prelude::*;

verus! {

/// What the keys are taken for.
#[derive(Clone, Copy, Debug, PartialEq, Eq, Structural)]
pub enum InputMode {
    /// Commands.
    Normal,
    /// An address to block.
    ManualBlock,
    /// An address to unblock.
    ManualUnblock,
}

/// A key, as far as the keys differ here.
#[derive(Clone, Copy, Debug, PartialEq, Eq, Structural)]
pub enum Key {
    Char(char),
    Enter,
    Esc,
    Backspace,
    Other,
}

/// What a key asks of the firewall.
#[derive(Clone, Copy, Debug, PartialEq, Eq, Structural)]
pub enum UserAction {
    Nothing,
    Quit,
    TogglePause,
    /// A change of the block list.
    Ask(Request),
}

/// The mode, and what has been typed.
#[derive(Debug)]
pub struct InputState {
    pub mode: InputMode,
    pub buffer: String,
}

#[verifier::ext_equal]
pub struct InputView {
    pub mode: InputMode,
    pub buffer: Seq<char>,
}

impl View for InputState {
    type V = InputView;

    open spec fn view(&self) -> InputView {
        InputView { mode: self.mode, buffer: self.buffer@ }
    }
}

/// What the enter key asks for when an address was typed to be blocked or
/// unblocked: nothing, if the text is no address.
pub open spec fn entered(view: InputView) -> UserAction {
    match address_of(view.buffer) {
        Some(ip) => match view.mode {
            InputMode::ManualBlock => UserAction::Ask(Request::ManualBlock { ip }),
            InputMode::ManualUnblock => UserAction::Ask(Request::ManualUnblock { ip }),
            InputMode::Normal => UserAction::Nothing,
        },
        None => UserAction::Nothing,
    }
}

impl InputView {
    pub open spec fn in_mode(self, mode: InputMode) -> InputView {
        InputView { mode, buffer: self.buffer }
    }

    /// The state after a key.
    pub open spec fn after(self, key: Key) -> InputView {
        match self.mode {
            InputMode::Normal => match key {
                Key::Char(c) => if c == 'b' || c == 'B' {
                    InputView { mode: InputMode::ManualBlock, buffer: Seq::empty() }
                } else if c == 'u' || c == 'U' {
                    InputView { mode: InputMode::ManualUnblock, buffer: Seq::empty() }
                } else {
                    self
                },
                _ => self,
            },
            _ => match key {
                Key::Enter => self.in_mode(InputMode::Normal),
                Key::Esc => self.in_mode(InputMode::Normal),
                Key::Char(c) => InputView { mode: self.mode, buffer: self.buffer.push(c) },
                Key::Backspace => if self.buffer.len() > 0 {
                    InputView { mode: self.mode, buffer: self.buffer.drop_last() }
                } else {
                    self
                },
                Key::Other => self,
            },
        }
    }

    /// What a key asks for.
    pub open spec fn action(self, key: Key) -> UserAction {
        match self.mode {
            InputMode::Normal => match key {
                Key::Char(c) => if c == 'q' || c == 'Q' {
                    UserAction::Quit
                } else if c == 'p' || c == 'P' {
                    UserAction::TogglePause
                } else {
                    UserAction::Nothing
                },
                _ => UserAction::Nothing,
            },
            _ => if key == Key::Enter {
                entered(self)
            } else {
                UserAction::Nothing
            },
        }
    }

    /// The state after some characters.
    pub open spec fn typing(self, text: Seq<char>) -> InputView
        decreases text.len(),
    {
        if text.len() == 0 {
            self
        } else {
            self.typing(text.drop_last()).after(Key::Char(text.last()))
        }
    }

    /// The line under the header.
    pub open spec fn prompt(self) -> Seq<char> {
        match self.mode {
            InputMode::Normal =>
                " [B] Manual Block IP  |  [U] Manual Unblock IP  |  [P] Pause/Resume Feed  |  [Q] Quit"@,
            InputMode::ManualBlock => "Enter IP to BLOCK: "@ + self.buffer,
            InputMode::ManualUnblock => "Enter IP to UNBLOCK: "@ + self.buffer,
        }
    }

    /// The title of the line under the header.
    pub open spec fn title(self) -> Seq<char> {
        match self.mode {
            InputMode::Normal => " Controls "@,
            InputMode::ManualBlock =>
                " Action: Manual Block (Press Enter to Apply, Esc to Cancel) "@,
            InputMode::ManualUnblock =>
                " Action: Manual Unblock (Press Enter to Apply, Esc to Cancel) "@,
        }
    }
}

impl InputState {
    /// Takes commands, with nothing typed.
    pub fn new() -> (state: InputState)
        ensures
            state@ == (InputView { mode: InputMode::Normal, buffer: Seq::empty() }),
    {
        InputState { mode: InputMode::Normal, buffer: String::new() }
    }

    /// Takes a key and says what it asks for.
    pub fn on_key(&mut self, key: Key) -> (action: UserAction)
        ensures
            final(self)@ == old(self)@.after(key),
            action == old(self)@.action(key),
    {
        match self.mode {
            InputMode::Normal => self.on_command(key),
            InputMode::ManualBlock => match self.on_edit(key) {
                Some(ip) => UserAction::Ask(Request::ManualBlock { ip }),
                None => UserAction::Nothing,
            },
            InputMode::ManualUnblock => match self.on_edit(key) {
                Some(ip) => UserAction::Ask(Request::ManualUnblock { ip }),
                None => UserAction::Nothing,
            },
        }
    }

    /// Takes a key as a command.
    fn on_command(&mut self, key: Key) -> (action: UserAction)
        requires
            old(self)@.mode == InputMode::Normal,
        ensures
            final(self)@ == old(self)@.after(key),
            action == old(self)@.action(key),
    {
        match key {
            Key::Char(c) => if c == 'q' || c == 'Q' {
                UserAction::Quit
            } else if c == 'b' || c == 'B' {
                self.mode = InputMode::ManualBlock;
                self.buffer = String::new();
                UserAction::Nothing
            } else if c == 'u' || c == 'U' {
                self.mode = InputMode::ManualUnblock;
                self.buffer = String::new();
                UserAction::Nothing
            } else if c == 'p' || c == 'P' {
                UserAction::TogglePause
            } else {
                UserAction::Nothing
            },
            _ => UserAction::Nothing,
        }
    }

    /// Takes a key while an address is typed; returns the address once it is
    /// complete.
    fn on_edit(&mut self, key: Key) -> (ip: Option<u32>)
        requires
            old(self)@.mode != InputMode::Normal,
        ensures
            final(self)@ == old(self)@.after(key),
            ip == (if key == Key::Enter {
                address_of(old(self)@.buffer)
            } else {
                None
            }),
    {
        match key {
            Key::Enter => {
                let ip = parse_ipv4(self.buffer.as_str());
                self.mode = InputMode::Normal;
                ip
            },
            Key::Esc => {
                self.mode = InputMode::Normal;
                None
            },
            Key::Char(c) => {
                self.buffer.push(c);
                None
            },
            Key::Backspace => {
                let _ = self.buffer.pop();
                None
            },
            Key::Other => None,
        }
    }

    /// The line under the header.
    pub fn prompt_text(&self) -> (s: String)
        ensures
            s@ == self@.prompt(),
    {
        match self.mode {
            InputMode::Normal =>
                " [B] Manual Block IP  |  [U] Manual Unblock IP  |  [P] Pause/Resume Feed  |  [Q] Quit".to_owned(),
            InputMode::ManualBlock => {
                let mut s = "Enter IP to BLOCK: ".to_owned();
                s.append(self.buffer.as_str());
                s
            },
            InputMode::ManualUnblock => {
                let mut s = "Enter IP to UNBLOCK: ".to_owned();
                s.append(self.buffer.as_str());
                s
            },
        }
    }

    /// The title of the line under the header.
    pub fn title_text(&self) -> (s: String)
        ensures
            s@ == self@.title(),
    {
        match self.mode {
            InputMode::Normal => " Controls ".to_owned(),
            InputMode::ManualBlock =>
                " Action: Manual Block (Press Enter to Apply, Esc to Cancel) ".to_owned(),
            InputMode::ManualUnblock =>
                " Action: Manual Unblock (Press Enter to Apply, Esc to Cancel) ".to_owned(),
        }
    }
}

/// While an address is typed, characters pile up in the buffer and do nothing
/// else.
pub proof fn law_typing_fills_the_buffer(view: InputView, text: Seq<char>)
    requires
        view.mode != InputMode::Normal,
    ensures
        view.typing(text) == (InputView { mode: view.mode, buffer: view.buffer + text }),
    decreases text.len(),
{
    if text.len() == 0 {
        assert(view.buffer + text =~= view.buffer);
    } else {
        law_typing_fills_the_buffer(view, text.drop_last());
        assert(view.buffer + text =~= (view.buffer + text.drop_last()).push(text.last()));
    }
}

/// Typing an address after the command to block, and pressing enter, asks for
/// that address to be blocked and returns to the commands; likewise to unblock.
/// Whatever was typed before plays no part.
pub proof fn law_a_typed_address_is_acted_on(view: InputView, ip: u32, upper: bool)
    requires
        view.mode == InputMode::Normal,
    ensures
        ({
            let b = if upper { 'B' } else { 'b' };
            let typed = view.after(Key::Char(b)).typing(dotted(ip));
            &&& typed.action(Key::Enter) == UserAction::Ask(Request::ManualBlock { ip })
            &&& typed.after(Key::Enter).mode == InputMode::Normal
        }),
        ({
            let u = if upper { 'U' } else { 'u' };
            let typed = view.after(Key::Char(u)).typing(dotted(ip));
            &&& typed.action(Key::Enter) == UserAction::Ask(Request::ManualUnblock { ip })
            &&& typed.after(Key::Enter).mode == InputMode::Normal
        }),
{
    let b = view.after(Key::Char(if upper { 'B' } else { 'b' }));
    let u = view.after(Key::Char(if upper { 'U' } else { 'u' }));
    law_typing_fills_the_buffer(b, dotted(ip));
    law_typing_fills_the_buffer(u, dotted(ip));
    assert(Seq::<char>::empty() + dotted(ip) =~= dotted(ip));
    law_reading_undoes_writing(ip, dotted(ip));
}

/// A text that is no address is refused: enter asks for nothing, and returns to
/// the commands all the same.
pub proof fn law_other_text_is_refused(view: InputView)
    requires
        forall|ip: u32| view.buffer != #[trigger] dotted(ip),
    ensures
        view.action(Key::Enter) == UserAction::Nothing,
        view.after(Key::Enter).mode == InputMode::Normal,
{
}

/// Escape always returns to the commands and asks for nothing, and backspace
/// takes back a character.
pub proof fn law_typing_can_be_taken_back(view: InputView, c: char)
    ensures
        view.action(Key::Esc) == UserAction::Nothing,
        view.after(Key::Esc).mode == InputMode::Normal,
        view.mode != InputMode::Normal ==> view.after(Key::Char(c)).after(Key::Backspace) == view,
{
    assert(view.buffer.push(c).drop_last() =~= view.buffer);
}

/// Only the commands can quit, pause or resume, and only enter can block or
/// unblock.
pub proof fn law_actions_come_from_their_modes(view: InputView, key: Key)
    ensures
        view.action(key) is Quit || view.action(key) is TogglePause ==> view.mode
            == InputMode::Normal,
        view.action(key) matches UserAction::Ask(request) ==> {
            &&& key == Key::Enter
            &&& request is ManualBlock <==> view.mode == InputMode::ManualBlock
            &&& request is ManualUnblock <==> view.mode == InputMode::ManualUnblock
            &&& view.mode != InputMode::Normal
        },
{
}

/// Of the commands, four letters in either case do something: they quit, pause
/// or resume, or begin an address, with nothing typed yet. Every other key does
/// nothing.
pub proof fn law_commands_are_four_letters(view: InputView, key: Key)
    requires
        view.mode == InputMode::Normal,
    ensures
        view.action(key) == UserAction::Quit <==> key == Key::Char('q') || key == Key::Char('Q'),
        view.action(key) == UserAction::TogglePause <==> key == Key::Char('p') || key == Key::Char(
            'P',
        ),
        !(view.action(key) is Ask),
        key == Key::Char('b') || key == Key::Char('B') ==> view.after(key) == (InputView {
            mode: InputMode::ManualBlock,
            buffer: Seq::empty(),
        }),
        key == Key::Char('u') || key == Key::Char('U') ==> view.after(key) == (InputView {
            mode: InputMode::ManualUnblock,
            buffer: Seq::empty(),
        }),
        key != Key::Char('b') && key != Key::Char('B') && key != Key::Char('u') && key != Key::Char(
            'U',
        ) ==> view.after(key) == view,
{
}

/// While an address is typed, a character is appended, backspace takes off the
/// last one, and enter and escape return to the commands with what was typed.
/// Any other key does nothing.
pub proof fn law_keys_edit_an_address(view: InputView, c: char)
    requires
        view.mode != InputMode::Normal,
    ensures
        view.after(Key::Char(c)).mode == view.mode,
        view.after(Key::Char(c)).buffer == view.buffer + seq![c],
        view.after(Key::Backspace).mode == view.mode,
        view.buffer.len() > 0 ==> view.after(Key::Backspace).buffer + seq![view.buffer.last()]
            == view.buffer,
        view.buffer.len() == 0 ==> view.after(Key::Backspace) == view,
        view.after(Key::Enter) == (InputView { mode: InputMode::Normal, buffer: view.buffer }),
        view.after(Key::Esc) == (InputView { mode: InputMode::Normal, buffer: view.buffer }),
        view.after(Key::Other) == view,
        view.action(Key::Char(c)) == UserAction::Nothing,
        view.action(Key::Backspace) == UserAction::Nothing,
        view.action(Key::Esc) == UserAction::Nothing,
        view.action(Key::Other) == UserAction::Nothing,
{
    assert(view.after(Key::Char(c)).buffer =~= view.buffer + seq![c]);
    if view.buffer.len() > 0 {
        assert(view.after(Key::Backspace).buffer + seq![view.buffer.last()] =~= view.buffer);
    }
}

/// Enter asks for the address that was typed, to be blocked or unblocked
/// according to the mode, and for no other.
pub proof fn law_enter_asks_for_what_was_typed(view: InputView, ip: u32)
    ensures
        view.mode == InputMode::ManualBlock ==> (view.action(Key::Enter) == UserAction::Ask(
            (Request::ManualBlock { ip }),
        ) <==> view.buffer == dotted(ip)),
        view.mode == InputMode::ManualUnblock ==> (view.action(Key::Enter) == UserAction::Ask(
            (Request::ManualUnblock { ip }),
        ) <==> view.buffer == dotted(ip)),
        view.mode == InputMode::Normal ==> view.action(Key::Enter) == UserAction::Nothing,
{
    law_reading_undoes_writing(ip, view.buffer);
}

/// The line under the header shows the commands, or what has been typed.
pub proof fn law_the_prompt_shows_what_was_typed(view: InputView)
    ensures
        view.mode == InputMode::Normal ==> view.prompt()
            == " [B] Manual Block IP  |  [U] Manual Unblock IP  |  [P] Pause/Resume Feed  |  [Q] Quit"@,
        view.mode == InputMode::ManualBlock ==> view.prompt() == "Enter IP to BLOCK: "@
            + view.buffer,
        view.mode == InputMode::ManualUnblock ==> view.prompt() == "Enter IP to UNBLOCK: "@
            + view.buffer,
        view.mode == InputMode::Normal ==> view.title() == " Controls "@,
        view.mode == InputMode::ManualBlock ==> view.title()
            == " Action: Manual Block (Press Enter to Apply, Esc to Cancel) "@,
        view.mode == InputMode::ManualUnblock ==> view.title()
            == " Action: Manual Unblock (Press Enter to Apply, Esc to Cancel) "@,
{
}

/// The view of the input is what it holds.
pub proof fn law_the_input_is_seen_as_it_is(state: InputState)
    ensures
        state@.mode == state.mode,
        state@.buffer == state.buffer@,
{
}

} // verus!
