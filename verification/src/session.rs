//! The session: what is on screen, and what each input event does to it.
//!
//! The session never touches the terminal or a file. It is told which event
//! came in and answers with its new state and with what its caller has to
//! do: nothing, rewrite a file, or end.

use crate::config::Config;
use crate::input_field::InputField;
use crate::input_field::InputMode;
use crate::input_field::TextModel;
use crate::selection::SelectionList;
use crate::selection::SelectionModel;
use crate::substitution::IoFailure;
use vstd::prelude::*;

verus! {

/// A key of the keyboard, as far as the session tells keys apart.
#[derive(Clone, Copy, Debug, PartialEq, Eq, Structural)]
pub enum Key {
    Char(char),
    Enter,
    Esc,
    Backspace,
    Left,
    Right,
    Other,
}

/// What the operator asks for.
#[derive(Clone, Copy, Debug, PartialEq, Eq, Structural)]
pub enum Event {
    Character(char),
    Delete,
    Left,
    Right,
    Confirm,
    Cancel,
    NavigateUp,
    NavigateDown,
    Quit,
}

/// What is on screen: the list alone, or the list under a popup with a text
/// field for the new version.
pub enum SessionMode {
    Browsing,
    PopupOpen { field: InputField },
}

/// What the caller has to do after an event.
#[derive(Debug, PartialEq, Eq)]
pub enum Action {
    /// Nothing but to draw again and wait for the next event.
    Continue,
    /// Rewrite the file of the item at `index`, putting `new_version` where
    /// its previous version stands.
    Apply { index: usize, new_version: String },
    /// End the session.
    Exit,
}

/// The whole state of a session.
pub struct Session {
    pub list: SelectionList,
    pub mode: SessionMode,
    /// How the last substitution failed, if it did; kept to be shown.
    pub last_failure: Option<IoFailure>,
}

/// A mode as mathematics.
pub enum ModeModel {
    Browsing,
    PopupOpen { field: TextModel },
}

/// An action as mathematics.
pub enum ActionModel {
    Continue,
    Apply { index: nat, new_version: Seq<char> },
    Exit,
}

/// A session as mathematics.
pub struct SessionModel {
    pub list: SelectionModel,
    pub mode: ModeModel,
    pub last_failure: Option<IoFailure>,
}

impl View for SessionMode {
    type V = ModeModel;

    open spec fn view(&self) -> ModeModel {
        match self {
            SessionMode::Browsing => ModeModel::Browsing,
            SessionMode::PopupOpen { field } => ModeModel::PopupOpen { field: field@ },
        }
    }
}

impl View for Action {
    type V = ActionModel;

    open spec fn view(&self) -> ActionModel {
        match self {
            Action::Continue => ActionModel::Continue,
            Action::Apply { index, new_version } => ActionModel::Apply {
                index: *index as nat,
                new_version: new_version@,
            },
            Action::Exit => ActionModel::Exit,
        }
    }
}

impl View for Session {
    type V = SessionModel;

    open spec fn view(&self) -> SessionModel {
        SessionModel { list: self.list@, mode: self.mode@, last_failure: self.last_failure }
    }
}

/// The field of a popup that has just been opened: empty, and being edited.
pub open spec fn fresh_field() -> TextModel {
    TextModel { mode: InputMode::Editing, ..TextModel::empty() }
}

impl SessionModel {
    /// The list is well formed; an open popup has a well-formed field and an
    /// item under it to which the new version will go.
    pub open spec fn wf(self) -> bool {
        &&& self.list.wf()
        &&& match self.mode {
            ModeModel::Browsing => true,
            ModeModel::PopupOpen { field } => field.wf() && self.list.selected() is Some,
        }
    }

    /// A session at its start: browsing `list`, with no failure to show.
    pub open spec fn start(list: SelectionModel) -> SessionModel {
        SessionModel { list, mode: ModeModel::Browsing, last_failure: None }
    }

    /// A popup is open and its field takes keystrokes.
    pub open spec fn editing(self) -> bool {
        match self.mode {
            ModeModel::Browsing => false,
            ModeModel::PopupOpen { field } => field.mode == InputMode::Editing,
        }
    }

    /// What a key means. Only a key that is pressed means anything. While a
    /// field is edited a character key types its character; otherwise `q`
    /// quits, and `j` and `k` move down and up the list.
    pub open spec fn decode(self, key: Key, pressed: bool) -> Option<Event> {
        if !pressed {
            None
        } else if self.editing() {
            match key {
                Key::Char(c) => Some(Event::Character(c)),
                Key::Backspace => Some(Event::Delete),
                Key::Left => Some(Event::Left),
                Key::Right => Some(Event::Right),
                Key::Enter => Some(Event::Confirm),
                Key::Esc => Some(Event::Cancel),
                Key::Other => None,
            }
        } else {
            match key {
                Key::Char(c) => if c == 'q' {
                    Some(Event::Quit)
                } else if c == 'j' {
                    Some(Event::NavigateDown)
                } else if c == 'k' {
                    Some(Event::NavigateUp)
                } else {
                    None
                },
                Key::Enter => Some(Event::Confirm),
                _ => None,
            }
        }
    }

    /// The session after `event`.
    ///
    /// While browsing, the two navigation events move the highlight and a
    /// confirmation opens the popup if an item is highlighted. In the popup,
    /// quitting closes it; while its field is edited, the editing events go to
    /// the field, and confirmation and cancellation close the popup. Any
    /// other event changes nothing.
    pub open spec fn step(self, event: Event) -> SessionModel {
        match self.mode {
            ModeModel::Browsing => match event {
                Event::NavigateDown => SessionModel { list: self.list.move_highlight(1), ..self },
                Event::NavigateUp => SessionModel { list: self.list.move_highlight(-1), ..self },
                Event::Confirm => if self.list.selected() is Some {
                    SessionModel { mode: ModeModel::PopupOpen { field: fresh_field() }, ..self }
                } else {
                    self
                },
                _ => self,
            },
            ModeModel::PopupOpen { field } => if event == Event::Quit {
                SessionModel { mode: ModeModel::Browsing, ..self }
            } else if field.mode == InputMode::Editing {
                match event {
                    Event::Character(c) => SessionModel {
                        mode: ModeModel::PopupOpen { field: field.insert(c) },
                        ..self
                    },
                    Event::Delete => SessionModel {
                        mode: ModeModel::PopupOpen { field: field.delete_before_cursor() },
                        ..self
                    },
                    Event::Left => SessionModel {
                        mode: ModeModel::PopupOpen { field: field.move_left() },
                        ..self
                    },
                    Event::Right => SessionModel {
                        mode: ModeModel::PopupOpen { field: field.move_right() },
                        ..self
                    },
                    Event::Confirm => SessionModel { mode: ModeModel::Browsing, ..self },
                    Event::Cancel => SessionModel { mode: ModeModel::Browsing, ..self },
                    _ => self,
                }
            } else {
                self
            },
        }
    }

    /// What the caller has to do after `event`: end the session when the
    /// operator quits while browsing; rewrite the highlighted item's file
    /// with the text of the field when the operator confirms an edited field;
    /// nothing otherwise.
    pub open spec fn action(self, event: Event) -> ActionModel {
        match self.mode {
            ModeModel::Browsing => if event == Event::Quit {
                ActionModel::Exit
            } else {
                ActionModel::Continue
            },
            ModeModel::PopupOpen { field } => if event == Event::Confirm && field.mode
                == InputMode::Editing && self.list.selected() is Some {
                ActionModel::Apply {
                    index: self.list.selected()->0,
                    new_version: field.content,
                }
            } else {
                ActionModel::Continue
            },
        }
    }

    /// The session after it has been told how a substitution ended: only the
    /// failure to show changes.
    pub open spec fn finish_apply(self, outcome: Result<(), IoFailure>) -> SessionModel {
        SessionModel {
            last_failure: match outcome {
                Ok(_) => None,
                Err(failure) => Some(failure),
            },
            ..self
        }
    }

    /// The screen cell of the cursor marker for a popup whose frame has its
    /// corner at column `left` and row `top`: one cell inside the frame, and
    /// as many columns further as characters stand in front of the cursor. It
    /// stops at the last column and row that can be named. There is no marker
    /// unless a field is edited.
    pub open spec fn cursor_cell(self, left: u16, top: u16) -> Option<(u16, u16)> {
        match self.mode {
            ModeModel::PopupOpen { field } if field.mode == InputMode::Editing => Some(
                (saturated(left + field.cursor + 1), saturated(top + 1)),
            ),
            _ => None,
        }
    }

    /// The session after a run of events, first to last.
    pub open spec fn run(self, events: Seq<Event>) -> SessionModel
        decreases events.len(),
    {
        if events.len() == 0 {
            self
        } else {
            self.run(events.drop_last()).step(events.last())
        }
    }
}

/// `value`, or the largest `u16` if `value` is larger.
pub open spec fn saturated(value: int) -> u16 {
    if value > u16::MAX {
        u16::MAX
    } else {
        value as u16
    }
}

/// Every one of `events` types a character.
pub open spec fn is_typing(events: Seq<Event>) -> bool {
    forall|i: int| 0 <= i < events.len() ==> events[i] is Character
}

/// The characters that `events` type, in their order.
pub open spec fn typed_text(events: Seq<Event>) -> Seq<char> {
    Seq::new(events.len(), |i: int| events[i]->Character_0)
}

/// The field of a popup in which `text` has been typed from the start: it
/// holds `text`, and the cursor stands behind it.
pub open spec fn typed_field(text: Seq<char>) -> TextModel {
    TextModel { content: text, cursor: text.len(), mode: InputMode::Editing }
}

/// One event leaves a well-formed session well formed.
pub proof fn lemma_step_keeps_wf(session: SessionModel, event: Event)
    requires
        session.wf(),
    ensures
        session.step(event).wf(),
        session.step(event).list.items == session.list.items,
{
}

/// Any run of events leaves a well-formed session well formed, and never
/// touches the items of its list.
pub proof fn lemma_run_keeps_wf(session: SessionModel, events: Seq<Event>)
    requires
        session.wf(),
    ensures
        session.run(events).wf(),
        session.run(events).list.items == session.list.items,
    decreases events.len(),
{
    if events.len() > 0 {
        lemma_run_keeps_wf(session, events.drop_last());
        lemma_step_keeps_wf(session.run(events.drop_last()), events.last());
    }
}

/// The session ends on one event only: the operator quits while browsing.
/// Quitting with the popup open closes the popup and ends nothing.
pub proof fn lemma_only_quit_while_browsing_exits(session: SessionModel, event: Event)
    ensures
        session.action(event) is Exit <==> session.mode is Browsing && event == Event::Quit,
        session.mode is PopupOpen && event == Event::Quit ==> session.step(event).mode
            is Browsing,
{
}

/// A file is rewritten on one event only: the operator confirms a field that
/// is being edited. The file is that of the highlighted item, the new version
/// is the text of the field, and the popup is closed afterwards.
pub proof fn lemma_apply_only_on_confirm(session: SessionModel, event: Event)
    ensures
        session.action(event) is Apply ==> event == Event::Confirm && session.editing(),
        session.action(event) is Apply ==> session.mode is PopupOpen && session.list.selected()
            == Some(session.action(event)->index) && session.action(event)->new_version
            == session.mode->field.content,
        session.wf() && session.editing() && event == Event::Confirm ==> session.action(event)
            is Apply && session.step(event).mode is Browsing,
{
}

/// Cancelling an edit closes the popup and rewrites nothing.
pub proof fn lemma_cancel_discards(session: SessionModel)
    requires
        session.editing(),
    ensures
        session.action(Event::Cancel) is Continue,
        session.step(Event::Cancel) == (SessionModel { mode: ModeModel::Browsing, ..session }),
{
}

/// However a substitution ends, the session it is reported to keeps its mode
/// and its list; a failure is kept to be shown and ends nothing.
pub proof fn lemma_failure_keeps_session(session: SessionModel, failure: IoFailure)
    requires
        session.editing(),
    ensures
        session.action(Event::Confirm) !is Exit,
        session.step(Event::Confirm).finish_apply(Err(failure)).mode is Browsing,
        session.step(Event::Confirm).finish_apply(Err(failure)).list == session.list,
        session.step(Event::Confirm).finish_apply(Err(failure)).last_failure == Some(failure),
{
}

/// Typing into a popup that has just been opened fills its field with the
/// characters typed, in their order, and nothing has to be done on the way.
pub proof fn lemma_typing_fills_field(session: SessionModel, events: Seq<Event>)
    requires
        session.mode == (ModeModel::PopupOpen { field: fresh_field() }),
        is_typing(events),
    ensures
        session.run(events) == (SessionModel {
            mode: ModeModel::PopupOpen { field: typed_field(typed_text(events)) },
            ..session
        }),
        forall|i: int|
            0 <= i < events.len() ==> #[trigger] session.run(events.take(i)).action(events[i])
                is Continue,
    decreases events.len(),
{
    if events.len() == 0 {
        assert(typed_field(typed_text(events)).content =~= fresh_field().content);
    } else {
        let earlier = events.drop_last();
        lemma_typing_fills_field(session, earlier);
        assert(typed_field(typed_text(earlier)).insert(events.last()->Character_0).content
            =~= typed_text(events));
        assert forall|i: int| 0 <= i < events.len() implies #[trigger] session.run(
            events.take(i),
        ).action(events[i]) is Continue by {
            if i < earlier.len() {
                assert(events.take(i) =~= earlier.take(i));
            } else {
                assert(events.take(i) =~= earlier);
            }
        }
    }
}

/// Confirming an item, typing a text and confirming again asks for the file
/// of that item to be rewritten with that text, and leaves the session as it
/// was before. Cancelling in place of the second confirmation leaves the
/// session as it was too, and asks for nothing.
pub proof fn lemma_edit_round(session: SessionModel, events: Seq<Event>)
    requires
        session.wf(),
        session.mode is Browsing,
        session.list.selected() is Some,
        is_typing(events),
    ensures
        session.action(Event::Confirm) is Continue,
        ({
            let typed = session.step(Event::Confirm).run(events);
            &&& typed.mode == (ModeModel::PopupOpen { field: typed_field(typed_text(events)) })
            &&& typed.action(Event::Confirm) == (ActionModel::Apply {
                index: session.list.selected()->0,
                new_version: typed_text(events),
            })
            &&& typed.step(Event::Confirm) == session
            &&& typed.action(Event::Cancel) is Continue
            &&& typed.step(Event::Cancel) == session
        }),
{
    lemma_typing_fills_field(session.step(Event::Confirm), events);
}

impl Session {
    /// A session that browses `items`, the first of them highlighted.
    pub fn new(items: Vec<Config>) -> (session: Session)
        ensures
            session@ == SessionModel::start(SelectionModel::fresh(items.deep_view())),
            session@.wf(),
    {
        Session { list: SelectionList::new(items), mode: SessionMode::Browsing, last_failure: None }
    }

    /// Whether a popup is open and its field takes keystrokes.
    pub fn is_editing(&self) -> (editing: bool)
        ensures
            editing == self@.editing(),
    {
        match &self.mode {
            SessionMode::Browsing => false,
            SessionMode::PopupOpen { field } => field.input_mode == InputMode::Editing,
        }
    }

    /// The event that `key` stands for in the present state, if any.
    pub fn decode_key(&self, key: Key, pressed: bool) -> (event: Option<Event>)
        ensures
            event == self@.decode(key, pressed),
    {
        if !pressed {
            None
        } else if self.is_editing() {
            match key {
                Key::Char(c) => Some(Event::Character(c)),
                Key::Backspace => Some(Event::Delete),
                Key::Left => Some(Event::Left),
                Key::Right => Some(Event::Right),
                Key::Enter => Some(Event::Confirm),
                Key::Esc => Some(Event::Cancel),
                Key::Other => None,
            }
        } else {
            match key {
                Key::Char(c) => if c == 'q' {
                    Some(Event::Quit)
                } else if c == 'j' {
                    Some(Event::NavigateDown)
                } else if c == 'k' {
                    Some(Event::NavigateUp)
                } else {
                    None
                },
                Key::Enter => Some(Event::Confirm),
                _ => None,
            }
        }
    }

    /// Takes one event: changes the state as the event asks and says what the
    /// caller has to do.
    pub fn handle(&mut self, event: Event) -> (action: Action)
        ensures
            final(self)@ == old(self)@.step(event),
            action@ == old(self)@.action(event),
            old(self)@.wf() ==> final(self)@.wf(),
    {
        match &mut self.mode {
            SessionMode::Browsing => match event {
                Event::NavigateDown => {
                    self.list.move_highlight(1);
                    Action::Continue
                },
                Event::NavigateUp => {
                    self.list.move_highlight(-1);
                    Action::Continue
                },
                Event::Confirm => {
                    if self.list.selected().is_some() {
                        let mut field = InputField::new();
                        field.input_mode = InputMode::Editing;
                        self.mode = SessionMode::PopupOpen { field };
                    }
                    Action::Continue
                },
                Event::Quit => Action::Exit,
                _ => Action::Continue,
            },
            SessionMode::PopupOpen { field } => {
                if event == Event::Quit {
                    self.mode = SessionMode::Browsing;
                    Action::Continue
                } else if field.input_mode == InputMode::Editing {
                    match event {
                        Event::Character(c) => {
                            field.enter_char(c);
                            Action::Continue
                        },
                        Event::Delete => {
                            field.delete_char();
                            Action::Continue
                        },
                        Event::Left => {
                            field.move_cursor_left();
                            Action::Continue
                        },
                        Event::Right => {
                            field.move_cursor_right();
                            Action::Continue
                        },
                        Event::Confirm => {
                            let new_version = field.input.clone();
                            let selected = self.list.selected();
                            self.mode = SessionMode::Browsing;
                            match selected {
                                Some(index) => Action::Apply { index, new_version },
                                None => Action::Continue,
                            }
                        },
                        Event::Cancel => {
                            self.mode = SessionMode::Browsing;
                            Action::Continue
                        },
                        _ => Action::Continue,
                    }
                } else {
                    Action::Continue
                }
            },
        }
    }

    /// Takes one key: the event it stands for, if any, is handled.
    pub fn handle_key(&mut self, key: Key, pressed: bool) -> (action: Action)
        ensures
            match old(self)@.decode(key, pressed) {
                Some(event) => final(self)@ == old(self)@.step(event) && action@ == old(
                    self,
                )@.action(event),
                None => final(self)@ == old(self)@ && action@ == ActionModel::Continue,
            },
            old(self)@.wf() ==> final(self)@.wf(),
    {
        match self.decode_key(key, pressed) {
            Some(event) => self.handle(event),
            None => Action::Continue,
        }
    }

    /// The screen cell at which to draw the cursor marker, for a popup whose
    /// frame has its corner at column `left` and row `top`.
    pub fn cursor_cell(&self, left: u16, top: u16) -> (cell: Option<(u16, u16)>)
        ensures
            cell == self@.cursor_cell(left, top),
    {
        match &self.mode {
            SessionMode::Browsing => None,
            SessionMode::PopupOpen { field } => {
                if field.input_mode == InputMode::Editing {
                    let columns: u16 = if field.character_index >= u16::MAX as usize {
                        u16::MAX
                    } else {
                        field.character_index as u16
                    };
                    Some((left.saturating_add(columns).saturating_add(1), top.saturating_add(1)))
                } else {
                    None
                }
            },
        }
    }

    /// Takes note of how a substitution ended. A failure is kept to be shown
    /// and changes nothing else: the session goes on browsing.
    pub fn finish_apply(&mut self, outcome: Result<(), IoFailure>)
        ensures
            final(self)@ == old(self)@.finish_apply(outcome),
            old(self)@.wf() ==> final(self)@.wf(),
    {
        self.last_failure = match outcome {
            Ok(_) => None,
            Err(failure) => Some(failure),
        };
    }
}

} // verus!
