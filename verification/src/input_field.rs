//! A single-line text field whose cursor counts Unicode scalar values.

use crate::text::byte_offset;
use crate::text::clamp_index;
use crate::text::insert_at_byte;
use crate::text::lemma_encode_insert;
use crate::text::lemma_prefix_bytes_bounded;
use crate::text::lemma_prefix_is_boundary;
use crate::text::prefix_bytes;
use vstd::prelude::*;
use vstd::string::StrSliceExecFns;
use vstd::string::StringExecFns;
use vstd::utf8::encode_utf8;
use vstd::utf8::encode_utf8_decode_utf8;
use vstd::utf8::is_char_boundary;

verus! {

/// Whether a field currently takes keystrokes.
#[derive(Clone, Copy, Debug, PartialEq, Eq, Structural)]
pub enum InputMode {
    Editing,
    Normal,
}

/// An editable line of text with a cursor.
///
/// `character_index` counts scalar values, never bytes. The fields are public,
/// so a caller can put the cursor anywhere; every operation is defined for
/// every value of the fields and leaves the cursor inside the text.
pub struct InputField {
    pub input: String,
    pub character_index: usize,
    pub input_mode: InputMode,
}

/// What a field holds, as mathematics: the text as scalar values, and the
/// cursor as the number of scalar values in front of it.
pub struct TextModel {
    pub content: Seq<char>,
    pub cursor: nat,
    pub mode: InputMode,
}

/// One editing step on a field.
#[derive(Clone, Copy, Debug, PartialEq, Eq, Structural)]
pub enum Edit {
    Insert(char),
    DeleteBeforeCursor,
    MoveLeft,
    MoveRight,
}

impl TextModel {
    /// The cursor is a boundary of the text: at the start, at the end, or
    /// between two scalar values.
    pub open spec fn wf(self) -> bool {
        self.cursor <= self.content.len()
    }

    /// An empty field that is not being edited.
    pub open spec fn empty() -> TextModel {
        TextModel { content: Seq::empty(), cursor: 0, mode: InputMode::Normal }
    }

    /// `pos` forced into the text.
    pub open spec fn clamp(self, pos: int) -> nat {
        clamp_index(pos, self.content.len() as int) as nat
    }

    /// The cursor one step to the left, staying at the start if it is there.
    pub open spec fn move_left(self) -> TextModel {
        TextModel { cursor: self.clamp(self.cursor - 1), ..self }
    }

    /// The cursor one step to the right, staying at the end if it is there.
    pub open spec fn move_right(self) -> TextModel {
        TextModel { cursor: self.clamp(self.cursor as int + 1), ..self }
    }

    /// `c` put in at the cursor, and the cursor moved behind it. A cursor
    /// beyond the end counts as one at the end.
    pub open spec fn insert(self, c: char) -> TextModel {
        let content = self.content.insert(self.clamp(self.cursor as int) as int, c);
        TextModel {
            content,
            cursor: clamp_index(self.cursor as int + 1, content.len() as int) as nat,
            mode: self.mode,
        }
    }

    /// The scalar value in front of the cursor taken out, and the cursor moved
    /// into its place. Nothing changes with the cursor at the start; a cursor
    /// beyond the end has nothing in front of it and moves to the end.
    pub open spec fn delete_before_cursor(self) -> TextModel {
        if self.cursor == 0 {
            self
        } else {
            let content = if self.cursor <= self.content.len() {
                self.content.remove(self.cursor - 1)
            } else {
                self.content
            };
            TextModel {
                content,
                cursor: clamp_index(self.cursor - 1, content.len() as int) as nat,
                mode: self.mode,
            }
        }
    }

    /// The cursor at the start.
    pub open spec fn reset_cursor(self) -> TextModel {
        TextModel { cursor: 0, ..self }
    }

    /// No text; the cursor, which has nowhere else to be, at the start.
    pub open spec fn reset_input(self) -> TextModel {
        TextModel { content: Seq::empty(), cursor: 0, ..self }
    }

    /// No text and the cursor at the start.
    pub open spec fn reset(self) -> TextModel {
        self.reset_input().reset_cursor()
    }

    /// The field after one editing step.
    pub open spec fn apply(self, edit: Edit) -> TextModel {
        match edit {
            Edit::Insert(c) => self.insert(c),
            Edit::DeleteBeforeCursor => self.delete_before_cursor(),
            Edit::MoveLeft => self.move_left(),
            Edit::MoveRight => self.move_right(),
        }
    }

    /// The field after a run of editing steps, first to last.
    pub open spec fn apply_all(self, edits: Seq<Edit>) -> TextModel
        decreases edits.len(),
    {
        if edits.len() == 0 {
            self
        } else {
            self.apply_all(edits.drop_last()).apply(edits.last())
        }
    }

    /// Byte offset of the cursor in the UTF-8 encoding of the text.
    pub open spec fn cursor_byte_offset(self) -> nat {
        prefix_bytes(self.content, self.cursor as int)
    }
}

impl View for InputField {
    type V = TextModel;

    open spec fn view(&self) -> TextModel {
        TextModel {
            content: self.input@,
            cursor: self.character_index as nat,
            mode: self.input_mode,
        }
    }
}

/// Whatever the field held before, one editing step leaves the cursor inside
/// the text.
pub proof fn lemma_edit_bounds_cursor(field: TextModel, edit: Edit)
    ensures
        field.apply(edit).wf(),
{
}

/// After any run of editing steps on a field whose cursor is inside the text,
/// the cursor is still inside the text.
pub proof fn lemma_edits_keep_cursor_in_text(field: TextModel, edits: Seq<Edit>)
    requires
        field.wf(),
    ensures
        field.apply_all(edits).wf(),
    decreases edits.len(),
{
    if edits.len() > 0 {
        lemma_edits_keep_cursor_in_text(field, edits.drop_last());
        lemma_edit_bounds_cursor(field.apply_all(edits.drop_last()), edits.last());
    }
}

/// Wherever the cursor of a well-formed field stands, its byte offset in the
/// encoded text is a character boundary: the cursor never points into the
/// encoding of a scalar value.
pub proof fn lemma_cursor_on_char_boundary(field: TextModel)
    ensures
        field.cursor_byte_offset() <= encode_utf8(field.content).len(),
        is_char_boundary(encode_utf8(field.content), field.cursor_byte_offset() as int),
{
    lemma_prefix_bytes_bounded(field.content, field.cursor as int);
    lemma_prefix_is_boundary(field.content, field.cursor as int);
}

/// Typing a character and deleting it again changes nothing: text, cursor and
/// mode are what they were.
pub proof fn lemma_insert_then_delete(field: TextModel, c: char)
    requires
        field.wf(),
    ensures
        field.insert(c).delete_before_cursor() == field,
{
    let typed = field.insert(c);
    assert(typed.content.remove(typed.cursor - 1) =~= field.content);
}

impl InputField {
    /// An empty field in `Normal` mode with the cursor at the start.
    pub fn new() -> (field: InputField)
        ensures
            field@ == TextModel::empty(),
            field@.wf(),
    {
        InputField { input: String::new(), input_mode: InputMode::Normal, character_index: 0 }
    }

    /// Moves the cursor one scalar value to the left, never past the start.
    pub fn move_cursor_left(&mut self)
        ensures
            final(self)@ == old(self)@.move_left(),
            final(self)@.wf(),
    {
        let cursor_moved_left = self.character_index.saturating_sub(1);
        self.character_index = self.clamp_cursor(cursor_moved_left);
    }

    /// Moves the cursor one scalar value to the right, never past the end.
    pub fn move_cursor_right(&mut self)
        ensures
            final(self)@ == old(self)@.move_right(),
            final(self)@.wf(),
    {
        let cursor_moved_right = self.character_index.saturating_add(1);
        self.character_index = self.clamp_cursor(cursor_moved_right);
    }

    /// Puts `new_char` in at the cursor and moves the cursor behind it.
    pub fn enter_char(&mut self, new_char: char)
        ensures
            final(self)@ == old(self)@.insert(new_char),
            final(self)@.wf(),
    {
        let index = self.byte_index();
        let ghost before = self.input@;
        let ghost k = clamp_index(self.character_index as int, before.len() as int);
        insert_at_byte(&mut self.input, index, new_char);
        proof {
            lemma_encode_insert(before, k, new_char);
            encode_utf8_decode_utf8(self.input@);
            encode_utf8_decode_utf8(before.insert(k, new_char));
        }
        self.move_cursor_right();
    }

    /// Takes out the scalar value in front of the cursor and moves the cursor
    /// into its place; does nothing with the cursor at the start.
    pub fn delete_char(&mut self)
        ensures
            final(self)@ == old(self)@.delete_before_cursor(),
            final(self)@.wf(),
    {
        let is_not_cursor_leftmost = self.character_index != 0;
        if is_not_cursor_leftmost {
            let current_index = self.character_index;
            let length = self.input.as_str().unicode_len();
            if current_index <= length {
                let from_left_to_current_index = current_index - 1;
                let text = self.input.as_str();
                let before_char_to_delete = text.substring_char(0, from_left_to_current_index);
                let after_char_to_delete = text.substring_char(current_index, length);
                let mut rest = before_char_to_delete.to_owned();
                rest.append(after_char_to_delete);
                proof {
                    assert(rest@ =~= self.input@.remove(current_index - 1));
                }
                self.input = rest;
            }
            self.move_cursor_left();
        }
    }

    /// Puts the cursor at the start.
    pub fn reset_cursor(&mut self)
        ensures
            final(self)@ == old(self)@.reset_cursor(),
            final(self)@.wf(),
    {
        self.character_index = 0;
    }

    /// Clears the text. The cursor goes to the start, the one place left.
    pub fn reset_input(&mut self)
        ensures
            final(self)@ == old(self)@.reset_input(),
            final(self)@.wf(),
    {
        self.input = String::new();
        self.character_index = self.clamp_cursor(self.character_index);
    }

    /// Clears the text and puts the cursor at the start.
    pub fn reset(&mut self)
        ensures
            final(self)@ == old(self)@.reset(),
            final(self)@ == (TextModel { mode: old(self)@.mode, ..TextModel::empty() }),
            final(self)@.wf(),
    {
        self.reset_input();
        self.reset_cursor();
    }

    /// Performs one editing step.
    pub fn apply(&mut self, edit: Edit)
        ensures
            final(self)@ == old(self)@.apply(edit),
            final(self)@.wf(),
    {
        match edit {
            Edit::Insert(c) => self.enter_char(c),
            Edit::DeleteBeforeCursor => self.delete_char(),
            Edit::MoveLeft => self.move_cursor_left(),
            Edit::MoveRight => self.move_cursor_right(),
        }
    }

    /// Byte offset of the cursor in `input`: where the scalar values in front
    /// of the cursor end. It always lies on a character boundary.
    pub fn byte_index(&self) -> (index: usize)
        ensures
            index == self@.cursor_byte_offset(),
            index <= encode_utf8(self.input@).len(),
            is_char_boundary(encode_utf8(self.input@), index as int),
    {
        proof {
            lemma_cursor_on_char_boundary(self@);
        }
        byte_offset(self.input.as_str(), self.character_index)
    }

    /// `new_cursor_position` forced into the text.
    pub fn clamp_cursor(&self, new_cursor_position: usize) -> (clamped: usize)
        ensures
            clamped == self@.clamp(new_cursor_position as int),
            clamped <= self.input@.len() <= usize::MAX,
    {
        let length = self.input.as_str().unicode_len();
        if new_cursor_position > length {
            length
        } else {
            new_cursor_position
        }
    }
}

} // verus!
