//! One-line text buffers and their edits.
use vstd::prelude::*;

use tui_input::{Input, InputRequest};

verus! {

/// An edit of a one-line text buffer with a cursor.
#[derive(Debug, Clone, Copy, PartialEq, Eq, Structural)]
pub enum EditRequest {
    InsertChar(char),
    DeletePrevChar,
    DeleteNextChar,
    GoToPrevChar,
    GoToNextChar,
    GoToStart,
    GoToEnd,
}

/// What `tui_input` makes of text `value` with the cursor before character
/// `cursor` after handling `req`: the new text and cursor.
pub uninterp spec fn edited(value: Seq<char>, cursor: int, req: EditRequest) -> (Seq<char>, int);

/// `cursor`, moved back to `len` where it is past it.
pub open spec fn clamp(cursor: int, len: int) -> int {
    if cursor < len {
        cursor
    } else {
        len
    }
}

/// Relies on `tui_input`'s `Input::new`, `Input::with_cursor` (which moves a
/// cursor past the end to the end), `Input::handle`, `Input::value` and
/// `Input::cursor`. Inserting puts the character at the cursor and moves the
/// cursor past it; going to the start or the end moves only the cursor; going
/// one step left or right keeps the text; the cursor never passes the end.
#[verifier::external_body]
fn apply_edit(value: &String, cursor: usize, req: EditRequest) -> (r: (String, usize))
    ensures
        (r.0@, r.1 as int) == edited(value@, clamp(cursor as int, value@.len() as int), req),
        r.1 <= r.0@.len(),
        req matches EditRequest::InsertChar(c) ==> {
            let k = clamp(cursor as int, value@.len() as int);
            r.0@ == value@.take(k).push(c) + value@.skip(k) && r.1 == k + 1
        },
        req is GoToStart ==> r.0@ == value@ && r.1 == 0,
        req is GoToEnd ==> r.0@ == value@ && r.1 == value@.len(),
        req is GoToPrevChar || req is GoToNextChar ==> r.0@ == value@,
{
    let mut input = Input::new(value.clone()).with_cursor(cursor);
    input.handle(
        match req {
            EditRequest::InsertChar(c) => InputRequest::InsertChar(c),
            EditRequest::DeletePrevChar => InputRequest::DeletePrevChar,
            EditRequest::DeleteNextChar => InputRequest::DeleteNextChar,
            EditRequest::GoToPrevChar => InputRequest::GoToPrevChar,
            EditRequest::GoToNextChar => InputRequest::GoToNextChar,
            EditRequest::GoToStart => InputRequest::GoToStart,
            EditRequest::GoToEnd => InputRequest::GoToEnd,
        },
    );
    (input.value().to_string(), input.cursor())
}

/// A one-line text buffer; `cursor` counts the characters before the cursor.
#[derive(Debug)]
pub struct TextInput {
    pub value: String,
    pub cursor: usize,
}

impl TextInput {
    /// An empty buffer.
    pub fn new() -> (r: TextInput)
        ensures
            r.value@ == Seq::<char>::empty(),
            r.cursor == 0,
    {
        TextInput { value: String::new(), cursor: 0 }
    }

    /// The buffer after edit `req`.
    pub fn edit(&self, req: EditRequest) -> (r: TextInput)
        ensures
            (r.value@, r.cursor as int) == edited(
                self.value@,
                clamp(self.cursor as int, self.value@.len() as int),
                req,
            ),
            r.cursor <= r.value@.len(),
            req matches EditRequest::InsertChar(c) ==> {
                let k = clamp(self.cursor as int, self.value@.len() as int);
                r.value@ == self.value@.take(k).push(c) + self.value@.skip(k) && r.cursor == k + 1
            },
    {
        let (value, cursor) = apply_edit(&self.value, self.cursor, req);
        TextInput { value, cursor }
    }

    /// The text of the buffer.
    pub fn to_string(&self) -> (r: String)
        ensures
            r@ == self.value@,
    {
        self.value.clone()
    }
}

impl Clone for TextInput {
    fn clone(&self) -> (r: TextInput)
        ensures
            r == *self,
    {
        TextInput { value: self.value.clone(), cursor: self.cursor }
    }
}

} // verus!
