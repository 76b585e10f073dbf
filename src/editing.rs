use vstd::prelude::*;
use tui_input::InputRequest;

verus! {

/// Relies on tui_input::InputRequest: the line-editing requests that `Input::handle`
/// takes, declared with their variants so that verified code can build and match them.
#[verifier::external_type_specification]
pub struct ExInputRequest(InputRequest);

/// What an editing request does to a buffer and its cursor, for the requests whose
/// effect does not depend on word boundaries.
pub open spec fn plain_edit(value: Seq<char>, cursor: nat, req: InputRequest) -> Option<(Seq<char>, nat)> {
    match req {
        InputRequest::SetCursor(pos) => Some(
            (value, if pos as nat <= value.len() { pos as nat } else { value.len() }),
        ),
        InputRequest::InsertChar(c) => Some(
            (value.subrange(0, cursor as int) + seq![c] + value.subrange(cursor as int, value.len() as int), cursor + 1),
        ),
        InputRequest::GoToPrevChar => Some((value, if cursor == 0 { 0 } else { (cursor - 1) as nat })),
        InputRequest::GoToNextChar => Some((value, if cursor == value.len() { cursor } else { cursor + 1 })),
        InputRequest::GoToStart => Some((value, 0)),
        InputRequest::GoToEnd => Some((value, value.len())),
        InputRequest::DeletePrevChar => Some(
            if cursor == 0 {
                (value, cursor)
            } else {
                (value.remove(cursor - 1), (cursor - 1) as nat)
            },
        ),
        InputRequest::DeleteNextChar => Some(
            if cursor == value.len() {
                (value, cursor)
            } else {
                (value.remove(cursor as int), cursor)
            },
        ),
        InputRequest::DeleteLine => Some(
            if value.len() == 0 {
                (value, cursor)
            } else {
                (Seq::empty(), 0)
            },
        ),
        InputRequest::DeleteTillEnd => Some((value.subrange(0, cursor as int), cursor)),
        _ => None,
    }
}

/// Relies on tui_input::Input::handle: applies one editing request to a buffer whose
/// cursor counts characters.
#[verifier::external_body]
pub(crate) fn handle_request(value: &String, cursor: usize, req: InputRequest) -> (r: (String, usize))
    requires
        cursor <= value@.len(),
    ensures
        r.1 <= r.0@.len(),
        plain_edit(value@, cursor as nat, req) matches Some(e) ==> r.0@ == e.0 && r.1 == e.1,
        req == InputRequest::GoToPrevWord ==> r.0@ == value@ && r.1 <= cursor,
        req == InputRequest::GoToNextWord ==> r.0@ == value@ && r.1 >= cursor,
        req == InputRequest::DeletePrevWord ==> r.1 <= cursor && r.0@ == value@.subrange(0, r.1 as int)
            + value@.subrange(cursor as int, value@.len() as int),
        req == InputRequest::DeleteNextWord ==> r.1 == cursor && r.0@.len() <= value@.len()
            && r.0@.subrange(0, cursor as int) == value@.subrange(0, cursor as int),
{
    let mut input = tui_input::Input::new(value.clone()).with_cursor(cursor);
    input.handle(req);
    (input.value().to_string(), input.cursor())
}

} // verus!
