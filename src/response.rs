use vstd::prelude::*;

verus! {

/// What GitHub answers when a Gist was created.
#[derive(Debug, PartialEq)]
pub struct GistCreated {
    pub id: String,
    /// The Gist's page (`html_url` in the answer)
    pub url: String,
}

/// What GitHub answers when a Gist was deleted: nothing.
pub type GistDeleted = ();

/// An answer of GitHub: the awaited value, or a message that says what went wrong.
#[derive(Debug, PartialEq)]
pub enum Response<T> {
    Success(T),
    Failure { message: String },
}

/// Picks the reading of an answer's body: as the awaited value if it reads as one,
/// else as an error message if it reads as one, else none.
pub fn decode_response<T>(success: Option<T>, failure: Option<String>) -> (r: Option<Response<T>>)
    ensures
        success matches Some(v) ==> r == Some(Response::Success(v)),
        success is None && failure is Some ==> r == Some(
            Response::<T>::Failure { message: failure->0 },
        ),
        success is None && failure is None ==> r is None,
{
    match success {
        Some(v) => Some(Response::Success(v)),
        None => match failure {
            Some(message) => Some(Response::Failure { message }),
            None => None,
        },
    }
}

/// `204 No Content` and `304 Not Modified` answer a deletion with success and no body.
pub open spec fn is_bodiless_success(status: u16) -> bool {
    status == 204 || status == 304
}

/// Whether the body of an answer to a deletion with this status is to be read.
pub fn delete_body_needed(status: u16) -> (r: bool)
    ensures
        r == !is_bodiless_success(status),
{
    !(status == 204 || status == 304)
}

/// The answer to a deletion, from its status and, where `delete_body_needed`, the
/// reading of its body.
pub fn decode_delete(status: u16, read: Option<Response<GistDeleted>>) -> (r: Option<
    Response<GistDeleted>,
>)
    ensures
        is_bodiless_success(status) ==> r == Some(Response::<GistDeleted>::Success(())),
        !is_bodiless_success(status) ==> r == read,
{
    if delete_body_needed(status) {
        read
    } else {
        Some(Response::Success(()))
    }
}

} // verus!
