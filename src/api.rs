use vstd::prelude::*;

use crate::store::{spec_create, spec_delete, spec_update, StoreError, TodoStore};
use crate::posts::Post;
use crate::todo::{todos_view, Todo, TodoView};

verus! {

/// The largest request body, in bytes, that create and update accept.
pub const MAX_BODY_LEN: u64 = 16384;

/// The statuses that the service replies with.
#[derive(PartialEq, Eq, Structural, Clone, Copy, Debug)]
pub enum Status {
    /// 200 OK
    Success,
    Created,
    NoContent,
    BadRequest,
    NotFound,
    MethodNotAllowed,
    LengthRequired,
    InternalServerError,
}

/// The HTTP code of a status.
pub open spec fn status_code(s: Status) -> u16 {
    match s {
        Status::Success => 200,
        Status::Created => 201,
        Status::NoContent => 204,
        Status::BadRequest => 400,
        Status::NotFound => 404,
        Status::MethodNotAllowed => 405,
        Status::LengthRequired => 411,
        Status::InternalServerError => 500,
    }
}

impl Status {
    /// The HTTP code of this status.
    pub fn code(&self) -> (r: u16)
        ensures
            r == status_code(*self),
    {
        match self {
            Status::Success => 200,
            Status::Created => 201,
            Status::NoContent => 204,
            Status::BadRequest => 400,
            Status::NotFound => 404,
            Status::MethodNotAllowed => 405,
            Status::LengthRequired => 411,
            Status::InternalServerError => 500,
        }
    }
}

/// What a reply carries besides its status.
pub enum ReplyBody {
    Empty,
    Todos(Vec<Todo>),
    Posts(Vec<Post>),
}

/// A reply to a request.
pub struct Reply {
    pub status: Status,
    pub body: ReplyBody,
}

/// The records that a reply body lists, if it lists records of the store.
pub open spec fn listed_todos(b: ReplyBody) -> Option<Seq<TodoView>> {
    match b {
        ReplyBody::Todos(v) => Some(todos_view(v@)),
        _ => None,
    }
}

/// A reply with a status and nothing else.
pub open spec fn bare(r: Reply, s: Status) -> bool {
    r.status == s && r.body is Empty
}

/// The status of a create on the records `s`.
pub open spec fn create_status(s: Seq<TodoView>, t: TodoView) -> Status {
    if spec_create(s, t).1 {
        Status::Created
    } else {
        Status::BadRequest
    }
}

/// The status of an update on the records `s`.
pub open spec fn update_status(s: Seq<TodoView>, id: u64, t: TodoView) -> Status {
    if spec_update(s, id, t).1 {
        Status::Success
    } else {
        Status::NotFound
    }
}

/// The status of a delete on the records `s`.
pub open spec fn delete_status(s: Seq<TodoView>, id: u64) -> Status {
    if spec_delete(s, id).1 {
        Status::NoContent
    } else {
        Status::NotFound
    }
}

/// What the length that a request declares for its body allows: `None`
/// where the body may be read, else the status that refuses it.
pub open spec fn spec_body_check(content_length: Option<u64>) -> Option<Status> {
    match content_length {
        None => Some(Status::LengthRequired),
        Some(n) => if n <= MAX_BODY_LEN {
            None
        } else {
            Some(Status::BadRequest)
        },
    }
}

/// Checks the declared length of a create or update body before it is read.
pub fn check_body_length(content_length: Option<u64>) -> (r: Result<(), Status>)
    ensures
        r is Ok <==> spec_body_check(content_length) is None,
        r is Err ==> spec_body_check(content_length) == Some(r->Err_0),
{
    match content_length {
        None => Err(Status::LengthRequired),
        Some(n) => if n <= MAX_BODY_LEN {
            Ok(())
        } else {
            Err(Status::BadRequest)
        },
    }
}

/// `GET /todos`: every record, in order.
pub fn list_todos(store: &TodoStore) -> (r: Reply)
    ensures
        r.status == Status::Success,
        listed_todos(r.body) == Some(store@),
{
    Reply { status: Status::Success, body: ReplyBody::Todos(store.list()) }
}

/// `POST /todos`: adds `todo` unless its id is taken.
pub fn create_todo(store: &mut TodoStore, todo: Todo) -> (r: Reply)
    requires
        old(store).wf(),
    ensures
        final(store).wf(),
        final(store)@ == spec_create(old(store)@, todo@).0,
        bare(r, create_status(old(store)@, todo@)),
{
    match store.create(todo) {
        Ok(()) => Reply { status: Status::Created, body: ReplyBody::Empty },
        Err(_) => Reply { status: Status::BadRequest, body: ReplyBody::Empty },
    }
}

/// `PUT /todos/{id}`: gives the record `id` the contents of `todo`.
pub fn update_todo(store: &mut TodoStore, id: u64, todo: Todo) -> (r: Reply)
    requires
        old(store).wf(),
    ensures
        final(store).wf(),
        final(store)@ == spec_update(old(store)@, id, todo@).0,
        bare(r, update_status(old(store)@, id, todo@)),
{
    match store.update(id, todo) {
        Ok(()) => Reply { status: Status::Success, body: ReplyBody::Empty },
        Err(_) => Reply { status: Status::NotFound, body: ReplyBody::Empty },
    }
}

/// `DELETE /todos/{id}`: removes the record `id`.
pub fn delete_todo(store: &mut TodoStore, id: u64) -> (r: Reply)
    requires
        old(store).wf(),
    ensures
        final(store).wf(),
        final(store)@ == spec_delete(old(store)@, id).0,
        bare(r, delete_status(old(store)@, id)),
{
    match store.delete(id) {
        Ok(()) => Reply { status: Status::NoContent, body: ReplyBody::Empty },
        Err(_) => Reply { status: Status::NotFound, body: ReplyBody::Empty },
    }
}


/// A request on the store, once its body has been read.
pub enum Command {
    List,
    Create(Todo),
    Update(u64, Todo),
    Delete(u64),
}

/// What a `Command` holds, as mathematical values.
pub enum CommandView {
    List,
    Create(TodoView),
    Update(u64, TodoView),
    Delete(u64),
}

impl View for Command {
    type V = CommandView;

    open spec fn view(&self) -> CommandView {
        match self {
            Command::List => CommandView::List,
            Command::Create(t) => CommandView::Create(t@),
            Command::Update(id, t) => CommandView::Update(*id, t@),
            Command::Delete(id) => CommandView::Delete(*id),
        }
    }
}

/// The records after a command, its status, and the records that its reply lists.
pub struct Outcome {
    pub state: Seq<TodoView>,
    pub status: Status,
    pub listed: Option<Seq<TodoView>>,
}

/// What the command `c` does on the records `s`.
pub open spec fn spec_handle(s: Seq<TodoView>, c: CommandView) -> Outcome {
    match c {
        CommandView::List => Outcome { state: s, status: Status::Success, listed: Some(s) },
        CommandView::Create(t) => Outcome {
            state: spec_create(s, t).0,
            status: create_status(s, t),
            listed: None,
        },
        CommandView::Update(id, t) => Outcome {
            state: spec_update(s, id, t).0,
            status: update_status(s, id, t),
            listed: None,
        },
        CommandView::Delete(id) => Outcome {
            state: spec_delete(s, id).0,
            status: delete_status(s, id),
            listed: None,
        },
    }
}

/// The records after the commands `cs`, one after the other, from `s`.
pub open spec fn run(s: Seq<TodoView>, cs: Seq<CommandView>) -> Seq<TodoView>
    decreases cs.len(),
{
    if cs.len() == 0 {
        s
    } else {
        spec_handle(run(s, cs.drop_last()), cs.last()).state
    }
}

/// Carries out one command on the store.
pub fn handle(store: &mut TodoStore, cmd: Command) -> (r: Reply)
    requires
        old(store).wf(),
    ensures
        final(store).wf(),
        (Outcome { state: final(store)@, status: r.status, listed: listed_todos(r.body) })
            == spec_handle(old(store)@, cmd@),
        r.body is Empty || r.body is Todos,
{
    match cmd {
        Command::List => list_todos(store),
        Command::Create(t) => create_todo(store, t),
        Command::Update(id, t) => update_todo(store, id, t),
        Command::Delete(id) => delete_todo(store, id),
    }
}

} // verus!
