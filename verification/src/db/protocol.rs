//! What the library asks of the world outside, and what it is told in return.
//!
//! The decisions of the library are made by small machines. A machine that is not finished has a
//! request; whoever runs it performs that request and resumes the machine with the reply.

use crate::db::migrations::{AppliedMigration, SchemaLock, SchemaLockView};
use crate::db::SurrealError;
use vstd::prelude::*;

verus! {

/// A record of the database, by its table and its key.
#[derive(Debug)]
pub struct RecordKey {
    pub table: String,
    pub key: String,
}

pub struct RecordKeyView {
    pub table: Seq<char>,
    pub key: Seq<char>,
}

impl View for RecordKey {
    type V = RecordKeyView;

    open spec fn view(&self) -> RecordKeyView {
        RecordKeyView { table: self.table@, key: self.key@ }
    }
}

/// What a parameter of a statement stands for.
#[derive(Debug)]
pub enum Value {
    Text(String),
    Record(RecordKey),
}

pub enum ValueView {
    Text(Seq<char>),
    Record(RecordKeyView),
}

impl View for Value {
    type V = ValueView;

    open spec fn view(&self) -> ValueView {
        match self {
            Value::Text(text) => ValueView::Text(text@),
            Value::Record(record) => ValueView::Record(record@),
        }
    }
}

/// A parameter of a statement.
#[derive(Debug)]
pub struct Binding {
    pub name: String,
    pub value: Value,
}

pub struct BindingView {
    pub name: Seq<char>,
    pub value: ValueView,
}

impl View for Binding {
    type V = BindingView;

    open spec fn view(&self) -> BindingView {
        BindingView { name: self.name@, value: self.value@ }
    }
}

/// A statement in the database's language, with its parameters.
#[derive(Debug)]
pub struct Statement {
    pub sql: String,
    pub bindings: Vec<Binding>,
}

pub struct StatementView {
    pub sql: Seq<char>,
    pub bindings: Seq<BindingView>,
}

impl View for Statement {
    type V = StatementView;

    open spec fn view(&self) -> StatementView {
        StatementView {
            sql: self.sql@,
            bindings: self.bindings@.map_values(|b: Binding| b@),
        }
    }
}

/// What is to be done next.
#[derive(Debug)]
pub enum Request {
    /// Open a connection to the database.
    Connect { url: String },
    /// Sign in as a root user.
    SignIn { username: String, password: String },
    /// Select the namespace and the database.
    Select { namespace: String, database: String },
    /// Ask the database whether it is well, waiting no longer than so many seconds.
    Health { timeout_secs: u64 },
    /// Run a function of the database on one argument; it answers yes or no.
    RunFunction { name: String, argument: String },
    /// Create the record if it does not exist.
    Upsert(RecordKey),
    /// Run the statement and check its response for errors.
    Execute(Statement),
    /// Run the statement and take its result as applied migrations.
    FetchApplied(Statement),
    /// Run the statement and take its result as locks.
    FetchLocks(Statement),
    /// Run the statement and take its result as the lock that it changed, if it changed one.
    UpdateLock(Statement),
    /// Note the time.
    StartClock,
    /// Tell how long ago the time was noted.
    ReadClock,
    /// Wait.
    Sleep { seconds: u64 },
    /// Listen on the address.
    Bind { address: String },
    /// Serve requests to these paths, each by what was added to handle it, until the server stops.
    Serve { paths: Vec<String> },
}

pub enum RequestView {
    Connect { url: Seq<char> },
    SignIn { username: Seq<char>, password: Seq<char> },
    Select { namespace: Seq<char>, database: Seq<char> },
    Health { timeout_secs: u64 },
    RunFunction { name: Seq<char>, argument: Seq<char> },
    Upsert(RecordKeyView),
    Execute(StatementView),
    FetchApplied(StatementView),
    FetchLocks(StatementView),
    UpdateLock(StatementView),
    StartClock,
    ReadClock,
    Sleep { seconds: u64 },
    Bind { address: Seq<char> },
    Serve { paths: Seq<Seq<char>> },
}

/// A list of texts.
pub open spec fn texts(list: Vec<String>) -> Seq<Seq<char>> {
    list@.map_values(|text: String| text@)
}

impl View for Request {
    type V = RequestView;

    open spec fn view(&self) -> RequestView {
        match self {
            Request::Connect { url } => RequestView::Connect { url: url@ },
            Request::SignIn { username, password } => RequestView::SignIn {
                username: username@,
                password: password@,
            },
            Request::Select { namespace, database } => RequestView::Select {
                namespace: namespace@,
                database: database@,
            },
            Request::Health { timeout_secs } => RequestView::Health { timeout_secs: *timeout_secs },
            Request::RunFunction { name, argument } => RequestView::RunFunction {
                name: name@,
                argument: argument@,
            },
            Request::Upsert(record) => RequestView::Upsert(record@),
            Request::Execute(statement) => RequestView::Execute(statement@),
            Request::FetchApplied(statement) => RequestView::FetchApplied(statement@),
            Request::FetchLocks(statement) => RequestView::FetchLocks(statement@),
            Request::UpdateLock(statement) => RequestView::UpdateLock(statement@),
            Request::StartClock => RequestView::StartClock,
            Request::ReadClock => RequestView::ReadClock,
            Request::Sleep { seconds } => RequestView::Sleep { seconds: *seconds },
            Request::Bind { address } => RequestView::Bind { address: address@ },
            Request::Serve { paths } => RequestView::Serve { paths: texts(*paths) },
        }
    }
}

/// The request of a machine, if it has one.
pub open spec fn optional_request(r: Option<Request>) -> Option<RequestView> {
    match r {
        None => None,
        Some(request) => Some(request@),
    }
}

/// The result of a statement: whether it could be sent at all, and whether what came back was
/// free of errors and could be read.
pub type Queried<T> = Result<Result<T, SurrealError>, SurrealError>;

pub type QueriedView<T> = Result<Result<T, Seq<char>>, Seq<char>>;

/// What came of a request.
#[derive(Debug)]
pub enum Reply {
    /// To `Connect`, `SignIn`, `Select` and `Upsert`.
    Done(Result<(), SurrealError>),
    /// To `Health`; nothing where the time ran out.
    Health(Option<Result<(), SurrealError>>),
    /// To `RunFunction`.
    Answer(Result<bool, SurrealError>),
    /// To `Execute`.
    Executed(Queried<()>),
    /// To `FetchApplied`.
    Applied(Queried<Vec<AppliedMigration>>),
    /// To `FetchLocks`.
    Locks(Queried<Vec<SchemaLock>>),
    /// To `UpdateLock`.
    Lock(Queried<Option<SchemaLock>>),
    /// To `StartClock`.
    ClockStarted,
    /// To `ReadClock`.
    Elapsed { nanos: u128 },
    /// To `Sleep`.
    Slept,
    /// To `Bind`; the failure as text.
    Bound(Result<(), String>),
    /// To `Serve`; the failure as text.
    Served(Result<(), String>),
}

pub enum ReplyView {
    Done(Result<(), Seq<char>>),
    Health(Option<Result<(), Seq<char>>>),
    Answer(Result<bool, Seq<char>>),
    Executed(QueriedView<()>),
    Applied(QueriedView<Seq<Seq<char>>>),
    Locks(QueriedView<Seq<SchemaLockView>>),
    Lock(QueriedView<Option<SchemaLockView>>),
    ClockStarted,
    Elapsed { nanos: u128 },
    Slept,
    Bound(Result<(), Seq<char>>),
    Served(Result<(), Seq<char>>),
}

/// What the driver returned, its failure as text.
pub open spec fn driver_view<T>(r: Result<T, SurrealError>) -> Result<T, Seq<char>> {
    match r {
        Ok(value) => Ok(value),
        Err(error) => Err(error@),
    }
}

/// What an input or output operation returned.
pub open spec fn io_view(r: Result<(), String>) -> Result<(), Seq<char>> {
    match r {
        Ok(value) => Ok(value),
        Err(error) => Err(error@),
    }
}

/// What a statement returned, its value seen through `f`.
pub open spec fn queried_view<T, V>(r: Queried<T>, f: spec_fn(T) -> V) -> QueriedView<V> {
    match r {
        Ok(Ok(value)) => Ok(Ok(f(value))),
        Ok(Err(error)) => Ok(Err(error@)),
        Err(error) => Err(error@),
    }
}

pub open spec fn executed_view(r: Queried<()>) -> QueriedView<()> {
    queried_view(r, |value: ()| value)
}

pub open spec fn applied_view(r: Queried<Vec<AppliedMigration>>) -> QueriedView<Seq<Seq<char>>> {
    queried_view(
        r,
        |list: Vec<AppliedMigration>| list@.map_values(|applied: AppliedMigration| applied@),
    )
}

pub open spec fn locks_view(r: Queried<Vec<SchemaLock>>) -> QueriedView<Seq<SchemaLockView>> {
    queried_view(r, |list: Vec<SchemaLock>| list@.map_values(|lock: SchemaLock| lock@))
}

pub open spec fn lock_view(r: Queried<Option<SchemaLock>>) -> QueriedView<Option<SchemaLockView>> {
    queried_view(
        r,
        |lock: Option<SchemaLock>|
            match lock {
                None => None,
                Some(lock) => Some(lock@),
            },
    )
}

impl View for Reply {
    type V = ReplyView;

    open spec fn view(&self) -> ReplyView {
        match self {
            Reply::Done(r) => ReplyView::Done(driver_view(*r)),
            Reply::Health(None) => ReplyView::Health(None),
            Reply::Health(Some(r)) => ReplyView::Health(Some(driver_view(*r))),
            Reply::Answer(r) => ReplyView::Answer(driver_view(*r)),
            Reply::Executed(r) => ReplyView::Executed(executed_view(*r)),
            Reply::Applied(r) => ReplyView::Applied(applied_view(*r)),
            Reply::Locks(r) => ReplyView::Locks(locks_view(*r)),
            Reply::Lock(r) => ReplyView::Lock(lock_view(*r)),
            Reply::ClockStarted => ReplyView::ClockStarted,
            Reply::Elapsed { nanos } => ReplyView::Elapsed { nanos: *nanos },
            Reply::Slept => ReplyView::Slept,
            Reply::Bound(r) => ReplyView::Bound(io_view(*r)),
            Reply::Served(r) => ReplyView::Served(io_view(*r)),
        }
    }
}

/// Whether the reply is one that the request can get.
pub open spec fn answers(request: RequestView, reply: ReplyView) -> bool {
    match request {
        RequestView::Connect { .. } => reply is Done,
        RequestView::SignIn { .. } => reply is Done,
        RequestView::Select { .. } => reply is Done,
        RequestView::Health { .. } => reply is Health,
        RequestView::RunFunction { .. } => reply is Answer,
        RequestView::Upsert(_) => reply is Done,
        RequestView::Execute(_) => reply is Executed,
        RequestView::FetchApplied(_) => reply is Applied,
        RequestView::FetchLocks(_) => reply is Locks,
        RequestView::UpdateLock(_) => reply is Lock,
        RequestView::StartClock => reply is ClockStarted,
        RequestView::ReadClock => reply is Elapsed,
        RequestView::Sleep { .. } => reply is Slept,
        RequestView::Bind { .. } => reply is Bound,
        RequestView::Serve { .. } => reply is Served,
    }
}

/// A machine as its laws see it.
pub trait Machine: Sized {
    /// What the machine asks for; nothing once it is finished.
    spec fn request(self) -> Option<RequestView>;

    /// The machine once it is told `reply`.
    spec fn resume(self, reply: ReplyView) -> Self;
}

/// The machine once it is told all of `replies`.
pub open spec fn after<M: Machine>(machine: M, replies: Seq<ReplyView>) -> M
    decreases replies.len(),
{
    if replies.len() == 0 {
        machine
    } else {
        after(machine, replies.drop_last()).resume(replies.last())
    }
}

/// What the machine asked for before each of `replies`.
pub open spec fn asked<M: Machine>(machine: M, replies: Seq<ReplyView>) -> Seq<RequestView> {
    Seq::new(replies.len(), |i: int| after(machine, replies.take(i)).request()->0)
}

/// Whether each of `replies` answers what the machine asked for.
pub open spec fn is_conversation<M: Machine>(machine: M, replies: Seq<ReplyView>) -> bool {
    forall|i: int|
        0 <= i < replies.len() ==> {
            &&& (#[trigger] after(machine, replies.take(i))).request() is Some
            &&& answers(after(machine, replies.take(i)).request()->0, replies[i])
        }
}

/// A conversation without its last reply is a conversation, in which the same was asked.
pub proof fn conversation_prefix<M: Machine>(machine: M, replies: Seq<ReplyView>)
    requires
        replies.len() > 0,
        is_conversation(machine, replies),
    ensures
        is_conversation(machine, replies.drop_last()),
        asked(machine, replies.drop_last()) == asked(machine, replies).drop_last(),
        after(machine, replies.drop_last()).request() == Some(asked(machine, replies).last()),
        answers(asked(machine, replies).last(), replies.last()),
{
    let front = replies.drop_last();
    assert forall|i: int| 0 <= i < front.len() implies {
        &&& (#[trigger] after(machine, front.take(i))).request() is Some
        &&& answers(after(machine, front.take(i)).request()->0, front[i])
    } by {
        assert(front.take(i) =~= replies.take(i));
    }
    assert forall|i: int| 0 <= i < front.len() implies asked(machine, front)[i] == asked(
        machine,
        replies,
    )[i] by {
        assert(front.take(i) =~= replies.take(i));
    }
    assert(asked(machine, front) =~= asked(machine, replies).drop_last());
    assert(replies.take(replies.len() - 1) =~= front);
    assert(after(machine, replies.take(replies.len() - 1)).request() is Some);
}

/// The machine after one more reply.
pub proof fn after_one_more<M: Machine>(machine: M, replies: Seq<ReplyView>, n: int)
    requires
        0 <= n < replies.len(),
    ensures
        after(machine, replies.take(n + 1)) == after(machine, replies.take(n)).resume(replies[n]),
{
    assert(replies.take(n + 1).drop_last() =~= replies.take(n));
}

/// The beginning of a conversation is a conversation, in which the same was asked.
pub proof fn conversation_beginning<M: Machine>(machine: M, replies: Seq<ReplyView>, n: int)
    requires
        0 <= n <= replies.len(),
        is_conversation(machine, replies),
    ensures
        is_conversation(machine, replies.take(n)),
        asked(machine, replies.take(n)) == asked(machine, replies).take(n),
        n < replies.len() ==> after(machine, replies.take(n)).request() == Some(
            asked(machine, replies)[n],
        ),
        n < replies.len() ==> answers(asked(machine, replies)[n], replies[n]),
{
    let beginning = replies.take(n);
    assert forall|i: int| 0 <= i < n implies {
        &&& (#[trigger] after(machine, beginning.take(i))).request() is Some
        &&& answers(after(machine, beginning.take(i)).request()->0, beginning[i])
    } by {
        assert(beginning.take(i) =~= replies.take(i));
    }
    assert forall|i: int| 0 <= i < n implies asked(machine, beginning)[i] == asked(
        machine,
        replies,
    )[i] by {
        assert(beginning.take(i) =~= replies.take(i));
    }
    assert(asked(machine, beginning) =~= asked(machine, replies).take(n));
    if n < replies.len() {
        assert(after(machine, replies.take(n)).request() is Some);
    }
}

/// A conversation goes on with a reply that answers what is asked.
pub proof fn conversation_goes_on<M: Machine>(
    machine: M,
    replies: Seq<ReplyView>,
    reply: ReplyView,
)
    requires
        is_conversation(machine, replies),
        after(machine, replies).request() is Some,
        answers(after(machine, replies).request()->0, reply),
    ensures
        is_conversation(machine, replies.push(reply)),
        after(machine, replies.push(reply)) == after(machine, replies).resume(reply),
{
    let longer = replies.push(reply);
    assert(longer.drop_last() =~= replies);
    assert forall|i: int| 0 <= i < longer.len() implies {
        &&& (#[trigger] after(machine, longer.take(i))).request() is Some
        &&& answers(after(machine, longer.take(i)).request()->0, longer[i])
    } by {
        assert(longer.take(i) =~= replies.take(i));
        if i == replies.len() {
            assert(longer.take(i) =~= replies);
        } else {
            assert(after(machine, replies.take(i)).request() is Some);
        }
    }
}

} // verus!
