//! Errors, and results that are put together from other results.
use vstd::prelude::*;

verus! {

/// What kind of failure an error reports. The names are those of the standard
/// library.
#[derive(Clone, Copy, PartialEq, Eq, Debug, Structural)]
pub enum ErrorKind {
    /// A file or a directory does not exist.
    NotFound,
    /// The permission is missing.
    PermissionDenied,
    /// A connection was refused.
    ConnectionRefused,
    /// A connection was reset.
    ConnectionReset,
    /// A host cannot be reached.
    HostUnreachable,
    /// A network cannot be reached.
    NetworkUnreachable,
    /// A connection was aborted.
    ConnectionAborted,
    /// There is no connection.
    NotConnected,
    /// An address is in use.
    AddrInUse,
    /// An address is not to be had.
    AddrNotAvailable,
    /// A network is down.
    NetworkDown,
    /// The other end of a pipe is closed.
    BrokenPipe,
    /// Something exists already.
    AlreadyExists,
    /// Work would have to wait.
    WouldBlock,
    /// Something is not a directory.
    NotADirectory,
    /// Something is a directory.
    IsADirectory,
    /// A directory is not empty.
    DirectoryNotEmpty,
    /// A file system cannot be written to.
    ReadOnlyFilesystem,
    /// A file on a network is gone.
    StaleNetworkFileHandle,
    /// An argument or a variable has an unusable value.
    InvalidInput,
    /// A configuration or a file holds unusable data.
    InvalidData,
    /// Work took too long.
    TimedOut,
    /// Nothing could be written.
    WriteZero,
    /// There is no room left.
    StorageFull,
    /// A file has no positions.
    NotSeekable,
    /// A file is too large.
    FileTooLarge,
    /// Something is in use.
    ResourceBusy,
    /// A program is in use.
    ExecutableFileBusy,
    /// Waiting would not end.
    Deadlock,
    /// Something has too many links.
    TooManyLinks,
    /// There are too many arguments.
    ArgumentListTooLong,
    /// Work was interrupted.
    Interrupted,
    /// Work is not supported.
    Unsupported,
    /// A file ended too early.
    UnexpectedEof,
    /// There is no memory left.
    OutOfMemory,
    /// A failure of the system without a kind of its own, by its number there.
    System(i32),
    /// Any other failure.
    Other,
}

/// A failure: its kind, and a message for the user.
#[derive(Debug)]
pub struct Error {
    kind: ErrorKind,
    message: String,
}

/// What an error says.
pub struct ErrorView {
    pub kind: ErrorKind,
    pub message: Seq<char>,
}

impl View for Error {
    type V = ErrorView;

    closed spec fn view(&self) -> ErrorView {
        ErrorView { kind: self.kind, message: self.message@ }
    }
}

impl Clone for Error {
    fn clone(&self) -> (r: Self)
        ensures
            r@ == self@,
    {
        Error { kind: self.kind, message: self.message.clone() }
    }
}

impl Error {
    /// An error of the given kind with the given message.
    pub fn new(kind: ErrorKind, message: String) -> (r: Error)
        ensures
            r@ == (ErrorView { kind, message: message@ }),
    {
        Error { kind, message }
    }

    /// An error of the kind `Other`.
    pub fn other(message: String) -> (r: Error)
        ensures
            r@ == other_error(message@),
    {
        Error { kind: ErrorKind::Other, message }
    }

    /// An error of the kind `InvalidData`.
    pub fn invalid_data(message: String) -> (r: Error)
        ensures
            r@ == data_error(message@),
    {
        Error { kind: ErrorKind::InvalidData, message }
    }

    /// An error of the kind `InvalidInput`.
    pub fn invalid_input(message: String) -> (r: Error)
        ensures
            r@ == input_error(message@),
    {
        Error { kind: ErrorKind::InvalidInput, message }
    }

    /// The kind of the failure.
    pub fn kind(&self) -> (r: ErrorKind)
        ensures
            r == self@.kind,
    {
        self.kind
    }

    /// The message for the user.
    pub fn message(&self) -> (r: &str)
        ensures
            r@ == self@.message,
    {
        self.message.as_str()
    }

    /// The message for the user, as a string of its own.
    pub fn to_string(&self) -> (r: String)
        ensures
            r@ == self@.message,
    {
        self.message.clone()
    }
}

/// An error of the kind `Other` with the given message.
pub open spec fn other_error(message: Seq<char>) -> ErrorView {
    ErrorView { kind: ErrorKind::Other, message }
}

/// An error of the kind `InvalidData` with the given message.
pub open spec fn data_error(message: Seq<char>) -> ErrorView {
    ErrorView { kind: ErrorKind::InvalidData, message }
}

/// An error of the kind `InvalidInput` with the given message.
pub open spec fn input_error(message: Seq<char>) -> ErrorView {
    ErrorView { kind: ErrorKind::InvalidInput, message }
}

/// A result, with what its error says in place of the error.
pub open spec fn outcome<T>(result: Result<T, Error>) -> Result<T, ErrorView> {
    match result {
        Ok(value) => Ok(value),
        Err(error) => Err(error@),
    }
}

/// All values of a row of results, or the first error among them.
pub open spec fn gather<T>(results: Seq<Result<T, ErrorView>>) -> Result<Seq<T>, ErrorView>
    decreases results.len(),
{
    if results.len() == 0 {
        Ok(Seq::<T>::empty())
    } else {
        match gather(results.drop_last()) {
            Err(error) => Err(error),
            Ok(values) => match results.last() {
                Ok(value) => Ok(values.push(value)),
                Err(error) => Err(error),
            },
        }
    }
}

/// All rows of values of a row of results, one after the other, or the first
/// error among the results.
pub open spec fn gather_rows<T>(results: Seq<Result<Seq<T>, ErrorView>>) -> Result<
    Seq<T>,
    ErrorView,
>
    decreases results.len(),
{
    if results.len() == 0 {
        Ok(Seq::<T>::empty())
    } else {
        match gather_rows(results.drop_last()) {
            Err(error) => Err(error),
            Ok(values) => match results.last() {
                Ok(row) => Ok(values + row),
                Err(error) => Err(error),
            },
        }
    }
}

/// Results behind an error do not matter.
pub proof fn gather_stops_at_error<T>(results: Seq<Result<T, ErrorView>>, n: int)
    requires
        0 <= n <= results.len(),
        gather(results.take(n)) is Err,
    ensures
        gather(results) == gather(results.take(n)),
    decreases results.len(),
{
    if n < results.len() {
        assert(results.drop_last().take(n) =~= results.take(n));
        gather_stops_at_error(results.drop_last(), n);
    } else {
        assert(results.take(n) =~= results);
    }
}

/// Results behind an error do not matter to the rows either.
pub proof fn gather_rows_stops_at_error<T>(results: Seq<Result<Seq<T>, ErrorView>>, n: int)
    requires
        0 <= n <= results.len(),
        gather_rows(results.take(n)) is Err,
    ensures
        gather_rows(results) == gather_rows(results.take(n)),
    decreases results.len(),
{
    if n < results.len() {
        assert(results.drop_last().take(n) =~= results.take(n));
        gather_rows_stops_at_error(results.drop_last(), n);
    } else {
        assert(results.take(n) =~= results);
    }
}

/// Results whose errors all are of a kind are gathered into an error of that
/// kind, if into one at all.
pub proof fn gather_keeps_kind<T>(results: Seq<Result<T, ErrorView>>, kind: ErrorKind)
    requires
        forall|i: int|
            0 <= i < results.len() && (#[trigger] results[i]) is Err ==> results[i]->Err_0.kind
                == kind,
    ensures
        gather(results) is Err ==> gather(results)->Err_0.kind == kind,
    decreases results.len(),
{
    if results.len() > 0 {
        let front = results.drop_last();
        assert(forall|i: int| 0 <= i < front.len() ==> #[trigger] front[i] == results[i]);
        gather_keeps_kind(front, kind);
        assert(results[results.len() - 1] == results.last());
    }
}

/// The same holds of rows.
pub proof fn gather_rows_keeps_kind<T>(results: Seq<Result<Seq<T>, ErrorView>>, kind: ErrorKind)
    requires
        forall|i: int|
            0 <= i < results.len() && (#[trigger] results[i]) is Err ==> results[i]->Err_0.kind
                == kind,
    ensures
        gather_rows(results) is Err ==> gather_rows(results)->Err_0.kind == kind,
    decreases results.len(),
{
    if results.len() > 0 {
        let front = results.drop_last();
        assert(forall|i: int| 0 <= i < front.len() ==> #[trigger] front[i] == results[i]);
        gather_rows_keeps_kind(front, kind);
        assert(results[results.len() - 1] == results.last());
    }
}

/// Gathered values are those of the results, one by one.
pub proof fn gathered_values<T>(results: Seq<Result<T, ErrorView>>)
    requires
        gather(results) is Ok,
    ensures
        gather(results)->Ok_0.len() == results.len(),
        forall|i: int|
            0 <= i < results.len() ==> #[trigger] results[i] == Ok::<T, ErrorView>(
                gather(results)->Ok_0[i],
            ),
    decreases results.len(),
{
    if results.len() > 0 {
        let front = results.drop_last();
        gathered_values(front);
        assert(forall|i: int| 0 <= i < front.len() ==> front[i] == #[trigger] results[i]);
    }
}

/// Gathered rows hold what some result holds, and nothing else.
pub proof fn gathered_rows<T>(results: Seq<Result<Seq<T>, ErrorView>>)
    requires
        gather_rows(results) is Ok,
    ensures
        forall|i: int| 0 <= i < results.len() ==> (#[trigger] results[i]) is Ok,
        forall|value: T| #[trigger]
            gather_rows(results)->Ok_0.contains(value) <==> exists|i: int|
                0 <= i < results.len() && (#[trigger] results[i])->Ok_0.contains(value),
    decreases results.len(),
{
    if results.len() > 0 {
        let front = results.drop_last();
        let before = gather_rows(front)->Ok_0;
        let row = results.last()->Ok_0;
        let all = gather_rows(results)->Ok_0;
        gathered_rows(front);
        assert(forall|i: int| 0 <= i < front.len() ==> front[i] == #[trigger] results[i]);
        assert(results[results.len() - 1] == results.last());
        assert forall|value: T| #[trigger] all.contains(value) <==> exists|i: int|
            0 <= i < results.len() && (#[trigger] results[i])->Ok_0.contains(value) by {
            if all.contains(value) {
                let k = choose|k: int| 0 <= k < all.len() && all[k] == value;
                if k < before.len() {
                    assert(before[k] == value);
                    assert(before.contains(value));
                    let i = choose|i: int|
                        0 <= i < front.len() && (#[trigger] front[i])->Ok_0.contains(value);
                    assert(results[i]->Ok_0.contains(value));
                } else {
                    assert(row[k - before.len()] == value);
                    assert(results[results.len() - 1]->Ok_0.contains(value));
                }
            }
            if exists|i: int| 0 <= i < results.len() && (#[trigger] results[i])->Ok_0.contains(value) {
                let i = choose|i: int|
                    0 <= i < results.len() && (#[trigger] results[i])->Ok_0.contains(value);
                if i < front.len() {
                    assert(front[i]->Ok_0.contains(value));
                    assert(before.contains(value));
                    let k = choose|k: int| 0 <= k < before.len() && before[k] == value;
                    assert(all[k] == value);
                } else {
                    let k = choose|k: int| 0 <= k < row.len() && row[k] == value;
                    assert(all[before.len() + k] == value);
                }
            }
        }
    }
}

/// Results without an error are gathered into their values; otherwise the first
/// error comes out.
pub proof fn gathering_gives_values_or_first_error<T>(results: Seq<Result<T, ErrorView>>, at: int)
    requires
        0 <= at <= results.len(),
        forall|i: int| 0 <= i < at ==> (#[trigger] results[i]) is Ok,
    ensures
        at == results.len() ==> gather(results) == Ok::<Seq<T>, ErrorView>(
            Seq::new(results.len(), |i: int| results[i]->Ok_0),
        ),
        at < results.len() && results[at] is Err ==> gather(results) == Err::<Seq<T>, ErrorView>(
            results[at]->Err_0,
        ),
    decreases at,
{
    let found = results.take(at);
    let values = Seq::new(found.len(), |i: int| found[i]->Ok_0);
    if at == 0 {
        assert(found =~= Seq::empty());
        assert(values =~= Seq::empty());
    } else {
        let front = found.drop_last();
        assert forall|i: int| 0 <= i < front.len() implies (#[trigger] front[i]) is Ok by {
            assert(results[i] is Ok);
        }
        gathering_gives_values_or_first_error(front, at - 1);
        assert(results[at - 1] is Ok);
        assert(Seq::new(front.len(), |i: int| front[i]->Ok_0) =~= values.drop_last());
        assert(values =~= values.drop_last().push(found.last()->Ok_0));
    }
    assert(gather(found) == Ok::<Seq<T>, ErrorView>(values));
    if at == results.len() {
        assert(found =~= results);
    } else if results[at] is Err {
        assert(results.take(at + 1).drop_last() =~= found);
        gather_stops_at_error(results, at + 1);
    }
}

/// Rows without an error among them are gathered one after the other; otherwise
/// the first error comes out.
pub proof fn gathering_rows_joins_them<T>(
    results: Seq<Result<Seq<T>, ErrorView>>,
    more: Result<Seq<T>, ErrorView>,
)
    ensures
        gather_rows(Seq::<Result<Seq<T>, ErrorView>>::empty()) == Ok::<Seq<T>, ErrorView>(
            Seq::empty(),
        ),
        gather_rows(results) is Err ==> gather_rows(results.push(more)) == gather_rows(results),
        gather_rows(results) is Ok && more is Err ==> gather_rows(results.push(more)) == more,
        gather_rows(results) is Ok && more is Ok ==> gather_rows(results.push(more)) == Ok::<
            Seq<T>,
            ErrorView,
        >(gather_rows(results)->Ok_0 + more->Ok_0),
{
    assert(results.push(more).drop_last() =~= results);
}

/// Gathering two rows of results gathers the first and then the second.
pub proof fn rows_are_gathered_in_turn<T>(
    a: Seq<Result<Seq<T>, ErrorView>>,
    b: Seq<Result<Seq<T>, ErrorView>>,
)
    ensures
        gather_rows(a) is Err ==> gather_rows(a + b) == gather_rows(a),
        gather_rows(a) is Ok && gather_rows(b) is Err ==> gather_rows(a + b) == gather_rows(b),
        gather_rows(a) is Ok && gather_rows(b) is Ok ==> gather_rows(a + b) == Ok::<
            Seq<T>,
            ErrorView,
        >(gather_rows(a)->Ok_0 + gather_rows(b)->Ok_0),
    decreases b.len(),
{
    if b.len() == 0 {
        assert(a + b =~= a);
        if gather_rows(a) is Ok {
            assert(gather_rows(a)->Ok_0 + Seq::<T>::empty() =~= gather_rows(a)->Ok_0);
        }
    } else {
        let front = b.drop_last();
        rows_are_gathered_in_turn(a, front);
        gathering_rows_joins_them(a + front, b.last());
        gathering_rows_joins_them(front, b.last());
        assert((a + front).push(b.last()) =~= a + b);
        assert(front.push(b.last()) =~= b);
        if gather_rows(a) is Ok && gather_rows(b) is Ok {
            assert(gather_rows(a + b)->Ok_0 =~= gather_rows(a)->Ok_0 + gather_rows(b)->Ok_0);
        }
    }
}

/// The same holds of results with single values.
pub proof fn values_are_gathered_in_turn<T>(
    a: Seq<Result<T, ErrorView>>,
    b: Seq<Result<T, ErrorView>>,
)
    ensures
        gather(a) is Err ==> gather(a + b) == gather(a),
        gather(a) is Ok && gather(b) is Err ==> gather(a + b) == gather(b),
        gather(a) is Ok && gather(b) is Ok ==> gather(a + b) == Ok::<Seq<T>, ErrorView>(
            gather(a)->Ok_0 + gather(b)->Ok_0,
        ),
    decreases b.len(),
{
    if b.len() == 0 {
        assert(a + b =~= a);
        if gather(a) is Ok {
            assert(gather(a)->Ok_0 + Seq::<T>::empty() =~= gather(a)->Ok_0);
        }
    } else {
        let front = b.drop_last();
        values_are_gathered_in_turn(a, front);
        assert((a + b).drop_last() =~= a + front);
        assert((a + b).last() == b.last());
        if gather(a) is Ok && gather(b) is Ok {
            assert(gather(a + b)->Ok_0 =~= gather(a)->Ok_0 + gather(b)->Ok_0);
        }
    }
}

} // verus!
