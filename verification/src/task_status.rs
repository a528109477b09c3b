//! The status that the kernel reports of a task: lines of a name and a value.
use crate::cpu_list::read_cpus_list;
use crate::error::{Error, ErrorView};
use crate::text::{characters, same_text, split_lines, string_from, trim_text};
use vstd::prelude::*;

verus! {

/// Whether the colon and the tab between a name and a value stand at a place.
pub open spec fn is_separator(line: Seq<char>, at: int) -> bool {
    0 <= at < line.len() - 1 && line[at] == ':' && line[at + 1] == '\t'
}

/// Whether the only separator of a line stands at a place.
pub open spec fn is_only_separator(line: Seq<char>, at: int) -> bool {
    is_separator(line, at) && forall|other: int| is_separator(line, other) ==> other == at
}

/// The name and the value of a line with exactly one separator.
pub open spec fn field(line: Seq<char>) -> Option<(Seq<char>, Seq<char>)> {
    if exists|at: int| is_only_separator(line, at) {
        let at = choose|at: int| is_only_separator(line, at);
        Some((line.take(at), line.skip(at + 2)))
    } else {
        None
    }
}

/// The name of the field that lists the CPUs on which a task may run.
pub open spec fn allowed_field() -> Seq<char> {
    "Cpus_allowed_list"@
}

/// The value of the first line that has the searched name. A line without a
/// name and a value ends the search.
pub open spec fn allowed_list_from(lines: Seq<Seq<char>>) -> Result<Seq<char>, ErrorView>
    decreases lines.len(),
{
    if lines.len() == 0 {
        Err(
            crate::error::other_error(
                "process status does not contain the `Cpus_allowed_list` field."@,
            ),
        )
    } else {
        match field(lines[0]) {
            None => Err(
                crate::error::other_error("malformed process status field: "@ + lines[0]),
            ),
            Some((name, value)) => if crate::text::trim(name) == allowed_field() {
                Ok(value)
            } else {
                allowed_list_from(lines.drop_first())
            },
        }
    }
}

/// The list of CPUs in a status, as it is written there.
pub open spec fn allowed_list(status: Seq<char>) -> Result<Seq<char>, ErrorView> {
    allowed_list_from(crate::text::lines(status))
}

/// Whether the list of CPUs in a status, if there is one, is well-formed.
pub open spec fn has_readable_list(status: Seq<char>) -> bool {
    match allowed_list(status) {
        Ok(list) => crate::cpu_list::is_cpus_list(list),
        Err(_) => true,
    }
}

/// The CPUs on which a task with the given status may run.
pub open spec fn allowed_cpus(task: Seq<char>, status: Seq<char>) -> Result<Seq<usize>, ErrorView> {
    match allowed_list(status) {
        Ok(list) => Ok(crate::cpu_list::listed_cpus(list)->0),
        Err(error) => Err(
            crate::error::other_error("Task ID "@ + task + ": "@ + error.message),
        ),
    }
}

/// Takes a line of a status apart.
fn split_field(line: &str) -> (r: Option<(String, String)>)
    ensures
        match r {
            Some((name, value)) => field(line@) == Some((name@, value@)),
            None => field(line@) is None,
        },
{
    let chars = characters(line);
    let n = chars.len();
    let mut found: Option<usize> = None;
    let mut i: usize = 0;
    while i < n
        invariant
            i <= n,
            n == chars@.len(),
            chars@ == line@,
            match found {
                Some(at) => at < i && is_separator(line@, at as int) && forall|other: int|
                    is_separator(line@, other) && other < i ==> other == at,
                None => forall|other: int| is_separator(line@, other) ==> other >= i,
            },
        decreases n - i,
    {
        if i < n - 1 && chars[i] == ':' && chars[i + 1] == '\t' {
            assert(is_separator(line@, i as int));
            match found {
                Some(at) => {
                    assert(is_separator(line@, at as int));
                    assert(forall|other: int| !is_only_separator(line@, other));
                    return None;
                },
                None => {
                    found = Some(i);
                },
            }
        }
        i = i + 1;
    }
    match found {
        Some(at) => {
            assert(is_only_separator(line@, at as int));
            assert(line@.take(at as int) =~= line@.subrange(0, at as int));
            assert(line@.skip(at + 2) =~= line@.subrange(at + 2, n as int));
            Some((string_from(&chars, 0, at), string_from(&chars, at + 2, n)))
        },
        None => None,
    }
}

/// Finds the list of CPUs in a status.
pub fn get_cpus_from_task_status(status: &str) -> (r: Result<String, Error>)
    ensures
        match r {
            Ok(list) => allowed_list(status@) == Ok::<Seq<char>, ErrorView>(list@),
            Err(error) => allowed_list(status@) == Err::<Seq<char>, ErrorView>(error@),
        },
{
    let all = split_lines(status);
    let ghost lines = crate::text::lines(status@);
    assert(lines.len() == all@.len());
    assert(lines.skip(0) =~= lines);
    let mut i: usize = 0;
    while i < all.len()
        invariant
            i <= all@.len(),
            lines == crate::text::lines(status@),
            crate::text::texts(all@) == lines,
            allowed_list_from(lines) == allowed_list_from(lines.skip(i as int)),
        decreases all@.len() - i,
    {
        proof {
            assert(lines.skip(i as int)[0] == all@[i as int]@);
            assert(lines.skip(i as int).drop_first() =~= lines.skip(i + 1));
        }
        match split_field(all[i].as_str()) {
            None => {
                let message = "malformed process status field: ".to_owned().concat(
                    all[i].as_str(),
                );
                return Err(Error::other(message));
            },
            Some((name, value)) => {
                let name = trim_text(name.as_str());
                if same_text(name.as_str(), "Cpus_allowed_list") {
                    return Ok(value);
                }
            },
        }
        i = i + 1;
    }
    Err(
        Error::other(
            "process status does not contain the `Cpus_allowed_list` field.".to_owned(),
        ),
    )
}

/// Whether the list of CPUs in a status, if there is one, is well-formed.
pub fn is_status_readable(status: &str) -> (r: bool)
    ensures
        r == has_readable_list(status@),
{
    match get_cpus_from_task_status(status) {
        Ok(list) => read_cpus_list(list.as_str()).is_some(),
        Err(_) => true,
    }
}

/// Finds the CPUs on which a task with the given status may run.
pub fn get_task_cpus(task: &str, status: &str) -> (r: Result<Vec<usize>, Error>)
    requires
        has_readable_list(status@),
    ensures
        match r {
            Ok(cpus) => allowed_cpus(task@, status@) == Ok::<Seq<usize>, ErrorView>(cpus@),
            Err(error) => allowed_cpus(task@, status@) == Err::<Seq<usize>, ErrorView>(error@),
        },
{
    match get_cpus_from_task_status(status) {
        Ok(list) => Ok(crate::cpu_list::parse_cpus_list(list.as_str())),
        Err(error) => Err(
            Error::other(
                "Task ID ".to_owned().concat(task).concat(": ").concat(error.message()),
            ),
        ),
    }
}

/// Whether a line of a status gives a name and a value, with a colon and a tab
/// between them and nowhere else.
pub open spec fn gives(line: Seq<char>, name: Seq<char>, value: Seq<char>) -> bool {
    &&& line == name + seq![':', '\t'] + value
    &&& forall|k: int|
        0 <= k < line.len() - 1 && #[trigger] line[k] == ':' && line[k + 1] == '\t' ==> k
            == name.len()
}

/// What a line gives is its field. A line that gives nothing has none.
proof fn given_field(line: Seq<char>)
    ensures
        forall|name: Seq<char>, value: Seq<char>| #[trigger]
            gives(line, name, value) ==> field(line) == Some((name, value)),
        (forall|name: Seq<char>, value: Seq<char>| !#[trigger] gives(line, name, value))
            ==> field(line) is None,
{
    assert forall|name: Seq<char>, value: Seq<char>| #[trigger] gives(line, name, value) implies field(
        line,
    ) == Some((name, value)) by {
        let at = name.len() as int;
        assert(line[at] == ':' && line[at + 1] == '\t');
        assert(is_separator(line, at));
        assert forall|other: int| is_separator(line, other) implies other == at by {
            assert(line[other] == ':' && line[other + 1] == '\t');
        }
        assert(is_only_separator(line, at));
        let found = choose|at: int| is_only_separator(line, at);
        assert(found == at);
        assert(line.take(at) =~= name);
        assert(line.skip(at + 2) =~= value);
    }
    if field(line) is Some {
        let at = choose|at: int| is_only_separator(line, at);
        let name = line.take(at);
        let value = line.skip(at + 2);
        assert(line =~= name + seq![':', '\t'] + value);
        assert forall|k: int|
            0 <= k < line.len() - 1 && #[trigger] line[k] == ':' && line[k + 1] == '\t' implies k
            == name.len() by {
            assert(is_separator(line, k));
        }
        assert(gives(line, name, value));
    }
}

/// Whether a line of a status gives a value to another name than that of the list
/// of CPUs.
pub open spec fn is_other(line: Seq<char>) -> bool {
    exists|name: Seq<char>, value: Seq<char>| #[trigger]
        gives(line, name, value) && crate::text::trim(name) != "Cpus_allowed_list"@
}

/// Lines of other names are passed over.
proof fn others_are_passed_over(lines: Seq<Seq<char>>, at: int)
    requires
        0 <= at <= lines.len(),
        forall|i: int| 0 <= i < at ==> is_other(#[trigger] lines[i]),
    ensures
        allowed_list_from(lines) == allowed_list_from(lines.skip(at)),
    decreases at,
{
    if at > 0 {
        let rest = lines.drop_first();
        assert(is_other(lines[0]));
        given_field(lines[0]);
        assert forall|i: int| 0 <= i < at - 1 implies is_other(#[trigger] rest[i]) by {
            assert(is_other(lines[i + 1]));
        }
        others_are_passed_over(rest, at - 1);
        assert(rest.skip(at - 1) =~= lines.skip(at));
    } else {
        assert(lines.skip(0) =~= lines);
    }
}

/// The list of CPUs of a task is the value that the first line with its name gives,
/// if all lines before give values to other names. A line before it that gives
/// nothing is complained of, and so is a status without the name. In these cases
/// the CPUs of the task are not known; otherwise they are those of the list.
pub proof fn status_gives_allowed_cpus(task: Seq<char>, status: Seq<char>, at: int)
    requires
        ({
            let lines = crate::text::lines(status);
            &&& 0 <= at <= lines.len()
            &&& forall|i: int| 0 <= i < at ==> is_other(#[trigger] lines[i])
        }),
    ensures
        ({
            let lines = crate::text::lines(status);
            let list = allowed_list(status);
            let cpus = allowed_cpus(task, status);
            let fails = |reason: Seq<char>|
                {
                    &&& list is Err
                    &&& cpus == Err::<Seq<usize>, ErrorView>(
                        ErrorView {
                            kind: crate::error::ErrorKind::Other,
                            message: "Task ID "@ + task + ": "@ + reason,
                        },
                    )
                };
            &&& forall|name: Seq<char>, value: Seq<char>|
                at < lines.len() && #[trigger] gives(lines[at], name, value) && crate::text::trim(
                    name,
                ) == "Cpus_allowed_list"@ ==> list == Ok::<Seq<char>, ErrorView>(value) && (
                crate::cpu_list::listed_cpus(value) is Some ==> cpus == Ok::<Seq<usize>, ErrorView>(
                    crate::cpu_list::listed_cpus(value)->0,
                ))
            &&& at < lines.len() && (forall|name: Seq<char>, value: Seq<char>|
                !#[trigger] gives(lines[at], name, value)) ==> fails(
                "malformed process status field: "@ + lines[at],
            )
            &&& at == lines.len() ==> fails(
                "process status does not contain the `Cpus_allowed_list` field."@,
            )
        }),
{
    let lines = crate::text::lines(status);
    others_are_passed_over(lines, at);
    if at < lines.len() {
        assert(lines.skip(at)[0] == lines[at]);
        given_field(lines[at]);
    }
}

} // verus!
