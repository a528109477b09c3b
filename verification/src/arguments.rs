//! The command line arguments of the launcher.
use crate::path::last_name;
use crate::text::{contains_character, same_text};
use vstd::prelude::*;

verus! {

/// What arguments stand for.
pub enum ArgumentsView {
    /// Not even the name of the program is known.
    Empty,
    /// The arguments are wrong: the name of the program, and the reason.
    Invalid(Seq<char>, Seq<char>),
    /// A machine is to be started.
    Valid(ValidArgsView),
    /// Help is wanted: the name of the program.
    Usage(Seq<char>),
}

/// What arguments that name a machine say.
pub struct ValidArgsView {
    pub program_name: Seq<char>,
    pub debug: bool,
    pub machine_name: Seq<char>,
    pub verbose: bool,
}

/// Whether a word is an option.
pub open spec fn is_option(word: Seq<char>) -> bool {
    word == "-v"@ || word == "-d"@ || word == "-h"@
}

/// The words that are not options.
pub open spec fn names(words: Seq<Seq<char>>) -> Seq<Seq<char>>
    decreases words.len(),
{
    if words.len() == 0 {
        words
    } else if is_option(words.last()) {
        names(words.drop_last())
    } else {
        names(words.drop_last()).push(words.last())
    }
}

/// The words before the first one that asks for help.
pub open spec fn before_help(words: Seq<Seq<char>>) -> Seq<Seq<char>>
    decreases words.len(),
{
    if words.len() == 0 || words.first() == "-h"@ {
        Seq::<Seq<char>>::empty()
    } else {
        seq![words.first()] + before_help(words.drop_first())
    }
}

/// Whether a machine can have this name: it names a file, not a path.
pub open spec fn is_machine_name(name: Seq<char>) -> bool {
    !name.contains('\0') && !name.contains('/')
}

/// The name of the program that was started by a path.
pub open spec fn program(path: Seq<char>) -> Seq<char> {
    match crate::path::file_name(path) {
        Some(name) => name,
        None => "qemu-launcher"@,
    }
}

/// What arguments stand for. The first one is the path of the program.
///
/// Help is given as soon as it is asked for, unless there were too many words
/// before.
pub open spec fn arguments_of(arguments: Seq<Seq<char>>) -> ArgumentsView {
    if arguments.len() == 0 {
        ArgumentsView::Empty
    } else {
        let program_name = program(arguments[0]);
        let words = arguments.skip(1);
        let machines = names(words);
        if names(before_help(words)).len() > 1 {
            ArgumentsView::Invalid(program_name, "Too many parameters."@)
        } else if words.contains("-h"@) {
            ArgumentsView::Usage(program_name)
        } else if machines.len() == 0 {
            ArgumentsView::Invalid(program_name, "Missing the guest machine name"@)
        } else if !is_machine_name(machines[0]) {
            ArgumentsView::Invalid(
                program_name,
                "The machine name contains invalid characters."@,
            )
        } else {
            ArgumentsView::Valid(
                ValidArgsView {
                    program_name,
                    debug: words.contains("-d"@),
                    machine_name: machines[0],
                    verbose: words.contains("-v"@),
                },
            )
        }
    }
}

/// Arguments that ask for help.
#[derive(Debug)]
pub struct UsageArgs {
    program_name: String,
}

impl View for UsageArgs {
    type V = Seq<char>;

    closed spec fn view(&self) -> Seq<char> {
        self.program_name@
    }
}

impl UsageArgs {
    /// The name of the program.
    pub fn get_program_name(&self) -> (r: &String)
        ensures
            r@ == self@,
    {
        &self.program_name
    }
}

/// Arguments that are wrong.
#[derive(Debug)]
pub struct ErrorArgs {
    program_name: String,
    error: &'static str,
}

impl View for ErrorArgs {
    type V = (Seq<char>, Seq<char>);

    closed spec fn view(&self) -> (Seq<char>, Seq<char>) {
        (self.program_name@, self.error@)
    }
}

impl ErrorArgs {
    /// The name of the program.
    pub fn get_program_name(&self) -> (r: &String)
        ensures
            r@ == self@.0,
    {
        &self.program_name
    }

    /// What is wrong.
    pub fn get_error(&self) -> (r: &'static str)
        ensures
            r@ == self@.1,
    {
        self.error
    }
}

/// Arguments that name a machine.
#[derive(Debug)]
pub struct ValidArgs {
    program_name: String,
    debug: bool,
    machine_name: String,
    verbose: bool,
}

impl View for ValidArgs {
    type V = ValidArgsView;

    closed spec fn view(&self) -> ValidArgsView {
        ValidArgsView {
            program_name: self.program_name@,
            debug: self.debug,
            machine_name: self.machine_name@,
            verbose: self.verbose,
        }
    }
}

impl ValidArgs {
    /// Whether debugging information is wanted.
    pub fn is_debug_enabled(&self) -> (r: bool)
        ensures
            r == self@.debug,
    {
        self.debug
    }

    /// Whether additional information is wanted. Debugging asks for it too.
    pub fn is_verbose_mode(&self) -> (r: bool)
        ensures
            r == (self@.verbose || self@.debug),
    {
        self.verbose || self.is_debug_enabled()
    }

    /// The name of the machine.
    pub fn get_machine_name(&self) -> (r: &str)
        ensures
            r@ == self@.machine_name,
    {
        self.machine_name.as_str()
    }

    /// The name of the program.
    pub fn get_program_name(&self) -> (r: &str)
        ensures
            r@ == self@.program_name,
    {
        self.program_name.as_str()
    }
}

/// The arguments of the launcher.
#[derive(Debug)]
pub enum Arguments {
    Empty,
    Invalid(ErrorArgs),
    Valid(ValidArgs),
    Usage(UsageArgs),
}

impl View for Arguments {
    type V = ArgumentsView;

    open spec fn view(&self) -> ArgumentsView {
        match self {
            Arguments::Empty => ArgumentsView::Empty,
            Arguments::Invalid(args) => ArgumentsView::Invalid(args@.0, args@.1),
            Arguments::Valid(args) => ArgumentsView::Valid(args@),
            Arguments::Usage(args) => ArgumentsView::Usage(args@),
        }
    }
}

/// More words hold no fewer names.
proof fn names_grow(words: Seq<Seq<char>>, n: int)
    requires
        0 <= n <= words.len(),
    ensures
        names(words.take(n)).len() <= names(words).len(),
    decreases words.len(),
{
    if n < words.len() {
        assert(words.drop_last().take(n) =~= words.take(n));
        names_grow(words.drop_last(), n);
    } else {
        assert(words.take(n) =~= words);
    }
}

/// Words before which no help is asked for stand before the first such word.
proof fn words_before_help(words: Seq<Seq<char>>, n: int)
    requires
        0 <= n <= words.len(),
        forall|i: int| 0 <= i < n ==> #[trigger] words[i] != "-h"@,
    ensures
        before_help(words).len() >= n,
        before_help(words).take(n) == words.take(n),
        n == words.len() || words[n] == "-h"@ ==> before_help(words) == words.take(n),
    decreases words.len(),
{
    if n > 0 {
        let rest = words.drop_first();
        assert(words[0] != "-h"@);
        assert(forall|i: int| 0 <= i < rest.len() ==> #[trigger] rest[i] == words[i + 1]);
        words_before_help(rest, n - 1);
        assert(words.take(n) =~= seq![words[0]] + rest.take(n - 1));
        assert(before_help(words).take(n) =~= seq![words[0]] + before_help(rest).take(n - 1));
    } else {
        assert(words.take(0) =~= Seq::<Seq<char>>::empty());
        assert(before_help(words).take(0) =~= Seq::<Seq<char>>::empty());
    }
}

/// Whether a machine can have this name.
pub fn is_valid_machine_name(machine_name: &str) -> (r: bool)
    ensures
        r == is_machine_name(machine_name@),
{
    !contains_character(machine_name, '\0') && !contains_character(machine_name, '/')
}

/// Finds the name of the program that was started by a path.
fn program_name(path: &str) -> (r: String)
    ensures
        r@ == program(path@),
{
    match last_name(path) {
        Some(name) => name,
        None => "qemu-launcher".to_owned(),
    }
}

impl Arguments {
    /// Reads the arguments. The first one is the path of the program.
    pub fn new(arguments: &Vec<String>) -> (r: Arguments)
        ensures
            r@ == arguments_of(crate::text::texts(arguments@)),
    {
        if arguments.len() < 1 {
            return Arguments::Empty;
        }
        let ghost words = crate::text::texts(arguments@).skip(1);
        let program_name = program_name(arguments[0].as_str());
        let mut verbose = false;
        let mut debug = false;
        let mut machine_name = String::new();
        let mut has_machine_name = false;
        let mut i: usize = 1;
        proof {
            reveal_strlit("-v");
            reveal_strlit("-d");
            reveal_strlit("-h");
            assert("-v"@[1] == 'v' && "-d"@[1] == 'd' && "-h"@[1] == 'h');
            assert(words.take(0) =~= Seq::<Seq<char>>::empty());
        }
        while i < arguments.len()
            invariant
                1 <= i <= arguments@.len(),
                words == crate::text::texts(arguments@).skip(1),
                program_name@ == program(crate::text::texts(arguments@)[0]),
                "-v"@ != "-d"@ && "-v"@ != "-h"@ && "-d"@ != "-h"@,
                forall|j: int| 0 <= j < i - 1 ==> #[trigger] words[j] != "-h"@,
                verbose <==> words.take(i - 1).contains("-v"@),
                debug <==> words.take(i - 1).contains("-d"@),
                names(words.take(i - 1)) == if has_machine_name {
                    seq![machine_name@]
                } else {
                    Seq::<Seq<char>>::empty()
                },
            decreases arguments@.len() - i,
        {
            let ghost seen = words.take(i - 1);
            let ghost word = words[i - 1];
            proof {
                assert(word == arguments@[i as int]@);
                assert(words.take(i as int) =~= seen.push(word));
                assert(seen.push(word).drop_last() =~= seen);
                appended_word(seen, word, "-v"@);
                appended_word(seen, word, "-d"@);
            }
            let argument = arguments[i].as_str();
            if same_text(argument, "-v") {
                verbose = true;
            } else if same_text(argument, "-d") {
                debug = true;
            } else if same_text(argument, "-h") {
                proof {
                    words_before_help(words, i - 1);
                    assert(words.contains("-h"@));
                }
                return Arguments::Usage(UsageArgs { program_name });
            } else {
                if has_machine_name {
                    proof {
                        words_before_help(words, i as int);
                        names_grow(before_help(words), i as int);
                    }
                    return Arguments::Invalid(
                        ErrorArgs { program_name, error: "Too many parameters." },
                    );
                }
                machine_name = arguments[i].clone();
                has_machine_name = true;
            }
            i = i + 1;
        }
        proof {
            words_before_help(words, i - 1);
            assert(words.take(i - 1) =~= words);
        }
        if !has_machine_name {
            return Arguments::Invalid(
                ErrorArgs { program_name, error: "Missing the guest machine name" },
            );
        }
        if !is_valid_machine_name(machine_name.as_str()) {
            return Arguments::Invalid(
                ErrorArgs {
                    program_name,
                    error: "The machine name contains invalid characters.",
                },
            );
        }
        Arguments::Valid(ValidArgs { program_name, debug, machine_name, verbose })
    }
}

/// A row with one more word at the end holds this word and those of the row.
proof fn appended_word(words: Seq<Seq<char>>, word: Seq<char>, sought: Seq<char>)
    ensures
        words.push(word).contains(sought) <==> words.contains(sought) || word == sought,
{
    let more = words.push(word);
    assert(more[words.len() as int] == word);
    assert(forall|k: int| 0 <= k < words.len() ==> more[k] == #[trigger] words[k]);
}

/// A machine that is to be started has a name that leads to no other directory.
pub proof fn machine_name_is_no_path(arguments: Seq<Seq<char>>)
    requires
        arguments_of(arguments) is Valid,
    ensures
        is_machine_name(arguments_of(arguments)->Valid_0.machine_name),
        arguments.skip(1).contains(arguments_of(arguments)->Valid_0.machine_name),
{
    names_are_words(arguments.skip(1));
}

/// Names are words.
proof fn names_are_words(words: Seq<Seq<char>>)
    ensures
        forall|i: int| 0 <= i < names(words).len() ==> words.contains(#[trigger] names(words)[i]),
    decreases words.len(),
{
    if words.len() > 0 {
        let front = words.drop_last();
        names_are_words(front);
        assert forall|i: int| 0 <= i < names(words).len() implies words.contains(
            #[trigger] names(words)[i],
        ) by {
            appended_word(front, words.last(), names(words)[i]);
            assert(front.push(words.last()) =~= words);
            if i < names(front).len() {
                assert(front.contains(names(front)[i]));
            }
        }
    }
}

/// The order of the options does not matter, nor does where the machine is named:
/// exchanging two neighbours leaves valid arguments with the same meaning.
pub proof fn options_may_stand_anywhere(arguments: Seq<Seq<char>>, at: int)
    requires
        arguments_of(arguments) is Valid,
        1 <= at < arguments.len() - 1,
    ensures
        arguments_of(arguments.update(at, arguments[at + 1]).update(at + 1, arguments[at]))
            == arguments_of(arguments),
{
    let exchanged = arguments.update(at, arguments[at + 1]).update(at + 1, arguments[at]);
    let words = arguments.skip(1);
    let others = exchanged.skip(1);
    let place = at - 1;
    assert(others =~= words.update(place, words[place + 1]).update(place + 1, words[place]));
    assert(forall|i: int| 0 <= i < words.len() ==> #[trigger] words[i] != "-h"@) by {
        assert(!words.contains("-h"@));
    }
    assert forall|i: int| 0 <= i < others.len() implies #[trigger] others[i] != "-h"@ by {
        assert(others[i] == words[i] || others[i] == words[place] || others[i] == words[place + 1]);
    }
    words_before_help(words, words.len() as int);
    words_before_help(others, others.len() as int);
    assert(words.take(words.len() as int) =~= words);
    assert(others.take(others.len() as int) =~= others);
    names_of_exchanged(words, place);
    assert forall|word: Seq<char>| words.contains(word) <==> others.contains(word) by {
        if words.contains(word) {
            let i = choose|i: int| 0 <= i < words.len() && words[i] == word;
            let j = if i == place {
                place + 1
            } else if i == place + 1 {
                place
            } else {
                i
            };
            assert(others[j] == word);
        }
        if others.contains(word) {
            let i = choose|i: int| 0 <= i < others.len() && others[i] == word;
            let j = if i == place {
                place + 1
            } else if i == place + 1 {
                place
            } else {
                i
            };
            assert(words[j] == word);
        }
    }
    assert(!others.contains("-h"@)) by {
        assert(words.contains("-h"@) <==> others.contains("-h"@));
    }
}

/// Exchanging two neighbours among words with at most one name leaves the names
/// as they are.
proof fn names_of_exchanged(words: Seq<Seq<char>>, at: int)
    requires
        0 <= at < words.len() - 1,
        names(words).len() <= 1,
    ensures
        names(words.update(at, words[at + 1]).update(at + 1, words[at])) == names(words),
    decreases words.len(),
{
    let others = words.update(at, words[at + 1]).update(at + 1, words[at]);
    let front = words.drop_last();
    if at + 1 == words.len() - 1 {
        let start = front.drop_last();
        assert(others.drop_last().drop_last() =~= start);
        assert(others.drop_last() =~= start.push(words.last()));
        assert(front =~= start.push(words[at]));
        assert(others.last() == words[at]);
        assert(words.last() == words[at + 1]);
        assert(names(others.drop_last()) == if is_option(words.last()) {
            names(start)
        } else {
            names(start).push(words.last())
        });
    } else {
        assert(others.drop_last() =~= front.update(at, front[at + 1]).update(at + 1, front[at]));
        names_of_exchanged(front, at);
    }
}

/// The names in two rows of words are those of the first and then those of the
/// second. A word alone is a name unless it is an option.
proof fn names_in_turn(a: Seq<Seq<char>>, b: Seq<Seq<char>>)
    ensures
        names(a + b) == names(a) + names(b),
    decreases b.len(),
{
    if b.len() == 0 {
        assert(a + b =~= a);
        assert(names(a) + names(b) =~= names(a));
    } else {
        assert((a + b).drop_last() =~= a + b.drop_last());
        assert((a + b).last() == b.last());
        names_in_turn(a, b.drop_last());
        assert(names(a + b) =~= names(a) + names(b));
    }
}

/// Options are no names.
proof fn options_are_no_names(words: Seq<Seq<char>>)
    requires
        forall|i: int|
            0 <= i < words.len() ==> #[trigger] words[i] == "-v"@ || words[i] == "-d"@,
    ensures
        names(words).len() == 0,
    decreases words.len(),
{
    if words.len() > 0 {
        let front = words.drop_last();
        assert forall|i: int| 0 <= i < front.len() implies #[trigger] front[i] == "-v"@ || front[i]
            == "-d"@ by {
            assert(front[i] == words[i]);
        }
        options_are_no_names(front);
        assert(words[words.len() - 1] == words.last());
    }
}

/// A name among options is the only one.
proof fn only_name(words: Seq<Seq<char>>, at: int)
    requires
        0 <= at < words.len(),
        words[at] != "-v"@ && words[at] != "-d"@ && words[at] != "-h"@,
        forall|i: int|
            0 <= i < words.len() && i != at ==> #[trigger] words[i] == "-v"@ || words[i] == "-d"@,
    ensures
        names(words) == seq![words[at]],
{
    let a = words.take(at);
    let one = seq![words[at]];
    let b = words.skip(at + 1);
    assert(words =~= a + one + b);
    names_in_turn(a + one, b);
    names_in_turn(a, one);
    options_are_no_names(a);
    options_are_no_names(b);
    assert(one.drop_last() =~= Seq::<Seq<char>>::empty());
    assert(names(one) =~= one) by {
        reveal_with_fuel(names, 2);
    }
    assert(names(words) =~= one);
}

/// Arguments without a call for help and with one word that is neither `-v` nor `-d`
/// start the machine of this name, unless the name holds a slash or a null
/// character. What else is wanted is told by whether `-d` and `-v` are there.
/// Without such a word, the name is missing.
pub proof fn one_word_names_machine(path: Seq<char>, words: Seq<Seq<char>>, at: int)
    requires
        forall|i: int| 0 <= i < words.len() ==> #[trigger] words[i] != "-h"@,
        -1 <= at < words.len(),
        at >= 0 ==> words[at] != "-v"@ && words[at] != "-d"@,
        forall|i: int|
            0 <= i < words.len() && i != at ==> #[trigger] words[i] == "-v"@ || words[i] == "-d"@,
    ensures
        ({
            let found = arguments_of(seq![path] + words);
            if at < 0 {
                found == ArgumentsView::Invalid(program(path), "Missing the guest machine name"@)
            } else if words[at].contains('/') || words[at].contains('\0') {
                found == ArgumentsView::Invalid(
                    program(path),
                    "The machine name contains invalid characters."@,
                )
            } else {
                found == ArgumentsView::Valid(
                    ValidArgsView {
                        program_name: program(path),
                        debug: exists|i: int| 0 <= i < words.len() && #[trigger] words[i] == "-d"@,
                        machine_name: words[at],
                        verbose: exists|i: int|
                            0 <= i < words.len() && #[trigger] words[i] == "-v"@,
                    },
                )
            }
        }),
        arguments_of(Seq::<Seq<char>>::empty()) == ArgumentsView::Empty,
{
    let arguments = seq![path] + words;
    assert(arguments.skip(1) =~= words);
    assert(arguments[0] == path);
    words_before_help(words, words.len() as int);
    assert(words.take(words.len() as int) =~= words);
    if at < 0 {
        assert forall|i: int| 0 <= i < words.len() implies #[trigger] words[i] == "-v"@ || words[i]
            == "-d"@ by {
            assert(i != at);
        }
        options_are_no_names(words);
    } else {
        assert(words[at] != "-h"@);
        only_name(words, at);
    }
    assert(words.contains("-d"@) <==> exists|i: int|
        0 <= i < words.len() && #[trigger] words[i] == "-d"@);
    assert(words.contains("-v"@) <==> exists|i: int|
        0 <= i < words.len() && #[trigger] words[i] == "-v"@);
}

/// Help is given where it is asked for before a second name comes. A second name
/// that comes before makes too many parameters.
pub proof fn help_or_second_name(path: Seq<char>, words: Seq<Seq<char>>, at: int, first: int)
    requires
        0 <= at < words.len(),
        -1 <= first < at,
        forall|i: int| 0 <= i < at ==> #[trigger] words[i] != "-h"@,
        first >= 0 ==> words[first] != "-v"@ && words[first] != "-d"@,
        forall|i: int|
            0 <= i < at && i != first ==> #[trigger] words[i] == "-v"@ || words[i] == "-d"@,
    ensures
        words[at] == "-h"@ ==> arguments_of(seq![path] + words) == ArgumentsView::Usage(
            program(path),
        ),
        words[at] != "-h"@ && words[at] != "-v"@ && words[at] != "-d"@ && first >= 0
            ==> arguments_of(seq![path] + words) == ArgumentsView::Invalid(
            program(path),
            "Too many parameters."@,
        ),
{
    let arguments = seq![path] + words;
    assert(arguments.skip(1) =~= words);
    assert(arguments[0] == path);
    let seen = words.take(at);
    assert forall|i: int| 0 <= i < seen.len() implies #[trigger] seen[i] == words[i] by {}
    if first < 0 {
        assert forall|i: int| 0 <= i < seen.len() implies #[trigger] seen[i] == "-v"@ || seen[i]
            == "-d"@ by {
            assert(words[i] != "-h"@ && i != first);
        }
        options_are_no_names(seen);
    } else {
        assert(words[first] != "-h"@);
        assert forall|i: int| 0 <= i < seen.len() && i != first implies #[trigger] seen[i] == "-v"@
            || seen[i] == "-d"@ by {
            assert(words[i] != "-h"@);
        }
        only_name(seen, first);
    }
    if words[at] == "-h"@ {
        words_before_help(words, at);
        assert(words.contains("-h"@));
    } else if words[at] != "-v"@ && words[at] != "-d"@ && first >= 0 {
        let more = words.take(at + 1);
        assert(more =~= seen.push(words[at]));
        assert(more.drop_last() =~= seen);
        assert(names(more).len() == 2);
        words_before_help(words, at + 1);
        names_grow(before_help(words), at + 1);
    }
}

/// The program is called by the last name of the path that it was started by, and
/// `qemu-launcher` if the path has none.
pub proof fn program_is_named_by_its_path(directory: Seq<char>, name: Seq<char>)
    requires
        name.len() > 0,
        !name.contains('/'),
        name != seq!['.'],
        name != seq!['.', '.'],
    ensures
        program(name) == name,
        program(directory + seq!['/'] + name) == name,
        program(seq!['.', '.']) == "qemu-launcher"@,
        program(Seq::<char>::empty()) == "qemu-launcher"@,
{
    let nothing = Seq::<char>::empty();
    crate::path::last_name_names_file(directory, name);
    crate::path::slashes_separate_names(nothing, nothing);
}

/// Debugging asks for additional information too.
pub proof fn debugging_is_verbose(arguments: &ValidArgs, verbose: bool, debug: bool)
    requires
        call_ensures(ValidArgs::is_verbose_mode, (arguments,), verbose),
        call_ensures(ValidArgs::is_debug_enabled, (arguments,), debug),
    ensures
        debug == arguments@.debug,
        debug ==> verbose,
        !debug ==> verbose == arguments@.verbose,
{
}

} // verus!
