//! Lists of CPUs as the kernel writes them, such as `0-3,6`.
use crate::text::{join_texts, parse_usize, split_text, trim_text, usize_text};
use vstd::prelude::*;

verus! {

/// The numbers from `first` to `last`, both of them included.
pub open spec fn inclusive_range(first: usize, last: usize) -> Seq<usize> {
    let len: nat = if first <= last { (last - first + 1) as nat } else { 0 };
    Seq::new(len, |i: int| (first + i) as usize)
}

/// The CPUs of one group: a number, or two numbers with a dash between them.
/// The largest number that the machine can hold ends no range.
pub open spec fn group_cpus(group: Seq<char>) -> Option<Seq<usize>> {
    let ends = crate::text::split(group, '-');
    if ends.len() == 1 {
        match crate::text::usize_of(ends[0]) {
            Some(cpu) => Some(seq![cpu]),
            None => None,
        }
    } else if ends.len() == 2 {
        match (crate::text::usize_of(ends[0]), crate::text::usize_of(ends[1])) {
            (Some(first), Some(last)) => if last < usize::MAX {
                Some(inclusive_range(first, last))
            } else {
                None
            },
            _ => None,
        }
    } else {
        None
    }
}

/// The CPUs of a row of groups, one group after the other.
pub open spec fn groups_cpus(groups: Seq<Seq<char>>) -> Option<Seq<usize>>
    decreases groups.len(),
{
    if groups.len() == 0 {
        Some(Seq::<usize>::empty())
    } else {
        match (groups_cpus(groups.drop_last()), group_cpus(groups.last())) {
            (Some(before), Some(cpus)) => Some(before + cpus),
            _ => None,
        }
    }
}

/// The CPUs that a text lists: groups, with commas between them. An empty text
/// lists none. A malformed text lists nothing that can be told.
pub open spec fn listed_cpus(text: Seq<char>) -> Option<Seq<usize>> {
    if text.len() == 0 {
        Some(Seq::<usize>::empty())
    } else {
        groups_cpus(crate::text::split(text, ','))
    }
}

/// Whether a text is a well-formed list of CPUs.
pub open spec fn is_cpus_list(text: Seq<char>) -> bool {
    listed_cpus(text) is Some
}

/// The decimal notations of some CPUs.
pub open spec fn cpu_names(cpus: Seq<usize>) -> Seq<Seq<char>> {
    Seq::new(cpus.len(), |i: int| crate::text::decimal(cpus[i] as nat))
}

/// The text that lists some CPUs one by one.
pub open spec fn cpus_text(cpus: Seq<usize>) -> Seq<char> {
    crate::text::join(cpu_names(cpus), seq![','])
}

/// The CPUs without the given one.
pub open spec fn without_cpu(cpus: Seq<usize>, id: usize) -> Seq<usize>
    decreases cpus.len(),
{
    if cpus.len() == 0 {
        cpus
    } else if cpus.last() == id {
        without_cpu(cpus.drop_last(), id)
    } else {
        without_cpu(cpus.drop_last(), id).push(cpus.last())
    }
}

/// A malformed group makes the whole list malformed.
proof fn groups_with_malformed_group(groups: Seq<Seq<char>>, n: int)
    requires
        0 <= n < groups.len(),
        group_cpus(groups[n]) is None,
    ensures
        groups_cpus(groups) is None,
    decreases groups.len(),
{
    if n < groups.len() - 1 {
        groups_with_malformed_group(groups.drop_last(), n);
    }
}

/// Reads one group.
fn parse_group(group: &str) -> (r: Option<Vec<usize>>)
    ensures
        match r {
            Some(cpus) => group_cpus(group@) == Some(cpus@),
            None => group_cpus(group@) is None,
        },
{
    let ends = split_text(group, '-');
    let ghost pieces = crate::text::split(group@, '-');
    assert(pieces.len() == ends@.len());
    assert(forall|i: int| 0 <= i < ends@.len() ==> pieces[i] == (#[trigger] ends@[i])@);
    let mut cpus: Vec<usize> = Vec::new();
    if ends.len() == 1 {
        match parse_usize(ends[0].as_str()) {
            Some(cpu) => {
                cpus.push(cpu);
                assert(cpus@ =~= seq![cpu]);
                Some(cpus)
            },
            None => None,
        }
    } else if ends.len() == 2 {
        match (parse_usize(ends[0].as_str()), parse_usize(ends[1].as_str())) {
            (Some(first), Some(last)) => {
                if last == usize::MAX {
                    return None;
                }
                let mut cpu: usize = first;
                while cpu <= last
                    invariant
                        last < usize::MAX,
                        first <= cpu,
                        if first <= last { cpu <= last + 1 } else { cpu == first },
                        cpus@ =~= Seq::new((cpu - first) as nat, |i: int| (first + i) as usize),
                    decreases last + 1 - cpu,
                {
                    cpus.push(cpu);
                    cpu = cpu + 1;
                }
                assert(cpus@ =~= inclusive_range(first, last));
                Some(cpus)
            },
            _ => None,
        }
    } else {
        None
    }
}

/// Reads a list of CPUs, if it is well-formed.
pub fn read_cpus_list(text: &str) -> (r: Option<Vec<usize>>)
    ensures
        match r {
            Some(cpus) => listed_cpus(text@) == Some(cpus@),
            None => listed_cpus(text@) is None,
        },
{
    let mut cpus: Vec<usize> = Vec::new();
    if text.is_empty() {
        return Some(cpus);
    }
    let groups = split_text(text, ',');
    let ghost all = crate::text::split(text@, ',');
    assert(all.len() == groups@.len());
    assert(all.take(0) =~= Seq::<Seq<char>>::empty());
    let mut i: usize = 0;
    while i < groups.len()
        invariant
            i <= groups@.len(),
            text@.len() > 0,
            all == crate::text::split(text@, ','),
            crate::text::texts(groups@) == all,
            groups_cpus(all.take(i as int)) == Some(cpus@),
        decreases groups@.len() - i,
    {
        proof {
            assert(all[i as int] == groups@[i as int]@);
            assert(all.take(i + 1).drop_last() =~= all.take(i as int));
        }
        match parse_group(groups[i].as_str()) {
            Some(mut more) => {
                cpus.append(&mut more);
            },
            None => {
                proof {
                    groups_with_malformed_group(all, i as int);
                }
                return None;
            },
        }
        i = i + 1;
    }
    assert(all.take(groups@.len() as int) =~= all);
    Some(cpus)
}

/// Whether a text is a well-formed list of CPUs.
pub fn is_valid_cpus_list(text: &str) -> (r: bool)
    ensures
        r == is_cpus_list(text@),
{
    read_cpus_list(text).is_some()
}

/// Reads a list of CPUs.
pub fn parse_cpus_list(spec: &str) -> (r: Vec<usize>)
    requires
        is_cpus_list(spec@),
    ensures
        Some(r@) == listed_cpus(spec@),
{
    match read_cpus_list(spec) {
        Some(cpus) => cpus,
        None => vstd::pervasive::unreached(),
    }
}

/// Reads the CPUs that a file of the kernel lists.
pub fn parse_cpus_file(contents: &str) -> (r: Vec<usize>)
    requires
        is_cpus_list(crate::text::trim(contents@)),
    ensures
        Some(r@) == listed_cpus(crate::text::trim(contents@)),
{
    let text = trim_text(contents);
    parse_cpus_list(text.as_str())
}

/// Lists some CPUs one by one.
pub fn list_cpus(cpus: &Vec<usize>) -> (r: String)
    ensures
        r@ == cpus_text(cpus@),
{
    let mut names: Vec<String> = Vec::new();
    let mut i: usize = 0;
    while i < cpus.len()
        invariant
            i <= cpus@.len(),
            names@.len() == i,
            forall|j: int| 0 <= j < i ==> (#[trigger] names@[j])@ == crate::text::decimal(cpus@[j] as nat),
        decreases cpus@.len() - i,
    {
        names.push(usize_text(cpus[i]));
        i = i + 1;
    }
    proof {
        assert(crate::text::texts(names@) =~= cpu_names(cpus@));
        reveal_strlit(",");
        assert(","@ =~= seq![',']);
    }
    join_texts(&names, ",")
}

/// Takes every occurrence of a CPU out of a list.
pub fn remove_cpu(cpus: &Vec<usize>, id: usize) -> (r: Vec<usize>)
    ensures
        r@ == without_cpu(cpus@, id),
{
    let mut kept: Vec<usize> = Vec::new();
    let mut i: usize = 0;
    assert(cpus@.take(0) =~= Seq::<usize>::empty());
    while i < cpus.len()
        invariant
            i <= cpus@.len(),
            kept@ == without_cpu(cpus@.take(i as int), id),
        decreases cpus@.len() - i,
    {
        assert(cpus@.take(i + 1).drop_last() =~= cpus@.take(i as int));
        if cpus[i] != id {
            kept.push(cpus[i]);
        }
        i = i + 1;
    }
    assert(cpus@.take(cpus@.len() as int) =~= cpus@);
    kept
}

/// Whether two lists hold the same CPUs in the same order.
pub fn same_cpus(a: &Vec<usize>, b: &Vec<usize>) -> (r: bool)
    ensures
        r == (a@ == b@),
{
    if a.len() != b.len() {
        return false;
    }
    let mut i: usize = 0;
    while i < a.len()
        invariant
            i <= a@.len(),
            a@.len() == b@.len(),
            forall|j: int| 0 <= j < i ==> a@[j] == b@[j],
        decreases a@.len() - i,
    {
        if a[i] != b[i] {
            return false;
        }
        i = i + 1;
    }
    assert(a@ =~= b@);
    true
}

/// Groups of one CPU each list these CPUs.
proof fn single_groups(cpus: Seq<usize>)
    ensures
        groups_cpus(cpu_names(cpus)) == Some(cpus),
    decreases cpus.len(),
{
    let names = cpu_names(cpus);
    if cpus.len() > 0 {
        let last = cpus.last();
        let name = crate::text::decimal(last as nat);
        single_groups(cpus.drop_last());
        assert(names.drop_last() =~= cpu_names(cpus.drop_last()));
        crate::text::usize_is_read_back(last);
        crate::text::decimal_is_read_back(last as nat);
        assert(!name.contains('-')) by {
            assert(forall|k: int| 0 <= k < name.len() ==> crate::text::is_digit(#[trigger] name[k]));
        }
        let parts = seq![name];
        assert(crate::text::join(parts, seq!['-']) == name);
        crate::text::split_undoes_join(parts, '-');
        assert(cpus.drop_last() + seq![last] =~= cpus);
    } else {
        assert(cpus =~= Seq::<usize>::empty());
    }
}

/// A list of CPUs that was written one by one is read back as it was.
pub proof fn written_cpus_are_read_back(cpus: Seq<usize>)
    ensures
        listed_cpus(cpus_text(cpus)) == Some(cpus),
{
    let names = cpu_names(cpus);
    if cpus.len() == 0 {
        assert(cpus =~= Seq::<usize>::empty());
    } else {
        assert forall|i: int| 0 <= i < names.len() implies !(#[trigger] names[i]).contains(',') by {
            crate::text::decimal_is_read_back(cpus[i] as nat);
            let name = names[i];
            assert(forall|k: int| 0 <= k < name.len() ==> crate::text::is_digit(#[trigger] name[k]));
        }
        crate::text::split_undoes_join(names, ',');
        single_groups(cpus);
        if cpus_text(cpus).len() == 0 {
            assert(cpus_text(cpus) =~= Seq::<char>::empty());
            crate::text::decimal_is_read_back(cpus[0] as nat);
            assert(crate::text::split(cpus_text(cpus), ',')[0].len() == 0);
            assert(names[0].len() > 0);
        }
    }
}

/// The text of a list that was written one by one is all digits and commas.
proof fn written_cpus_hold_no_space(cpus: Seq<usize>)
    ensures
        forall|k: int|
            0 <= k < cpus_text(cpus).len() ==> !crate::text::is_white_space(
                #[trigger] cpus_text(cpus)[k],
            ),
    decreases cpus.len(),
{
    let names = cpu_names(cpus);
    let text = cpus_text(cpus);
    if cpus.len() > 0 {
        let front = cpus.drop_last();
        let name = names.last();
        written_cpus_hold_no_space(front);
        assert(names.drop_last() =~= cpu_names(front));
        crate::text::decimal_is_read_back(cpus.last() as nat);
        assert(forall|k: int| 0 <= k < name.len() ==> crate::text::is_digit(#[trigger] name[k]));
        assert forall|k: int| 0 <= k < text.len() implies !crate::text::is_white_space(
            #[trigger] text[k],
        ) by {
            let start = text.len() - name.len();
            if k >= start {
                assert(text[k] == name[k - start]);
            } else if k < cpus_text(front).len() {
                assert(text[k] == cpus_text(front)[k]);
            }
        }
    }
}

/// A file that lists CPUs one by one is read back as it was written.
pub proof fn written_file_is_read_back(cpus: Seq<usize>)
    ensures
        listed_cpus(crate::text::trim(cpus_text(cpus))) == Some(cpus),
{
    let text = cpus_text(cpus);
    written_cpus_are_read_back(cpus);
    written_cpus_hold_no_space(cpus);
    if text.len() > 0 {
        assert(!crate::text::is_white_space(text[0]));
        assert(!crate::text::is_white_space(text[text.len() - 1]));
    }
    assert(crate::text::trim(text) == text);
}

/// A list with one more CPU at the end holds this CPU and those of the list.
proof fn appended_cpu(cpus: Seq<usize>, id: usize, cpu: usize)
    ensures
        cpus.push(id).contains(cpu) <==> cpus.contains(cpu) || cpu == id,
{
    let more = cpus.push(id);
    assert(more[cpus.len() as int] == id);
    assert(forall|k: int| 0 <= k < cpus.len() ==> more[k] == #[trigger] cpus[k]);
}

/// Taking a CPU out of a list leaves the other CPUs, and no others.
pub proof fn taken_cpu_is_gone(cpus: Seq<usize>, id: usize)
    ensures
        !without_cpu(cpus, id).contains(id),
        forall|cpu: usize|
            cpu != id ==> (#[trigger] without_cpu(cpus, id).contains(cpu) <==> cpus.contains(cpu)),
    decreases cpus.len(),
{
    if cpus.len() > 0 {
        let front = cpus.drop_last();
        taken_cpu_is_gone(front, id);
        assert(cpus =~= front.push(cpus.last()));
        let rest = without_cpu(front, id);
        assert forall|cpu: usize| cpu != id implies (#[trigger] without_cpu(cpus, id).contains(cpu)
            <==> cpus.contains(cpu)) by {
            appended_cpu(front, cpus.last(), cpu);
            appended_cpu(rest, cpus.last(), cpu);
            assert(rest.contains(cpu) <==> front.contains(cpu));
        }
        appended_cpu(rest, cpus.last(), id);
    }
}

/// Taking a CPU out of a list that lacks it changes nothing.
pub proof fn absent_cpu_is_not_taken(cpus: Seq<usize>, id: usize)
    requires
        !cpus.contains(id),
    ensures
        without_cpu(cpus, id) == cpus,
    decreases cpus.len(),
{
    if cpus.len() > 0 {
        let front = cpus.drop_last();
        assert(cpus[cpus.len() - 1] != id);
        assert forall|k: int| 0 <= k < front.len() implies front[k] != id by {
            assert(cpus[k] != id);
        }
        absent_cpu_is_not_taken(front, id);
        assert(front.push(cpus.last()) =~= cpus);
    }
}

/// A CPU that is taken out of a list and later put back leaves a list of the
/// same CPUs, if the list was written to a file and read again in between.
pub proof fn returned_cpu_restores_list(cpus: Seq<usize>, id: usize)
    requires
        cpus.contains(id),
    ensures
        ({
            let reread = listed_cpus(crate::text::trim(cpus_text(without_cpu(cpus, id))));
            &&& reread is Some
            &&& forall|cpu: usize| #[trigger] reread->0.push(id).contains(cpu) <==> cpus.contains(cpu)
        }),
{
    written_file_is_read_back(without_cpu(cpus, id));
    taken_cpu_is_gone(cpus, id);
    let rest = without_cpu(cpus, id);
    assert forall|cpu: usize| #[trigger] rest.push(id).contains(cpu) <==> cpus.contains(cpu) by {
        appended_cpu(rest, id, cpu);
    }
}

/// A CPU that is taken out of a list is no longer counted; the others are counted
/// as before.
proof fn count_without_cpu(cpus: Seq<usize>, id: usize, cpu: usize)
    ensures
        without_cpu(cpus, id).to_multiset().count(cpu) == if cpu == id {
            0
        } else {
            cpus.to_multiset().count(cpu)
        },
    decreases cpus.len(),
{
    broadcast use vstd::seq_lib::group_to_multiset_ensures;

    if cpus.len() > 0 {
        let front = cpus.drop_last();
        count_without_cpu(front, id, cpu);
        assert(front.push(cpus.last()) =~= cpus);
    }
}

/// A CPU that a list names once, and that is taken out of it and put back, leaves
/// a list that names each CPU as often as before. In between, the CPU is not
/// listed.
pub proof fn returned_cpu_restores_counts(cpus: Seq<usize>, id: usize)
    requires
        cpus.to_multiset().count(id) == 1,
    ensures
        !without_cpu(cpus, id).contains(id),
        without_cpu(cpus, id).push(id).to_multiset() == cpus.to_multiset(),
{
    broadcast use vstd::seq_lib::group_to_multiset_ensures;

    taken_cpu_is_gone(cpus, id);
    let rest = without_cpu(cpus, id);
    assert forall|cpu: usize| rest.push(id).to_multiset().count(cpu) == cpus.to_multiset().count(cpu) by {
        count_without_cpu(cpus, id, cpu);
    }
    assert(rest.push(id).to_multiset() =~= cpus.to_multiset());
}

/// A list with one more CPU at the end is written as the list and, behind a comma,
/// the CPU.
pub proof fn appended_cpu_is_written_last(cpus: Seq<usize>, id: usize)
    ensures
        cpus_text(cpus.push(id)) == if cpus.len() == 0 {
            crate::text::decimal(id as nat)
        } else {
            cpus_text(cpus) + ","@ + crate::text::decimal(id as nat)
        },
{
    let names = cpu_names(cpus.push(id));
    assert(names.drop_last() =~= cpu_names(cpus));
    assert(names.last() == crate::text::decimal(id as nat));
    reveal_strlit(",");
    assert(","@ =~= seq![',']);
}

/// The CPUs of two rows of groups are those of the first and then those of the
/// second. If one of them is malformed, so is the whole.
proof fn groups_in_turn(a: Seq<Seq<char>>, b: Seq<Seq<char>>)
    ensures
        groups_cpus(a + b) == match (groups_cpus(a), groups_cpus(b)) {
            (Some(x), Some(y)) => Some(x + y),
            _ => None,
        },
    decreases b.len(),
{
    if b.len() == 0 {
        assert(a + b =~= a);
        if let Some(x) = groups_cpus(a) {
            assert(x + Seq::<usize>::empty() =~= x);
        }
    } else {
        assert((a + b).drop_last() =~= a + b.drop_last());
        assert((a + b).last() == b.last());
        groups_in_turn(a, b.drop_last());
        if let (Some(x), Some(y), Some(z)) = (
            groups_cpus(a),
            groups_cpus(b.drop_last()),
            group_cpus(b.last()),
        ) {
            assert(x + y + z =~= x + (y + z));
        }
    }
}

/// A text with a comma lists what is listed before the comma and then what is
/// listed behind it. Both have to be there and to be well-formed.
pub proof fn commas_separate_groups(a: Seq<char>, b: Seq<char>)
    ensures
        listed_cpus(Seq::<char>::empty()) == Some(Seq::<usize>::empty()),
        listed_cpus(a + seq![','] + b) == if a.len() == 0 || b.len() == 0 {
            None
        } else {
            match (listed_cpus(a), listed_cpus(b)) {
                (Some(x), Some(y)) => Some(x + y),
                _ => None,
            }
        },
{
    let whole = a + seq![','] + b;
    crate::text::separator_separates(a, b, ',');
    groups_in_turn(crate::text::split(a, ','), crate::text::split(b, ','));
    let nothing = Seq::<char>::empty();
    let one = seq![nothing];
    assert(crate::text::split(nothing, '-') =~= one);
    crate::text::number_grows_by_digits(nothing, '0');
    assert(group_cpus(nothing) is None);
    assert(groups_cpus(one) is None) by {
        groups_with_malformed_group(one, 0);
    }
    if a.len() == 0 {
        assert(a =~= nothing);
        assert(crate::text::split(a, ',') =~= one);
    }
    if b.len() == 0 {
        assert(b =~= nothing);
        assert(crate::text::split(b, ',') =~= one);
    }
}

/// A number lists one CPU. Two numbers with a dash between them list the CPUs from
/// the first to the second, both included, one after the other, and none if the
/// second is smaller; only the largest number of the machine may not end them.
/// Anything else between commas is malformed.
pub proof fn numbers_and_ranges_list_cpus(a: Seq<char>, b: Seq<char>, rest: Seq<char>)
    requires
        !a.contains(',') && !a.contains('-'),
        !b.contains(',') && !b.contains('-'),
        !rest.contains(','),
    ensures
        a.len() > 0 ==> listed_cpus(a) == match crate::text::usize_of(a) {
            Some(cpu) => Some(seq![cpu]),
            None => None,
        },
        ({
            let found = listed_cpus(a + seq!['-'] + b);
            match (crate::text::usize_of(a), crate::text::usize_of(b)) {
                (Some(first), Some(last)) => if last == usize::MAX {
                    found is None
                } else {
                    &&& found is Some
                    &&& found->0.len() == if first <= last {
                        last - first + 1
                    } else {
                        0
                    }
                    &&& forall|i: int|
                        0 <= i < found->0.len() ==> #[trigger] found->0[i] == first + i
                },
                _ => found is None,
            }
        }),
        listed_cpus(a + seq!['-'] + b + seq!['-'] + rest) is None,
{
    let range = a + seq!['-'] + b;
    let more = range + seq!['-'] + rest;
    let nothing = Seq::<char>::empty();
    crate::text::separator_separates(a, nothing, ',');
    crate::text::separator_separates(a, b, '-');
    crate::text::separator_separates(b, nothing, '-');
    crate::text::separator_separates(range, rest, '-');
    crate::text::split_is_never_empty(rest, '-');
    assert forall|i: int| 0 <= i < range.len() implies range[i] != ',' by {
        if i < a.len() {
            assert(a.contains(a[i]));
        } else if i > a.len() {
            assert(b.contains(b[i - a.len() - 1]));
        }
    }
    assert(!range.contains(','));
    assert forall|i: int| 0 <= i < more.len() implies more[i] != ',' by {
        if i < range.len() {
            assert(range.contains(range[i]));
        } else if i > range.len() {
            assert(rest.contains(rest[i - range.len() - 1]));
        }
    }
    assert(!more.contains(','));
    crate::text::separator_separates(range, nothing, ',');
    crate::text::separator_separates(more, nothing, ',');
    assert(crate::text::split(a, '-') =~= seq![a]);
    assert(crate::text::split(range, '-') =~= seq![a, b]);
    assert(crate::text::split(more, '-').len() >= 3);
    single_group(a);
    single_group(range);
    single_group(more);
}

/// A row of one group lists the CPUs of this group.
proof fn single_group(group: Seq<char>)
    ensures
        groups_cpus(seq![group]) == group_cpus(group),
{
    let groups = seq![group];
    assert(groups.drop_last() =~= Seq::<Seq<char>>::empty());
    assert(groups_cpus(groups.drop_last()) == Some(Seq::<usize>::empty()));
    if let Some(cpus) = group_cpus(group) {
        assert(Seq::<usize>::empty() + cpus =~= cpus);
    }
}

/// Taking a CPU out of two lists one after the other takes it out of each of them.
/// From a single CPU nothing is left if it is that one, and itself if not.
pub proof fn cpus_are_taken_one_by_one(a: Seq<usize>, b: Seq<usize>, cpu: usize, id: usize)
    ensures
        without_cpu(a + b, id) == without_cpu(a, id) + without_cpu(b, id),
        without_cpu(seq![cpu], id) == if cpu == id {
            Seq::<usize>::empty()
        } else {
            seq![cpu]
        },
    decreases b.len(),
{
    let one = seq![cpu];
    reveal_with_fuel(without_cpu, 2);
    assert(one.drop_last() =~= Seq::<usize>::empty());
    assert(Seq::<usize>::empty().push(cpu) =~= one);
    if b.len() == 0 {
        assert(a + b =~= a);
        assert(without_cpu(a, id) + without_cpu(b, id) =~= without_cpu(a, id));
    } else {
        assert((a + b).drop_last() =~= a + b.drop_last());
        assert((a + b).last() == b.last());
        cpus_are_taken_one_by_one(a, b.drop_last(), cpu, id);
        assert(without_cpu(a + b, id) =~= without_cpu(a, id) + without_cpu(b, id));
    }
}

} // verus!
