//! Text: splitting, joining, trimming, lines and decimal numbers.
use vstd::prelude::*;

verus! {

/// `String::push` of the standard library: appends one character at the end.
pub assume_specification[ String::push ](text: &mut String, ch: char)
    ensures
        final(text)@ == old(text)@.push(ch),
;

/// The contents of a sequence of strings.
pub open spec fn texts(strings: Seq<String>) -> Seq<Seq<char>> {
    Seq::new(strings.len(), |i: int| strings[i]@)
}

/// The characters of a text, one by one.
pub fn characters(text: &str) -> (r: Vec<char>)
    ensures
        r@ == text@,
{
    let mut out: Vec<char> = Vec::new();
    for c in it: text.chars()
        invariant
            out@ == it.seq().take(it.index() as int),
    {
        out.push(c);
    }
    assert(out@ =~= text@);
    out
}

/// The string made of the characters from `from` up to, but without, `to`.
pub fn string_from(chars: &Vec<char>, from: usize, to: usize) -> (r: String)
    requires
        from <= to <= chars@.len(),
    ensures
        r@ == chars@.subrange(from as int, to as int),
{
    let mut out = String::new();
    let mut i: usize = from;
    while i < to
        invariant
            from <= i <= to <= chars@.len(),
            out@ == chars@.subrange(from as int, i as int),
        decreases to - i,
    {
        out.push(chars[i]);
        i = i + 1;
    }
    out
}

/// Whether two texts are the same.
pub fn same_text(a: &str, b: &str) -> (r: bool)
    ensures
        r == (a@ == b@),
{
    a.to_owned() == b.to_owned()
}

/// Whether a text contains the given character.
pub fn contains_character(text: &str, ch: char) -> (r: bool)
    ensures
        r == text@.contains(ch),
{
    let chars = characters(text);
    let mut i: usize = 0;
    while i < chars.len()
        invariant
            i <= chars@.len(),
            chars@ == text@,
            forall|j: int| 0 <= j < i ==> text@[j] != ch,
        decreases chars@.len() - i,
    {
        if chars[i] == ch {
            assert(text@[i as int] == ch);
            return true;
        }
        i = i + 1;
    }
    false
}

/// The pieces of a text between the occurrences of a separator character.
/// A text without the separator is its own, only piece.
pub open spec fn split(text: Seq<char>, sep: char) -> Seq<Seq<char>>
    decreases text.len(),
{
    if text.len() == 0 {
        seq![Seq::<char>::empty()]
    } else {
        let head = split(text.drop_last(), sep);
        if text.last() == sep {
            head.push(Seq::<char>::empty())
        } else {
            head.drop_last().push(head.last().push(text.last()))
        }
    }
}

/// The parts one after the other, with a separator between them.
pub open spec fn join(parts: Seq<Seq<char>>, sep: Seq<char>) -> Seq<char>
    decreases parts.len(),
{
    if parts.len() == 0 {
        Seq::<char>::empty()
    } else if parts.len() == 1 {
        parts[0]
    } else {
        join(parts.drop_last(), sep) + sep + parts.last()
    }
}

/// A text has at least one piece.
pub proof fn split_is_never_empty(text: Seq<char>, sep: char)
    ensures
        split(text, sep).len() > 0,
    decreases text.len(),
{
    if text.len() > 0 {
        split_is_never_empty(text.drop_last(), sep);
    }
}

/// No piece of a text holds the separator.
pub proof fn split_pieces_hold_no_separator(text: Seq<char>, sep: char)
    ensures
        forall|i: int| 0 <= i < split(text, sep).len() ==> !(#[trigger] split(text, sep)[i]).contains(sep),
    decreases text.len(),
{
    if text.len() > 0 {
        split_pieces_hold_no_separator(text.drop_last(), sep);
        split_is_never_empty(text.drop_last(), sep);
        let head = split(text.drop_last(), sep);
        if text.last() != sep {
            let piece = head.last().push(text.last());
            assert(!head[head.len() - 1].contains(sep));
            assert forall|k: int| 0 <= k < piece.len() implies piece[k] != sep by {
                if k < head.last().len() {
                    assert(head.last().contains(head.last()[k]));
                }
            }
        }
    }
}

/// Joining the pieces of a text by the separator gives the text back.
pub proof fn join_undoes_split(text: Seq<char>, sep: char)
    ensures
        join(split(text, sep), seq![sep]) == text,
    decreases text.len(),
{
    if text.len() > 0 {
        let front = text.drop_last();
        let head = split(front, sep);
        join_undoes_split(front, sep);
        split_is_never_empty(front, sep);
        if text.last() == sep {
            let whole = head.push(Seq::<char>::empty());
            assert(whole.drop_last() =~= head);
            assert(join(whole, seq![sep]) =~= front + seq![sep]);
            assert(text =~= front + seq![sep]);
        } else {
            let whole = head.drop_last().push(head.last().push(text.last()));
            assert(whole.drop_last() =~= head.drop_last());
            if head.len() == 1 {
                assert(join(whole, seq![sep]) =~= front.push(text.last()));
            } else {
                assert(join(whole, seq![sep]) =~= (join(head.drop_last(), seq![sep]) + seq![sep]
                    + head.last()).push(text.last()));
            }
            assert(text =~= front.push(text.last()));
        }
    }
}

/// Appending a piece without the separator to a text extends its last piece.
proof fn split_of_extended_text(text: Seq<char>, tail: Seq<char>, sep: char)
    requires
        !tail.contains(sep),
    ensures
        split(text + tail, sep) == split(text, sep).drop_last().push(split(text, sep).last() + tail),
    decreases tail.len(),
{
    split_is_never_empty(text, sep);
    let base = split(text, sep);
    if tail.len() == 0 {
        assert(text + tail =~= text);
        assert(base.last() + tail =~= base.last());
        assert(base.drop_last().push(base.last()) =~= base);
    } else {
        let shorter = tail.drop_last();
        assert(tail[tail.len() - 1] != sep) by {
            assert(tail.contains(tail[tail.len() - 1]));
        }
        assert(!shorter.contains(sep)) by {
            assert forall|k: int| 0 <= k < shorter.len() implies shorter[k] != sep by {
                assert(tail.contains(tail[k]));
            }
        }
        split_of_extended_text(text, shorter, sep);
        assert((text + tail).drop_last() =~= text + shorter);
        let head = split(text + shorter, sep);
        assert(head.last().push(tail.last()) =~= base.last() + tail);
        assert(head.drop_last() =~= base.drop_last());
    }
}

/// Splitting joined parts gives the parts back, if there is at least one and
/// none of them holds the separator.
pub proof fn split_undoes_join(parts: Seq<Seq<char>>, sep: char)
    requires
        parts.len() > 0,
        forall|i: int| 0 <= i < parts.len() ==> !(#[trigger] parts[i]).contains(sep),
    ensures
        split(join(parts, seq![sep]), sep) == parts,
    decreases parts.len(),
{
    let whole = join(parts, seq![sep]);
    if parts.len() == 1 {
        let empty = Seq::<char>::empty();
        split_of_extended_text(empty, parts[0], sep);
        assert(empty + parts[0] =~= parts[0]);
        assert(split(empty, sep).drop_last().push(split(empty, sep).last() + parts[0]) =~= parts);
    } else {
        let front = parts.drop_last();
        assert forall|i: int| 0 <= i < front.len() implies !(#[trigger] front[i]).contains(sep) by {
            assert(front[i] == parts[i]);
        }
        split_undoes_join(front, sep);
        let opened = join(front, seq![sep]) + seq![sep];
        assert(opened.drop_last() =~= join(front, seq![sep]));
        assert(split(opened, sep) == front.push(Seq::<char>::empty()));
        assert(!parts[parts.len() - 1].contains(sep));
        split_of_extended_text(opened, parts.last(), sep);
        assert(split(opened, sep).drop_last().push(split(opened, sep).last() + parts.last())
            =~= parts);
    }
}

/// Splits a text at every occurrence of a separator character.
pub fn split_text(text: &str, sep: char) -> (r: Vec<String>)
    ensures
        texts(r@) == split(text@, sep),
{
    let chars = characters(text);
    let mut pieces: Vec<String> = Vec::new();
    let mut piece = String::new();
    let mut i: usize = 0;
    assert(text@.take(0) =~= Seq::<char>::empty());
    assert(texts(pieces@).push(piece@) =~= split(text@.take(0), sep));
    while i < chars.len()
        invariant
            i <= chars@.len(),
            chars@ == text@,
            texts(pieces@).push(piece@) == split(text@.take(i as int), sep),
        decreases chars@.len() - i,
    {
        let ghost before = texts(pieces@).push(piece@);
        proof {
            assert(text@.take(i + 1).drop_last() =~= text@.take(i as int));
            assert(before.drop_last() =~= texts(pieces@));
        }
        if chars[i] == sep {
            pieces.push(piece);
            piece = String::new();
            assert(texts(pieces@).push(piece@) =~= before.push(Seq::<char>::empty()));
        } else {
            piece.push(chars[i]);
            assert(texts(pieces@).push(piece@) =~= before.drop_last().push(
                before.last().push(text@[i as int]),
            ));
        }
        i = i + 1;
    }
    assert(text@.take(text@.len() as int) =~= text@);
    let ghost before = texts(pieces@).push(piece@);
    pieces.push(piece);
    assert(texts(pieces@) =~= before);
    pieces
}

/// Joins texts, with a separator between them.
pub fn join_texts(parts: &Vec<String>, sep: &str) -> (r: String)
    ensures
        r@ == join(texts(parts@), sep@),
{
    let mut out = String::new();
    let mut i: usize = 0;
    let ghost all = texts(parts@);
    assert(all.take(0) =~= Seq::<Seq<char>>::empty());
    while i < parts.len()
        invariant
            i <= parts@.len(),
            all == texts(parts@),
            out@ == join(all.take(i as int), sep@),
        decreases parts@.len() - i,
    {
        proof {
            assert(all.take(i + 1).drop_last() =~= all.take(i as int));
            assert(all.take(i + 1).last() == parts@[i as int]@);
        }
        if i == 0 {
            out = parts[i].clone();
        } else {
            out.append(sep);
            out.append(parts[i].as_str());
        }
        i = i + 1;
    }
    assert(all.take(parts@.len() as int) =~= all);
    out
}

/// Whether a character is white space, as Unicode's `White_Space` property says.
pub open spec fn is_white_space(ch: char) -> bool {
    let n = ch as u32;
    ||| 0x9 <= n <= 0xd
    ||| n == 0x20
    ||| n == 0x85
    ||| n == 0xa0
    ||| n == 0x1680
    ||| 0x2000 <= n <= 0x200a
    ||| n == 0x2028
    ||| n == 0x2029
    ||| n == 0x202f
    ||| n == 0x205f
    ||| n == 0x3000
}

/// Whether a character is white space.
pub fn is_white(ch: char) -> (r: bool)
    ensures
        r == is_white_space(ch),
{
    let n: u32 = ch as u32;
    (0x9 <= n && n <= 0xd) || n == 0x20 || n == 0x85 || n == 0xa0 || n == 0x1680 || (0x2000 <= n
        && n <= 0x200a) || n == 0x2028 || n == 0x2029 || n == 0x202f || n == 0x205f || n == 0x3000
}

/// The text without the white space at its start.
pub open spec fn trim_start(text: Seq<char>) -> Seq<char>
    decreases text.len(),
{
    if text.len() > 0 && is_white_space(text[0]) {
        trim_start(text.drop_first())
    } else {
        text
    }
}

/// The text without the white space at its end.
pub open spec fn trim_end(text: Seq<char>) -> Seq<char>
    decreases text.len(),
{
    if text.len() > 0 && is_white_space(text.last()) {
        trim_end(text.drop_last())
    } else {
        text
    }
}

/// The text without the white space at either end.
pub open spec fn trim(text: Seq<char>) -> Seq<char> {
    trim_end(trim_start(text))
}

/// Removes the white space at either end of a text.
pub fn trim_text(text: &str) -> (r: String)
    ensures
        r@ == trim(text@),
{
    let chars = characters(text);
    let mut from: usize = 0;
    assert(text@.skip(0) =~= text@);
    while from < chars.len() && is_white(chars[from])
        invariant
            from <= chars@.len(),
            chars@ == text@,
            trim_start(text@) == trim_start(text@.skip(from as int)),
        decreases chars@.len() - from,
    {
        assert(text@.skip(from as int).drop_first() =~= text@.skip(from + 1));
        from = from + 1;
    }
    let mut to: usize = chars.len();
    let ghost rest = text@.skip(from as int);
    assert(trim_start(text@) == rest);
    assert(text@.subrange(from as int, to as int) =~= rest);
    while to > from && is_white(chars[to - 1])
        invariant
            from <= to <= chars@.len(),
            chars@ == text@,
            trim_end(rest) == trim_end(text@.subrange(from as int, to as int)),
        decreases to,
    {
        assert(text@.subrange(from as int, to as int).drop_last() =~= text@.subrange(
            from as int,
            to - 1,
        ));
        to = to - 1;
    }
    string_from(&chars, from, to)
}

/// A line without the carriage return that ends it, if one does.
pub open spec fn without_carriage_return(line: Seq<char>) -> Seq<char> {
    if line.len() > 0 && line.last() == '\r' {
        line.drop_last()
    } else {
        line
    }
}

/// The lines of a text. A line ends with a line feed, or with a carriage return
/// and a line feed; the end of the last line may be missing.
pub open spec fn lines(text: Seq<char>) -> Seq<Seq<char>> {
    let pieces = split(text, '\n');
    let ended = pieces.drop_last();
    let whole = Seq::new(ended.len(), |i: int| without_carriage_return(ended[i]));
    if pieces.last().len() == 0 {
        whole
    } else {
        whole.push(pieces.last())
    }
}

/// Splits a text into its lines.
pub fn split_lines(text: &str) -> (r: Vec<String>)
    ensures
        texts(r@) == lines(text@),
{
    let mut pieces = split_text(text, '\n');
    proof {
        split_is_never_empty(text@, '\n');
    }
    let ghost all = split(text@, '\n');
    let ghost strings = pieces@;
    assert(texts(strings).len() == strings.len());
    let mut out: Vec<String> = Vec::new();
    let mut i: usize = 0;
    while i < pieces.len() - 1
        invariant
            i <= pieces@.len() - 1,
            pieces@ == strings,
            texts(strings) == all,
            out@.len() == i,
            forall|j: int| 0 <= j < i ==> (#[trigger] out@[j])@ == without_carriage_return(all[j]),
        decreases pieces@.len() - i,
    {
        let chars = characters(pieces[i].as_str());
        assert(all[i as int] == strings[i as int]@);
        let n = chars.len();
        if n > 0 && chars[n - 1] == '\r' {
            let line = string_from(&chars, 0, n - 1);
            assert(line@ =~= all[i as int].drop_last());
            out.push(line);
        } else {
            out.push(pieces[i].clone());
        }
        i = i + 1;
    }
    let last = pieces[pieces.len() - 1].clone();
    assert(last@ == all.last());
    let ghost whole = Seq::new(
        all.drop_last().len(),
        |i: int| without_carriage_return(all.drop_last()[i]),
    );
    assert(texts(out@) =~= whole);
    if !last.as_str().is_empty() {
        out.push(last);
        assert(texts(out@) =~= whole.push(all.last()));
    }
    out
}

/// Whether a character is a decimal digit.
pub open spec fn is_digit(ch: char) -> bool {
    '0' <= ch <= '9'
}

/// The value of a decimal digit.
pub open spec fn digit_value(ch: char) -> nat {
    if is_digit(ch) {
        (ch as u32 - '0' as u32) as nat
    } else {
        0
    }
}

/// The digit with the given value.
pub open spec fn digit(value: nat) -> char {
    ('0' as u32 + value) as char
}

/// A number in decimal notation, without leading zeros.
pub open spec fn decimal(n: nat) -> Seq<char>
    decreases n,
{
    if n < 10 {
        seq![digit(n)]
    } else {
        decimal(n / 10).push(digit(n % 10))
    }
}

/// An integer in decimal notation, with a minus sign if it is negative.
pub open spec fn signed_decimal(n: int) -> Seq<char> {
    if n < 0 {
        seq!['-'] + decimal((-n) as nat)
    } else {
        decimal(n as nat)
    }
}

/// The number that a row of digits stands for.
pub open spec fn number(digits: Seq<char>) -> nat
    decreases digits.len(),
{
    if digits.len() == 0 {
        0
    } else {
        number(digits.drop_last()) * 10 + digit_value(digits.last())
    }
}

/// Whether a text consists of digits only, with at least one of them.
pub open spec fn is_number(text: Seq<char>) -> bool {
    &&& text.len() > 0
    &&& forall|i: int| 0 <= i < text.len() ==> is_digit(#[trigger] text[i])
}

/// The text behind a leading plus sign, if there is one.
pub open spec fn unsigned_part(text: Seq<char>) -> Seq<char> {
    if text.len() > 0 && text[0] == '+' {
        text.drop_first()
    } else {
        text
    }
}

/// The value of a text that holds a number of the machine's word size: digits,
/// with an optional plus sign before them.
pub open spec fn usize_of(text: Seq<char>) -> Option<usize> {
    let digits = unsigned_part(text);
    if is_number(digits) && number(digits) <= usize::MAX {
        Some(number(digits) as usize)
    } else {
        None
    }
}

/// The digits of a number in decimal notation are digits, and stand for it.
pub proof fn decimal_is_read_back(n: nat)
    ensures
        is_number(decimal(n)),
        number(decimal(n)) == n,
    decreases n,
{
    reveal_with_fuel(number, 2);
    if n >= 10 {
        decimal_is_read_back(n / 10);
        let whole = decimal(n / 10).push(digit(n % 10));
        assert(whole.drop_last() =~= decimal(n / 10));
        assert(is_digit(digit(n % 10)));
    } else {
        let whole = decimal(n);
        assert(whole.drop_last() =~= Seq::<char>::empty());
    }
}

/// A number in decimal notation is read back as that number.
pub proof fn usize_is_read_back(n: usize)
    ensures
        usize_of(decimal(n as nat)) == Some(n),
{
    decimal_is_read_back(n as nat);
    let text = decimal(n as nat);
    assert(is_digit(text[0]));
}

/// Different numbers have different decimal notations.
pub proof fn decimal_tells_numbers_apart(a: nat, b: nat)
    ensures
        decimal(a) == decimal(b) <==> a == b,
{
    decimal_is_read_back(a);
    decimal_is_read_back(b);
}

/// Leading digits stand for no more than the whole row.
proof fn number_of_prefix(digits: Seq<char>, n: int)
    requires
        0 <= n <= digits.len(),
    ensures
        number(digits.take(n)) <= number(digits),
    decreases digits.len(),
{
    if n == digits.len() {
        assert(digits.take(n) =~= digits);
    } else {
        number_of_prefix(digits.drop_last(), n);
        assert(digits.drop_last().take(n) =~= digits.take(n));
    }
}

/// Writes a number in decimal notation.
pub fn decimal_text(n: u64) -> (r: String)
    ensures
        r@ == decimal(n as nat),
    decreases n,
{
    if n < 10 {
        let mut out = String::new();
        out.push((48u8 + n as u8) as char);
        out
    } else {
        let mut out = decimal_text(n / 10);
        out.push((48u8 + (n % 10) as u8) as char);
        out
    }
}

/// Writes a number of the machine's word size in decimal notation.
pub fn usize_text(n: usize) -> (r: String)
    ensures
        r@ == decimal(n as nat),
{
    decimal_text(n as u64)
}

/// Writes a signed integer in decimal notation.
pub fn signed_decimal_text(n: i64) -> (r: String)
    ensures
        r@ == signed_decimal(n as int),
{
    if n < 0 {
        let mut out = String::new();
        out.push('-');
        let magnitude: u64 = (-(n as i128)) as u64;
        out.append(decimal_text(magnitude).as_str());
        assert(out@ =~= signed_decimal(n as int));
        out
    } else {
        decimal_text(n as u64)
    }
}

/// Reads a number of the machine's word size: digits, with an optional plus
/// sign before them.
pub fn parse_usize(text: &str) -> (r: Option<usize>)
    ensures
        r == usize_of(text@),
{
    let chars = characters(text);
    let mut from: usize = 0;
    if chars.len() > 0 && chars[0] == '+' {
        from = 1;
    }
    let ghost digits = unsigned_part(text@);
    assert(digits =~= text@.skip(from as int));
    if from == chars.len() {
        return None;
    }
    let mut value: usize = 0;
    let mut i: usize = from;
    assert(digits.take(0) =~= Seq::<char>::empty());
    while i < chars.len()
        invariant
            from <= i <= chars@.len(),
            chars@ == text@,
            digits == text@.skip(from as int),
            digits == unsigned_part(text@),
            value == number(digits.take(i - from)),
            forall|j: int| 0 <= j < i - from ==> is_digit(#[trigger] digits[j]),
        decreases chars@.len() - i,
    {
        let c = chars[i];
        assert(digits[i - from] == c);
        if c < '0' || '9' < c {
            return None;
        }
        let d: usize = (c as u32 - 48) as usize;
        proof {
            assert(digits.take(i - from + 1).drop_last() =~= digits.take(i - from));
            assert(number(digits.take(i - from + 1)) == value * 10 + d);
            number_of_prefix(digits, i - from + 1);
        }
        if value > (usize::MAX - d) / 10 {
            return None;
        }
        value = value * 10 + d;
        i = i + 1;
    }
    assert(digits.take(chars@.len() - from) =~= digits);
    Some(value)
}

/// White space are these characters of Unicode, and no others: the controls from
/// the tab to the carriage return, the spaces of all widths, the next-line control,
/// and the separators of lines and paragraphs.
pub proof fn white_space_characters(ch: char)
    ensures
        is_white_space(ch) <==> seq![
            '\t',
            '\n',
            '\u{b}',
            '\u{c}',
            '\r',
            ' ',
            '\u{85}',
            '\u{a0}',
            '\u{1680}',
            '\u{2000}',
            '\u{2001}',
            '\u{2002}',
            '\u{2003}',
            '\u{2004}',
            '\u{2005}',
            '\u{2006}',
            '\u{2007}',
            '\u{2008}',
            '\u{2009}',
            '\u{200a}',
            '\u{2028}',
            '\u{2029}',
            '\u{202f}',
            '\u{205f}',
            '\u{3000}',
        ].contains(ch),
{
    let all = seq![
        '\t',
        '\n',
        '\u{b}',
        '\u{c}',
        '\r',
        ' ',
        '\u{85}',
        '\u{a0}',
        '\u{1680}',
        '\u{2000}',
        '\u{2001}',
        '\u{2002}',
        '\u{2003}',
        '\u{2004}',
        '\u{2005}',
        '\u{2006}',
        '\u{2007}',
        '\u{2008}',
        '\u{2009}',
        '\u{200a}',
        '\u{2028}',
        '\u{2029}',
        '\u{202f}',
        '\u{205f}',
        '\u{3000}',
    ];
    let n = ch as int;
    if is_white_space(ch) {
        let place: int = if n <= 0xd {
            n - 9
        } else if n == 0x20 {
            5
        } else if n == 0x85 {
            6
        } else if n == 0xa0 {
            7
        } else if n == 0x1680 {
            8
        } else if n <= 0x200a {
            n - 0x2000 + 9
        } else if n == 0x2028 {
            20
        } else if n == 0x2029 {
            21
        } else if n == 0x202f {
            22
        } else if n == 0x205f {
            23
        } else {
            24
        };
        assert(all[place] as int == n);
        assert(all[place] == ch);
    }
    if all.contains(ch) {
        let k = choose|k: int| 0 <= k < all.len() && all[k] == ch;
        assert(is_white_space(all[k]));
    }
}

/// Taking white space off the start of a text leaves the rest of it.
proof fn start_is_trimmed(text: Seq<char>) -> (from: int)
    ensures
        0 <= from <= text.len(),
        trim_start(text) == text.skip(from),
        forall|i: int| 0 <= i < from ==> is_white_space(#[trigger] text[i]),
        from < text.len() ==> !is_white_space(text[from]),
    decreases text.len(),
{
    if text.len() > 0 && is_white_space(text[0]) {
        let rest = text.drop_first();
        let from = start_is_trimmed(rest);
        assert(rest.skip(from) =~= text.skip(from + 1));
        assert forall|i: int| 0 <= i < from + 1 implies is_white_space(#[trigger] text[i]) by {
            if i > 0 {
                assert(rest[i - 1] == text[i]);
            }
        }
        from + 1
    } else {
        assert(text.skip(0) =~= text);
        0
    }
}

/// Taking white space off the end of a text leaves the start of it.
proof fn end_is_trimmed(text: Seq<char>) -> (to: int)
    ensures
        0 <= to <= text.len(),
        trim_end(text) == text.take(to),
        forall|i: int| to <= i < text.len() ==> is_white_space(#[trigger] text[i]),
        to > 0 ==> !is_white_space(text[to - 1]),
    decreases text.len(),
{
    if text.len() > 0 && is_white_space(text.last()) {
        let rest = text.drop_last();
        let to = end_is_trimmed(rest);
        assert(rest.take(to) =~= text.take(to));
        assert forall|i: int| to <= i < text.len() implies is_white_space(#[trigger] text[i]) by {
            if i < rest.len() {
                assert(rest[i] == text[i]);
            }
        }
        to
    } else {
        assert(text.take(text.len() as int) =~= text);
        text.len() as int
    }
}

/// A trimmed text is what lies between the first and the last character that is no
/// white space, these included. It is empty if there are none.
pub proof fn trimming_takes_off_white_space(text: Seq<char>) -> (r: (int, int))
    ensures
        0 <= r.0 <= r.1 <= text.len(),
        trim(text) == text.subrange(r.0, r.1),
        forall|i: int| 0 <= i < r.0 ==> is_white_space(#[trigger] text[i]),
        forall|i: int| r.1 <= i < text.len() ==> is_white_space(#[trigger] text[i]),
        r.0 < r.1 ==> !is_white_space(text[r.0]) && !is_white_space(text[r.1 - 1]),
{
    let from = start_is_trimmed(text);
    let rest = text.skip(from);
    let to = end_is_trimmed(rest);
    assert(rest.take(to) =~= text.subrange(from, from + to));
    assert forall|i: int| from + to <= i < text.len() implies is_white_space(#[trigger] text[i]) by {
        assert(rest[i - from] == text[i]);
    }
    (from, from + to)
}

/// A text without white space at its ends is trimmed already, and trimming a text
/// again changes nothing.
pub proof fn trimmed_text_stays(text: Seq<char>)
    ensures
        trim(trim(text)) == trim(text),
        text.len() > 0 && !is_white_space(text[0]) && !is_white_space(text[text.len() - 1])
            ==> trim(text) == text,
{
    let (from, to) = trimming_takes_off_white_space(text);
    let trimmed = trim(text);
    if trimmed.len() > 0 {
        assert(trimmed[0] == text[from]);
        assert(trimmed[trimmed.len() - 1] == text[to - 1]);
    }
}

/// A separator between two texts separates their pieces. A text without a separator
/// is its only piece.
pub proof fn separator_separates(a: Seq<char>, b: Seq<char>, sep: char)
    ensures
        split(a + seq![sep] + b, sep) == split(a, sep) + split(b, sep),
        !a.contains(sep) ==> split(a, sep) == seq![a],
    decreases b.len(),
{
    let whole = a + seq![sep] + b;
    split_is_never_empty(a, sep);
    if b.len() == 0 {
        assert(whole.drop_last() =~= a);
        assert(split(whole, sep) =~= split(a, sep) + split(b, sep));
    } else {
        let front = b.drop_last();
        separator_separates(a, front, sep);
        split_is_never_empty(front, sep);
        assert(whole.drop_last() =~= a + seq![sep] + front);
        let before = split(a, sep) + split(front, sep);
        assert(before.last() == split(front, sep).last());
        assert(before.drop_last() =~= split(a, sep) + split(front, sep).drop_last());
        assert(split(whole, sep) =~= split(a, sep) + split(b, sep));
    }
    if !a.contains(sep) {
        let parts = seq![a];
        split_undoes_join(parts, sep);
    }
}

/// Joining two rows of texts one after the other joins the joined rows. A single
/// text stays as it is.
pub proof fn rows_are_joined_in_turn(a: Seq<Seq<char>>, b: Seq<Seq<char>>, sep: Seq<char>)
    ensures
        join(Seq::<Seq<char>>::empty(), sep) == Seq::<char>::empty(),
        a.len() == 1 ==> join(a, sep) == a[0],
        a.len() > 0 && b.len() > 0 ==> join(a + b, sep) == join(a, sep) + sep + join(b, sep),
    decreases b.len(),
{
    if a.len() > 0 && b.len() > 0 {
        assert((a + b).last() == b.last());
        assert((a + b).drop_last() =~= a + b.drop_last());
        if b.len() == 1 {
            assert(a + b.drop_last() =~= a);
        } else {
            rows_are_joined_in_turn(a, b.drop_last(), sep);
            assert(join(a + b, sep) =~= join(a, sep) + sep + join(b, sep));
        }
    }
}

/// The lines of a text: a line feed ends a line, and so do a carriage return and a
/// line feed; what is left behind the last line feed is a line unless it is empty.
pub proof fn line_feed_ends_line(line: Seq<char>, rest: Seq<char>)
    requires
        !line.contains('\n'),
    ensures
        lines(line + seq!['\n'] + rest) == seq![
            if line.len() > 0 && line[line.len() - 1] == '\r' {
                line.take(line.len() - 1)
            } else {
                line
            },
        ] + lines(rest),
        line.len() > 0 ==> lines(line) == seq![line],
        lines(Seq::<char>::empty()) == Seq::<Seq<char>>::empty(),
{
    separator_separates(line, rest, '\n');
    split_is_never_empty(rest, '\n');
    let text = line + seq!['\n'] + rest;
    let pieces = split(text, '\n');
    let later = split(rest, '\n');
    assert(pieces =~= seq![line] + later);
    assert(pieces.last() == later.last());
    assert(line.drop_last() =~= line.take(line.len() - 1) || line.len() == 0);
    let first = without_carriage_return(line);
    let ended = pieces.drop_last();
    let whole = Seq::new(ended.len(), |i: int| without_carriage_return(ended[i]));
    let ended_later = later.drop_last();
    let whole_later = Seq::new(
        ended_later.len(),
        |i: int| without_carriage_return(ended_later[i]),
    );
    assert(whole =~= seq![first] + whole_later);
    assert(lines(text) =~= seq![first] + lines(rest));
    if line.len() > 0 {
        assert(lines(line) =~= seq![line]);
    }
    assert(lines(Seq::<char>::empty()) =~= Seq::<Seq<char>>::empty());
}

/// Numbers below ten are written as their digits. Any other number is written as
/// the number of its tens, and behind it its last digit.
pub proof fn decimal_notation(n: nat, d: nat)
    requires
        d < 10,
    ensures
        decimal(d) == seq![seq!['0', '1', '2', '3', '4', '5', '6', '7', '8', '9'][d as int]],
        n > 0 ==> decimal(10 * n + d) == decimal(n) + decimal(d),
{
    let digits = seq!['0', '1', '2', '3', '4', '5', '6', '7', '8', '9'];
    assert(digits[d as int] == digit(d));
    if n > 0 {
        assert((10 * n + d) / 10 == n);
        assert((10 * n + d) % 10 == d);
        assert(decimal(n).push(digit(d)) =~= decimal(n) + decimal(d));
    }
}

/// A negative number is written as a minus sign and its magnitude, any other as it
/// is.
pub proof fn signed_notation(n: nat)
    ensures
        signed_decimal(n as int) == decimal(n),
        n > 0 ==> signed_decimal(-(n as int)) == seq!['-'] + decimal(n),
{
}

/// What a text means as a number tells what it means with one more character: with
/// a digit, the number times ten and the digit, if the machine can hold that; with
/// anything else, nothing. A text that means no number, except for a plus sign or
/// nothing at all, does not mean one with more characters either. A plus sign
/// before digits changes nothing.
pub proof fn number_grows_by_digits(text: Seq<char>, ch: char)
    ensures
        text.len() > 0 && text != seq!['+'] ==> usize_of(text.push(ch)) == match usize_of(text) {
            Some(n) => if '0' <= ch <= '9' && 10 * n + (ch as int - '0' as int) <= usize::MAX {
                Some((10 * n + (ch as int - '0' as int)) as usize)
            } else {
                None
            },
            None => None,
        },
        usize_of(seq![ch]) == if '0' <= ch <= '9' {
            Some((ch as int - '0' as int) as usize)
        } else {
            None::<usize>
        },
        usize_of(Seq::<char>::empty()) is None,
        text.len() > 0 && text[0] != '+' ==> usize_of(seq!['+'] + text) == usize_of(text),
        text.len() > 0 && text[0] == '+' ==> usize_of(seq!['+'] + text) is None,
{
    let digits = unsigned_part(text);
    let more = text.push(ch);
    if text.len() > 0 && text != seq!['+'] {
        assert(digits.len() > 0) by {
            if text[0] == '+' && text.len() == 1 {
                assert(text =~= seq!['+']);
            }
        }
        assert(unsigned_part(more) =~= digits.push(ch));
        let grown = digits.push(ch);
        assert(grown.drop_last() =~= digits);
        assert(number(grown) == number(digits) * 10 + digit_value(ch));
        if is_number(digits) && is_digit(ch) {
            assert forall|i: int| 0 <= i < grown.len() implies is_digit(#[trigger] grown[i]) by {
                if i < digits.len() {
                    assert(is_digit(digits[i]));
                }
            }
        }
        if is_number(grown) {
            assert(is_digit(grown[grown.len() - 1]));
            assert forall|i: int| 0 <= i < digits.len() implies is_digit(#[trigger] digits[i]) by {
                assert(is_digit(grown[i]));
            }
        }
    }
    let one = seq![ch];
    reveal_with_fuel(number, 2);
    assert(one.drop_last() =~= Seq::<char>::empty());
    if ch == '+' {
        assert(unsigned_part(one) =~= Seq::<char>::empty());
    } else {
        assert(is_digit(one[0]) == is_digit(ch));
    }
    if text.len() > 0 {
        let signed = seq!['+'] + text;
        assert(signed.drop_first() =~= text);
        if text[0] == '+' {
            assert(!is_digit(text[0]));
        }
    }
}

} // verus!
