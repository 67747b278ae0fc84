//! Characters, strings and lists of strings.
use vstd::prelude::*;

verus! {

/// `String::push` appends the character to the end of the string.
pub assume_specification[ String::push ](s: &mut String, c: char)
    ensures
        final(s)@ == old(s)@.push(c),
;

/// The characters with the Unicode property `White_Space`.
pub open spec fn is_white(c: char) -> bool {
    ||| 0x09 <= c as u32 <= 0x0d
    ||| c as u32 == 0x20
    ||| c as u32 == 0x85
    ||| c as u32 == 0xa0
    ||| c as u32 == 0x1680
    ||| 0x2000 <= c as u32 <= 0x200a
    ||| c as u32 == 0x2028
    ||| c as u32 == 0x2029
    ||| c as u32 == 0x202f
    ||| c as u32 == 0x205f
    ||| c as u32 == 0x3000
}

/// White space is the tab, the line feed, the vertical tab, the form feed, the carriage
/// return, the space, the next line, the spaces of the Unicode separators, and the line
/// and the paragraph separator; no other character is.
pub proof fn white_space_is_these_characters(c: char)
    ensures
        is_white(c) <==> {
            ||| c == '\t' || c == '\n' || c == '\u{b}' || c == '\u{c}' || c == '\r' || c == ' '
            ||| c == '\u{85}' || c == '\u{a0}' || c == '\u{1680}'
            ||| c == '\u{2000}' || c == '\u{2001}' || c == '\u{2002}' || c == '\u{2003}'
            ||| c == '\u{2004}' || c == '\u{2005}' || c == '\u{2006}' || c == '\u{2007}'
            ||| c == '\u{2008}' || c == '\u{2009}' || c == '\u{200a}' || c == '\u{2028}'
            ||| c == '\u{2029}' || c == '\u{202f}' || c == '\u{205f}' || c == '\u{3000}'
        },
{
}

/// Whether `c` is white space.
pub fn is_whitespace(c: char) -> (white: bool)
    ensures
        white == is_white(c),
{
    let n: u32 = c as u32;
    (0x09 <= n && n <= 0x0d) || n == 0x20 || n == 0x85 || n == 0xa0 || n == 0x1680 || (0x2000 <= n
        && n <= 0x200a) || n == 0x2028 || n == 0x2029 || n == 0x202f || n == 0x205f || n == 0x3000
}

/// The characters of `s`, in order.
pub fn chars_of(s: &str) -> (chars: Vec<char>)
    ensures
        chars@ == s@,
{
    let mut chars: Vec<char> = Vec::new();
    for c in it: s.chars()
        invariant
            it.seq() == s@,
            chars@ == s@.take(it.index() as int),
    {
        chars.push(c);
    }
    chars
}

/// The contents of a list of strings.
pub open spec fn texts(list: Seq<String>) -> Seq<Seq<char>> {
    list.map_values(|s: String| s@)
}

/// The words with one space between neighbours.
pub open spec fn spaced(words: Seq<Seq<char>>) -> Seq<char>
    decreases words.len(),
{
    if words.len() == 0 {
        Seq::empty()
    } else if words.len() == 1 {
        words[0]
    } else {
        spaced(words.drop_last()) + seq![' '] + words.last()
    }
}

/// The words with one space before each.
pub open spec fn space_led(words: Seq<Seq<char>>) -> Seq<char>
    decreases words.len(),
{
    if words.len() == 0 {
        Seq::empty()
    } else {
        space_led(words.drop_last()) + seq![' '] + words.last()
    }
}

/// The pieces of `s` between the occurrences of `separator`: always one more than
/// there are occurrences.
pub open spec fn split_on(s: Seq<char>, separator: char) -> Seq<Seq<char>>
    decreases s.len(),
{
    if s.len() == 0 {
        seq![Seq::empty()]
    } else {
        let pieces = split_on(s.drop_last(), separator);
        if s.last() == separator {
            pieces.push(Seq::empty())
        } else {
            pieces.drop_last().push(pieces.last().push(s.last()))
        }
    }
}

/// Splits `s` at every `separator`.
pub fn split_text(s: &str, separator: char) -> (pieces: Vec<String>)
    ensures
        texts(pieces@) == split_on(s@, separator),
{
    let chars = chars_of(s);
    let mut pieces: Vec<String> = Vec::new();
    let mut piece = String::new();
    let mut i: usize = 0;
    assert(texts(pieces@).push(piece@) =~= split_on(s@.take(0), separator));
    while i < chars.len()
        invariant
            chars@ == s@,
            i <= chars.len(),
            texts(pieces@).push(piece@) == split_on(s@.take(i as int), separator),
        decreases chars.len() - i,
    {
        let c: char = chars[i];
        let ghost done = split_on(s@.take(i as int), separator);
        assert(s@.take(i + 1).drop_last() =~= s@.take(i as int));
        assert(s@.take(i + 1).last() == c);
        assert(done.drop_last() =~= texts(pieces@));
        assert(done.last() == piece@);
        if c == separator {
            push_text(&mut pieces, piece.as_str());
            piece = String::new();
        } else {
            piece.push(c);
        }
        assert(texts(pieces@).push(piece@) =~= split_on(s@.take(i + 1), separator));
        i = i + 1;
    }
    assert(s@.take(i as int) =~= s@);
    push_text(&mut pieces, piece.as_str());
    pieces
}

/// A line without the carriage return that it may end with.
pub open spec fn without_return(line: Seq<char>) -> Seq<char> {
    if line.len() > 0 && line.last() == '\r' {
        line.drop_last()
    } else {
        line
    }
}

/// The lines of `s`. A line ends with a line feed, which may follow a carriage return;
/// neither belongs to the line. What follows the last line feed is a line, as it
/// stands, unless it is empty.
pub open spec fn lines_of(s: Seq<char>) -> Seq<Seq<char>> {
    let pieces = split_on(s, '\n');
    let ended = pieces.drop_last().map_values(|line: Seq<char>| without_return(line));
    if pieces.last().len() == 0 {
        ended
    } else {
        ended.push(pieces.last())
    }
}

/// There is at least one piece.
pub proof fn split_on_has_a_piece(s: Seq<char>, separator: char)
    ensures
        split_on(s, separator).len() > 0,
    decreases s.len(),
{
    if s.len() > 0 {
        split_on_has_a_piece(s.drop_last(), separator);
    }
}

/// The line without the carriage return that it may end with.
fn strip_return(line: &String) -> (stripped: String)
    ensures
        stripped@ == without_return(line@),
{
    let chars = chars_of(line.as_str());
    if chars.len() == 0 || chars[chars.len() - 1] != '\r' {
        return line.clone();
    }
    let mut stripped = String::new();
    let mut i: usize = 0;
    while i < chars.len() - 1
        invariant
            chars@ == line@,
            chars.len() > 0,
            i < chars.len(),
            stripped@ == line@.take(i as int),
        decreases chars.len() - i,
    {
        stripped.push(chars[i]);
        assert(stripped@ =~= line@.take(i + 1));
        i = i + 1;
    }
    assert(stripped@ =~= line@.drop_last());
    stripped
}

/// The lines of `s`.
pub fn split_lines(s: &str) -> (lines: Vec<String>)
    ensures
        texts(lines@) == lines_of(s@),
{
    let pieces = split_text(s, '\n');
    proof {
        split_on_has_a_piece(s@, '\n');
        assert(texts(pieces@).len() == pieces@.len());
    }
    let ghost all = split_on(s@, '\n');
    let ghost ended = all.drop_last().map_values(|line: Seq<char>| without_return(line));
    let mut lines: Vec<String> = Vec::new();
    let mut i: usize = 0;
    while i < pieces.len() - 1
        invariant
            texts(pieces@) == all,
            pieces.len() > 0,
            ended == all.drop_last().map_values(|line: Seq<char>| without_return(line)),
            i < pieces.len(),
            texts(lines@) == ended.take(i as int),
        decreases pieces.len() - i,
    {
        let line = strip_return(&pieces[i]);
        assert(all[i as int] == pieces@[i as int]@);
        assert(ended[i as int] == line@);
        push_text(&mut lines, line.as_str());
        assert(texts(lines@) =~= ended.take(i + 1));
        i = i + 1;
    }
    assert(texts(lines@) =~= ended);
    assert(all.last() == pieces@[i as int]@);
    let rest = chars_of(pieces[i].as_str());
    if rest.len() > 0 {
        push_text(&mut lines, pieces[i].as_str());
    }
    lines
}

/// Whether `part` stands somewhere in `whole`, as one piece.
pub open spec fn holds<T>(whole: Seq<T>, part: Seq<T>) -> bool {
    exists|k: int|
        0 <= k && k + part.len() <= whole.len() && #[trigger] whole.subrange(k, k + part.len())
            == part
}

/// What stands in the first of two pieces stands in both together.
pub proof fn holds_in_first<T>(first: Seq<T>, second: Seq<T>, part: Seq<T>)
    requires
        holds(first, part),
    ensures
        holds(first + second, part),
{
    let k = choose|k: int|
        0 <= k && k + part.len() <= first.len() && #[trigger] first.subrange(k, k + part.len())
            == part;
    assert((first + second).subrange(k, k + part.len()) =~= first.subrange(k, k + part.len()));
}

/// What stands in the second of two pieces stands in both together.
pub proof fn holds_in_second<T>(first: Seq<T>, second: Seq<T>, part: Seq<T>)
    requires
        holds(second, part),
    ensures
        holds(first + second, part),
{
    let k = choose|k: int|
        0 <= k && k + part.len() <= second.len() && #[trigger] second.subrange(k, k + part.len())
            == part;
    let at = first.len() + k;
    assert((first + second).subrange(at, at + part.len()) =~= second.subrange(k, k + part.len()));
}

/// A piece stands in itself.
pub proof fn holds_itself<T>(piece: Seq<T>)
    ensures
        holds(piece, piece),
{
    assert(piece.subrange(0, 0int + piece.len()) =~= piece);
}

/// Appends `s` to a list of strings.
pub fn push_text(list: &mut Vec<String>, s: &str)
    ensures
        texts(final(list)@) == texts(old(list)@).push(s@),
{
    list.push(s.to_owned());
    assert(texts(list@) =~= texts(old(list)@).push(s@));
}

/// Whether a text holds no `separator`.
pub open spec fn is_free_of(s: Seq<char>, separator: char) -> bool {
    forall|i: int| 0 <= i < s.len() ==> #[trigger] s[i] != separator
}

/// A text without the separator is one piece, and what stands before the first separator
/// is the first piece: the rest is split as it would be alone.
pub proof fn text_is_split_at_each_separator(head: Seq<char>, separator: char, rest: Seq<char>)
    requires
        is_free_of(head, separator),
    ensures
        split_on(head, separator) == seq![head],
        split_on(head + seq![separator] + rest, separator) == seq![head] + split_on(
            rest,
            separator,
        ),
    decreases head.len(),
{
    if head.len() == 0 {
        assert(head =~= Seq::<char>::empty());
    } else {
        let most = head.drop_last();
        assert forall|i: int| 0 <= i < most.len() implies #[trigger] most[i] != separator by {
            assert(most[i] == head[i]);
        }
        text_is_split_at_each_separator(most, separator, Seq::empty());
        assert(head.last() == head[head.len() - 1]);
        assert(split_on(head, separator) =~= seq![most.push(head.last())]);
        assert(most.push(head.last()) =~= head);
    }
    pieces_of_both_sides(head, separator, rest);
}

/// A separator parts the pieces of what stands before it from those of what stands after
/// it.
pub proof fn pieces_of_both_sides(before: Seq<char>, separator: char, after: Seq<char>)
    ensures
        split_on(before + seq![separator] + after, separator) == split_on(before, separator)
            + split_on(after, separator),
    decreases after.len(),
{
    let whole = before + seq![separator] + after;
    let first = split_on(before, separator);
    if after.len() == 0 {
        assert(whole =~= before.push(separator));
        assert(whole.drop_last() =~= before);
        assert(split_on(whole, separator) =~= first + split_on(after, separator));
    } else {
        let most = after.drop_last();
        pieces_of_both_sides(before, separator, most);
        split_on_has_a_piece(most, separator);
        assert(whole.drop_last() =~= before + seq![separator] + most);
        assert(whole.last() == after.last());
        assert(split_on(whole, separator) =~= first + split_on(after, separator));
    }
}

/// A text without a line feed is one line as it stands, unless it is empty; and what
/// stands before the first line feed is the first line, without the carriage return that
/// it may end with: the rest has the lines that it would have alone.
pub proof fn lines_end_at_line_feeds(line: Seq<char>, rest: Seq<char>)
    requires
        is_free_of(line, '\n'),
    ensures
        lines_of(line) == (if line.len() == 0 {
            Seq::empty()
        } else {
            seq![line]
        }),
        lines_of(line + seq!['\n'] + rest) == seq![
            if line.len() > 0 && line.last() == '\r' {
                line.drop_last()
            } else {
                line
            },
        ] + lines_of(rest),
{
    text_is_split_at_each_separator(line, '\n', rest);
    split_on_has_a_piece(rest, '\n');
    let pieces = split_on(rest, '\n');
    let all = split_on(line + seq!['\n'] + rest, '\n');
    assert(seq![line].drop_last().map_values(|each: Seq<char>| without_return(each))
        =~= Seq::<Seq<char>>::empty());
    assert(lines_of(line) =~= (if line.len() == 0 {
        Seq::empty()
    } else {
        seq![line]
    }));
    assert(all.drop_last() =~= seq![line] + pieces.drop_last());
    assert(all.last() == pieces.last());
    assert(lines_of(line + seq!['\n'] + rest) =~= seq![without_return(line)] + lines_of(rest));
}

/// The contents of a list of strings are those of each string, in their order.
pub proof fn texts_are_the_contents(list: Seq<String>)
    ensures
        texts(list).len() == list.len(),
        forall|i: int| 0 <= i < list.len() ==> #[trigger] texts(list)[i] == list[i]@,
{
}

} // verus!
