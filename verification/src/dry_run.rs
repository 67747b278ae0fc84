//! The text that a dry run prints.
use vstd::prelude::*;

use crate::text::{chars_of, is_white, is_whitespace, space_led, spaced, texts};

verus! {

/// Whether a word starts an option.
pub open spec fn is_option(word: Seq<char>) -> bool {
    word.len() >= 2 && word[0] == '-' && word[1] == '-'
}

/// Whether a word holds white space.
pub open spec fn has_white(word: Seq<char>) -> bool {
    exists|i: int| 0 <= i < word.len() && is_white(#[trigger] word[i])
}

/// The characters for which a word of the command inside the jail is quoted.
pub open spec fn is_bare_quotable(c: char) -> bool {
    is_white(c) || c == '(' || c == ')' || c == '$'
}

/// Whether a word of the command inside the jail is quoted.
pub open spec fn has_bare_quotable(word: Seq<char>) -> bool {
    exists|i: int| 0 <= i < word.len() && is_bare_quotable(#[trigger] word[i])
}

/// The word between single quotes.
pub open spec fn quoted(word: Seq<char>) -> Seq<char> {
    seq!['\''] + word + seq!['\'']
}

/// The value of an option, as printed.
pub open spec fn value_text(word: Seq<char>) -> Seq<char> {
    if has_white(word) {
        quoted(word)
    } else {
        word
    }
}

/// A word of the command inside the jail, as printed.
pub open spec fn bare_text(word: Seq<char>) -> Seq<char> {
    if has_bare_quotable(word) {
        quoted(word)
    } else {
        word
    }
}

/// Where the values that start at `i` end: at the next option, at `bash`, or at the
/// end of the arguments.
pub open spec fn values_end(args: Seq<Seq<char>>, i: int) -> int
    decreases args.len() - i,
{
    if i >= args.len() {
        args.len() as int
    } else if is_option(args[i]) || args[i] == "bash"@ {
        i
    } else {
        values_end(args, i + 1)
    }
}

/// The line of the option at `i` with its values, which end at `j`.
pub open spec fn option_line(args: Seq<Seq<char>>, i: int, j: int) -> Seq<char> {
    "  "@ + args[i] + space_led(
        args.subrange(i + 1, j).map_values(|word: Seq<char>| value_text(word)),
    ) + " \\\n"@
}

/// The line of the command inside the jail, which starts at `i`.
pub open spec fn bare_line(args: Seq<Seq<char>>, i: int) -> Seq<char> {
    "  "@ + spaced(
        args.subrange(i, args.len() as int).map_values(|word: Seq<char>| bare_text(word)),
    ) + "\n"@
}

/// The lines for the arguments from `i` on.
pub open spec fn lines_from(args: Seq<Seq<char>>, i: int) -> Seq<char>
    decreases args.len() - i,
{
    if i >= args.len() {
        Seq::empty()
    } else if is_option(args[i]) {
        proof {
            values_end_is_within(args, i + 1);
        }
        let j = values_end(args, i + 1);
        option_line(args, i, j) + lines_from(args, j)
    } else {
        bare_line(args, i)
    }
}

/// What a dry run prints: the program on the first line, then each option with its
/// values on a line of its own, then the command inside the jail.
pub open spec fn dry_run_text(args: Seq<Seq<char>>) -> Seq<char> {
    if args.len() == 0 {
        Seq::empty()
    } else {
        args[0] + " \\\n"@ + lines_from(args, 1)
    }
}

/// The values that start at `i` end between `i` and the end of the arguments.
pub proof fn values_end_is_within(args: Seq<Seq<char>>, i: int)
    requires
        i <= args.len(),
    ensures
        i <= values_end(args, i) <= args.len(),
    decreases args.len() - i,
{
    if i < args.len() {
        values_end_is_within(args, i + 1);
    }
}

/// Whether `word` starts an option.
fn starts_option(word: &String) -> (starts: bool)
    ensures
        starts == is_option(word@),
{
    let chars = chars_of(word.as_str());
    chars.len() >= 2 && chars[0] == '-' && chars[1] == '-'
}

/// The value of an option, as printed.
fn print_value(word: &String) -> (printed: String)
    ensures
        printed@ == value_text(word@),
{
    let chars = chars_of(word.as_str());
    let mut i: usize = 0;
    while i < chars.len()
        invariant
            chars@ == word@,
            i <= chars.len(),
            forall|k: int| 0 <= k < i ==> !is_white(#[trigger] word@[k]),
        decreases chars.len() - i,
    {
        if is_whitespace(chars[i]) {
            assert(is_white(word@[i as int]));
            return between_quotes(word);
        }
        i = i + 1;
    }
    word.clone()
}

/// A word of the command inside the jail, as printed.
fn print_bare(word: &String) -> (printed: String)
    ensures
        printed@ == bare_text(word@),
{
    let chars = chars_of(word.as_str());
    let mut i: usize = 0;
    while i < chars.len()
        invariant
            chars@ == word@,
            i <= chars.len(),
            forall|k: int| 0 <= k < i ==> !is_bare_quotable(#[trigger] word@[k]),
        decreases chars.len() - i,
    {
        let c: char = chars[i];
        if is_whitespace(c) || c == '(' || c == ')' || c == '$' {
            assert(is_bare_quotable(word@[i as int]));
            return between_quotes(word);
        }
        i = i + 1;
    }
    word.clone()
}

/// `word` between single quotes.
fn between_quotes(word: &String) -> (between: String)
    ensures
        between@ == quoted(word@),
{
    let mut between = String::new();
    between.push('\'');
    between.append(word.as_str());
    between.push('\'');
    assert(between@ =~= quoted(word@));
    between
}

/// Appends the line of the option at `i` to `out`, and says where its values end.
fn print_option(out: &mut String, args: &[String], i: usize) -> (end: usize)
    requires
        i < args@.len(),
    ensures
        end == values_end(texts(args@), i + 1),
        i < end <= args@.len(),
        final(out)@ == old(out)@ + option_line(texts(args@), i as int, end as int),
{
    let ghost words = texts(args@);
    let ghost start = out@;
    proof {
        values_end_is_within(words, i + 1);
    }
    let ghost values = words.subrange(i + 1, values_end(words, i + 1)).map_values(
        |word: Seq<char>| value_text(word),
    );
    out.append("  ");
    assert(words[i as int] == args[i as int]@);
    out.append(args[i].as_str());
    let ghost head = out@;
    let bash = "bash".to_owned();
    let mut j: usize = i + 1;
    while j < args.len() && !starts_option(&args[j]) && args[j] != bash
        invariant
            words == texts(args@),
            bash@ == "bash"@,
            i < j <= args@.len(),
            values_end(words, j as int) == values_end(words, i + 1),
            j <= values_end(words, i + 1) <= args@.len(),
            values == words.subrange(i + 1, values_end(words, i + 1)).map_values(
                |word: Seq<char>| value_text(word),
            ),
            out@ == head + space_led(values.take(j - i - 1)),
        decreases args.len() - j,
    {
        assert(words[j as int] == args[j as int]@);
        proof {
            values_end_is_within(words, j + 1);
        }
        let value = print_value(&args[j]);
        let ghost k = j - i - 1;
        assert(values[k] == value@);
        assert(values.take(k + 1).drop_last() =~= values.take(k));
        assert(values.take(k + 1).last() == value@);
        out.push(' ');
        out.append(value.as_str());
        assert(out@ =~= head + space_led(values.take(k + 1)));
        j = j + 1;
    }
    proof {
        if j < args@.len() {
            assert(words[j as int] == args[j as int]@);
        }
        assert(j == values_end(words, i + 1));
        assert(values.take(j - i - 1) =~= values);
    }
    out.append(" \\\n");
    assert(out@ =~= start + option_line(words, i as int, j as int));
    j
}

/// Appends the line of the command inside the jail, which starts at `i`, to `out`.
fn print_command(out: &mut String, args: &[String], i: usize)
    requires
        i < args@.len(),
    ensures
        final(out)@ == old(out)@ + bare_line(texts(args@), i as int),
{
    let ghost words = texts(args@).subrange(i as int, args@.len() as int).map_values(
        |word: Seq<char>| bare_text(word),
    );
    let ghost start = out@;
    out.append("  ");
    let mut k: usize = i;
    while k < args.len()
        invariant
            words == texts(args@).subrange(i as int, args@.len() as int).map_values(
                |word: Seq<char>| bare_text(word),
            ),
            i <= k <= args@.len(),
            out@ == start + "  "@ + spaced(words.take(k - i)),
        decreases args.len() - k,
    {
        let word = print_bare(&args[k]);
        let ghost n = k - i;
        assert(words[n] == word@);
        assert(words.take(n + 1).drop_last() =~= words.take(n));
        assert(words.take(n + 1).last() == word@);
        if k > i {
            out.push(' ');
        }
        out.append(word.as_str());
        assert(out@ =~= start + "  "@ + spaced(words.take(n + 1)));
        k = k + 1;
    }
    assert(words.take(k - i) =~= words);
    out.append("\n");
    assert(out@ =~= start + bare_line(texts(args@), i as int));
}

/// Lays out the arguments of a command, program first, for a dry run.
pub fn format_dry_run(args: &[String]) -> (out: String)
    ensures
        out@ == dry_run_text(texts(args@)),
{
    let ghost words = texts(args@);
    let mut out = String::new();
    if args.len() == 0 {
        return out;
    }
    assert(words[0] == args[0]@);
    out.append(args[0].as_str());
    out.append(" \\\n");
    let mut i: usize = 1;
    assert(out@ + lines_from(words, 1) =~= dry_run_text(words));
    while i < args.len()
        invariant
            words == texts(args@),
            1 <= i <= args@.len(),
            out@ + lines_from(words, i as int) == dry_run_text(words),
        decreases args.len() - i,
    {
        let ghost before = out@;
        assert(words[i as int] == args[i as int]@);
        if starts_option(&args[i]) {
            let end = print_option(&mut out, args, i);
            assert(out@ + lines_from(words, end as int) =~= before + lines_from(words, i as int));
            i = end;
        } else {
            print_command(&mut out, args, i);
            assert(out@ =~= before + lines_from(words, i as int));
            return out;
        }
    }
    assert(out@ + lines_from(words, i as int) =~= out@);
    out
}

} // verus!
