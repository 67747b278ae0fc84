//! What the text of a dry run must satisfy.
use vstd::prelude::*;

use crate::dry_run::{
    bare_line, bare_text, dry_run_text, has_bare_quotable, is_bare_quotable, is_option, lines_from,
    option_line, value_text, values_end, values_end_is_within,
};
use crate::reader::command_start;
use crate::text::{
    holds, holds_in_first, holds_in_second, holds_itself, is_white, space_led, spaced,
};

verus! {

/// Whether a word begins with two dashes.
pub open spec fn begins_with_dashes(word: Seq<char>) -> bool {
    word.len() >= 2 && word[0] == '-' && word[1] == '-'
}

/// Whether the command inside the jail is among the arguments: it begins at the argument
/// after the program, if that is no option, or else at the first `bash`.
pub open spec fn command_has_begun(args: Seq<Seq<char>>) -> bool {
    args.len() > 1 && (!begins_with_dashes(args[1]) || exists|k: int|
        1 <= k < args.len() && #[trigger] args[k] == "bash"@)
}

/// A value of an option, as it must be printed: between single quotes where it holds
/// white space, and as it is otherwise.
pub open spec fn printed_value(word: Seq<char>) -> Seq<char> {
    if exists|i: int| 0 <= i < word.len() && is_white(#[trigger] word[i]) {
        seq!['\''] + word + seq!['\'']
    } else {
        word
    }
}

/// A word of the command, as it must be printed: between single quotes where it holds
/// white space, a parenthesis or a dollar sign, and as it is otherwise.
pub open spec fn printed_command_word(word: Seq<char>) -> Seq<char> {
    if exists|i: int|
        0 <= i < word.len() && (is_white(#[trigger] word[i]) || word[i] == '(' || word[i] == ')'
            || word[i] == '$') {
        seq!['\''] + word + seq!['\'']
    } else {
        word
    }
}

/// Words are printed as they must be.
proof fn words_are_printed_as_they_must(word: Seq<char>)
    ensures
        value_text(word) == printed_value(word),
        bare_text(word) == printed_command_word(word),
        is_option(word) == begins_with_dashes(word),
{
    if has_bare_quotable(word) {
        let i = choose|i: int| 0 <= i < word.len() && is_bare_quotable(#[trigger] word[i]);
        assert(is_white(word[i]) || word[i] == '(' || word[i] == ')' || word[i] == '$');
    }
    if exists|i: int|
        0 <= i < word.len() && (is_white(#[trigger] word[i]) || word[i] == '(' || word[i] == ')'
            || word[i] == '$') {
        let i = choose|i: int|
            0 <= i < word.len() && (is_white(#[trigger] word[i]) || word[i] == '(' || word[i] == ')'
                || word[i] == '$');
        assert(is_bare_quotable(word[i]));
    }
}

/// The values that start at `i` hold neither an option nor `bash`, and end where one of
/// these stands.
proof fn values_end_at_option_or_bash(args: Seq<Seq<char>>, i: int)
    requires
        0 <= i <= args.len(),
    ensures
        i <= values_end(args, i) <= args.len(),
        forall|k: int|
            i <= k < values_end(args, i) ==> !is_option(#[trigger] args[k]) && args[k] != "bash"@,
        values_end(args, i) < args.len() ==> is_option(args[values_end(args, i)])
            || args[values_end(args, i)] == "bash"@,
    decreases args.len() - i,
{
    if i < args.len() {
        values_end_at_option_or_bash(args, i + 1);
    }
}

/// The command starts at the first place that is no option, or else at the first `bash`.
proof fn command_start_is_known(args: Seq<Seq<char>>, i: int)
    requires
        0 <= i <= args.len(),
    ensures
        command_start(args, i) < args.len() <==> (i < args.len() && (!is_option(args[i]) || exists|
            k: int,
        |
            i <= k < args.len() && #[trigger] args[k] == "bash"@)),
    decreases args.len() - i,
{
    reveal_strlit("bash");
    if i < args.len() && is_option(args[i]) {
        let j = values_end(args, i + 1);
        values_end_at_option_or_bash(args, i + 1);
        command_start_is_known(args, j);
        if exists|k: int| i <= k < args.len() && #[trigger] args[k] == "bash"@ {
            let k = choose|k: int| i <= k < args.len() && #[trigger] args[k] == "bash"@;
            assert(!is_option("bash"@));
            assert(k != i);
            assert(k >= j);
            assert(args[k] == "bash"@);
        }
        if j < args.len() && !is_option(args[j]) {
            assert(args[j] == "bash"@);
        }
    }
}

/// One argument more moves the end of the values only where they reach to the end, and
/// the new argument is a value too.
proof fn values_end_grows(args: Seq<Seq<char>>, a: Seq<char>, i: int)
    requires
        0 <= i <= args.len(),
    ensures
        values_end(args.push(a), i) == (if values_end(args, i) < args.len() || is_option(a) || a
            == "bash"@ {
            values_end(args, i)
        } else {
            args.len() as int + 1
        }),
    decreases args.len() - i,
{
    let more = args.push(a);
    if i < args.len() {
        assert(more[i] == args[i]);
        values_end_at_option_or_bash(args, i);
        values_end_grows(args, a, i + 1);
    } else {
        assert(more[i] == a);
        assert(values_end(more, i + 1) == more.len());
    }
}

/// What lines become with one argument more, given whether the command has begun in them
/// and whether the new argument begins it.
spec fn grows(
    old_lines: Seq<char>,
    new_lines: Seq<char>,
    begun: bool,
    begins: bool,
    a: Seq<char>,
) -> bool {
    let n = old_lines.len() as int;
    if begun {
        &&& n >= 1
        &&& old_lines == old_lines.take(n - 1) + "\n"@
        &&& new_lines == old_lines.take(n - 1) + seq![' '] + bare_text(a) + "\n"@
    } else if is_option(a) {
        new_lines == old_lines + "  "@ + a + " \\\n"@
    } else if begins {
        new_lines == old_lines + "  "@ + bare_text(a) + "\n"@
    } else {
        &&& n >= 3
        &&& old_lines == old_lines.take(n - 3) + " \\\n"@
        &&& new_lines == old_lines.take(n - 3) + seq![' '] + value_text(a) + " \\\n"@
    }
}

/// Lines grow behind a line as they grow alone.
proof fn grows_behind(
    line: Seq<char>,
    old_rest: Seq<char>,
    new_rest: Seq<char>,
    begun: bool,
    begins: bool,
    a: Seq<char>,
)
    requires
        grows(old_rest, new_rest, begun, begins, a),
    ensures
        grows(line + old_rest, line + new_rest, begun, begins, a),
{
    let old_lines = line + old_rest;
    let new_lines = line + new_rest;
    let r = old_rest.len() as int;
    let l = old_lines.len() as int;
    if begun {
        let kept = old_rest.take(r - 1);
        assert(old_lines.take(l - 1) =~= line + kept);
        assert(line + (kept + "\n"@) =~= line + kept + "\n"@);
        assert(line + (kept + seq![' '] + bare_text(a) + "\n"@) =~= line + kept + seq![' ']
            + bare_text(a) + "\n"@);
    } else if is_option(a) {
        assert(new_lines =~= old_lines + "  "@ + a + " \\\n"@);
    } else if begins {
        assert(new_lines =~= old_lines + "  "@ + bare_text(a) + "\n"@);
    } else {
        let kept = old_rest.take(r - 3);
        assert(old_lines.take(l - 3) =~= line + kept);
        assert(line + (kept + " \\\n"@) =~= line + kept + " \\\n"@);
        assert(line + (kept + seq![' '] + value_text(a) + " \\\n"@) =~= line + kept + seq![' ']
            + value_text(a) + " \\\n"@);
    }
}

/// The lines for one argument after all others.
proof fn lines_of_last(args: Seq<Seq<char>>, a: Seq<char>)
    ensures
        lines_from(args.push(a), args.len() as int) == (if is_option(a) {
            "  "@ + a + " \\\n"@
        } else {
            "  "@ + bare_text(a) + "\n"@
        }),
{
    let more = args.push(a);
    let n = args.len() as int;
    assert(more[n] == a);
    if is_option(a) {
        assert(values_end(more, n + 1) == n + 1);
        let values = more.subrange(n + 1, n + 1).map_values(|word: Seq<char>| value_text(word));
        assert(space_led(values) =~= Seq::<char>::empty());
        assert(lines_from(more, n + 1) =~= Seq::<char>::empty());
        assert(lines_from(more, n) =~= "  "@ + a + " \\\n"@);
    } else {
        let words = more.subrange(n, n + 1).map_values(|word: Seq<char>| bare_text(word));
        assert(words.len() == 1 && words[0] == bare_text(a));
        assert(lines_from(more, n) =~= "  "@ + bare_text(a) + "\n"@);
    }
}

/// The line of the command gets one word more.
proof fn bare_line_grows(args: Seq<Seq<char>>, a: Seq<char>, i: int)
    requires
        0 <= i < args.len(),
    ensures
        ({
            let line = bare_line(args, i);
            let n = line.len() as int;
            &&& n >= 1
            &&& line == line.take(n - 1) + "\n"@
            &&& bare_line(args.push(a), i) == line.take(n - 1) + seq![' '] + bare_text(a) + "\n"@
        }),
{
    reveal_strlit("\n");
    let more = args.push(a);
    let words = args.subrange(i, args.len() as int).map_values(|word: Seq<char>| bare_text(word));
    let longer = more.subrange(i, more.len() as int).map_values(
        |word: Seq<char>| bare_text(word),
    );
    assert(longer.drop_last() =~= words);
    assert(longer.last() == bare_text(a));
    let line = bare_line(args, i);
    assert(line.take(line.len() - 1) =~= "  "@ + spaced(words));
    assert(line =~= line.take(line.len() - 1) + "\n"@);
    assert(bare_line(more, i) =~= line.take(line.len() - 1) + seq![' '] + bare_text(a) + "\n"@);
}

/// The line of the last option gets one value more.
proof fn option_line_grows(args: Seq<Seq<char>>, a: Seq<char>, i: int)
    requires
        0 <= i < args.len(),
    ensures
        ({
            let line = option_line(args, i, args.len() as int);
            let n = line.len() as int;
            &&& n >= 3
            &&& line == line.take(n - 3) + " \\\n"@
            &&& option_line(args.push(a), i, args.len() as int + 1) == line.take(n - 3) + seq![' ']
                + value_text(a) + " \\\n"@
        }),
{
    reveal_strlit(" \\\n");
    let more = args.push(a);
    let values = args.subrange(i + 1, args.len() as int).map_values(
        |word: Seq<char>| value_text(word),
    );
    let longer = more.subrange(i + 1, more.len() as int).map_values(
        |word: Seq<char>| value_text(word),
    );
    assert(longer.drop_last() =~= values);
    assert(longer.last() == value_text(a));
    let line = option_line(args, i, args.len() as int);
    assert(line.take(line.len() - 3) =~= "  "@ + args[i] + space_led(values));
    assert(line =~= line.take(line.len() - 3) + " \\\n"@);
    assert(option_line(more, i, args.len() as int + 1) =~= line.take(line.len() - 3) + seq![' ']
        + value_text(a) + " \\\n"@);
}

/// The lines for the arguments from `i` on grow as they should.
proof fn lines_grow_by_one(args: Seq<Seq<char>>, a: Seq<char>, i: int)
    requires
        1 <= i <= args.len(),
    ensures
        grows(
            lines_from(args, i),
            lines_from(args.push(a), i),
            command_start(args, i) < args.len(),
            i == args.len() || a == "bash"@,
            a,
        ),
    decreases args.len() - i,
{
    let more = args.push(a);
    let n = args.len() as int;
    if i == n {
        lines_of_last(args, a);
        assert(lines_from(args, n) =~= Seq::<char>::empty());
        assert(lines_from(args, n) + "  "@ =~= "  "@);
    } else {
        assert(more[i] == args[i]);
        if is_option(args[i]) {
            let j = values_end(args, i + 1);
            values_end_at_option_or_bash(args, i + 1);
            values_end_grows(args, a, i + 1);
            values_end_is_within(more, i + 1);
            if j < n || is_option(a) || a == "bash"@ {
                assert(more.subrange(i + 1, j) =~= args.subrange(i + 1, j));
                lines_grow_by_one(args, a, j);
                grows_behind(
                    option_line(args, i, j),
                    lines_from(args, j),
                    lines_from(more, j),
                    command_start(args, j) < n,
                    j == n || a == "bash"@,
                    a,
                );
            } else {
                option_line_grows(args, a, i);
                assert(lines_from(args, n) =~= Seq::<char>::empty());
                assert(lines_from(more, n + 1) =~= Seq::<char>::empty());
                assert(lines_from(args, i) =~= option_line(args, i, n));
                assert(lines_from(more, i) =~= option_line(more, i, n + 1));
            }
        } else {
            bare_line_grows(args, a, i);
        }
    }
}

/// A dry run grows argument by argument. The program gets the first line. After it, an
/// option begins a line of its own; what follows an option joins its line as a value;
/// the argument after the program, if it is no option, and `bash` begin the line of the
/// command; and everything after that joins this line. Values and words of the command
/// are printed in full, at most put between single quotes; whatever they hold.
pub proof fn dry_run_grows_argument_by_argument(args: Seq<Seq<char>>, a: Seq<char>)
    ensures
        dry_run_text(Seq::empty()) == Seq::<char>::empty(),
        args.len() == 0 ==> dry_run_text(args.push(a)) == a + " \\\n"@,
        args.len() > 0 ==> {
            let shown = dry_run_text(args);
            let n = shown.len() as int;
            dry_run_text(args.push(a)) == (if command_has_begun(args) {
                shown.take(n - 1) + seq![' '] + printed_command_word(a) + "\n"@
            } else if begins_with_dashes(a) {
                shown + "  "@ + a + " \\\n"@
            } else if args.len() == 1 || a == "bash"@ {
                shown + "  "@ + printed_command_word(a) + "\n"@
            } else {
                shown.take(n - 3) + seq![' '] + printed_value(a) + " \\\n"@
            })
        },
{
    let more = args.push(a);
    words_are_printed_as_they_must(a);
    if args.len() == 0 {
        assert(more[0] == a);
        assert(lines_from(more, 1) =~= Seq::<char>::empty());
        assert(dry_run_text(more) =~= a + " \\\n"@);
    } else {
        assert(more[0] == args[0]);
        lines_grow_by_one(args, a, 1);
        command_start_is_known(args, 1);
        if args.len() > 1 {
            words_are_printed_as_they_must(args[1]);
        }
        grows_behind(
            args[0] + " \\\n"@,
            lines_from(args, 1),
            lines_from(more, 1),
            command_start(args, 1) < args.len(),
            args.len() == 1 || a == "bash"@,
            a,
        );
    }
}

/// The text of a dry run without the end of its last line.
spec fn unended(args: Seq<Seq<char>>) -> Seq<char> {
    let shown = dry_run_text(args);
    if command_has_begun(args) {
        shown.take(shown.len() - 1)
    } else {
        shown.take(shown.len() - 3)
    }
}

/// What is printed of a word holds the word.
proof fn printed_words_hold_the_word(word: Seq<char>)
    ensures
        holds(printed_value(word), word),
        holds(printed_command_word(word), word),
{
    holds_itself(word);
    holds_in_second(seq!['\''], word, word);
    holds_in_first(seq!['\''] + word, seq!['\''], word);
}

/// The text of a dry run is its text without the end of its last line, and that end.
proof fn text_ends_its_last_line(args: Seq<Seq<char>>)
    requires
        args.len() > 0,
    ensures
        dry_run_text(args) == unended(args) + (if command_has_begun(args) {
            "\n"@
        } else {
            " \\\n"@
        }),
    decreases args.len(),
{
    reveal_strlit("\n");
    reveal_strlit(" \\\n");
    reveal_strlit("bash");
    let most = args.drop_last();
    let a = args.last();
    assert(args =~= most.push(a));
    dry_run_grows_argument_by_argument(most, a);
    if most.len() > 0 {
        text_ends_its_last_line(most);
        command_begins_once(most, a);
    }
    let end = if command_has_begun(args) {
        "\n"@
    } else {
        " \\\n"@
    };
    let shown = dry_run_text(args);
    assert(shown =~= shown.take(shown.len() - end.len()) + end);
}

/// The command has begun with one argument more where it had begun before, or where the
/// new argument begins it.
proof fn command_begins_once(args: Seq<Seq<char>>, a: Seq<char>)
    requires
        args.len() > 0,
    ensures
        command_has_begun(args.push(a)) <==> command_has_begun(args) || a == "bash"@ || (
        args.len() == 1 && !begins_with_dashes(a)),
{
    reveal_strlit("bash");
    let more = args.push(a);
    if args.len() > 1 {
        assert(more[1] == args[1]);
    }
    if exists|k: int| 1 <= k < args.len() && #[trigger] args[k] == "bash"@ {
        let k = choose|k: int| 1 <= k < args.len() && #[trigger] args[k] == "bash"@;
        assert(more[k] == "bash"@);
    }
    if a == "bash"@ {
        assert(more[args.len() as int] == "bash"@);
    }
    if exists|k: int| 1 <= k < more.len() && #[trigger] more[k] == "bash"@ {
        let k = choose|k: int| 1 <= k < more.len() && #[trigger] more[k] == "bash"@;
        if k < args.len() {
            assert(args[k] == "bash"@);
        }
    }
}

/// Every argument is printed in full before the end of the last line.
proof fn unended_holds_each(args: Seq<Seq<char>>, k: int)
    requires
        0 <= k < args.len(),
    ensures
        holds(unended(args), args[k]),
    decreases args.len(),
{
    reveal_strlit("\n");
    reveal_strlit(" \\\n");
    let most = args.drop_last();
    let a = args.last();
    assert(args =~= most.push(a));
    dry_run_grows_argument_by_argument(most, a);
    text_ends_its_last_line(args);
    printed_words_hold_the_word(a);
    holds_itself(a);
    if most.len() == 0 {
        assert(unended(args) =~= a);
    } else {
        command_begins_once(most, a);
        text_ends_its_last_line(most);
        let before = unended(most);
        let shown = dry_run_text(most);
        if k < most.len() {
            unended_holds_each(most, k);
            assert(args[k] == most[k]);
        }
        if command_has_begun(most) {
            let gap = before + seq![' '];
            assert(unended(args) =~= gap + printed_command_word(a));
            if k < most.len() {
                holds_in_first(before, seq![' '], args[k]);
                holds_in_first(gap, printed_command_word(a), args[k]);
            } else {
                holds_in_second(gap, printed_command_word(a), a);
            }
        } else if !begins_with_dashes(a) && most.len() > 1 && a != "bash"@ {
            let gap = before + seq![' '];
            assert(unended(args) =~= gap + printed_value(a));
            if k < most.len() {
                holds_in_first(before, seq![' '], args[k]);
                holds_in_first(gap, printed_value(a), args[k]);
            } else {
                holds_in_second(gap, printed_value(a), a);
            }
        } else {
            let last = if begins_with_dashes(a) {
                a
            } else {
                printed_command_word(a)
            };
            reveal_strlit("bash");
            assert(unended(args) =~= shown + "  "@ + last);
            if k < most.len() {
                holds_in_first(before, " \\\n"@, args[k]);
                holds_in_first(shown, "  "@, args[k]);
                holds_in_first(shown + "  "@, last, args[k]);
            } else {
                holds_in_second(shown + "  "@, last, a);
            }
        }
    }
}

/// Every argument is printed in full, whatever it holds.
pub proof fn every_argument_is_printed_in_full(args: Seq<Seq<char>>, k: int)
    requires
        0 <= k < args.len(),
    ensures
        holds(dry_run_text(args), args[k]),
{
    unended_holds_each(args, k);
    text_ends_its_last_line(args);
    holds_in_first(
        unended(args),
        (if command_has_begun(args) {
            "\n"@
        } else {
            " \\\n"@
        }),
        args[k],
    );
}

} // verus!
