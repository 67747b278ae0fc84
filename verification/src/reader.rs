//! How a shell reads a text back into words: blanks separate words, a line feed ends
//! the command, single quotes keep what stands between them, a backslash keeps the next
//! character, and a backslash at the end of a line joins it with the next. Operators
//! and expansions are no part of this reading, and a double quote outside single quotes
//! stops it.
use vstd::prelude::*;

use crate::dry_run::{
    bare_line, bare_text, dry_run_text, has_bare_quotable, has_white, is_option, lines_from,
    option_line, quoted, value_text, values_end, values_end_is_within,
};
use crate::shell::{is_quotable, needs_quotes, quotes_escaped, shell_line, shell_word};
use crate::text::{space_led, spaced};

verus! {

/// What the next character is read as.
pub enum Mode {
    /// A plain character, a blank, a quote or a backslash.
    Plain,
    /// A character between single quotes.
    Quoted,
    /// The character after a backslash.
    Escaped,
    /// Nothing: the line is not read any further.
    Stuck,
}

/// How far a line has been read.
pub struct Reading {
    /// The commands that have ended, each with its words.
    pub ended: Seq<Seq<Seq<char>>>,
    /// The words of the command that is being read, as far as they are complete.
    pub words: Seq<Seq<char>>,
    /// The word that is being read, if one has begun.
    pub word: Option<Seq<char>>,
    pub mode: Mode,
}

/// The blanks that separate words.
pub open spec fn is_blank(c: char) -> bool {
    c == ' ' || c == '\t'
}

impl Reading {
    /// Nothing has been read yet.
    pub open spec fn start() -> Reading {
        Reading { ended: Seq::empty(), words: Seq::empty(), word: None, mode: Mode::Plain }
    }

    /// The word so far, empty where none has begun.
    pub open spec fn so_far(self) -> Seq<char> {
        match self.word {
            Some(word) => word,
            None => Seq::empty(),
        }
    }

    /// The commands so far, with the one that is being read, if it has words.
    pub open spec fn commands(self) -> Seq<Seq<Seq<char>>> {
        if self.all_words().len() == 0 {
            self.ended
        } else {
            self.ended.push(self.all_words())
        }
    }

    /// The words of the command so far, with the one that is being read.
    pub open spec fn all_words(self) -> Seq<Seq<char>> {
        match self.word {
            Some(word) => self.words.push(word),
            None => self.words,
        }
    }

    /// The character joins the word that is being read.
    pub open spec fn keep(self, c: char) -> Reading {
        Reading { word: Some(self.so_far().push(c)), ..self }
    }

    /// Reads one character.
    pub open spec fn step(self, c: char) -> Reading {
        match self.mode {
            Mode::Plain => if c == '\'' {
                Reading { word: Some(self.so_far()), mode: Mode::Quoted, ..self }
            } else if c == '\\' {
                Reading { mode: Mode::Escaped, ..self }
            } else if c == '"' {
                Reading { mode: Mode::Stuck, ..self }
            } else if is_blank(c) {
                Reading { words: self.all_words(), word: None, ..self }
            } else if c == '\n' {
                Reading { ended: self.commands(), words: Seq::empty(), word: None, ..self }
            } else {
                self.keep(c)
            },
            Mode::Quoted => if c == '\'' {
                Reading { mode: Mode::Plain, ..self }
            } else {
                self.keep(c)
            },
            Mode::Escaped => if c == '\n' {
                Reading { mode: Mode::Plain, ..self }
            } else {
                Reading { mode: Mode::Plain, ..self.keep(c) }
            },
            Mode::Stuck => self,
        }
    }

    /// Reads a line.
    pub open spec fn read(self, line: Seq<char>) -> Reading
        decreases line.len(),
    {
        if line.len() == 0 {
            self
        } else {
            self.read(line.drop_last()).step(line.last())
        }
    }
}

/// The commands that a text is read as, each with its words; none where a quotation or
/// an escape is left open, or where the reading stops.
pub open spec fn commands_of(text: Seq<char>) -> Option<Seq<Seq<Seq<char>>>> {
    let end = Reading::start().read(text);
    if end.mode is Plain {
        Some(end.commands())
    } else {
        None
    }
}

/// The words that a text is read as, where it is read as one command, or as none.
pub open spec fn words_of(line: Seq<char>) -> Option<Seq<Seq<char>>> {
    match commands_of(line) {
        Some(commands) => if commands.len() == 0 {
            Some(Seq::empty())
        } else if commands.len() == 1 {
            Some(commands[0])
        } else {
            None
        },
        None => None,
    }
}

/// Whether a word reads as itself without quotes.
pub open spec fn reads_plain(word: Seq<char>) -> bool {
    &&& word.len() > 0
    &&& forall|i: int|
        0 <= i < word.len() ==> !is_blank(#[trigger] word[i]) && word[i] != '\n' && word[i] != '\''
            && word[i] != '"' && word[i] != '\\'
}

/// Reading one line and then another is reading them joined.
pub proof fn read_joined(from: Reading, a: Seq<char>, b: Seq<char>)
    ensures
        from.read(a + b) == from.read(a).read(b),
    decreases b.len(),
{
    if b.len() == 0 {
        assert(a + b =~= a);
    } else {
        read_joined(from, a, b.drop_last());
        assert((a + b).drop_last() =~= a + b.drop_last());
        assert((a + b).last() == b.last());
    }
}

/// Reading a plain word adds it to the word that is being read.
pub proof fn read_plain(from: Reading, word: Seq<char>)
    requires
        from.mode is Plain,
        reads_plain(word),
    ensures
        from.read(word) == (Reading {
            word: Some(from.so_far() + word),
            mode: Mode::Plain,
            ..from
        }),
    decreases word.len(),
{
    let most = word.drop_last();
    if most.len() == 0 {
        assert(from.read(most) == from);
        assert(from.so_far() + word =~= from.so_far().push(word.last()));
    } else {
        assert(reads_plain(most)) by {
            assert forall|i: int| 0 <= i < most.len() implies !is_blank(#[trigger] most[i])
                && most[i] != '\n' && most[i] != '\'' && most[i] != '"' && most[i] != '\\' by {
                assert(most[i] == word[i]);
            }
        }
        read_plain(from, most);
        assert(from.so_far() + word =~= (from.so_far() + most).push(word.last()));
    }
    assert(word.last() == word[word.len() - 1]);
}

/// Between single quotes, text without single quotes is kept as it is.
proof fn read_within_quotes(from: Reading, text: Seq<char>)
    requires
        from.mode is Quoted,
        from.word is Some,
        forall|i: int| 0 <= i < text.len() ==> #[trigger] text[i] != '\'',
    ensures
        from.read(text) == (Reading {
            word: Some(from.so_far() + text),
            mode: Mode::Quoted,
            ..from
        }),
    decreases text.len(),
{
    if text.len() == 0 {
        assert(from.so_far() + text =~= from.so_far());
    } else {
        let most = text.drop_last();
        assert forall|i: int| 0 <= i < most.len() implies #[trigger] most[i] != '\'' by {
            assert(most[i] == text[i]);
        }
        read_within_quotes(from, most);
        assert(text.last() == text[text.len() - 1]);
        assert(from.so_far() + text =~= (from.so_far() + most).push(text.last()));
    }
}

/// Between single quotes, a word with its quotes escaped is read as the word.
proof fn read_escaped(from: Reading, word: Seq<char>)
    requires
        from.mode is Quoted,
        from.word is Some,
    ensures
        from.read(quotes_escaped(word)) == (Reading {
            word: Some(from.so_far() + word),
            mode: Mode::Quoted,
            ..from
        }),
    decreases word.len(),
{
    if word.len() == 0 {
        assert(from.so_far() + word =~= from.so_far());
    } else {
        let most = word.drop_last();
        let done = quotes_escaped(most);
        read_escaped(from, most);
        assert(from.so_far() + word =~= (from.so_far() + most).push(word.last()));
        if word.last() == '\'' {
            let tail = seq!['\'', '\\', '\'', '\''];
            read_joined(from, done, tail);
            assert(tail.drop_last() =~= seq!['\'', '\\', '\'']);
            assert(tail.drop_last().drop_last() =~= seq!['\'', '\\']);
            assert(tail.drop_last().drop_last().drop_last() =~= seq!['\'']);
            assert(tail.drop_last().drop_last().drop_last().drop_last() =~= Seq::<char>::empty());
            reveal_with_fuel(Reading::read, 5);
        } else {
            assert(done.push(word.last()).drop_last() =~= done);
        }
    }
}

/// Where no word has begun, a word as it stands in a shell command is read as that
/// word.
proof fn read_shell_word(from: Reading, word: Seq<char>)
    requires
        from.mode is Plain,
        from.word is None,
        word.len() > 0,
    ensures
        from.read(shell_word(word)) == (Reading { word: Some(word), mode: Mode::Plain, ..from }),
{
    assert(Seq::<char>::empty() + word =~= word);
    if needs_quotes(word) {
        let open = seq!['\''];
        assert(open.drop_last() =~= Seq::<char>::empty());
        reveal_with_fuel(Reading::read, 2);
        let inside = from.read(open);
        read_joined(from, open, quotes_escaped(word));
        read_escaped(inside, word);
        read_joined(from, open + quotes_escaped(word), open);
    } else {
        assert forall|i: int| 0 <= i < word.len() implies !is_blank(#[trigger] word[i]) && word[i]
            != '\n' && word[i] != '\'' && word[i] != '"' && word[i] != '\\' by {
            assert(!is_quotable(word[i]));
        }
        read_plain(from, word);
    }
}

/// Reading the words of a shell line after other words leaves all but the last complete,
/// and the last being read.
pub proof fn read_shell_line_from(from: Reading, words: Seq<Seq<char>>)
    requires
        from.mode is Plain,
        from.word is None,
        words.len() > 0,
        forall|i: int| 0 <= i < words.len() ==> (#[trigger] words[i]).len() > 0,
    ensures
        from.read(shell_line(words)) == (Reading {
            words: from.words + words.drop_last(),
            word: Some(words.last()),
            ..from
        }),
    decreases words.len(),
{
    let shown = words.map_values(|word: Seq<char>| shell_word(word));
    assert(words.last() == words[words.len() - 1]);
    if words.len() == 1 {
        assert(spaced(shown) == shell_word(words[0]));
        assert(from.words + words.drop_last() =~= from.words);
        read_shell_word(from, words[0]);
    } else {
        let most = words.drop_last();
        assert forall|i: int| 0 <= i < most.len() implies (#[trigger] most[i]).len() > 0 by {
            assert(most[i] == words[i]);
        }
        read_shell_line_from(from, most);
        assert(shown.drop_last() =~= most.map_values(|word: Seq<char>| shell_word(word)));
        assert(shown.last() == shell_word(words.last()));
        let before = shell_line(most);
        let gap = seq![' '];
        read_space(from.read(before));
        read_joined(from, before, gap);
        let between = from.read(before + gap);
        assert(between.words =~= from.words + most);
        read_shell_word(between, words.last());
        read_joined(from, before + gap, shell_word(words.last()));
    }
}

/// Reading the words of a shell line leaves all but the last complete, and the last
/// being read.
proof fn read_shell_line(words: Seq<Seq<char>>)
    requires
        words.len() > 0,
        forall|i: int| 0 <= i < words.len() ==> (#[trigger] words[i]).len() > 0,
    ensures
        Reading::start().read(shell_line(words)) == (Reading {
            ended: Seq::empty(),
            words: words.drop_last(),
            word: Some(words.last()),
            mode: Mode::Plain,
        }),
{
    read_shell_line_from(Reading::start(), words);
    assert(Seq::<Seq<char>>::empty() + words.drop_last() =~= words.drop_last());
}

/// A shell reads the joined line back as the words that were joined. An empty word is
/// lost in the line, so none may be empty.
pub proof fn shell_join_reads_back(words: Seq<Seq<char>>)
    requires
        forall|i: int| 0 <= i < words.len() ==> (#[trigger] words[i]).len() > 0,
    ensures
        words_of(shell_line(words)) == Some(words),
{
    if words.len() == 0 {
        assert(shell_line(words) =~= Seq::<char>::empty());
        assert(words =~= Seq::<Seq<char>>::empty());
    } else {
        read_shell_line(words);
        assert(words.drop_last().push(words.last()) =~= words);
    }
}

/// Whether a word holds no single quote.
pub open spec fn is_quote_free(word: Seq<char>) -> bool {
    forall|i: int| 0 <= i < word.len() ==> #[trigger] word[i] != '\''
}

/// Whether the value of an option reads as itself when printed.
pub open spec fn value_reads(word: Seq<char>) -> bool {
    if has_white(word) {
        is_quote_free(word)
    } else {
        reads_plain(word)
    }
}

/// Whether a word of the command inside the jail reads as itself when printed.
pub open spec fn bare_reads(word: Seq<char>) -> bool {
    if has_bare_quotable(word) {
        is_quote_free(word)
    } else {
        reads_plain(word)
    }
}

/// Where the command inside the jail starts, looking from `i` on.
pub open spec fn command_start(args: Seq<Seq<char>>, i: int) -> int
    decreases args.len() - i,
{
    if i >= args.len() {
        args.len() as int
    } else if is_option(args[i]) {
        proof {
            values_end_is_within(args, i + 1);
        }
        command_start(args, values_end(args, i + 1))
    } else {
        i
    }
}

/// Whether the argument at `k` reads as itself where a dry run prints it: the program
/// and the options are never quoted, the values of options and the words of the
/// command are quoted when they hold certain characters.
pub open spec fn is_printed_readably(args: Seq<Seq<char>>, k: int) -> bool {
    if k == 0 {
        reads_plain(args[k])
    } else if k >= command_start(args, 1) {
        bare_reads(args[k])
    } else if is_option(args[k]) {
        reads_plain(args[k])
    } else {
        value_reads(args[k])
    }
}

/// Whether `shown` is the word between quotes, or the word itself, and reads as it.
spec fn reads_as(word: Seq<char>, shown: Seq<char>) -> bool {
    (shown == quoted(word) && is_quote_free(word)) || (shown == word && reads_plain(word))
}

/// Where no word has begun, what reads as a word is read as that word.
proof fn read_shown(from: Reading, word: Seq<char>, shown: Seq<char>)
    requires
        from.mode is Plain,
        from.word is None,
        reads_as(word, shown),
    ensures
        from.read(shown).mode is Plain,
        from.read(shown).ended == from.ended,
        from.read(shown).all_words() == from.all_words().push(word),
{
    assert(Seq::<char>::empty() + word =~= word);
    if shown == quoted(word) && is_quote_free(word) {
        let open = seq!['\''];
        assert(open.drop_last() =~= Seq::<char>::empty());
        reveal_with_fuel(Reading::read, 2);
        read_joined(from, open, word);
        read_within_quotes(from.read(open), word);
        read_joined(from, open + word, open);
    } else {
        read_plain(from, word);
    }
}

/// A space completes the word that is being read.
pub proof fn read_space(from: Reading)
    requires
        from.mode is Plain,
    ensures
        from.read(seq![' ']) == (Reading { words: from.all_words(), word: None, ..from }),
{
    assert(seq![' '].drop_last() =~= Seq::<char>::empty());
    reveal_with_fuel(Reading::read, 2);
}

/// Two spaces, with which a line is indented, complete the word that is being read.
proof fn read_indent(from: Reading)
    requires
        from.mode is Plain,
    ensures
        from.read("  "@) == (Reading { words: from.all_words(), word: None, ..from }),
{
    reveal_strlit("  ");
    assert("  "@ =~= seq![' '] + seq![' ']);
    read_joined(from, seq![' '], seq![' ']);
    read_space(from);
    read_space(from.read(seq![' ']));
}

/// The end of a continued line completes the word that is being read.
proof fn read_continuation(from: Reading)
    requires
        from.mode is Plain,
    ensures
        from.read(" \\\n"@) == (Reading { words: from.all_words(), word: None, ..from }),
{
    reveal_strlit(" \\\n");
    let end = seq![' ', '\\', '\n'];
    assert(" \\\n"@ =~= end);
    assert(end.drop_last() =~= seq![' ', '\\']);
    assert(end.drop_last().drop_last() =~= seq![' ']);
    assert(end.drop_last().drop_last().drop_last() =~= Seq::<char>::empty());
    reveal_with_fuel(Reading::read, 4);
}

/// Words that are each led by a space, and shown so that they read as themselves, are
/// read after the words so far.
proof fn read_space_led(from: Reading, words: Seq<Seq<char>>)
    requires
        from.mode is Plain,
        forall|i: int| 0 <= i < words.len() ==> value_reads(#[trigger] words[i]),
    ensures
        from.read(space_led(words.map_values(|word: Seq<char>| value_text(word)))).mode is Plain,
        from.read(space_led(words.map_values(|word: Seq<char>| value_text(word)))).ended
            == from.ended,
        from.read(
            space_led(words.map_values(|word: Seq<char>| value_text(word))),
        ).all_words() == from.all_words() + words,
    decreases words.len(),
{
    let shown = words.map_values(|word: Seq<char>| value_text(word));
    if words.len() == 0 {
        assert(space_led(shown) =~= Seq::<char>::empty());
        assert(from.all_words() + words =~= from.all_words());
    } else {
        let most = words.drop_last();
        assert forall|i: int| 0 <= i < most.len() implies value_reads(#[trigger] most[i]) by {
            assert(most[i] == words[i]);
        }
        read_space_led(from, most);
        assert(shown.drop_last() =~= most.map_values(|word: Seq<char>| value_text(word)));
        let last = words[words.len() - 1];
        assert(shown.last() == value_text(last));
        let before = space_led(shown.drop_last());
        read_joined(from, before, seq![' ']);
        read_space(from.read(before));
        read_shown(from.read(before + seq![' ']), last, value_text(last));
        read_joined(from, before + seq![' '], value_text(last));
        assert(from.all_words() + words =~= (from.all_words() + most).push(last));
    }
}

/// Words with a space between neighbours, shown so that they read as themselves, are
/// read after the words so far.
proof fn read_spaced(from: Reading, words: Seq<Seq<char>>, shown: Seq<Seq<char>>)
    requires
        from.mode is Plain,
        from.word is None,
        words.len() == shown.len(),
        forall|i: int| 0 <= i < words.len() ==> reads_as(words[i], #[trigger] shown[i]),
    ensures
        from.read(spaced(shown)).mode is Plain,
        from.read(spaced(shown)).ended == from.ended,
        from.read(spaced(shown)).all_words() == from.all_words() + words,
    decreases words.len(),
{
    if words.len() == 0 {
        assert(from.all_words() + words =~= from.all_words());
    } else if words.len() == 1 {
        read_shown(from, words[0], shown[0]);
        assert(from.all_words() + words =~= from.all_words().push(words[0]));
    } else {
        let most = words.drop_last();
        let most_shown = shown.drop_last();
        assert forall|i: int| 0 <= i < most.len() implies reads_as(
            most[i],
            #[trigger] most_shown[i],
        ) by {
            assert(most_shown[i] == shown[i]);
        }
        read_spaced(from, most, most_shown);
        let last = words.len() - 1;
        let before = spaced(most_shown);
        read_joined(from, before, seq![' ']);
        read_space(from.read(before));
        read_shown(from.read(before + seq![' ']), words[last], shown[last]);
        read_joined(from, before + seq![' '], shown[last]);
        assert(from.all_words() + words =~= (from.all_words() + most).push(words[last]));
    }
}

/// The line of an option is read as the option and its values.
proof fn read_option_line(from: Reading, args: Seq<Seq<char>>, i: int, j: int)
    requires
        from.mode is Plain,
        0 <= i < j <= args.len(),
        reads_plain(args[i]),
        forall|k: int| i < k < j ==> value_reads(#[trigger] args[k]),
    ensures
        from.read(option_line(args, i, j)).mode is Plain,
        from.read(option_line(args, i, j)).ended == from.ended,
        from.read(option_line(args, i, j)).all_words() == from.all_words() + args.subrange(i, j),
{
    let values = args.subrange(i + 1, j);
    let shown = space_led(values.map_values(|word: Seq<char>| value_text(word)));
    assert forall|k: int| 0 <= k < values.len() implies value_reads(#[trigger] values[k]) by {
        assert(values[k] == args[i + 1 + k]);
    }
    read_indent(from);
    let indented = from.read("  "@);
    read_plain(indented, args[i]);
    assert(Seq::<char>::empty() + args[i] =~= args[i]);
    read_joined(from, "  "@, args[i]);
    let named = from.read("  "@ + args[i]);
    read_space_led(named, values);
    read_joined(from, "  "@ + args[i], shown);
    let valued = from.read("  "@ + args[i] + shown);
    read_continuation(valued);
    read_joined(from, "  "@ + args[i] + shown, " \\\n"@);
    assert(from.all_words() + args.subrange(i, j) =~= from.all_words().push(args[i]) + values);
}

/// The line of the command inside the jail is read as its words, and ends the command.
proof fn read_bare_line(from: Reading, args: Seq<Seq<char>>, i: int)
    requires
        from.mode is Plain,
        0 <= i < args.len(),
        forall|k: int| i <= k < args.len() ==> bare_reads(#[trigger] args[k]),
    ensures
        from.read(bare_line(args, i)).mode is Plain,
        from.read(bare_line(args, i)).commands() == from.ended.push(
            from.all_words() + args.subrange(i, args.len() as int),
        ),
{
    let words = args.subrange(i, args.len() as int);
    let each = words.map_values(|word: Seq<char>| bare_text(word));
    let shown = spaced(each);
    assert forall|k: int| 0 <= k < words.len() implies reads_as(words[k], #[trigger] each[k]) by {
        assert(words[k] == args[i + k]);
        assert(bare_reads(args[i + k]));
    }
    read_indent(from);
    read_spaced(from.read("  "@), words, each);
    read_joined(from, "  "@, shown);
    let whole = from.read("  "@ + shown);
    read_joined(from, "  "@ + shown, "\n"@);
    reveal_strlit("\n");
    assert("\n"@ =~= seq!['\n']);
    assert(seq!['\n'].drop_last() =~= Seq::<char>::empty());
    reveal_with_fuel(Reading::read, 2);
}

/// No option stands among the values of an option.
proof fn values_are_no_options(args: Seq<Seq<char>>, i: int, k: int)
    requires
        0 <= i <= k < values_end(args, i),
        i <= args.len(),
    ensures
        !is_option(args[k]),
    decreases args.len() - i,
{
    values_end_is_within(args, i);
    if i < k {
        values_are_no_options(args, i + 1, k);
    }
}

/// The command does not start before the place from which it is looked for.
proof fn command_start_is_within(args: Seq<Seq<char>>, i: int)
    requires
        i <= args.len(),
    ensures
        i <= command_start(args, i) <= args.len(),
    decreases args.len() - i,
{
    if i < args.len() && is_option(args[i]) {
        values_end_is_within(args, i + 1);
        command_start_is_within(args, values_end(args, i + 1));
    }
}

/// The lines for the arguments from `i` on are read as those arguments.
proof fn read_lines(from: Reading, args: Seq<Seq<char>>, i: int)
    requires
        from.mode is Plain,
        from.all_words().len() > 0,
        1 <= i <= args.len(),
        command_start(args, i) == command_start(args, 1),
        forall|k: int| i <= k < args.len() ==> #[trigger] is_printed_readably(args, k),
    ensures
        from.read(lines_from(args, i)).mode is Plain,
        from.read(lines_from(args, i)).commands() == from.ended.push(
            from.all_words() + args.subrange(i, args.len() as int),
        ),
    decreases args.len() - i,
{
    let n = args.len() as int;
    if i >= n {
        assert(from.all_words() + args.subrange(i, n) =~= from.all_words());
    } else if is_option(args[i]) {
        let j = values_end(args, i + 1);
        values_end_is_within(args, i + 1);
        command_start_is_within(args, j);
        assert(is_printed_readably(args, i));
        assert forall|k: int| i < k < j implies value_reads(#[trigger] args[k]) by {
            values_are_no_options(args, i + 1, k);
            assert(is_printed_readably(args, k));
        }
        read_option_line(from, args, i, j);
        read_lines(from.read(option_line(args, i, j)), args, j);
        read_joined(from, option_line(args, i, j), lines_from(args, j));
        assert(from.all_words() + args.subrange(i, n) =~= from.all_words() + args.subrange(i, j)
            + args.subrange(j, n));
    } else {
        assert forall|k: int| i <= k < n implies bare_reads(#[trigger] args[k]) by {
            assert(is_printed_readably(args, k));
        }
        read_bare_line(from, args, i);
    }
}

/// A shell reads what a dry run prints back as the arguments it was given, so that the
/// printed command is the command that would run. Arguments that do not read as
/// themselves where they are printed are left out: the printed quotes do not escape
/// what they enclose.
pub proof fn dry_run_reads_back(args: Seq<Seq<char>>)
    requires
        forall|k: int| 0 <= k < args.len() ==> #[trigger] is_printed_readably(args, k),
    ensures
        words_of(dry_run_text(args)) == Some(args),
{
    let start = Reading::start();
    if args.len() == 0 {
        assert(args =~= Seq::<Seq<char>>::empty());
    } else {
        assert(is_printed_readably(args, 0));
        read_plain(start, args[0]);
        assert(Seq::<char>::empty() + args[0] =~= args[0]);
        let named = start.read(args[0]);
        read_continuation(named);
        read_joined(start, args[0], " \\\n"@);
        let head = args[0] + " \\\n"@;
        read_lines(start.read(head), args, 1);
        read_joined(start, head, lines_from(args, 1));
        assert(start.read(head).all_words() + args.subrange(1, args.len() as int) =~= args);
    }
}

/// A shell reads the command that a dry run prints on macOS back as `sandbox-exec` with
/// a place holder for the profile and the command inside the jail. A command that
/// holds a single quote is left out: the printed quotes do not escape it.
pub proof fn sandbox_exec_line_reads_back(command: Seq<char>)
    requires
        is_quote_free(command),
    ensures
        words_of("sandbox-exec -p '<profile>' bash -c '"@ + command + "'"@) == Some(
            seq!["sandbox-exec"@, "-p"@, "<profile>"@, "bash"@, "-c"@, command],
        ),
{
    reveal_strlit("sandbox-exec -p '<profile>' bash -c '");
    reveal_strlit("'");
    reveal_strlit("sandbox-exec");
    reveal_strlit("-p");
    reveal_strlit("<profile>");
    reveal_strlit("bash");
    reveal_strlit("-c");
    let words = seq!["sandbox-exec"@, "-p"@, "<profile>"@, "bash"@, "-c"@, command];
    let shown = seq![
        "sandbox-exec"@,
        "-p"@,
        quoted("<profile>"@),
        "bash"@,
        "-c"@,
        quoted(command),
    ];
    read_spaced(Reading::start(), words, shown);
    assert(Reading::start().all_words() + words =~= words);
    let s5 = shown.drop_last();
    let s4 = s5.drop_last();
    let s3 = s4.drop_last();
    let s2 = s3.drop_last();
    let s1 = s2.drop_last();
    assert(spaced(s1) == shown[0]);
    assert(spaced(s2) == spaced(s1) + seq![' '] + shown[1]);
    assert(spaced(s3) == spaced(s2) + seq![' '] + shown[2]);
    assert(spaced(s4) == spaced(s3) + seq![' '] + shown[3]);
    assert(spaced(s5) == spaced(s4) + seq![' '] + shown[4]);
    assert(spaced(shown) == spaced(s5) + seq![' '] + shown[5]);
    assert(spaced(shown) =~= "sandbox-exec -p '<profile>' bash -c '"@ + command + "'"@);
}

} // verus!
