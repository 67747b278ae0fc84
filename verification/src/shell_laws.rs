//! What the shell command of a jail must satisfy.
use vstd::prelude::*;
use vstd::utf8::encode_utf8;

use crate::config::Config;
use crate::path::{display, entry_path};
use crate::reader::{read_joined, read_plain, read_shell_line_from, read_space, words_of, Reading};
use crate::shell::{
    is_quotable, mise_places, needs_quotes, quotes_escaped, shell_command, shell_line, shell_word,
};
use crate::text::{is_white, split_on, texts};

verus! {

/// Whether a character keeps a word from standing without quotes: white space, a quote
/// or a backslash.
pub open spec fn is_special(c: char) -> bool {
    is_white(c) || c == '\'' || c == '"' || c == '\\'
}

/// Whether a word holds a special character.
pub open spec fn has_special(word: Seq<char>) -> bool {
    exists|i: int| 0 <= i < word.len() && is_special(#[trigger] word[i])
}

/// The line of one word is the word as it stands in a shell command.
proof fn line_of_one_word(word: Seq<char>)
    ensures
        shell_line(seq![word]) == shell_word(word),
        has_special(word) <==> needs_quotes(word),
{
    let shown = seq![word].map_values(|each: Seq<char>| shell_word(each));
    assert(shown.len() == 1 && shown[0] == shell_word(word));
    if has_special(word) {
        let i = choose|i: int| 0 <= i < word.len() && is_special(#[trigger] word[i]);
        assert(is_quotable(word[i]));
    }
    if needs_quotes(word) {
        let i = choose|i: int| 0 <= i < word.len() && is_quotable(#[trigger] word[i]);
        assert(is_special(word[i]));
    }
}

/// No words make an empty line, and a word more adds a space and its own line.
pub proof fn joined_line_grows_word_by_word(words: Seq<Seq<char>>, word: Seq<char>)
    ensures
        shell_line(Seq::empty()) == Seq::<char>::empty(),
        words.len() > 0 ==> shell_line(words.push(word)) == shell_line(words) + seq![' ']
            + shell_line(seq![word]),
{
    let none = Seq::<Seq<char>>::empty().map_values(|each: Seq<char>| shell_word(each));
    assert(none.len() == 0);
    if words.len() > 0 {
        let shown = words.map_values(|each: Seq<char>| shell_word(each));
        let more = words.push(word).map_values(|each: Seq<char>| shell_word(each));
        assert(more.drop_last() =~= shown);
        assert(more.last() == shell_word(word));
        line_of_one_word(word);
    }
}

/// A word without special characters stands in the line as it is, so that the shell
/// expands what it holds.
pub proof fn plain_word_stands_as_it_is(word: Seq<char>)
    requires
        !has_special(word),
    ensures
        shell_line(seq![word]) == word,
{
    line_of_one_word(word);
}

/// A word with special characters stands between single quotes, character by character:
/// a single quote in it closes the quotation, follows escaped, and opens it again.
pub proof fn special_word_is_quoted_character_by_character(word: Seq<char>, c: char)
    requires
        has_special(word) || is_special(c),
    ensures
        shell_line(seq![word.push(c)]) == (if has_special(word) {
            shell_line(seq![word]).drop_last()
        } else {
            seq!['\''] + word
        }) + (if c == '\'' {
            seq!['\'', '\\', '\'', '\'']
        } else {
            seq![c]
        }) + seq!['\''],
{
    let longer = word.push(c);
    line_of_one_word(word);
    line_of_one_word(longer);
    assert(longer.drop_last() =~= word);
    assert(longer.last() == c);
    if has_special(word) {
        let i = choose|i: int| 0 <= i < word.len() && is_special(#[trigger] word[i]);
        assert(is_special(longer[i]));
        assert(shell_word(word).drop_last() =~= seq!['\''] + quotes_escaped(word));
    } else {
        assert(is_special(longer[longer.len() - 1]));
        without_quotes_nothing_is_escaped(word);
    }
    assert(shell_line(seq![longer]) =~= (if has_special(word) {
        shell_line(seq![word]).drop_last()
    } else {
        seq!['\''] + word
    }) + (if c == '\'' {
        seq!['\'', '\\', '\'', '\'']
    } else {
        seq![c]
    }) + seq!['\'']);
}

/// Escaping the quotes of a word that has none changes nothing.
proof fn without_quotes_nothing_is_escaped(word: Seq<char>)
    requires
        !has_special(word),
    ensures
        quotes_escaped(word) == word,
    decreases word.len(),
{
    if word.len() > 0 {
        let most = word.drop_last();
        assert(!has_special(most)) by {
            if has_special(most) {
                let i = choose|i: int| 0 <= i < most.len() && is_special(#[trigger] most[i]);
                assert(is_special(word[i]));
            }
        }
        assert(!is_special(word[word.len() - 1]));
        without_quotes_nothing_is_escaped(most);
        assert(quotes_escaped(word) =~= word);
    } else {
        assert(word =~= Seq::<char>::empty());
    }
}

/// Where `mise` was found and is not switched off, the command trusts it, activates it
/// for bash and takes over its environment, and then runs what the user asked for:
/// whatever that is, and whether the switch is absent or off.
pub proof fn found_mise_is_set_up_before_the_command(config: Config, path: Vec<u8>)
    requires
        config.no_mise != Some(true),
    ensures
        shell_command(config, Some(path)) == display(path@) + " trust && eval \"$("@ + display(
            path@,
        ) + " activate bash)\" && eval \"$("@ + display(path@) + " env)\""@ + " && "@ + (
        if config.command@.len() == 0 {
            "bash"@
        } else {
            shell_line(texts(config.command@))
        }),
{
}

/// Where `mise` was not found or is switched off, the command only runs what the user
/// asked for, after a command that does nothing.
pub proof fn without_mise_only_the_command_runs(config: Config, mise: Option<Vec<u8>>)
    requires
        mise is None || config.no_mise == Some(true),
    ensures
        shell_command(config, mise) == "true"@ + " && "@ + (if config.command@.len() == 0 {
            "bash"@
        } else {
            shell_line(texts(config.command@))
        }),
{
}

/// A shell reads the command of a jail without `mise` back as one command: `true`, the
/// operator, and then exactly the words that the user gave, or `bash`.
pub proof fn jail_command_reads_back(config: Config, mise: Option<Vec<u8>>)
    requires
        mise is None || config.no_mise == Some(true),
        forall|i: int|
            0 <= i < config.command@.len() ==> (#[trigger] config.command@[i])@.len() > 0,
    ensures
        words_of(shell_command(config, mise)) == Some(
            seq!["true"@, "&&"@] + (if config.command@.len() == 0 {
                seq!["bash"@]
            } else {
                texts(config.command@)
            }),
        ),
{
    reveal_strlit("true");
    reveal_strlit(" && ");
    reveal_strlit("&&");
    reveal_strlit("bash");
    let start = Reading::start();
    let space = seq![' '];
    read_plain(start, "true"@);
    assert(Seq::<char>::empty() + "true"@ =~= "true"@);
    read_space(start.read("true"@));
    read_joined(start, "true"@, space);
    let first = start.read("true"@ + space);
    assert(first.words =~= seq!["true"@]);
    read_plain(first, "&&"@);
    assert(Seq::<char>::empty() + "&&"@ =~= "&&"@);
    read_joined(start, "true"@ + space, "&&"@);
    read_space(first.read("&&"@));
    read_joined(start, "true"@ + space + "&&"@, space);
    let second = start.read("true"@ + space + "&&"@ + space);
    assert(second.words =~= seq!["true"@, "&&"@]);
    let prefix = "true"@ + " && "@;
    assert(prefix =~= "true"@ + space + "&&"@ + space);
    if config.command@.len() == 0 {
        read_plain(second, "bash"@);
        assert(Seq::<char>::empty() + "bash"@ =~= "bash"@);
        read_joined(start, prefix, "bash"@);
        assert(seq!["true"@, "&&"@].push("bash"@) =~= seq!["true"@, "&&"@] + seq!["bash"@]);
    } else {
        let words = texts(config.command@);
        assert forall|i: int| 0 <= i < words.len() implies (#[trigger] words[i]).len() > 0 by {
            assert(words[i] == config.command@[i]@);
        }
        read_shell_line_from(second, words);
        read_joined(start, prefix, shell_line(words));
        assert((second.words + words.drop_last()).push(words.last()) =~= seq!["true"@, "&&"@]
            + words);
    }
}

/// `mise` is looked for in each directory of the search path, in its order, and nowhere
/// else.
pub proof fn mise_is_looked_for_in_each_directory(search_path: Option<&str>)
    ensures
        search_path is None ==> mise_places(search_path).len() == 0,
        search_path matches Some(dirs) ==> {
            &&& mise_places(search_path).len() == split_on(dirs@, ':').len()
            &&& forall|k: int|
                0 <= k < split_on(dirs@, ':').len() ==> #[trigger] mise_places(search_path)[k]
                    == entry_path(encode_utf8(split_on(dirs@, ':')[k]), encode_utf8("mise"@))
        },
{
}

} // verus!
