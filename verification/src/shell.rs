//! The shell command that runs inside the jail.
use vstd::prelude::*;

use crate::config::{is_set, Config};
use crate::path::{copy_bytes, display, entry_path, path_display, path_join, push_raw, raws, text_bytes};
use crate::text::{chars_of, is_white, is_whitespace, spaced, split_on, split_text, texts};
use vstd::utf8::encode_utf8;

verus! {

/// The characters that make a word need quotes.
pub open spec fn is_quotable(c: char) -> bool {
    is_white(c) || c == '\'' || c == '"' || c == '\\'
}

/// Whether a word holds a character that needs quotes.
pub open spec fn needs_quotes(word: Seq<char>) -> bool {
    exists|i: int| 0 <= i < word.len() && is_quotable(#[trigger] word[i])
}

/// The word with every single quote replaced by the four characters that close a
/// quotation, add an escaped quote and open the quotation again.
pub open spec fn quotes_escaped(word: Seq<char>) -> Seq<char>
    decreases word.len(),
{
    if word.len() == 0 {
        Seq::empty()
    } else if word.last() == '\'' {
        quotes_escaped(word.drop_last()) + seq!['\'', '\\', '\'', '\'']
    } else {
        quotes_escaped(word.drop_last()).push(word.last())
    }
}

/// The word as it stands in a shell command.
pub open spec fn shell_word(word: Seq<char>) -> Seq<char> {
    if needs_quotes(word) {
        seq!['\''] + quotes_escaped(word) + seq!['\'']
    } else {
        word
    }
}

/// `word` as it stands in a shell command.
fn quote_word(word: &String) -> (quoted: String)
    ensures
        quoted@ == shell_word(word@),
{
    let chars = chars_of(word.as_str());
    let mut needed: bool = false;
    let mut escaped = String::new();
    escaped.push('\'');
    let mut i: usize = 0;
    while i < chars.len()
        invariant
            chars@ == word@,
            i <= chars.len(),
            needed <==> needs_quotes(word@.take(i as int)),
            escaped@ == seq!['\''] + quotes_escaped(word@.take(i as int)),
        decreases chars.len() - i,
    {
        let c: char = chars[i];
        let ghost before = word@.take(i as int);
        let ghost after = word@.take(i + 1);
        assert(after.drop_last() =~= before);
        assert(after.last() == c);
        proof {
            if needs_quotes(before) {
                let k = choose|k: int| 0 <= k < before.len() && is_quotable(#[trigger] before[k]);
                assert(is_quotable(after[k]));
            }
            if is_quotable(c) {
                assert(is_quotable(after[i as int]));
            }
            if needs_quotes(after) {
                let k = choose|k: int| 0 <= k < after.len() && is_quotable(#[trigger] after[k]);
                if k < i {
                    assert(is_quotable(before[k]));
                }
            }
        }
        if is_whitespace(c) || c == '\'' || c == '"' || c == '\\' {
            needed = true;
        }
        if c == '\'' {
            escaped.push('\'');
            escaped.push('\\');
            escaped.push('\'');
            escaped.push('\'');
        } else {
            escaped.push(c);
        }
        assert(escaped@ =~= seq!['\''] + quotes_escaped(after));
        i = i + 1;
    }
    assert(word@.take(i as int) =~= word@);
    if needed {
        escaped.push('\'');
        assert(escaped@ =~= shell_word(word@));
        escaped
    } else {
        word.clone()
    }
}

/// The words of a command, each as it stands in a shell command, with one space
/// between neighbours.
pub open spec fn shell_line(words: Seq<Seq<char>>) -> Seq<char> {
    spaced(words.map_values(|word: Seq<char>| shell_word(word)))
}

/// Joins the words of a command into one line for the shell, quoting those that
/// hold white space, quotes or backslashes.
pub fn shell_join(parts: &[String]) -> (line: String)
    ensures
        line@ == shell_line(texts(parts@)),
{
    let ghost words = texts(parts@).map_values(|word: Seq<char>| shell_word(word));
    let mut line = String::new();
    let mut i: usize = 0;
    while i < parts.len()
        invariant
            words == texts(parts@).map_values(|word: Seq<char>| shell_word(word)),
            i <= parts.len(),
            line@ == spaced(words.take(i as int)),
        decreases parts.len() - i,
    {
        let word = quote_word(&parts[i]);
        assert(word@ == words[i as int]);
        assert(words.take(i + 1).drop_last() =~= words.take(i as int));
        assert(words.take(i + 1).last() == words[i as int]);
        if i > 0 {
            line.push(' ');
        }
        line.append(word.as_str());
        assert(line@ =~= spaced(words.take(i + 1)));
        i = i + 1;
    }
    assert(words.take(i as int) =~= words);
    line
}

/// The places where `mise` may stand: one in each directory of the search path, in
/// its order.
pub open spec fn mise_places(search_path: Option<&str>) -> Seq<Seq<u8>> {
    match search_path {
        Some(dirs) => split_on(dirs@, ':').map_values(
            |dir: Seq<char>| entry_path(encode_utf8(dir), encode_utf8("mise"@)),
        ),
        None => Seq::empty(),
    }
}

/// The places to look for `mise`, given the value of `PATH`.
pub fn mise_candidates(search_path: Option<&str>) -> (places: Vec<Vec<u8>>)
    ensures
        raws(places@) == mise_places(search_path),
{
    let mut places: Vec<Vec<u8>> = Vec::new();
    if let Some(dirs) = search_path {
        let pieces = split_text(dirs, ':');
        let name = text_bytes("mise");
        let mut i: usize = 0;
        while i < pieces.len()
            invariant
                name@ == encode_utf8("mise"@),
                search_path == Some(dirs),
                texts(pieces@) == split_on(dirs@, ':'),
                i <= pieces.len(),
                raws(places@) == mise_places(search_path).take(i as int),
            decreases pieces.len() - i,
        {
            let dir = text_bytes(pieces[i].as_str());
            let place = path_join(dir.as_slice(), name.as_slice());
            assert(texts(pieces@)[i as int] == pieces[i as int]@);
            push_raw(&mut places, place);
            assert(mise_places(search_path)[i as int] == place@);
            assert(raws(places@) =~= mise_places(search_path).take(i + 1));
            i = i + 1;
        }
    }
    assert(raws(places@) =~= mise_places(search_path));
    places
}

/// The first of the places that holds a file. Each place comes with the answer to
/// whether a file stands there.
pub fn mise_bin(places: &[(Vec<u8>, bool)]) -> (found: Option<Vec<u8>>)
    ensures
        match found {
            Some(path) => exists|k: int|
                0 <= k < places@.len() && (#[trigger] places@[k]).1 && places@[k].0@ == path@ && (
                forall|j: int| 0 <= j < k ==> !(#[trigger] places@[j]).1),
            None => forall|j: int| 0 <= j < places@.len() ==> !(#[trigger] places@[j]).1,
        },
{
    let mut i: usize = 0;
    while i < places.len()
        invariant
            i <= places.len(),
            forall|j: int| 0 <= j < i ==> !(#[trigger] places@[j]).1,
        decreases places.len() - i,
    {
        if places[i].1 {
            let path = copy_bytes(places[i].0.as_slice());
            assert(places@[i as int].1);
            return Some(path);
        }
        i = i + 1;
    }
    None
}

/// The shell commands that make the tools managed by `mise` available.
pub open spec fn mise_setup(mise: Seq<char>) -> Seq<char> {
    mise + " trust && eval \"$("@ + mise + " activate bash)\" && eval \"$("@ + mise + " env)\""@
}

/// The shell commands that make the tools managed by the `mise` at `mise_path`
/// available.
pub fn mise_init_cmd(mise_path: &[u8]) -> (command: String)
    ensures
        command@ == mise_setup(display(mise_path@)),
        command@ == display(mise_path@) + " trust && eval \"$("@ + display(mise_path@)
            + " activate bash)\" && eval \"$("@ + display(mise_path@) + " env)\""@,
{
    let mise = path_display(mise_path);
    let mut command = mise.clone();
    command.append(" trust && eval \"$(");
    command.append(mise.as_str());
    command.append(" activate bash)\" && eval \"$(");
    command.append(mise.as_str());
    command.append(" env)\"");
    command
}

/// What comes before the user's command: the setup of `mise`, or `true` where `mise`
/// is switched off or was not found.
pub open spec fn shell_prefix(config: Config, mise: Option<Vec<u8>>) -> Seq<char> {
    match mise {
        Some(path) if config.no_mise != Some(true) => mise_setup(display(path@)),
        _ => "true"@,
    }
}

/// The user's command, `bash` where there is none.
pub open spec fn user_command(config: Config) -> Seq<char> {
    if config.command@.len() == 0 {
        "bash"@
    } else {
        shell_line(texts(config.command@))
    }
}

/// The shell command that runs inside the jail.
pub open spec fn shell_command(config: Config, mise: Option<Vec<u8>>) -> Seq<char> {
    shell_prefix(config, mise) + " && "@ + user_command(config)
}

/// The shell command that runs inside the jail, where `mise` stands at the given
/// place.
pub fn build_shell_command(config: &Config, mise: &Option<Vec<u8>>) -> (command: String)
    ensures
        command@ == shell_command(*config, *mise),
        command@ == (match *mise {
            Some(path) if config.no_mise != Some(true) => display(path@) + " trust && eval \"$("@
                + display(path@) + " activate bash)\" && eval \"$("@ + display(path@)
                + " env)\""@,
            _ => "true"@,
        }) + " && "@ + (if config.command@.len() == 0 {
            "bash"@
        } else {
            shell_line(texts(config.command@))
        }),
{
    let use_mise: bool = !is_set(config.no_mise);
    let mut command = match mise {
        Some(path) if use_mise => mise_init_cmd(path.as_slice()),
        _ => "true".to_owned(),
    };
    command.append(" && ");
    if config.command.is_empty() {
        command.append("bash");
    } else {
        let line = shell_join(config.command.as_slice());
        command.append(line.as_str());
    }
    command
}

/// Where `mise` is switched off, the command is the same whether it was found or not.
pub proof fn mise_switched_off_is_left_out(config: Config, mise: Option<Vec<u8>>)
    requires
        config.no_mise == Some(true),
    ensures
        shell_command(config, mise) == "true"@ + " && "@ + user_command(config),
{
}

} // verus!
