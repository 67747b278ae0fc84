//! The arguments of a command: texts and paths.
use vstd::prelude::*;
use vstd::utf8::{decode_utf8, encode_utf8, valid_utf8};

use crate::path::{
    copy_bytes, display, path_display, push_raw, raws, text_bytes, text_path_is_shown_unchanged,
};
use crate::text::{push_text, texts};

verus! {

/// What an argument is: a text, or a path in the bytes that the operating system
/// knows it by.
pub enum Word {
    Text(Seq<char>),
    Path(Seq<u8>),
}

impl Word {
    /// The bytes that the started program gets.
    pub open spec fn raw(self) -> Seq<u8> {
        match self {
            Word::Text(text) => encode_utf8(text),
            Word::Path(path) => path,
        }
    }

    /// The text that a dry run shows.
    pub open spec fn shown(self) -> Seq<char> {
        match self {
            Word::Text(text) => text,
            Word::Path(path) => display(path),
        }
    }
}

/// An argument of a command.
#[derive(Debug)]
pub enum Arg {
    Text(String),
    Path(Vec<u8>),
}

impl View for Arg {
    type V = Word;

    open spec fn view(&self) -> Word {
        match self {
            Arg::Text(text) => Word::Text(text@),
            Arg::Path(path) => Word::Path(path@),
        }
    }
}

/// The words of a list of arguments.
pub open spec fn words(args: Seq<Arg>) -> Seq<Word> {
    args.map_values(|arg: Arg| arg@)
}

/// The bytes that the started program gets for each word.
pub open spec fn raw_words(list: Seq<Word>) -> Seq<Seq<u8>> {
    list.map_values(|word: Word| word.raw())
}

/// The text that a dry run shows for each word.
pub open spec fn shown_words(list: Seq<Word>) -> Seq<Seq<char>> {
    list.map_values(|word: Word| word.shown())
}

/// A dry run shows each word as the bytes that the started program would get are
/// displayed.
pub proof fn dry_run_shows_what_runs(list: Seq<Word>)
    ensures
        shown_words(list) == raw_words(list).map_values(|bytes: Seq<u8>| display(bytes)),
{
    let displayed = raw_words(list).map_values(|bytes: Seq<u8>| display(bytes));
    assert forall|i: int| 0 <= i < list.len() implies shown_words(list)[i] == displayed[i] by {
        if let Word::Text(text) = list[i] {
            text_path_is_shown_unchanged(text);
        }
    }
    assert(shown_words(list) =~= displayed);
}

/// The words of a list of arguments are the arguments, each in its place.
pub proof fn words_are_the_arguments(args: Seq<Arg>)
    ensures
        words(args).len() == args.len(),
        forall|i: int|
            0 <= i < args.len() ==> match #[trigger] args[i] {
                Arg::Text(text) => words(args)[i] == Word::Text(text@),
                Arg::Path(path) => words(args)[i] == Word::Path(path@),
            },
{
}

/// Each word arrives at the started program as it was given, in its place: a path in its
/// bytes, a text in UTF-8.
pub proof fn words_arrive_unchanged(list: Seq<Word>)
    ensures
        raw_words(list).len() == list.len(),
        forall|i: int|
            0 <= i < list.len() ==> match #[trigger] list[i] {
                Word::Text(text) => valid_utf8(raw_words(list)[i]) && decode_utf8(
                    raw_words(list)[i],
                ) == text && raw_words(list)[i] == encode_utf8(text),
                Word::Path(path) => raw_words(list)[i] == path,
            },
{
    assert forall|i: int| 0 <= i < list.len() implies match #[trigger] list[i] {
        Word::Text(text) => valid_utf8(raw_words(list)[i]) && decode_utf8(raw_words(list)[i])
            == text && raw_words(list)[i] == encode_utf8(text),
        Word::Path(path) => raw_words(list)[i] == path,
    } by {
        if let Word::Text(text) = list[i] {
            vstd::utf8::encode_utf8_valid_utf8(text);
            vstd::utf8::encode_utf8_decode_utf8(text);
        }
    }
}

/// Each word is shown in its place: a text as it is, and a path as its bytes spell it where
/// they are valid UTF-8.
pub proof fn words_are_shown_in_order(list: Seq<Word>)
    ensures
        shown_words(list).len() == list.len(),
        forall|i: int|
            0 <= i < list.len() ==> match #[trigger] list[i] {
                Word::Text(text) => shown_words(list)[i] == text,
                Word::Path(path) => shown_words(list)[i] == display(path) && (valid_utf8(path)
                    ==> shown_words(list)[i] == decode_utf8(path)),
            },
{
}

/// Appends a text to the arguments.
pub fn add_text(args: &mut Vec<Arg>, text: &str)
    ensures
        words(final(args)@) == words(old(args)@).push(Word::Text(text@)),
{
    args.push(Arg::Text(text.to_owned()));
    assert(words(args@) =~= words(old(args)@).push(Word::Text(text@)));
}

/// Appends a path to the arguments.
pub fn add_path(args: &mut Vec<Arg>, path: &[u8])
    ensures
        words(final(args)@) == words(old(args)@).push(Word::Path(path@)),
{
    args.push(Arg::Path(copy_bytes(path)));
    assert(words(args@) =~= words(old(args)@).push(Word::Path(path@)));
}

/// The bytes that the started program gets for each argument.
pub fn raw_args(args: &[Arg]) -> (raw: Vec<Vec<u8>>)
    ensures
        raws(raw@) == raw_words(words(args@)),
{
    let mut raw: Vec<Vec<u8>> = Vec::new();
    let mut i: usize = 0;
    while i < args.len()
        invariant
            i <= args.len(),
            raws(raw@) == raw_words(words(args@)).take(i as int),
        decreases args.len() - i,
    {
        let bytes = match &args[i] {
            Arg::Text(text) => text_bytes(text.as_str()),
            Arg::Path(path) => copy_bytes(path.as_slice()),
        };
        assert(raw_words(words(args@))[i as int] == bytes@);
        push_raw(&mut raw, bytes);
        assert(raws(raw@) =~= raw_words(words(args@)).take(i + 1));
        i = i + 1;
    }
    assert(raws(raw@) =~= raw_words(words(args@)));
    raw
}

/// The text that a dry run shows for each argument.
pub fn shown_args(args: &[Arg]) -> (shown: Vec<String>)
    ensures
        texts(shown@) == shown_words(words(args@)),
{
    let mut shown: Vec<String> = Vec::new();
    let mut i: usize = 0;
    while i < args.len()
        invariant
            i <= args.len(),
            texts(shown@) == shown_words(words(args@)).take(i as int),
        decreases args.len() - i,
    {
        let text = match &args[i] {
            Arg::Text(text) => text.clone(),
            Arg::Path(path) => path_display(path.as_slice()),
        };
        assert(shown_words(words(args@))[i as int] == text@);
        push_text(&mut shown, text.as_str());
        assert(texts(shown@) =~= shown_words(words(args@)).take(i + 1));
        i = i + 1;
    }
    assert(texts(shown@) =~= shown_words(words(args@)));
    shown
}

} // verus!
