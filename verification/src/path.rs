//! File system paths, held as the bytes that the operating system knows them by.
use vstd::prelude::*;
use vstd::utf8::{decode_utf8, encode_utf8, valid_utf8};

verus! {

/// What `String::from_utf8_lossy` makes of bytes that are not valid UTF-8.
pub uninterp spec fn lossy_text(bytes: Seq<u8>) -> Seq<char>;

/// `String::from_utf8_lossy` decodes bytes that are valid UTF-8. In other bytes it
/// puts replacement characters where the encoding is broken; where exactly is not
/// stated here, only that the bytes alone decide it.
#[verifier::external_body]
fn from_utf8_lossy(bytes: &[u8]) -> (text: String)
    ensures
        valid_utf8(bytes@) ==> text@ == decode_utf8(bytes@),
        !valid_utf8(bytes@) ==> text@ == lossy_text(bytes@),
{
    String::from_utf8_lossy(bytes).into_owned()
}

/// The text that a path is shown as.
pub open spec fn display(path: Seq<u8>) -> Seq<char> {
    if valid_utf8(path) {
        decode_utf8(path)
    } else {
        lossy_text(path)
    }
}

/// The text that `path` is shown as.
pub fn path_display(path: &[u8]) -> (text: String)
    ensures
        text@ == display(path@),
        valid_utf8(path@) ==> text@ == decode_utf8(path@),
{
    from_utf8_lossy(path)
}

/// A path that was given as text is shown as that text.
pub proof fn text_path_is_shown_unchanged(text: Seq<char>)
    ensures
        display(encode_utf8(text)) == text,
{
    vstd::utf8::encode_utf8_valid_utf8(text);
    vstd::utf8::encode_utf8_decode_utf8(text);
}

/// The bytes that stand for `text` in a path or an argument.
pub fn text_bytes(text: &str) -> (bytes: Vec<u8>)
    ensures
        bytes@ == encode_utf8(text@),
{
    copy_bytes(text.as_bytes())
}

/// A copy of `bytes`.
pub fn copy_bytes(bytes: &[u8]) -> (copy: Vec<u8>)
    ensures
        copy@ == bytes@,
{
    let mut copy: Vec<u8> = Vec::new();
    let mut i: usize = 0;
    while i < bytes.len()
        invariant
            i <= bytes.len(),
            copy@ == bytes@.take(i as int),
        decreases bytes.len() - i,
    {
        copy.push(bytes[i]);
        i = i + 1;
    }
    assert(bytes@.take(i as int) =~= bytes@);
    copy
}

/// The contents of a list of byte strings.
pub open spec fn raws(list: Seq<Vec<u8>>) -> Seq<Seq<u8>> {
    list.map_values(|bytes: Vec<u8>| bytes@)
}

/// Appends `bytes` to a list of byte strings.
pub fn push_raw(list: &mut Vec<Vec<u8>>, bytes: Vec<u8>)
    ensures
        raws(final(list)@) == raws(old(list)@).push(bytes@),
{
    list.push(bytes);
    assert(raws(list@) =~= raws(old(list)@).push(bytes@));
}

/// The path of the entry `name` of the directory `dir`: a slash comes between them
/// unless `dir` is empty or ends with one.
pub open spec fn entry_path(dir: Seq<u8>, name: Seq<u8>) -> Seq<u8> {
    if dir.len() == 0 || dir.last() == 0x2f {
        dir + name
    } else {
        dir.push(0x2f) + name
    }
}

/// The path of the entry `name` of the directory `dir`.
pub fn path_join(dir: &[u8], name: &[u8]) -> (path: Vec<u8>)
    ensures
        path@ == entry_path(dir@, name@),
{
    let mut path = copy_bytes(dir);
    if dir.len() > 0 && dir[dir.len() - 1] != 0x2f {
        path.push(0x2f);
    }
    let mut rest = copy_bytes(name);
    path.append(&mut rest);
    path
}

/// The resolved form of a path, or the path itself where it could not be resolved.
pub open spec fn resolved_or_kept(path: Seq<u8>, resolved: Option<Vec<u8>>) -> Seq<u8> {
    match resolved {
        Some(found) => found@,
        None => path,
    }
}

/// `resolved`, which is what the file system made of `path`, or `path` itself where
/// it could not be resolved.
pub fn canonicalize_or_keep(path: &[u8], resolved: Option<Vec<u8>>) -> (kept: Vec<u8>)
    ensures
        kept@ == resolved_or_kept(path@, resolved),
        resolved is None ==> kept@ == path@,
        resolved matches Some(found) ==> kept@ == found@,
{
    match resolved {
        Some(found) => found,
        None => copy_bytes(path),
    }
}

/// The contents of a list of byte strings are those of each, in their order.
pub proof fn raws_are_the_contents(list: Seq<Vec<u8>>)
    ensures
        raws(list).len() == list.len(),
        forall|i: int| 0 <= i < list.len() ==> #[trigger] raws(list)[i] == list[i]@,
{
}

/// The text that a path is shown as has the bytes of the path, where these are valid
/// UTF-8; other paths are shown as the lossy conversion makes them.
pub proof fn shown_path_keeps_its_bytes(path: Seq<u8>)
    ensures
        valid_utf8(path) ==> encode_utf8(display(path)) == path,
        !valid_utf8(path) ==> display(path) == lossy_text(path),
{
    if valid_utf8(path) {
        vstd::utf8::decode_utf8_encode_utf8(path);
    }
}

/// The path of an entry begins with the directory and ends with the name. One slash
/// parts them: the directory's own, where it ends with one, and an added one otherwise;
/// none is added to an empty directory.
pub proof fn entry_path_adds_at_most_a_slash(dir: Seq<u8>, name: Seq<u8>)
    ensures
        dir.len() == 0 ==> entry_path(dir, name) == name,
        dir.len() > 0 ==> {
            let path = entry_path(dir, name);
            let cut = path.len() - name.len();
            &&& path.take(dir.len() as int) == dir
            &&& path.skip(cut) == name
            &&& path[cut - 1] == 0x2f
            &&& dir.last() == 0x2f ==> cut == dir.len()
            &&& dir.last() != 0x2f ==> cut == dir.len() + 1
        },
{
    let path = entry_path(dir, name);
    let cut = path.len() - name.len();
    if dir.len() == 0 {
        assert(path =~= name);
    } else {
        assert(path.take(dir.len() as int) =~= dir);
        assert(path.skip(cut) =~= name);
    }
}

} // verus!
