//! The framing protocol: the prompt marker that ends every response, and the
//! text that wraps a snippet on its way to the evaluator.

use vstd::prelude::*;
use vstd::string::*;
use vstd::utf8::*;

verus! {

/// The prompt installed in the evaluator. It is unlikely to be part of the
/// output of an evaluation, and it ends every response.
pub const PROMPT: &'static str = "__ghci_rust_prompt__>\n";

/// The prompt marker as a sequence of characters.
pub open spec fn marker() -> Seq<char> {
    PROMPT@
}

/// Whether `data` ends with `tail`, byte for byte.
pub fn ends_with(data: &[u8], tail: &[u8]) -> (found: bool)
    ensures
        found == tail@.is_suffix_of(data@),
{
    let n = data.len();
    let m = tail.len();
    if m > n {
        return false;
    }
    let start = n - m;
    let mut i: usize = 0;
    while i < m
        invariant
            n == data@.len(),
            m == tail@.len(),
            m <= n,
            start == n - m,
            i <= m,
            forall|j: int| 0 <= j < i ==> data@[start + j] == tail@[j],
        decreases m - i,
    {
        if data[start + i] != tail[i] {
            assert(data@.subrange(start as int, n as int)[i as int] != tail@[i as int]);
            return false;
        }
        i += 1;
    }
    assert(tail@ =~= data@.subrange(start as int, n as int));
    true
}

/// Encoding a concatenation is concatenating the encodings.
proof fn lemma_encode_concat(head: Seq<char>, tail: Seq<char>)
    ensures
        encode_utf8(head + tail) == encode_utf8(head) + encode_utf8(tail),
    decreases head.len(),
{
    if head.len() == 0 {
        assert(head + tail =~= tail);
        assert(encode_utf8(head) + encode_utf8(tail) =~= encode_utf8(tail));
    } else {
        lemma_encode_concat(head.drop_first(), tail);
        assert((head + tail).drop_first() =~= head.drop_first() + tail);
        assert(encode_utf8(head + tail) =~= encode_utf8(head) + encode_utf8(tail));
    }
}

/// A text ends with `tail` exactly when its encoding ends with the encoding
/// of `tail`; the text before the tail is then what the bytes before it
/// decode to.
proof fn lemma_suffix_of_text_and_bytes(text: Seq<char>, tail: Seq<char>)
    ensures
        tail.is_suffix_of(text) <==> encode_utf8(tail).is_suffix_of(encode_utf8(text)),
        tail.is_suffix_of(text) ==> encode_utf8(text.subrange(0, text.len() - tail.len()))
            == encode_utf8(text).subrange(
            0,
            encode_utf8(text).len() - encode_utf8(tail).len(),
        ),
{
    broadcast use {encode_utf8_valid_utf8, encode_utf8_decode_utf8};

    let bytes = encode_utf8(text);
    let tail_bytes = encode_utf8(tail);
    if tail.is_suffix_of(text) {
        let head = text.subrange(0, text.len() - tail.len());
        assert(text =~= head + tail);
        lemma_encode_concat(head, tail);
        assert(bytes.subrange(bytes.len() - tail_bytes.len(), bytes.len() as int) =~= tail_bytes);
        assert(bytes.subrange(0, bytes.len() - tail_bytes.len()) =~= encode_utf8(head));
    }
    if tail_bytes.is_suffix_of(bytes) {
        if tail.len() == 0 {
            assert(tail =~= text.subrange(text.len() as int, text.len() as int));
        } else {
            let at = bytes.len() - tail_bytes.len();
            encode_utf8_first_scalar(tail);
            assert(bytes[at] == bytes.subrange(at, bytes.len() as int)[0]);
            assert(!is_continuation_byte(bytes[at]));
            is_char_boundary_iff_not_is_continuation_byte(bytes, at);
            decode_utf8_split(bytes, at);
            let head = decode_utf8(bytes.subrange(0, at));
            assert(bytes.subrange(at, bytes.len() as int) =~= tail_bytes);
            assert(text =~= head + tail);
            assert(text.subrange(text.len() - tail.len(), text.len() as int) =~= tail);
        }
    }
}

/// Takes the prompt marker off the end of `text`, if it ends with it.
///
/// Returns whether the marker was there; without it the text is left as it
/// was.
pub fn strip_marker(text: &mut String) -> (found: bool)
    ensures
        found == marker().is_suffix_of(old(text)@),
        found ==> old(text)@ == final(text)@ + marker(),
        !found ==> *final(text) == *old(text),
{
    proof {
        lemma_suffix_of_text_and_bytes(text@, marker());
    }
    let data = text.as_str().as_bytes();
    let tail = PROMPT.as_bytes();
    if !ends_with(data, tail) {
        return false;
    }
    let cut = data.len() - tail.len();
    proof {
        broadcast use encode_utf8_valid_utf8;

        let bytes = encode_utf8(text@);
        assert(data@ == bytes);
        assert(tail@ == encode_utf8(marker()));
        if marker().len() > 0 {
            encode_utf8_first_scalar(marker());
            assert(bytes[cut as int] == bytes.subrange(cut as int, bytes.len() as int)[0]);
            is_char_boundary_iff_not_is_continuation_byte(bytes, cut as int);
        } else {
            is_char_boundary_start_end_of_seq(bytes);
        }
        assert(is_char_boundary(bytes, cut as int));
    }
    let head = text.as_str().split_at(cut).0.to_owned();
    proof {
        broadcast use encode_utf8_decode_utf8;

        let kept = old(text)@.subrange(0, old(text)@.len() - marker().len());
        assert(encode_utf8(head@) == encode_utf8(kept));
        assert(decode_utf8(encode_utf8(head@)) == decode_utf8(encode_utf8(kept)));
        assert(old(text)@ =~= kept + marker());
    }
    *text = head;
    true
}

/// The text that carries `snippet` to the evaluator: the token that opens
/// a multi-line block, the snippet, and the token that closes the block,
/// each on a line of its own.
pub open spec fn framed(snippet: Seq<char>) -> Seq<char> {
    ":{\n"@ + snippet + "\n:}\n"@
}

/// Frames `snippet` for the evaluator.
pub fn frame(snippet: &str) -> (text: String)
    ensures
        text@ == framed(snippet@),
{
    let mut text = String::from_str(":{\n");
    text.append(snippet);
    text.append("\n:}\n");
    text
}

/// The prompt that the evaluator shows before any prompt is installed ends
/// with this.
pub const DEFAULT_PROMPT_END: &'static str = "> ";

/// The command that installs the prompt marker: the marker is written
/// without its line break, which the command spells as an escape instead.
pub open spec fn prompt_command() -> Seq<char> {
    ":set prompt \""@ + marker().drop_last() + "\\n\"\n"@
}

/// Builds the command that installs the prompt marker.
pub fn set_prompt_command() -> (text: String)
    ensures
        text@ == prompt_command(),
{
    proof {
        reveal_strlit("__ghci_rust_prompt__>\n");
    }
    let length = PROMPT.unicode_len();
    let mut text = String::from_str(":set prompt \"");
    text.append(PROMPT.substring_char(0, length - 1));
    text.append("\\n\"\n");
    assert(marker().drop_last() =~= marker().subrange(0, length - 1));
    text
}

/// The command that empties the continuation prompt.
pub open spec fn continuation_command() -> Seq<char> {
    ":set prompt-cont \"\"\n"@
}

/// Builds the command that empties the continuation prompt.
pub fn clear_continuation_command() -> (text: String)
    ensures
        text@ == continuation_command(),
{
    String::from_str(":set prompt-cont \"\"\n")
}

/// The views of a slice of string slices.
pub open spec fn texts(parts: Seq<&str>) -> Seq<Seq<char>> {
    parts.map_values(|part: &str| part@)
}

/// `parts` with `separator` between each two neighbours.
pub open spec fn joined(parts: Seq<Seq<char>>, separator: Seq<char>) -> Seq<char>
    decreases parts.len(),
{
    if parts.len() == 0 {
        Seq::empty()
    } else if parts.len() == 1 {
        parts[0]
    } else {
        joined(parts.drop_last(), separator) + separator + parts.last()
    }
}

/// The command that brings `modules` into scope.
pub open spec fn module_command(modules: Seq<Seq<char>>) -> Seq<char> {
    ":module "@ + joined(modules, " "@)
}

/// Builds the command that brings `modules` into scope.
pub fn import_command(modules: &[&str]) -> (text: String)
    ensures
        text@ == module_command(texts(modules@)),
{
    let mut text = String::from_str(":module ");
    let mut i: usize = 0;
    while i < modules.len()
        invariant
            i <= modules@.len(),
            text@ == ":module "@ + joined(texts(modules@).take(i as int), " "@),
        decreases modules.len() - i,
    {
        if i > 0 {
            text.append(" ");
        }
        text.append(modules[i]);
        proof {
            let all = texts(modules@);
            assert(all.take(i + 1).drop_last() =~= all.take(i as int));
            assert(all.take(i + 1).last() == modules@[i as int]@);
        }
        i += 1;
    }
    assert(texts(modules@).take(i as int) =~= texts(modules@));
    text
}

/// `paths`, each behind a space.
pub open spec fn spaced(paths: Seq<Seq<char>>) -> Seq<char>
    decreases paths.len(),
{
    if paths.len() == 0 {
        Seq::empty()
    } else {
        spaced(paths.drop_last()) + " "@ + paths.last()
    }
}

/// The command that loads the files at `paths`.
pub open spec fn file_command(paths: Seq<Seq<char>>) -> Seq<char> {
    ":load"@ + spaced(paths)
}

/// Builds the command that loads the files at `paths`.
pub fn load_command(paths: &[&str]) -> (text: String)
    ensures
        text@ == file_command(texts(paths@)),
{
    let mut text = String::from_str(":load");
    let mut i: usize = 0;
    while i < paths.len()
        invariant
            i <= paths@.len(),
            text@ == ":load"@ + spaced(texts(paths@).take(i as int)),
        decreases paths.len() - i,
    {
        text.append(" ");
        text.append(paths[i]);
        proof {
            let all = texts(paths@);
            assert(all.take(i + 1).drop_last() =~= all.take(i as int));
            assert(all.take(i + 1).last() == paths@[i as int]@);
        }
        i += 1;
    }
    assert(texts(paths@).take(i as int) =~= texts(paths@));
    text
}

} // verus!
