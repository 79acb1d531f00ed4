//! Video tags in the HTML of a post. A post may hold `<youtube:ID>`; when
//! the post is rendered each such tag gives way to a link to the video
//! with its still picture.
//!
//! The place of a tag is found in the bytes of the HTML and looked for
//! while its characters are read. The two counts agree as long as nothing
//! but ASCII comes before the tag.

use vstd::prelude::*;
use vstd::slice::slice_subrange;
use vstd::string::StringExecFns;
use vstd::utf8::encode_utf8;
use crate::bytes::same_bytes;

verus! {

/// Length of the opening of a tag, `<youtube:`, in bytes.
pub const TAG_LEN: usize = 9;

/// The opening of a tag.
pub open spec fn tag_opening() -> Seq<char> {
    "<youtube:"@
}

/// The opening of a tag stands in `bytes` at the offset `at`.
pub open spec fn tag_at(bytes: Seq<u8>, at: int) -> bool {
    0 <= at && at + TAG_LEN <= bytes.len() && bytes.subrange(at, at + TAG_LEN) == encode_utf8(
        tag_opening(),
    )
}

/// What takes the place of the tag of the video `id`.
pub open spec fn embed(id: Seq<char>) -> Seq<char> {
    "\n<div class=\"youtube-container\">\n    <a class=\"youtube-link\" href=\"https://www.youtube.com/watch?v="@
        + id + "\" target=\"_blank\" rel=\"noopener noreferrer\" data-video-id=\""@ + id
        + "\">\n        <img src=\"https://img.youtube.com/vi/"@ + id
        + "/hqdefault.jpg\" alt=\"YouTube embedded video\">\n        <div class=\"youtube-play-button\"></div>\n    </a>\n</div>"@
}

/// Where the reading of the HTML is.
pub ghost enum Reading {
    /// In text that is copied.
    Text,
    /// Inside a tag. The video's name starts after the first colon, and
    /// `id` is what was read of it.
    Tag { started: bool, id: Seq<char> },
}

/// What is written for the characters of `chars` from `from` on. Outside a
/// tag each character is copied, but for the one at which a tag opens.
/// Inside a tag nothing is copied: a colon starts the video's name, `>`
/// ends the tag and puts the link in its place, and every other character
/// after the first colon belongs to the name. A tag that the HTML ends in
/// is closed by the end.
pub open spec fn written(chars: Seq<char>, bytes: Seq<u8>, from: int, reading: Reading) -> Seq<char>
    decreases chars.len() - from,
{
    if from < 0 || from >= chars.len() {
        match reading {
            Reading::Text => Seq::empty(),
            Reading::Tag { id, .. } => embed(id),
        }
    } else {
        match reading {
            Reading::Text => if tag_at(bytes, from) {
                written(chars, bytes, from + 1, Reading::Tag { started: false, id: Seq::empty() })
            } else {
                seq![chars[from]] + written(chars, bytes, from + 1, Reading::Text)
            },
            Reading::Tag { started, id } => if chars[from] == '>' {
                embed(id) + written(chars, bytes, from + 1, Reading::Text)
            } else if chars[from] == ':' {
                written(chars, bytes, from + 1, Reading::Tag { started: true, id })
            } else if started {
                written(
                    chars,
                    bytes,
                    from + 1,
                    Reading::Tag { started: true, id: id.push(chars[from]) },
                )
            } else {
                written(chars, bytes, from + 1, Reading::Tag { started: false, id })
            },
        }
    }
}

/// The HTML with every video tag expanded.
pub open spec fn expanded(html: Seq<char>) -> Seq<char> {
    written(html, encode_utf8(html), 0, Reading::Text)
}

/// HTML in whose bytes no tag opens at any offset that is also the count
/// of a character is written as it is.
pub proof fn lemma_written_without_tags(chars: Seq<char>, bytes: Seq<u8>, from: int)
    requires
        0 <= from <= chars.len(),
        forall|at: int| from <= at < chars.len() ==> !tag_at(bytes, at),
    ensures
        written(chars, bytes, from, Reading::Text) == chars.subrange(from, chars.len() as int),
    decreases chars.len() - from,
{
    if from < chars.len() {
        lemma_written_without_tags(chars, bytes, from + 1);
        assert(chars.subrange(from, chars.len() as int) =~= seq![chars[from]] + chars.subrange(
            from + 1,
            chars.len() as int,
        ));
    } else {
        assert(chars.subrange(from, chars.len() as int) =~= Seq::<char>::empty());
    }
}

/// The characters of a text.
pub fn chars_of(text: &str) -> (chars: Vec<char>)
    ensures
        chars@ == text@,
{
    let mut chars: Vec<char> = Vec::new();
    for c in it: text.chars()
        invariant
            it.seq() == text@,
            chars@ == text@.subrange(0, it.index() as int),
    {
        chars.push(c);
        assert(chars@ =~= text@.subrange(0, it.index() + 1));
    }
    assert(chars@ =~= text@);
    chars
}

/// Calls `String::push`, which appends one character to a text.
#[verifier::external_body]
pub(crate) fn push_char(text: &mut String, c: char)
    ensures
        final(text)@ == old(text)@.push(c),
{
    text.push(c)
}

/// Whether the opening of a tag stands in `bytes` at the offset `at`.
pub fn opens_tag(bytes: &[u8], at: usize) -> (r: bool)
    ensures
        r == tag_at(bytes@, at as int),
{
    let len: usize = bytes.len();
    if len < TAG_LEN || at > len - TAG_LEN {
        return false;
    }
    same_bytes(slice_subrange(bytes, at, at + TAG_LEN), "<youtube:".as_bytes())
}

/// Writes what takes the place of the tag of the video `id`.
pub fn write_embed(out: &mut String, id: &str)
    ensures
        final(out)@ == old(out)@ + embed(id@),
{
    out.append(
        "\n<div class=\"youtube-container\">\n    <a class=\"youtube-link\" href=\"https://www.youtube.com/watch?v=",
    );
    out.append(id);
    out.append("\" target=\"_blank\" rel=\"noopener noreferrer\" data-video-id=\"");
    out.append(id);
    out.append("\">\n        <img src=\"https://img.youtube.com/vi/");
    out.append(id);
    out.append(
        "/hqdefault.jpg\" alt=\"YouTube embedded video\">\n        <div class=\"youtube-play-button\"></div>\n    </a>\n</div>",
    );
    assert(final(out)@ =~= old(out)@ + embed(id@));
}

/// Expands every video tag in a piece of HTML.
pub fn expand_youtube(html: &str) -> (out: String)
    ensures
        out@ == expanded(html@),
{
    let chars = chars_of(html);
    let bytes = html.as_bytes();
    let mut out = String::new();
    let mut in_tag = false;
    let mut started = false;
    let mut id = String::new();
    let mut i: usize = 0;
    while i < chars.len()
        invariant
            i <= chars@.len(),
            chars@ == html@,
            bytes@ == encode_utf8(html@),
            !in_tag ==> id@.len() == 0,
            expanded(html@) == out@ + written(
                chars@,
                bytes@,
                i as int,
                if in_tag {
                    Reading::Tag { started, id: id@ }
                } else {
                    Reading::Text
                },
            ),
        decreases chars@.len() - i,
    {
        let c = chars[i];
        let ghost before = out@;
        let ghost now = if in_tag {
            Reading::Tag { started, id: id@ }
        } else {
            Reading::Text
        };
        let ghost ahead = written(chars@, bytes@, i as int, now);
        if !in_tag {
            if opens_tag(bytes, i) {
                in_tag = true;
                started = false;
                assert(ahead == written(
                    chars@,
                    bytes@,
                    i + 1,
                    Reading::Tag { started: false, id: Seq::empty() },
                ));
                assert(id@ =~= Seq::<char>::empty());
            } else {
                push_char(&mut out, c);
                let ghost rest = written(chars@, bytes@, i + 1, Reading::Text);
                assert(ahead == seq![c] + rest);
                assert(out@ + rest =~= before + (seq![c] + rest));
            }
        } else if c == '>' {
            write_embed(&mut out, id.as_str());
            let ghost rest = written(chars@, bytes@, i + 1, Reading::Text);
            assert(ahead == embed(id@) + rest);
            assert(out@ + rest =~= before + (embed(id@) + rest));
            id = String::new();
            in_tag = false;
        } else if c == ':' {
            started = true;
            assert(ahead == written(
                chars@,
                bytes@,
                i + 1,
                Reading::Tag { started: true, id: id@ },
            ));
        } else if started {
            let ghost name = id@;
            push_char(&mut id, c);
            assert(ahead == written(
                chars@,
                bytes@,
                i + 1,
                Reading::Tag { started: true, id: name.push(c) },
            ));
        } else {
            assert(ahead == written(
                chars@,
                bytes@,
                i + 1,
                Reading::Tag { started: false, id: id@ },
            ));
        }
        i += 1;
    }
    if in_tag {
        write_embed(&mut out, id.as_str());
    }
    assert(out@ =~= expanded(html@));
    out
}

} // verus!
