//! The tail of a file: its content cut into lines, and the last of them.
//!
//! A line ends at a line feed; a carriage return that stands right before
//! the line feed belongs to the line's end, not to the line. What follows
//! the last line feed is a line too, unless it is empty.

use vstd::prelude::*;
use vstd::slice::*;
use vstd::string::*;
use vstd::utf8::*;

verus! {

/// Why the lines of a file could not be shown.
#[derive(Clone, Copy, Debug, PartialEq, Eq, Structural)]
pub enum ReadError {
    /// Some line of the file is not valid UTF-8.
    InvalidText,
}

/// The number of bytes that stand before the first line feed of `content`,
/// or the length of `content` where it holds none.
pub open spec fn line_break(content: Seq<u8>) -> int
    decreases content.len(),
{
    if content.len() == 0 || content[0] == 10u8 {
        0
    } else {
        1 + line_break(content.skip(1))
    }
}

/// A line as it stands before its line feed, without the carriage return
/// at its end, if it has one.
pub open spec fn without_carriage_return(line: Seq<u8>) -> Seq<u8> {
    if line.len() > 0 && line.last() == 13u8 {
        line.drop_last()
    } else {
        line
    }
}

/// The lines of `content`, in order, without their line ends.
pub open spec fn lines_of(content: Seq<u8>) -> Seq<Seq<u8>>
    decreases content.len(),
{
    if content.len() == 0 {
        Seq::empty()
    } else {
        let end = line_break(content);
        if 0 <= end < content.len() {
            seq![without_carriage_return(content.take(end))] + lines_of(content.skip(end + 1))
        } else {
            seq![content]
        }
    }
}

/// Whether every one of `lines` is valid UTF-8.
pub open spec fn all_text(lines: Seq<Seq<u8>>) -> bool {
    forall|i: int| 0 <= i < lines.len() ==> valid_utf8(#[trigger] lines[i])
}

/// The text of each of `lines`.
pub open spec fn decoded(lines: Seq<Seq<u8>>) -> Seq<Seq<char>> {
    Seq::new(lines.len(), |i: int| decode_utf8(lines[i]))
}

/// The last `count` of `lines`, or all of them where they are fewer.
pub open spec fn last_of<T>(lines: Seq<T>, count: nat) -> Seq<T> {
    if count >= lines.len() {
        lines
    } else {
        lines.skip(lines.len() - count)
    }
}

/// What each of `texts` holds.
pub open spec fn texts_of(texts: Seq<String>) -> Seq<Seq<char>> {
    Seq::new(texts.len(), |i: int| texts[i]@)
}

/// Whether no byte of `bytes` is a line feed.
pub open spec fn is_one_line(bytes: Seq<u8>) -> bool {
    forall|j: int| 0 <= j < bytes.len() ==> bytes[j] != 10u8
}

/// Whether no character of `text` is a line feed.
pub open spec fn is_one_line_text(text: Seq<char>) -> bool {
    forall|i: int| 0 <= i < text.len() ==> text[i] != '\n'
}

/// The first line of `content` ends where the first line feed stands.
pub proof fn lemma_line_break(content: Seq<u8>, end: int)
    requires
        0 <= end <= content.len(),
        forall|j: int| 0 <= j < end ==> content[j] != 10u8,
        end < content.len() ==> content[end] == 10u8,
    ensures
        line_break(content) == end,
    decreases end,
{
    if end > 0 {
        lemma_line_break(content.skip(1), end - 1);
    }
}

/// Texts that render `lines` still do so when one more line is decoded.
proof fn lemma_one_more_text(
    before: Seq<String>,
    lines: Seq<Seq<u8>>,
    after: Seq<String>,
    line: Seq<u8>,
)
    requires
        texts_of(before) == decoded(lines),
        all_text(lines),
        valid_utf8(line),
        after.len() == before.len() + 1,
        after.drop_last() =~= before,
        after.last()@ == decode_utf8(line),
    ensures
        texts_of(after) == decoded(lines.push(line)),
        all_text(lines.push(line)),
{
    assert(before.len() == lines.len()) by {
        assert(texts_of(before).len() == before.len());
    }
    assert forall|i: int| 0 <= i < after.len() implies texts_of(after)[i] == decoded(
        lines.push(line),
    )[i] by {
        if i < before.len() {
            assert(texts_of(before)[i] == decoded(lines)[i]);
        }
    }
}

/// `std::str::from_utf8`, which checks that a slice of bytes is valid UTF-8
/// and, if it is, hands the same bytes back as a `str`. So the text comes
/// back exactly where the bytes are valid, and it is the text that they
/// encode.
#[verifier::external_body]
fn decode_text(bytes: &[u8]) -> (text: Option<&str>)
    ensures
        match text {
            Some(inner) => valid_utf8(bytes@) && inner@ == decode_utf8(bytes@),
            None => !valid_utf8(bytes@),
        },
{
    std::str::from_utf8(bytes).ok()
}

/// Cuts `line`, which stood before a line feed, down to what counts as the
/// line.
fn strip_carriage_return(line: &[u8]) -> (kept: &[u8])
    ensures
        kept@ == without_carriage_return(line@),
{
    let len = line.len();
    if len > 0 && line[len - 1] == 13u8 {
        let kept = slice_subrange(line, 0, len - 1);
        kept
    } else {
        line
    }
}

/// Reads `content` as lines of text. Every line has to be valid UTF-8:
/// one that is not makes the whole content unreadable.
pub fn read_lines(content: &[u8]) -> (read: Result<Vec<String>, ReadError>)
    ensures
        match read {
            Ok(texts) => all_text(lines_of(content@)) && texts_of(texts@) == decoded(
                lines_of(content@),
            ),
            Err(error) => error == ReadError::InvalidText && !all_text(lines_of(content@)),
        },
{
    let len = content.len();
    let mut texts: Vec<String> = Vec::new();
    let ghost mut done: Seq<Seq<u8>> = Seq::empty();
    let mut start: usize = 0;
    let mut at: usize = 0;
    proof {
        assert(content@.skip(0) =~= content@);
    }
    while at < len
        invariant
            len == content@.len(),
            start <= at <= len,
            forall|j: int| start <= j < at ==> content@[j] != 10u8,
            lines_of(content@) == done + lines_of(content@.skip(start as int)),
            all_text(done),
            texts_of(texts@) == decoded(done),
        decreases len - at,
    {
        if content[at] == 10u8 {
            let raw = slice_subrange(content, start, at);
            let line = strip_carriage_return(raw);
            let ghost rest = content@.skip(start as int);
            proof {
                lemma_line_break(rest, at - start);
                assert(rest.take(at - start) =~= raw@);
                assert(rest.skip(at - start + 1) =~= content@.skip(at + 1));
            }
            match decode_text(line) {
                Some(text) => {
                    let ghost before = texts@;
                    texts.push(text.to_owned());
                    proof {
                        lemma_one_more_text(before, done, texts@, line@);
                        done = done.push(line@);
                    }
                },
                None => {
                    proof {
                        assert(lines_of(content@)[done.len() as int] == line@);
                    }
                    return Err(ReadError::InvalidText);
                },
            }
            start = at + 1;
        }
        at = at + 1;
    }
    if start < len {
        let line = slice_subrange(content, start, len);
        proof {
            let rest = content@.skip(start as int);
            lemma_line_break(rest, len - start);
        }
        match decode_text(line) {
            Some(text) => {
                let ghost before = texts@;
                texts.push(text.to_owned());
                proof {
                    lemma_one_more_text(before, done, texts@, line@);
                }
            },
            None => {
                proof {
                    assert(lines_of(content@)[done.len() as int] == line@);
                }
                return Err(ReadError::InvalidText);
            },
        }
    }
    Ok(texts)
}

/// The last `count` lines of `content`, in their order and whole, or all
/// its lines where it has fewer. Content that is not text throughout is
/// refused, wherever the fault lies.
pub fn tail(content: &[u8], count: usize) -> (shown: Result<Vec<String>, ReadError>)
    ensures
        match shown {
            Ok(texts) => all_text(lines_of(content@)) && texts_of(texts@) == last_of(
                decoded(lines_of(content@)),
                count as nat,
            ),
            Err(error) => error == ReadError::InvalidText && !all_text(lines_of(content@)),
        },
{
    match read_lines(content) {
        Ok(mut texts) => {
            let total = texts.len();
            if count >= total {
                Ok(texts)
            } else {
                Ok(texts.split_off(total - count))
            }
        },
        Err(error) => Err(error),
    }
}

/// Where the first line of `content` ends: within the content, at a line
/// feed unless there is none, and behind bytes that are no line feeds.
pub proof fn lemma_line_break_is_first(content: Seq<u8>)
    ensures
        0 <= line_break(content) <= content.len(),
        forall|j: int| 0 <= j < line_break(content) ==> content[j] != 10u8,
        line_break(content) < content.len() ==> content[line_break(content)] == 10u8,
    decreases content.len(),
{
    if content.len() > 0 && content[0] != 10u8 {
        let rest = content.skip(1);
        lemma_line_break_is_first(rest);
        assert forall|j: int| 0 <= j < line_break(content) implies content[j] != 10u8 by {
            if j > 0 {
                assert(content[j] == rest[j - 1]);
            }
        }
    }
}

/// The tail of a file with no more lines than are asked for is the whole
/// file; in any case it is the end of the file, as long as asked for or as
/// long as there are lines.
pub proof fn lemma_last_of<T>(lines: Seq<T>, count: nat)
    ensures
        count >= lines.len() ==> last_of(lines, count) == lines,
        count < lines.len() ==> last_of(lines, count).len() == count,
        forall|i: int|
            0 <= i < last_of(lines, count).len() ==> #[trigger] last_of(lines, count)[i] == lines[lines.len()
                - last_of(lines, count).len() + i],
{
}

/// A record adds one line. Where `content` is empty or ends with a line
/// feed, and `line` holds no line feed, the lines of `content` followed by
/// `line` and a line feed are the lines of `content` and then `line`.
pub proof fn lemma_record_adds_one_line(content: Seq<u8>, line: Seq<u8>)
    requires
        content.len() == 0 || content.last() == 10u8,
        is_one_line(line),
    ensures
        lines_of(content + line.push(10u8)) == lines_of(content).push(
            without_carriage_return(line),
        ),
    decreases content.len(),
{
    let record = line.push(10u8);
    let whole = content + record;
    if content.len() == 0 {
        lemma_line_break(whole, line.len() as int);
        assert(whole.take(line.len() as int) =~= line);
        assert(lines_of(whole) =~= seq![without_carriage_return(line)] + lines_of(
            whole.skip(line.len() as int + 1),
        ));
    } else {
        lemma_line_break_is_first(content);
        let end = line_break(content);
        lemma_line_break(whole, end);
        let rest = content.skip(end + 1);
        assert(whole.take(end) =~= content.take(end));
        assert(whole.skip(end + 1) =~= rest + record);
        lemma_record_adds_one_line(rest, line);
    }
}

/// No byte of the UTF-8 form of a character other than the line feed is a
/// line feed.
proof fn lemma_scalar_holds_no_line_feed(c: char)
    requires
        c != '\n',
    ensures
        is_one_line(encode_scalar(c as u32)),
{
    let v = c as u32;
    if v <= 0x7Fu32 {
        assert((v & 0x7F) as u8 != 10u8) by (bit_vector)
            requires
                v != 10u32,
                v <= 0x7Fu32,
        ;
    }
    assert(0xC0u8 | ((v >> 6) & 0x1F) as u8 != 10u8) by (bit_vector);
    assert(0xE0u8 | ((v >> 12) & 0x0F) as u8 != 10u8) by (bit_vector);
    assert(0xF0u8 | ((v >> 18) & 0x7) as u8 != 10u8) by (bit_vector);
    assert(0x80u8 | (v & 0x3F) as u8 != 10u8) by (bit_vector);
    assert(0x80u8 | ((v >> 6) & 0x3F) as u8 != 10u8) by (bit_vector);
    assert(0x80u8 | ((v >> 12) & 0x3F) as u8 != 10u8) by (bit_vector);
}

/// Text without a line feed has none among its bytes.
pub proof fn lemma_text_holds_no_line_feed(text: Seq<char>)
    requires
        is_one_line_text(text),
    ensures
        is_one_line(encode_utf8(text)),
    decreases text.len(),
{
    if text.len() > 0 {
        let head = encode_scalar(text[0] as u32);
        let rest = encode_utf8(text.drop_first());
        lemma_scalar_holds_no_line_feed(text[0]);
        assert(is_one_line_text(text.drop_first()));
        lemma_text_holds_no_line_feed(text.drop_first());
        assert(is_one_line(head + rest));
    }
}

/// The UTF-8 form of a character other than the carriage return does not
/// end in one.
proof fn lemma_scalar_ends_without_carriage_return(c: char)
    requires
        c != '\r',
    ensures
        encode_scalar(c as u32).len() > 0,
        encode_scalar(c as u32).last() != 13u8,
{
    let v = c as u32;
    if v <= 0x7Fu32 {
        assert((v & 0x7F) as u8 != 13u8) by (bit_vector)
            requires
                v != 13u32,
                v <= 0x7Fu32,
        ;
    }
    assert(0x80u8 | (v & 0x3F) as u8 != 13u8) by (bit_vector);
}

/// The UTF-8 form of a text that does not end in a carriage return does not
/// end in one either.
proof fn lemma_text_ends_without_carriage_return(text: Seq<char>)
    requires
        text.len() > 0,
        text.last() != '\r',
    ensures
        encode_utf8(text).len() > 0,
        encode_utf8(text).last() != 13u8,
    decreases text.len(),
{
    if text.len() == 1 {
        assert(encode_utf8(text.drop_first()) =~= Seq::<u8>::empty());
        lemma_scalar_ends_without_carriage_return(text[0]);
    } else {
        lemma_text_ends_without_carriage_return(text.drop_first());
    }
}

/// What an append shows. Where `content` is text, empty or ended by a
/// line feed, and `text` holds no line feed and does not end in a carriage
/// return, the file that holds `content` and then the bytes written for
/// `text` reads as the lines of `content` and then `text`.
pub proof fn lemma_append_shows_as_last_line(content: Seq<u8>, text: Seq<char>)
    requires
        content.len() == 0 || content.last() == 10u8,
        all_text(lines_of(content)),
        is_one_line_text(text),
        text.len() > 0 ==> text.last() != '\r',
    ensures
        all_text(lines_of(content + encode_utf8(text).push(10u8))),
        decoded(lines_of(content + encode_utf8(text).push(10u8))) == decoded(
            lines_of(content),
        ).push(text),
        last_of(decoded(lines_of(content + encode_utf8(text).push(10u8))), 1) == seq![text],
{
    let line = encode_utf8(text);
    let after = lines_of(content + line.push(10u8));
    lemma_text_holds_no_line_feed(text);
    lemma_record_adds_one_line(content, line);
    if text.len() > 0 {
        lemma_text_ends_without_carriage_return(text);
    }
    encode_utf8_valid_utf8(text);
    encode_utf8_decode_utf8(text);
    assert(all_text(after));
}

} // verus!
