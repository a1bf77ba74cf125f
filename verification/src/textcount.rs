//! Counting a text's bytes, lines, characters and words, and the fixed-width
//! field formatting of one counter.
use vstd::prelude::*;
use vstd::string::StringSliceAdditionalSpecFns;
use vstd::utf8::encode_utf8;

use crate::matcher::split_lines;
use crate::matcher::split_lines_spec;
use crate::strutil::dec_str;
use crate::strutil::usize_to_string;

verus! {

/// Whether `c` has the Unicode white-space property, the classification the
/// word count splits on.
pub open spec fn is_space_char(c: char) -> bool {
    let u = c as u32;
    ||| (0x09 <= u && u <= 0x0D)
    ||| u == 0x20
    ||| u == 0x85
    ||| u == 0xA0
    ||| u == 0x1680
    ||| (0x2000 <= u && u <= 0x200A)
    ||| u == 0x2028
    ||| u == 0x2029
    ||| u == 0x202F
    ||| u == 0x205F
    ||| u == 0x3000
}

/// Whether position `i` opens a word: a non-space character at the start of
/// the text or right after a space.
pub open spec fn is_word_start(s: Seq<char>, i: int) -> bool {
    &&& 0 <= i < s.len()
    &&& !is_space_char(s[i])
    &&& (i == 0 || is_space_char(s[i - 1]))
}

/// The number of word starts among the first `n` positions.
pub open spec fn words_up_to(s: Seq<char>, n: int) -> nat
    decreases n,
{
    if n <= 0 {
        0
    } else {
        words_up_to(s, n - 1) + if is_word_start(s, n - 1) {
            1nat
        } else {
            0nat
        }
    }
}

/// The number of words in `s`: maximal runs of non-space characters.
pub open spec fn word_count(s: Seq<char>) -> nat {
    words_up_to(s, s.len() as int)
}

/// The byte, line, character and word counts of one text.
#[derive(Clone, Copy, Debug, PartialEq, Eq, Structural)]
pub struct FileInfo {
    pub num_bytes: usize,
    pub num_lines: usize,
    pub num_chars: usize,
    pub num_words: usize,
}

/// Whether `c` is counted as white space.
fn is_space(c: char) -> (r: bool)
    ensures
        r == is_space_char(c),
{
    let u = c as u32;
    (0x09 <= u && u <= 0x0D) || u == 0x20 || u == 0x85 || u == 0xA0 || u == 0x1680 || (0x2000 <= u
        && u <= 0x200A) || u == 0x2028 || u == 0x2029 || u == 0x202F || u == 0x205F || u == 0x3000
}

/// Count the bytes, lines, characters and words of `text`: bytes of its
/// UTF-8 form, lines as the line splitter yields them, characters as Unicode
/// scalars, and words as maximal runs of non-space characters.
pub fn count(text: &str) -> (info: FileInfo)
    ensures
        info.num_bytes == encode_utf8(text@).len() as usize,
        info.num_lines == split_lines_spec(text@).len(),
        info.num_chars == text@.len(),
        info.num_words == word_count(text@),
{
    let num_bytes = text.len();
    proof {
        assert(text.spec_bytes() == encode_utf8(text@));
    }
    let lines = split_lines(text);
    let num_lines = lines.len();
    let num_chars = text.unicode_len();
    let mut num_words: usize = 0;
    let mut prev_space = true;
    for i in 0..num_chars
        invariant
            num_chars == text@.len(),
            num_words == words_up_to(text@, i as int),
            num_words <= i,
            prev_space == (i == 0 || is_space_char(text@[i as int - 1])),
    {
        let c = text.get_char(i);
        let space = is_space(c);
        if !space && prev_space {
            num_words += 1;
        }
        prev_space = space;
    }
    proof {
        assert(lines.deep_view().len() == lines@.len());
    }
    FileInfo { num_bytes, num_lines, num_chars, num_words }
}

/// A run of `n` space characters.
pub open spec fn spaces(n: nat) -> Seq<char>
    decreases n,
{
    if n == 0 {
        Seq::empty()
    } else {
        spaces((n - 1) as nat).push(' ')
    }
}

/// `s` padded with spaces on the left up to width `w`; a value already that
/// wide stands as it is.
pub open spec fn pad_left(s: Seq<char>, w: nat) -> Seq<char> {
    if s.len() >= w {
        s
    } else {
        spaces((w - s.len()) as nat) + s
    }
}

/// One output field: the value right-aligned in eight columns when `show`
/// is set, and the empty string otherwise.
pub fn format_field(value: usize, show: bool) -> (r: String)
    ensures
        r@ == if show {
            pad_left(dec_str(value as nat), 8)
        } else {
            Seq::<char>::empty()
        },
{
    if !show {
        return String::new();
    }
    let digits = usize_to_string(value);
    let len = digits.as_str().unicode_len();
    let mut out = String::new();
    let mut k = len;
    while k < 8
        invariant
            len <= k,
            k <= 8 || k == len,
            len == dec_str(value as nat).len(),
            digits@ == dec_str(value as nat),
            out@ == spaces((k - len) as nat),
        decreases 8 - k,
    {
        out.append(" ");
        k += 1;
        proof {
            reveal_strlit(" ");
            assert(out@ =~= spaces((k - len) as nat));
        }
    }
    out.append(digits.as_str());
    proof {
        if len < 8 {
            assert(out@ == spaces((8 - len) as nat) + dec_str(value as nat));
        } else {
            assert(spaces(0) + dec_str(value as nat) =~= dec_str(value as nat));
        }
    }
    out
}

} // verus!
