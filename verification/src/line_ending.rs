//! Line endings of text.
use vstd::prelude::*;

use crate::text;

verus! {

pub const POSIX_LINE_ENDING: &'static str = "\n";

pub const WINDOWS_LINE_ENDING: &'static str = "\r\n";

/// The native line ending, which is that of POSIX platforms.
pub const NATIVE_LINE_ENDING: &'static str = POSIX_LINE_ENDING;

#[derive(Debug)]
pub enum LineEnding {
    Windows,
    Posix,
    Native,
}

impl LineEnding {
    /// The characters of the line ending.
    pub open spec fn chars(self) -> Seq<char> {
        match self {
            LineEnding::Windows => seq!['\r', '\n'],
            LineEnding::Posix => seq!['\n'],
            LineEnding::Native => seq!['\n'],
        }
    }

    pub fn as_str(self) -> (r: &'static str)
        ensures
            r@ == self.chars(),
    {
        proof {
            reveal_strlit("\n");
            reveal_strlit("\r\n");
        }
        match self {
            LineEnding::Windows => WINDOWS_LINE_ENDING,
            LineEnding::Posix => POSIX_LINE_ENDING,
            LineEnding::Native => NATIVE_LINE_ENDING,
        }
    }
}

/// Replaces every carriage return that a line feed follows, and that line feed,
/// by the line ending.
pub fn convert_line_endings(s: &str, eol_type: LineEnding) -> (r: String)
    ensures
        r@ == text::replaced(s@, seq!['\r', '\n'], eol_type.chars()),
{
    proof {
        reveal_strlit("\r\n");
        assert("\r\n"@ =~= seq!['\r', '\n']);
    }
    text::replace(s, "\r\n", eol_type.as_str())
}

/// Converting to Windows line endings leaves any text as it is, and converting
/// a text without Windows line endings leaves it as it is whatever the line
/// ending.
pub proof fn law_conversion_keeps_text(s: Seq<char>, eol_type: LineEnding)
    ensures
        text::replaced(s, seq!['\r', '\n'], LineEnding::Windows.chars()) == s,
        !text::contains_text(s, seq!['\r', '\n']) ==> text::replaced(
            s,
            seq!['\r', '\n'],
            eol_type.chars(),
        ) == s,
{
    text::lemma_replaced_same(s, seq!['\r', '\n']);
    if !text::contains_text(s, seq!['\r', '\n']) {
        text::lemma_replaced_absent(s, seq!['\r', '\n'], eol_type.chars());
    }
}

/// Line endings become the ones that are asked for, and the text between them stays.
pub proof fn law_line_endings_are_converted(line: Seq<char>, rest: Seq<char>)
    requires
        !line.contains('\r'),
    ensures
        text::replaced(line + seq!['\r', '\n'] + rest, seq!['\r', '\n'], LineEnding::Posix.chars())
            == line + seq!['\n'] + text::replaced(
            rest,
            seq!['\r', '\n'],
            LineEnding::Posix.chars(),
        ),
        text::replaced(
            line + seq!['\r', '\n'] + rest,
            seq!['\r', '\n'],
            LineEnding::Windows.chars(),
        ) == line + seq!['\r', '\n'] + rest,
        LineEnding::Native.chars() == LineEnding::Posix.chars(),
    decreases line.len(),
{
    let crlf = seq!['\r', '\n'];
    let s = line + crlf + rest;
    law_conversion_keeps_text(s, LineEnding::Windows);
    if line.len() == 0 {
        assert(s.skip(2) =~= rest);
        assert(s.subrange(0, 2) =~= crlf);
        assert(text::occurs_at(s, crlf, 0));
        assert(line + seq!['\n'] =~= seq!['\n']);
    } else {
        let tail = line.drop_first();
        assert(!tail.contains('\r')) by {
            if tail.contains('\r') {
                let k = choose|k: int| 0 <= k < tail.len() && tail[k] == '\r';
                assert(line[k + 1] == '\r');
            }
        }
        law_line_endings_are_converted(tail, rest);
        assert(s.drop_first() =~= tail + crlf + rest);
        assert(!text::occurs_at(s, crlf, 0)) by {
            if text::occurs_at(s, crlf, 0) {
                assert(s.subrange(0, 2)[0] == '\r');
                assert(line[0] == '\r');
            }
        }
        let more = text::replaced(rest, crlf, LineEnding::Posix.chars());
        assert(seq![line[0]] + (tail + seq!['\n'] + more) =~= line + seq!['\n'] + more);
    }
}

} // verus!
