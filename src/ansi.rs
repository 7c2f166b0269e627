//! Removal of terminal control sequences (`ESC [ ... letter`) from captured
//! output.
use vstd::prelude::*;
use crate::text::{chars_of, string_of};

verus! {

/// The escape introducer.
pub const ESC: char = '\x1b';

/// Where the scanner stands: in plain text, just after an escape
/// introducer, or inside a control sequence.
#[derive(Clone, Copy, PartialEq, Eq, Structural)]
pub enum ScanMode {
    Text,
    Escape,
    Control,
}

pub open spec fn is_ascii_letter(c: char) -> bool {
    ('a' <= c && c <= 'z') || ('A' <= c && c <= 'Z')
}

/// What the scanner emits for `s` when it starts in `mode`.
///
/// An introducer is never emitted. After it, `[` opens a control sequence,
/// a further introducer starts over, and any other character is plain text.
/// A control sequence ends after its first ASCII letter, or at the end of
/// the input.
pub open spec fn strip_from(s: Seq<char>, mode: ScanMode) -> Seq<char>
    decreases s.len(),
{
    if s.len() == 0 {
        Seq::empty()
    } else {
        let c = s[0];
        let rest = s.drop_first();
        match mode {
            ScanMode::Control => if is_ascii_letter(c) {
                strip_from(rest, ScanMode::Text)
            } else {
                strip_from(rest, ScanMode::Control)
            },
            ScanMode::Escape if c == '[' => strip_from(rest, ScanMode::Control),
            _ => if c == ESC {
                strip_from(rest, ScanMode::Escape)
            } else {
                seq![c] + strip_from(rest, ScanMode::Text)
            },
        }
    }
}

/// The text of `s` with every control sequence and introducer removed.
pub open spec fn strip(s: Seq<char>) -> Seq<char> {
    strip_from(s, ScanMode::Text)
}

pub open spec fn has_escape(s: Seq<char>) -> bool {
    exists|i: int| 0 <= i < s.len() && s[i] == ESC
}

proof fn lemma_strip_from_no_escape(s: Seq<char>, mode: ScanMode)
    ensures
        !has_escape(strip_from(s, mode)),
    decreases s.len(),
{
    if s.len() > 0 {
        let rest = s.drop_first();
        lemma_strip_from_no_escape(rest, ScanMode::Text);
        lemma_strip_from_no_escape(rest, ScanMode::Escape);
        lemma_strip_from_no_escape(rest, ScanMode::Control);
        let c = s[0];
        let tail = strip_from(rest, ScanMode::Text);
        if c != ESC {
            let out = seq![c] + tail;
            assert forall|i: int| 0 <= i < out.len() implies out[i] != ESC by {
                if i > 0 {
                    assert(out[i] == tail[i - 1]);
                }
            }
        }
    }
}

proof fn lemma_strip_plain(s: Seq<char>)
    requires
        !has_escape(s),
    ensures
        strip(s) == s,
    decreases s.len(),
{
    if s.len() > 0 {
        let rest = s.drop_first();
        assert(s[0] != ESC);
        assert(!has_escape(rest)) by {
            if has_escape(rest) {
                let i = choose|i: int| 0 <= i < rest.len() && rest[i] == ESC;
                assert(s[i + 1] == ESC);
            }
        }
        lemma_strip_plain(rest);
        assert(s =~= seq![s[0]] + rest);
    }
}

/// Output of the sanitizer holds no escape introducer.
pub proof fn lemma_strip_leaves_no_escape(s: Seq<char>)
    ensures
        !has_escape(strip(s)),
{
    lemma_strip_from_no_escape(s, ScanMode::Text);
}

/// Text without an escape introducer passes through the sanitizer unchanged.
pub proof fn lemma_strip_identity(s: Seq<char>)
    requires
        !has_escape(s),
    ensures
        strip(s) == s,
{
    lemma_strip_plain(s);
}

/// Sanitizing twice gives the same text as sanitizing once.
pub proof fn lemma_strip_idempotent(s: Seq<char>)
    ensures
        strip(strip(s)) == strip(s),
{
    lemma_strip_from_no_escape(s, ScanMode::Text);
    lemma_strip_plain(strip(s));
}

fn is_letter(c: char) -> (r: bool)
    ensures
        r == is_ascii_letter(c),
{
    ('a' <= c && c <= 'z') || ('A' <= c && c <= 'Z')
}

/// Removes terminal control sequences from `s`.
pub fn strip_ansi_codes(s: &str) -> (r: String)
    ensures
        r@ == strip(s@),
{
    let cs = chars_of(s);
    let mut out: Vec<char> = Vec::new();
    let mut mode = ScanMode::Text;
    let mut i: usize = 0;
    assert(cs@.skip(0) =~= cs@);
    assert(out@ + strip(cs@) =~= strip(cs@));
    while i < cs.len()
        invariant
            cs@ == s@,
            i <= cs@.len(),
            strip(s@) == out@ + strip_from(cs@.skip(i as int), mode),
        decreases cs@.len() - i,
    {
        let c = cs[i];
        let ghost rest = cs@.skip(i as int);
        assert(rest[0] == c);
        assert(rest.drop_first() =~= cs@.skip(i + 1));
        match mode {
            ScanMode::Control => {
                if is_letter(c) {
                    mode = ScanMode::Text;
                }
            },
            ScanMode::Escape if c == '[' => {
                mode = ScanMode::Control;
            },
            _ => {
                if c == ESC {
                    mode = ScanMode::Escape;
                } else {
                    let ghost before = out@;
                    out.push(c);
                    mode = ScanMode::Text;
                    let ghost tail = strip_from(cs@.skip(i + 1), mode);
                    assert(before + (seq![c] + tail) =~= out@ + tail);
                }
            },
        }
        i = i + 1;
    }
    assert(out@ + strip_from(cs@.skip(i as int), mode) =~= out@);
    string_of(&out)
}

} // verus!
