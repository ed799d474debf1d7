//! The query part of the command line, reduced to plain values: the
//! strings the user gave, and how they expand to codepoints. A string of
//! the shape `U+XXXX` (4 to 6 hex digits, upper- or lowercase `u`) names
//! one codepoint; any other string contributes the codepoints of its
//! characters in order.
use vstd::prelude::*;

use crate::entities::views_of;

verus! {

/// How to display the glyph.
#[derive(Clone, Copy, Debug, PartialEq, Eq)]
pub enum Glyphs {
    /// Draw the glyph using ASCII characters.
    Ascii,
    /// Draw the glyph using Unicode block elements. (▀, ▄, █)
    Blocks,
    /// Do not draw the glyph.
    Off,
}

/// The query given on the command line.
pub struct Command {
    /// The characters to display.
    pub chars: Vec<String>,
    /// Search the name of the character using a pattern.
    pub search: Option<String>,
}

/// The command line, as plain values.
pub struct Cmdline {
    pub command: Command,
    /// How to display the glyph.
    pub glyphs: Glyphs,
}

/// Whether `c` is a hexadecimal digit, either case.
pub open spec fn is_hex_digit_char(c: char) -> bool {
    ('0' <= c && c <= '9') || ('a' <= c && c <= 'f') || ('A' <= c && c <= 'F')
}

/// The value of one hexadecimal digit.
pub open spec fn hex_char_val(c: char) -> int {
    if '0' <= c && c <= '9' {
        c as int - 48
    } else if 'a' <= c && c <= 'f' {
        c as int - 87
    } else {
        c as int - 55
    }
}

/// Whether `s` names a codepoint: `U` or `u`, then `+`, then 4 to 6
/// hexadecimal digits, and nothing else.
pub open spec fn is_cp_query(s: Seq<char>) -> bool {
    &&& 6 <= s.len() <= 8
    &&& s[0] == 'U' || s[0] == 'u'
    &&& s[1] == '+'
    &&& forall|i: int| 2 <= i < s.len() ==> is_hex_digit_char(#[trigger] s[i])
}

/// The value of a big-endian string of hexadecimal digits.
pub open spec fn hex_seq_val(s: Seq<char>) -> int
    decreases s.len(),
{
    if s.len() == 0 {
        0
    } else {
        hex_seq_val(s.drop_last()) * 16 + hex_char_val(s.last())
    }
}

/// `16^k`.
pub open spec fn pow16(k: int) -> int
    decreases k,
{
    if k <= 0 {
        1
    } else {
        16 * pow16(k - 1)
    }
}

/// A string of `k` hexadecimal digits has a value below `16^k`.
proof fn lemma_hex_seq_val_bound(s: Seq<char>)
    requires
        forall|i: int| 0 <= i < s.len() ==> is_hex_digit_char(#[trigger] s[i]),
    ensures
        0 <= hex_seq_val(s) < pow16(s.len() as int),
    decreases s.len(),
{
    if s.len() > 0 {
        lemma_hex_seq_val_bound(s.drop_last());
    }
}

/// The codepoints one query string contributes: the named codepoint for
/// a `U+XXXX` string, else one codepoint per character.
pub open spec fn expand_str(s: Seq<char>) -> Seq<u32> {
    if is_cp_query(s) {
        seq![hex_seq_val(s.subrange(2, s.len() as int)) as u32]
    } else {
        s.map_values(|c: char| c as u32)
    }
}

/// The codepoints a list of query strings contributes, in order.
pub open spec fn codepoints_spec(strs: Seq<Seq<char>>) -> Seq<u32>
    decreases strs.len(),
{
    if strs.len() == 0 {
        Seq::empty()
    } else {
        expand_str(strs[0]) + codepoints_spec(strs.drop_first())
    }
}

/// Appending one more query string appends its expansion.
proof fn lemma_codepoints_spec_snoc(strs: Seq<Seq<char>>, s: Seq<char>)
    ensures
        codepoints_spec(strs.push(s)) == codepoints_spec(strs) + expand_str(s),
    decreases strs.len(),
{
    if strs.len() == 0 {
        assert(strs.push(s).drop_first() =~= Seq::<Seq<char>>::empty());
        assert(codepoints_spec(Seq::<Seq<char>>::empty()) == Seq::<u32>::empty());
        assert(strs =~= Seq::<Seq<char>>::empty());
        assert(codepoints_spec(strs.push(s)) =~= expand_str(s));
        assert(codepoints_spec(strs) + expand_str(s) =~= expand_str(s));
    } else {
        lemma_codepoints_spec_snoc(strs.drop_first(), s);
        assert(strs.push(s).drop_first() =~= strs.drop_first().push(s));
        assert(codepoints_spec(strs.push(s)) =~= codepoints_spec(strs) + expand_str(s));
    }
}

/// Whether `c` is a hexadecimal digit, either case.
fn is_hex_digit(c: char) -> (b: bool)
    ensures
        b == is_hex_digit_char(c),
{
    ('0' <= c && c <= '9') || ('a' <= c && c <= 'f') || ('A' <= c && c <= 'F')
}

/// The value of one hexadecimal digit.
fn hex_digit_value(c: char) -> (v: u32)
    requires
        is_hex_digit_char(c),
    ensures
        v == hex_char_val(c),
{
    if '0' <= c && c <= '9' {
        c as u32 - 48
    } else if 'a' <= c && c <= 'f' {
        c as u32 - 87
    } else {
        c as u32 - 55
    }
}

/// Whether `s` names a codepoint in `U+XXXX` notation.
fn is_cp_token(s: &str) -> (b: bool)
    ensures
        b == is_cp_query(s@),
{
    let n = s.unicode_len();
    if n < 6 || n > 8 {
        return false;
    }
    let c0 = s.get_char(0);
    if !(c0 == 'U' || c0 == 'u') {
        return false;
    }
    if s.get_char(1) != '+' {
        return false;
    }
    let mut i: usize = 2;
    while i < n
        invariant
            2 <= i <= n,
            n == s@.len(),
            forall|j: int| 2 <= j < i ==> is_hex_digit_char(#[trigger] s@[j]),
        decreases n - i,
    {
        if !is_hex_digit(s.get_char(i)) {
            return false;
        }
        i += 1;
    }
    true
}

/// The codepoint a `U+XXXX` string names.
fn cp_token_value(s: &str) -> (v: u32)
    requires
        is_cp_query(s@),
    ensures
        v == hex_seq_val(s@.subrange(2, s@.len() as int)),
{
    let n = s.unicode_len();
    let mut v: u32 = 0;
    let mut i: usize = 2;
    while i < n
        invariant
            is_cp_query(s@),
            2 <= i <= n,
            n == s@.len(),
            v == hex_seq_val(s@.subrange(2, i as int)),
        decreases n - i,
    {
        proof {
            let prefix = s@.subrange(2, i as int);
            assert(forall|j: int| 0 <= j < prefix.len() ==> is_hex_digit_char(#[trigger] prefix[j]));
            lemma_hex_seq_val_bound(prefix);
            assert(pow16(0) == 1);
            assert(pow16(1) == 16);
            assert(pow16(2) == 256);
            assert(pow16(3) == 4096);
            assert(pow16(4) == 65536);
            assert(pow16(5) == 1048576);
            assert(pow16(6) == 16777216);
            assert(s@.subrange(2, i as int + 1).drop_last() =~= prefix);
        }
        let c = s.get_char(i);
        let d = hex_digit_value(c);
        v = v * 16 + d;
        i += 1;
    }
    proof {
        assert(s@.subrange(2, n as int) =~= s@.subrange(2, s@.len() as int));
    }
    v
}

impl Cmdline {
    /// Get the codepoints from the characters given on the command line.
    pub fn codepoints(&self) -> (r: Vec<u32>)
        ensures
            r@ == codepoints_spec(views_of(self.command.chars@)),
    {
        let mut out: Vec<u32> = Vec::new();
        let mut idx: usize = 0;
        while idx < self.command.chars.len()
            invariant
                idx <= self.command.chars@.len(),
                out@ == codepoints_spec(views_of(self.command.chars@).take(idx as int)),
            decreases self.command.chars@.len() - idx,
        {
            let s: &str = self.command.chars[idx].as_str();
            if is_cp_token(s) {
                proof {
                    lemma_hex_seq_val_bound(s@.subrange(2, s@.len() as int));
                    assert(pow16(0) == 1);
            assert(pow16(1) == 16);
                    assert(pow16(2) == 256);
                    assert(pow16(3) == 4096);
                    assert(pow16(4) == 65536);
                    assert(pow16(5) == 1048576);
                    assert(pow16(6) == 16777216);
                }
                let v = cp_token_value(s);
                out.push(v);
                proof {
                    assert(out@ =~= codepoints_spec(views_of(self.command.chars@).take(idx as int))
                        + expand_str(s@));
                }
            } else {
                let m = s.unicode_len();
                let mut j: usize = 0;
                while j < m
                    invariant
                        j <= m,
                        m == s@.len(),
                        !is_cp_query(s@),
                        out@ == codepoints_spec(views_of(self.command.chars@).take(idx as int))
                            + s@.take(j as int).map_values(|c: char| c as u32),
                        idx < self.command.chars@.len(),
                        s@ == self.command.chars@[idx as int]@,
                    decreases m - j,
                {
                    let c = s.get_char(j);
                    out.push(c as u32);
                    proof {
                        assert(s@.take(j as int + 1).map_values(|c: char| c as u32) =~= s@.take(
                            j as int,
                        ).map_values(|c: char| c as u32).push(s@[j as int] as u32));
                        assert(out@ =~= codepoints_spec(
                            views_of(self.command.chars@).take(idx as int),
                        ) + s@.take(j as int + 1).map_values(|c: char| c as u32));
                    }
                    j += 1;
                }
                proof {
                    assert(s@.take(m as int) =~= s@);
                }
            }
            proof {
                lemma_codepoints_spec_snoc(
                    views_of(self.command.chars@).take(idx as int),
                    self.command.chars@[idx as int]@,
                );
                assert(views_of(self.command.chars@).take(idx as int + 1) =~= views_of(
                    self.command.chars@,
                ).take(idx as int).push(self.command.chars@[idx as int]@));
            }
            idx += 1;
        }
        proof {
            assert(views_of(self.command.chars@).take(self.command.chars@.len() as int)
                =~= views_of(self.command.chars@));
        }
        out
    }
}

} // verus!
