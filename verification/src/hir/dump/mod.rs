//! Text dumps of HIR programs, for debugging and golden tests.
//!
//! The dumper keeps its current indentation as the text of the padding
//! itself (two spaces per level), so nesting has no numeric limit.
use vstd::prelude::*;
use crate::text::{push_bool, push_char, push_debug_str, push_i64_dec, push_str, push_u32_dec, push_u64_dec};

pub mod decl;
pub mod expr;
pub mod program;
pub mod render;

verus! {

/// The padding one level deeper than `p`.
pub open spec fn deeper(p: Seq<char>) -> Seq<char> {
    p + seq![' ', ' ']
}

/// The padding of indentation level `n`: two spaces per level.
pub open spec fn ind(n: nat) -> Seq<char>
    decreases n,
{
    if n == 0 {
        Seq::empty()
    } else {
        deeper(ind((n - 1) as nat))
    }
}

/// A line at padding `p`: the padding, the text, a newline.
pub open spec fn line_at(p: Seq<char>, s: Seq<char>) -> Seq<char> {
    p + s + seq!['\n']
}

/// Dropping the last level of a padding that was made one level deeper
/// gives the padding back.
pub proof fn lemma_shallower_deeper(p: Seq<char>)
    ensures
        deeper(p).subrange(0, p.len() as int) == p,
        deeper(p).len() == p.len() + 2,
{
    assert(deeper(p).subrange(0, p.len() as int) =~= p);
}

/// Concatenation of text is associative.
pub broadcast proof fn lemma_text_assoc(a: Seq<char>, b: Seq<char>, c: Seq<char>)
    ensures
        #[trigger] (a + (b + c)) == (a + b) + c,
{
    assert(a + (b + c) =~= (a + b) + c);
}

/// Appending no text changes nothing.
pub broadcast proof fn lemma_text_empty(a: Seq<char>)
    ensures
        #[trigger] (a + Seq::<char>::empty()) == a,
{
    assert(a + Seq::<char>::empty() =~= a);
}

/// An indenting text writer.
pub struct Dumper {
    /// The current indentation, as the spaces that start each line.
    pub pad: Vec<char>,
    /// The text written so far.
    pub buf: String,
}

impl Dumper {
    pub fn new() -> (d: Dumper)
        ensures
            d.pad@ == Seq::<char>::empty(),
            d.buf@ == Seq::<char>::empty(),
    {
        Dumper { pad: Vec::new(), buf: String::new() }
    }

    /// Appends `s` as is, without indentation.
    pub fn write(&mut self, s: &str)
        ensures
            final(self).pad@ == old(self).pad@,
            final(self).buf@ == old(self).buf@ + s@,
    {
        push_str(&mut self.buf, s);
    }

    /// Appends the current indentation, then `s`.
    pub fn indent_write(&mut self, s: &str)
        ensures
            final(self).pad@ == old(self).pad@,
            final(self).buf@ == old(self).buf@ + old(self).pad@ + s@,
    {
        let mut i: usize = 0;
        while i < self.pad.len()
            invariant
                0 <= i <= self.pad@.len(),
                self.pad@ == old(self).pad@,
                self.buf@ == old(self).buf@ + self.pad@.subrange(0, i as int),
            decreases self.pad@.len() - i,
        {
            let c = self.pad[i];
            push_char(&mut self.buf, c);
            proof {
                assert(self.pad@.subrange(0, i + 1) == self.pad@.subrange(0, i as int).push(c));
            }
            i += 1;
        }
        proof {
            assert(self.pad@.subrange(0, self.pad@.len() as int) == self.pad@);
        }
        push_str(&mut self.buf, s);
    }

    /// Appends an indented line holding `s`.
    pub fn line(&mut self, s: &str)
        ensures
            final(self).pad@ == old(self).pad@,
            final(self).buf@ == old(self).buf@ + line_at(old(self).pad@, s@),
    {
        self.indent_write(s);
        push_char(&mut self.buf, '\n');
    }

    /// One level deeper.
    pub fn push(&mut self)
        ensures
            final(self).pad@ == deeper(old(self).pad@),
            final(self).buf@ == old(self).buf@,
    {
        self.pad.push(' ');
        self.pad.push(' ');
        proof {
            assert(self.pad@ == deeper(old(self).pad@));
        }
    }

    /// One level shallower.
    pub fn pop(&mut self)
        requires
            old(self).pad@.len() >= 2,
        ensures
            final(self).pad@ == old(self).pad@.subrange(0, old(self).pad@.len() - 2),
            forall|q: Seq<char>| old(self).pad@ == #[trigger] deeper(q) ==> final(self).pad@ == q,
            final(self).buf@ == old(self).buf@,
    {
        self.pad.pop();
        self.pad.pop();
        proof {
            assert(self.pad@ == old(self).pad@.subrange(0, old(self).pad@.len() - 2));
            assert forall|q: Seq<char>| old(self).pad@ == #[trigger] deeper(q) implies self.pad@ == q by {
                lemma_shallower_deeper(q);
            }
        }
    }

    /// Appends the decimal rendering of `n`.
    pub fn write_u32(&mut self, n: u32)
        ensures
            final(self).pad@ == old(self).pad@,
            final(self).buf@ == old(self).buf@ + crate::text::dec_nat(n as nat),
    {
        push_u32_dec(&mut self.buf, n);
    }

    /// Appends the decimal rendering of `n`.
    pub fn write_u64(&mut self, n: u64)
        ensures
            final(self).pad@ == old(self).pad@,
            final(self).buf@ == old(self).buf@ + crate::text::dec_nat(n as nat),
    {
        push_u64_dec(&mut self.buf, n);
    }

    /// Appends the decimal rendering of `n`.
    pub fn write_i64(&mut self, n: i64)
        ensures
            final(self).pad@ == old(self).pad@,
            final(self).buf@ == old(self).buf@ + crate::text::dec_int(n as int),
    {
        push_i64_dec(&mut self.buf, n);
    }

    /// Appends "true" or "false".
    pub fn write_bool(&mut self, b: bool)
        ensures
            final(self).pad@ == old(self).pad@,
            final(self).buf@ == old(self).buf@ + crate::text::bool_text(b),
    {
        push_bool(&mut self.buf, b);
    }

    /// Appends the quoted, escaped rendering of `s`.
    pub fn write_debug(&mut self, s: &str)
        ensures
            final(self).pad@ == old(self).pad@,
            final(self).buf@ == old(self).buf@ + crate::text::debug_str(s@),
    {
        push_debug_str(&mut self.buf, s);
    }
}

} // verus!
