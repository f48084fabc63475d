//! ANSI escape decoration for terminal text: wraps a string between a
//! start code chosen by color and the universal reset code.
use vstd::prelude::*;

verus! {

/// The escape code that starts red text.
pub open spec fn red_code() -> Seq<char> {
    seq!['\x1b', '[', '3', '1', 'm']
}

/// The escape code that starts green text.
pub open spec fn green_code() -> Seq<char> {
    seq!['\x1b', '[', '3', '2', 'm']
}

/// The escape code that starts blue text.
pub open spec fn blue_code() -> Seq<char> {
    seq!['\x1b', '[', '3', '4', 'm']
}

/// The escape code that starts bold text.
pub open spec fn bold_code() -> Seq<char> {
    seq!['\x1b', '[', '1', 'm']
}

/// The escape code that resets all formatting.
pub open spec fn reset_code() -> Seq<char> {
    seq!['\x1b', '[', '0', 'm']
}

/// The colors (and the one emphasis) a string can be decorated with.
pub enum Color {
    Red,
    Green,
    Blue,
    Bold,
}

/// The start code that belongs to `color`.
pub open spec fn start_code(color: Color) -> Seq<char> {
    match color {
        Color::Red => red_code(),
        Color::Green => green_code(),
        Color::Blue => blue_code(),
        Color::Bold => bold_code(),
    }
}

/// What decorating `text` with `color` yields: the color's start code,
/// then the text unchanged, then the reset code.
pub open spec fn decorated(color: Color, text: Seq<char>) -> Seq<char> {
    start_code(color) + text + reset_code()
}

/// What wrapping `text` in reset codes yields: a reset code on either side.
pub open spec fn reset_wrapped(text: Seq<char>) -> Seq<char> {
    reset_code() + text + reset_code()
}

/// Returns `s` wrapped in the ANSI codes for red text.
pub fn red(s: &str) -> (r: String)
    ensures
        r@ == decorated(Color::Red, s@),
{
    proof {
        reveal_strlit("\x1b[31m");
        reveal_strlit("\x1b[0m");
    }
    let mut r = String::from_str("\x1b[31m");
    r.append(s);
    r.append("\x1b[0m");
    proof {
        assert(r@ =~= decorated(Color::Red, s@));
    }
    r
}

/// Returns `s` wrapped in the ANSI codes for green text.
pub fn green(s: &str) -> (r: String)
    ensures
        r@ == decorated(Color::Green, s@),
{
    proof {
        reveal_strlit("\x1b[32m");
        reveal_strlit("\x1b[0m");
    }
    let mut r = String::from_str("\x1b[32m");
    r.append(s);
    r.append("\x1b[0m");
    proof {
        assert(r@ =~= decorated(Color::Green, s@));
    }
    r
}

/// Returns `s` wrapped in the ANSI codes for blue text.
pub fn blue(s: &str) -> (r: String)
    ensures
        r@ == decorated(Color::Blue, s@),
{
    proof {
        reveal_strlit("\x1b[34m");
        reveal_strlit("\x1b[0m");
    }
    let mut r = String::from_str("\x1b[34m");
    r.append(s);
    r.append("\x1b[0m");
    proof {
        assert(r@ =~= decorated(Color::Blue, s@));
    }
    r
}

/// Returns `s` wrapped in the ANSI codes for bold text.
pub fn bold(s: &str) -> (r: String)
    ensures
        r@ == decorated(Color::Bold, s@),
{
    proof {
        reveal_strlit("\x1b[1m");
        reveal_strlit("\x1b[0m");
    }
    let mut r = String::from_str("\x1b[1m");
    r.append(s);
    r.append("\x1b[0m");
    proof {
        assert(r@ =~= decorated(Color::Bold, s@));
    }
    r
}

/// Returns `s` with a reset code on either side, clearing all formatting.
pub fn reset(s: &str) -> (r: String)
    ensures
        r@ == reset_wrapped(s@),
{
    proof {
        reveal_strlit("\x1b[0m");
    }
    let mut r = String::from_str("\x1b[0m");
    r.append(s);
    r.append("\x1b[0m");
    proof {
        assert(r@ =~= reset_wrapped(s@));
    }
    r
}

/// A string paired with a color, holding a decorated copy that is filled
/// in only when `paint` or `reset` is called; it is not kept in sync with
/// later changes to `color` or `string`.
pub struct ColorString {
    pub color: Color,
    pub string: String,
    pub colorized: String,
}

impl ColorString {
    /// Decorates the held string with the held color and stores the result
    /// in `colorized`, replacing any prior value.
    pub fn paint(&mut self)
        ensures
            final(self).color == old(self).color,
            final(self).string == old(self).string,
            final(self).colorized@ == decorated(old(self).color, old(self).string@),
    {
        match self.color {
            Color::Red => {
                self.colorized = red(self.string.as_str());
            },
            Color::Green => {
                self.colorized = green(self.string.as_str());
            },
            Color::Blue => {
                self.colorized = blue(self.string.as_str());
            },
            Color::Bold => {
                self.colorized = bold(self.string.as_str());
            },
        }
    }

    /// Stores the held string wrapped in reset codes in `colorized`,
    /// ignoring the held color.
    pub fn reset(&mut self)
        ensures
            final(self).color == old(self).color,
            final(self).string == old(self).string,
            final(self).colorized@ == reset_wrapped(old(self).string@),
    {
        self.colorized = reset(self.string.as_str());
    }
}

/// Law: for a fixed color, decoration is injective — distinct texts always
/// decorate to distinct strings, so no information is lost.
pub proof fn lemma_decorate_injective(color: Color, t1: Seq<char>, t2: Seq<char>)
    requires
        t1 != t2,
    ensures
        decorated(color, t1) != decorated(color, t2),
{
    if decorated(color, t1) == decorated(color, t2) {
        let a = start_code(color);
        assert(decorated(color, t1).len() == a.len() + t1.len() + reset_code().len());
        assert(decorated(color, t2).len() == a.len() + t2.len() + reset_code().len());
        assert forall|i: int| 0 <= i < t1.len() implies t1[i] == t2[i] by {
            assert(decorated(color, t1)[a.len() + i] == t1[i]);
            assert(decorated(color, t2)[a.len() + i] == t2[i]);
        }
        assert(t1 =~= t2);
    }
}

/// Law: decoration is not idempotent — decorating an already-decorated
/// string nests the escape codes rather than canceling them, and never
/// returns the same string.
pub proof fn lemma_decorate_nests(color: Color, t: Seq<char>)
    ensures
        decorated(color, decorated(color, t)) == start_code(color) + start_code(color) + t
            + reset_code() + reset_code(),
        decorated(color, decorated(color, t)) != decorated(color, t),
{
    assert(decorated(color, decorated(color, t)) =~= start_code(color) + start_code(color) + t
        + reset_code() + reset_code());
    assert(start_code(color).len() > 0) by {
        match color {
            Color::Red => assert(start_code(color) == red_code()),
            Color::Green => assert(start_code(color) == green_code()),
            Color::Blue => assert(start_code(color) == blue_code()),
            Color::Bold => assert(start_code(color) == bold_code()),
        }
    }
    assert(decorated(color, decorated(color, t)).len() > decorated(color, t).len());
}

} // verus!
