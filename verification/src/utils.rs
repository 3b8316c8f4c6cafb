//! Wide strings, as the shell of the operating system takes them.

use vstd::prelude::*;
use crate::text::chars_of;

verus! {

/// The UTF-16 code units of one character: the character itself below
/// `0x10000`, a surrogate pair above.
pub open spec fn utf16_of(c: char) -> Seq<u16> {
    let code = c as int;
    if code < 0x10000 {
        seq![code as u16]
    } else {
        seq![(0xD800 + (code - 0x10000) / 0x400) as u16, (0xDC00 + (code - 0x10000) % 0x400) as u16]
    }
}

/// The UTF-16 code units of a text.
pub open spec fn utf16_units(text: Seq<char>) -> Seq<u16>
    decreases text.len(),
{
    if text.len() == 0 {
        Seq::empty()
    } else {
        utf16_units(text.drop_last()) + utf16_of(text.last())
    }
}

/// The code point of `c`.
fn code_point(c: char) -> (code: u32)
    ensures
        code == c as int,
        code <= 0x10FFFF,
{
    c as u32
}

/// The text as UTF-16 code units with a closing zero.
pub fn wide_string(s: &str) -> (wide: Vec<u16>)
    ensures
        wide@ == utf16_units(s@).push(0u16),
{
    let chars = chars_of(s);
    let n = chars.len();
    let mut wide: Vec<u16> = Vec::new();
    let mut i: usize = 0;
    proof {
        assert(s@.take(0) =~= Seq::<char>::empty());
    }
    while i < n
        invariant
            n == chars.len(),
            chars@ == s@,
            i <= n,
            wide@ == utf16_units(s@.take(i as int)),
        decreases n - i,
    {
        let c: char = chars[i];
        let code: u32 = code_point(c);
        proof {
            assert(s@.take(i + 1).drop_last() =~= s@.take(i as int));
            assert(s@.take(i + 1).last() == chars@[i as int]);
        }
        let ghost before = wide@;
        if code < 0x10000 {
            wide.push(code as u16);
            proof {
                assert(utf16_of(c) =~= seq![code as u16]);
                assert(wide@ =~= before + utf16_of(c));
            }
        } else {
            let rest: u32 = code - 0x10000;
            let high: u32 = 0xD800 + rest / 0x400;
            let low: u32 = 0xDC00 + rest % 0x400;
            proof {
                assert(high <= 0xDBFF && low <= 0xDFFF);
            }
            wide.push(high as u16);
            wide.push(low as u16);
            proof {
                assert(utf16_of(c) =~= seq![high as u16, low as u16]);
                assert(wide@ =~= before + utf16_of(c));
            }
        }
        i = i + 1;
    }
    proof {
        assert(s@.take(n as int) =~= s@);
    }
    wide.push(0);
    wide
}

} // verus!
