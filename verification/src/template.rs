//! The color filter offered to template rendering: it rewrites a
//! canonical hex color as its `rgb(r,g,b)` projection.

use vstd::arithmetic::div_mod::lemma_mod_division_less_than_divisor;
use vstd::prelude::*;
use vstd::string::StringExecFns;

use crate::color::Color;
use crate::color::ParseError;
use crate::color::from_hex_spec;
use crate::color::hex_digit_char;
use crate::color::hex_digit_str;

verus! {

/// The decimal text of a channel value, without leading zeros.
pub open spec fn dec_seq(n: int) -> Seq<char>
    recommends
        0 <= n <= 255,
{
    if n < 10 {
        seq![hex_digit_char(n)]
    } else if n < 100 {
        seq![hex_digit_char(n / 10), hex_digit_char(n % 10)]
    } else {
        seq![hex_digit_char(n / 100), hex_digit_char(n / 10 % 10), hex_digit_char(n % 10)]
    }
}

/// The `rgb(r,g,b)` text projection of a color, decimal channels.
pub open spec fn rgb_string_spec(c: Color) -> Seq<char> {
    "rgb("@ + dec_seq(c.r as int) + ","@ + dec_seq(c.g as int) + ","@ + dec_seq(c.b as int)
        + ")"@
}

/// The decimal text of one channel value.
fn dec_str(v: u8) -> (s: String)
    ensures
        s@ == dec_seq(v as int),
{
    proof {
        lemma_mod_division_less_than_divisor(v as int, 10);
        lemma_mod_division_less_than_divisor(v as int / 10, 10);
    }
    if v < 10 {
        String::from_str(hex_digit_str(v))
    } else if v < 100 {
        let mut s = String::from_str(hex_digit_str(v / 10));
        s.append(hex_digit_str(v % 10));
        proof {
            assert(s@ =~= dec_seq(v as int));
        }
        s
    } else {
        let mut s = String::from_str(hex_digit_str(v / 100));
        s.append(hex_digit_str(v / 10 % 10));
        s.append(hex_digit_str(v % 10));
        proof {
            assert(s@ =~= dec_seq(v as int));
        }
        s
    }
}

/// Render a color as its `rgb(r,g,b)` text projection.
pub fn rgb_string(c: &Color) -> (s: String)
    ensures
        s@ == rgb_string_spec(*c),
{
    let mut s = String::from_str("rgb(");
    s.append(dec_str(c.r).as_str());
    s.append(",");
    s.append(dec_str(c.g).as_str());
    s.append(",");
    s.append(dec_str(c.b).as_str());
    s.append(")");
    proof {
        assert(s@ =~= rgb_string_spec(*c));
    }
    s
}

/// The template filter: read a canonical hex color and hand back its
/// `rgb(r,g,b)` form; a malformed color fails as `from_hex` does.
pub fn rgb(s: String) -> (res: Result<String, ParseError>)
    ensures
        res is Ok <==> from_hex_spec(s@) is Ok,
        res matches Ok(t) ==> (from_hex_spec(s@) matches Ok(c) && t@ == rgb_string_spec(c)),
        res matches Err(e) ==> (from_hex_spec(s@) matches Err(e2) && e == e2),
{
    match Color::from_hex(s.as_str()) {
        Ok(c) => Ok(rgb_string(&c)),
        Err(e) => Err(e),
    }
}

} // verus!
