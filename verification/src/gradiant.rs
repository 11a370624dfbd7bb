//! Color gradiants: the named brightness/saturation tables behind the
//! 9-step accent ramps.

use vstd::prelude::*;
use vstd::string::StrSliceExecFns;

verus! {

/// Supported color gradiants used for accent generation. `Auto` is a
/// request-time value: derivation resolves it to `Standard` or `Mono`
/// from the image's mean saturation before any accent is built.
#[derive(Clone, Copy, Debug, PartialEq, Eq, Structural)]
pub enum Gradiant {
    Auto,
    Standard,
    Vibrant,
    Pastel,
    Mono,
}

/// The hand-tuned (brightness%, saturation%) table of a gradiant, in ramp
/// order. `Auto` shares the standard table.
pub open spec fn gradiant_table(g: Gradiant) -> Seq<(u8, u8)> {
    match g {
        Gradiant::Auto | Gradiant::Standard => seq![
            (32u8, 50u8),
            (42u8, 46u8),
            (49u8, 40u8),
            (56u8, 39u8),
            (64u8, 38u8),
            (76u8, 37u8),
            (90u8, 33u8),
            (94u8, 29u8),
            (100u8, 20u8),
        ],
        Gradiant::Vibrant => seq![
            (18u8, 99u8),
            (32u8, 97u8),
            (48u8, 95u8),
            (55u8, 90u8),
            (70u8, 80u8),
            (80u8, 70u8),
            (88u8, 60u8),
            (94u8, 40u8),
            (99u8, 24u8),
        ],
        Gradiant::Pastel => seq![
            (18u8, 99u8),
            (17u8, 66u8),
            (24u8, 29u8),
            (39u8, 41u8),
            (51u8, 37u8),
            (58u8, 34u8),
            (72u8, 30u8),
            (84u8, 26u8),
            (99u8, 22u8),
        ],
        Gradiant::Mono => seq![
            (10u8, 0u8),
            (17u8, 0u8),
            (24u8, 0u8),
            (39u8, 0u8),
            (51u8, 0u8),
            (58u8, 0u8),
            (72u8, 0u8),
            (84u8, 0u8),
            (99u8, 0u8),
        ],
    }
}

/// The lowercase name of a gradiant.
pub open spec fn gradiant_name(g: Gradiant) -> Seq<char> {
    match g {
        Gradiant::Auto => "auto"@,
        Gradiant::Standard => "standard"@,
        Gradiant::Vibrant => "vibrant"@,
        Gradiant::Pastel => "pastel"@,
        Gradiant::Mono => "mono"@,
    }
}

/// The gradiant a lowercase name denotes, if any.
pub open spec fn gradiant_from_str_spec(s: Seq<char>) -> Option<Gradiant> {
    if s == "auto"@ {
        Some(Gradiant::Auto)
    } else if s == "standard"@ {
        Some(Gradiant::Standard)
    } else if s == "vibrant"@ {
        Some(Gradiant::Vibrant)
    } else if s == "pastel"@ {
        Some(Gradiant::Pastel)
    } else if s == "mono"@ {
        Some(Gradiant::Mono)
    } else {
        None
    }
}

/// What `Auto` resolves to for a given saturation verdict; a concrete
/// gradiant is kept unchanged.
pub open spec fn resolve_spec(g: Gradiant, low_saturation: bool) -> Gradiant {
    if g == Gradiant::Auto {
        if low_saturation {
            Gradiant::Mono
        } else {
            Gradiant::Standard
        }
    } else {
        g
    }
}

impl Gradiant {
    /// The 9 (brightness%, saturation%) pairs of this gradiant's table.
    pub fn gradiant(&self) -> (table: Vec<(u8, u8)>)
        ensures
            table@ == gradiant_table(*self),
            table@.len() == 9,
            forall|i: int| 0 <= i < 9 ==> (#[trigger] table@[i]).0 <= 100
                && table@[i].1 <= 100,
    {
        let table: Vec<(u8, u8)> = match self {
            Gradiant::Auto | Gradiant::Standard => vec![
                (32, 50),
                (42, 46),
                (49, 40),
                (56, 39),
                (64, 38),
                (76, 37),
                (90, 33),
                (94, 29),
                (100, 20),
            ],
            Gradiant::Vibrant => vec![
                (18, 99),
                (32, 97),
                (48, 95),
                (55, 90),
                (70, 80),
                (80, 70),
                (88, 60),
                (94, 40),
                (99, 24),
            ],
            Gradiant::Pastel => vec![
                (18, 99),
                (17, 66),
                (24, 29),
                (39, 41),
                (51, 37),
                (58, 34),
                (72, 30),
                (84, 26),
                (99, 22),
            ],
            Gradiant::Mono => vec![
                (10, 0),
                (17, 0),
                (24, 0),
                (39, 0),
                (51, 0),
                (58, 0),
                (72, 0),
                (84, 0),
                (99, 0),
            ],
        };
        proof {
            assert(table@ =~= gradiant_table(*self));
        }
        table
    }

    /// The lowercase name of this gradiant.
    pub fn name(&self) -> (res: &'static str)
        ensures
            res@ == gradiant_name(*self),
    {
        match self {
            Gradiant::Auto => "auto",
            Gradiant::Standard => "standard",
            Gradiant::Vibrant => "vibrant",
            Gradiant::Pastel => "pastel",
            Gradiant::Mono => "mono",
        }
    }

    /// Read a gradiant from its lowercase name.
    pub fn from_str(s: &str) -> (res: Option<Gradiant>)
        ensures
            res == gradiant_from_str_spec(s@),
    {
        if str_eq(s, "auto") {
            Some(Gradiant::Auto)
        } else if str_eq(s, "standard") {
            Some(Gradiant::Standard)
        } else if str_eq(s, "vibrant") {
            Some(Gradiant::Vibrant)
        } else if str_eq(s, "pastel") {
            Some(Gradiant::Pastel)
        } else if str_eq(s, "mono") {
            Some(Gradiant::Mono)
        } else {
            None
        }
    }

    /// Resolve this gradiant for derivation: `Auto` becomes `Mono` on a
    /// low-saturation image and `Standard` otherwise; anything concrete
    /// is kept.
    pub fn resolve(&self, low_saturation: bool) -> (res: Gradiant)
        ensures
            res == resolve_spec(*self, low_saturation),
    {
        match self {
            Gradiant::Auto => {
                if low_saturation {
                    Gradiant::Mono
                } else {
                    Gradiant::Standard
                }
            },
            _ => *self,
        }
    }
}

impl Default for Gradiant {
    /// The gradiant requested when none is named: `Auto`.
    fn default() -> (res: Self)
        ensures
            res == Gradiant::Auto,
    {
        Gradiant::Auto
    }
}

/// Character-by-character string equality.
fn str_eq(a: &str, b: &str) -> (res: bool)
    ensures
        res == (a@ == b@),
{
    let na = a.unicode_len();
    let nb = b.unicode_len();
    if na != nb {
        return false;
    }
    let mut i: usize = 0;
    while i < na
        invariant
            i <= na,
            na == a@.len(),
            na == b@.len(),
            forall|j: int| 0 <= j < i ==> a@[j] == b@[j],
        decreases na - i,
    {
        if a.get_char(i) != b.get_char(i) {
            return false;
        }
        i = i + 1;
    }
    proof {
        assert(a@ =~= b@);
    }
    true
}

} // verus!
