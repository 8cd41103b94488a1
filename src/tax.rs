use crate::error::PricingError;
use vstd::prelude::*;

verus! {

/// Tax (VAT) category of a price.
///
/// `Aam`, `Fad` and `Tam` are exemptions (multiplier 1); the others are
/// percentage bands.
#[derive(Clone, Copy, Debug, PartialEq, Eq, Structural)]
pub enum Vat {
    Aam,
    Fad,
    Tam,
    Rate5,
    Rate18,
    Rate27,
}

impl Vat {
    /// The tax rate in percent; the multiplier is `(100 + percent) / 100`.
    pub open spec fn percent(self) -> nat {
        match self {
            Vat::Aam | Vat::Fad | Vat::Tam => 0,
            Vat::Rate5 => 5,
            Vat::Rate18 => 18,
            Vat::Rate27 => 27,
        }
    }

    pub open spec fn is_exempt(self) -> bool {
        self is Aam || self is Fad || self is Tam
    }

    pub fn rate_percent(&self) -> (r: u32)
        ensures
            r == self.percent(),
    {
        match self {
            Vat::Aam | Vat::Fad | Vat::Tam => 0,
            Vat::Rate5 => 5,
            Vat::Rate18 => 18,
            Vat::Rate27 => 27,
        }
    }
}

impl Default for Vat {
    fn default() -> (r: Vat)
        ensures
            r == Vat::Rate27,
    {
        Vat::Rate27
    }
}

/// ASCII lower-casing of one character.
pub open spec fn fold_case(c: char) -> char {
    if 'A' <= c && c <= 'Z' {
        (((c as u8) + 32) as u8) as char
    } else {
        c
    }
}

/// `s` spells the three-letter word `w` (lower case), ignoring ASCII case.
pub open spec fn spells_folded(s: Seq<char>, w: Seq<char>) -> bool {
    s.len() == w.len() && forall|i: int| 0 <= i < s.len() ==> #[trigger] fold_case(s[i]) == w[i]
}

/// The category a tax code denotes: one of the exemption codes in any case,
/// or one of the percentages written in digits.
pub open spec fn vat_of_code(s: Seq<char>) -> Option<Vat> {
    if spells_folded(s, seq!['a', 'a', 'm']) {
        Some(Vat::Aam)
    } else if spells_folded(s, seq!['f', 'a', 'd']) {
        Some(Vat::Fad)
    } else if spells_folded(s, seq!['t', 'a', 'm']) {
        Some(Vat::Tam)
    } else if s == seq!['5'] {
        Some(Vat::Rate5)
    } else if s == seq!['1', '8'] {
        Some(Vat::Rate18)
    } else if s == seq!['2', '7'] {
        Some(Vat::Rate27)
    } else {
        None
    }
}

/// The canonical code of a category.
pub open spec fn code_of(v: Vat) -> Seq<char> {
    match v {
        Vat::Aam => seq!['A', 'A', 'M'],
        Vat::Fad => seq!['F', 'A', 'D'],
        Vat::Tam => seq!['T', 'A', 'M'],
        Vat::Rate5 => seq!['5'],
        Vat::Rate18 => seq!['1', '8'],
        Vat::Rate27 => seq!['2', '7'],
    }
}

/// Gross price of a net price: `net * (100 + percent) / 100`, rounded to the
/// nearest integer with ties away from zero.
pub open spec fn gross_of(net: int, vat: Vat) -> int {
    (net * (100 + vat.percent()) + 50) / 100
}

fn fold_char(c: char) -> (r: char)
    ensures
        r == fold_case(c),
{
    if 'A' <= c && c <= 'Z' {
        let b: u8 = c as u8;
        (b + 32) as char
    } else {
        c
    }
}

fn is_folded_word(s: &str, n: usize, a: char, b: char, c: char) -> (r: bool)
    requires
        n == s@.len(),
    ensures
        r == spells_folded(s@, seq![a, b, c]),
{
    if n != 3 {
        return false;
    }
    let x = fold_char(s.get_char(0));
    let y = fold_char(s.get_char(1));
    let z = fold_char(s.get_char(2));
    let r = x == a && y == b && z == c;
    proof {
        let w = seq![a, b, c];
        if r {
            assert forall|i: int| 0 <= i < s@.len() implies #[trigger] fold_case(s@[i]) == w[i] by {
                if i == 0 {
                } else if i == 1 {
                } else {
                }
            }
        } else {
            if x != a {
                assert(fold_case(s@[0]) != w[0]);
            } else if y != b {
                assert(fold_case(s@[1]) != w[1]);
            } else {
                assert(fold_case(s@[2]) != w[2]);
            }
        }
    }
    r
}

impl Vat {
    /// Reads a tax code: `aam`, `fad` and `tam` in any letter case, or `5`,
    /// `18` or `27`.
    pub fn parse(code: &str) -> (r: Result<Vat, PricingError>)
        ensures
            r == (match vat_of_code(code@) {
                Some(v) => Ok(v),
                None => Err(PricingError::InvalidTaxCode),
            }),
    {
        let n = code.unicode_len();
        let ghost s = code@;
        if is_folded_word(code, n, 'a', 'a', 'm') {
            return Ok(Vat::Aam);
        }
        if is_folded_word(code, n, 'f', 'a', 'd') {
            return Ok(Vat::Fad);
        }
        if is_folded_word(code, n, 't', 'a', 'm') {
            return Ok(Vat::Tam);
        }
        if n == 1 && code.get_char(0) == '5' {
            assert(s =~= seq!['5']);
            return Ok(Vat::Rate5);
        }
        if n == 2 && code.get_char(0) == '1' && code.get_char(1) == '8' {
            assert(s =~= seq!['1', '8']);
            return Ok(Vat::Rate18);
        }
        if n == 2 && code.get_char(0) == '2' && code.get_char(1) == '7' {
            assert(s =~= seq!['2', '7']);
            return Ok(Vat::Rate27);
        }
        proof {
            if s == seq!['5'] {
                assert(s[0] == '5');
            }
            if s == seq!['1', '8'] {
                assert(s[0] == '1' && s[1] == '8');
            }
            if s == seq!['2', '7'] {
                assert(s[0] == '2' && s[1] == '7');
            }
        }
        Err(PricingError::InvalidTaxCode)
    }
}

/// Gross price of `net` under `vat`, rounded to the nearest minor unit.
pub fn gross_price(net: u32, vat: Vat) -> (r: u64)
    ensures
        r == gross_of(net as int, vat),
{
    let p: u64 = vat.rate_percent() as u64;
    let n: u64 = net as u64;
    assert(n * (100 + p) <= 0xffff_ffff * 127) by (nonlinear_arith)
        requires
            n <= 0xffff_ffff,
            p <= 27,
    ;
    (n * (100 + p) + 50) / 100
}

impl Vat {
    /// The canonical code of the category: `AAM`, `FAD`, `TAM`, `5`, `18` or `27`.
    pub fn code(&self) -> (r: String)
        ensures
            r@ == code_of(*self),
    {
        match self {
            Vat::Aam => {
                proof { reveal_strlit("AAM"); }
                String::from_str("AAM")
            },
            Vat::Fad => {
                proof { reveal_strlit("FAD"); }
                String::from_str("FAD")
            },
            Vat::Tam => {
                proof { reveal_strlit("TAM"); }
                String::from_str("TAM")
            },
            Vat::Rate5 => {
                proof { reveal_strlit("5"); }
                String::from_str("5")
            },
            Vat::Rate18 => {
                proof { reveal_strlit("18"); }
                String::from_str("18")
            },
            Vat::Rate27 => {
                proof { reveal_strlit("27"); }
                String::from_str("27")
            },
        }
    }
}

/// The gross price is the product `net * (100 + percent) / 100` rounded to the
/// nearest integer, a tie going up (away from zero, as prices are never
/// negative); an exempt category leaves the price unchanged.
pub proof fn lemma_gross_is_rounded_product(net: nat, vat: Vat)
    ensures
        100 * gross_of(net as int, vat) - 50 <= net * (100 + vat.percent()),
        net * (100 + vat.percent()) < 100 * gross_of(net as int, vat) + 50,
        gross_of(net as int, vat) >= 0,
        vat.is_exempt() ==> gross_of(net as int, vat) == net,
{
    let x = net * (100 + vat.percent());
    assert(x >= 0) by (nonlinear_arith)
        requires
            net >= 0,
    ;
    if vat.is_exempt() {
        assert(x == net * 100);
    }
}

/// The canonical code of every category reads back as that category.
pub proof fn lemma_code_round_trip(v: Vat)
    ensures
        vat_of_code(code_of(v)) == Some(v),
{
    let c = code_of(v);
    if v is Aam {
        assert(spells_folded(c, seq!['a', 'a', 'm'])) by {
            assert(fold_case(c[0]) == 'a' && fold_case(c[1]) == 'a' && fold_case(c[2]) == 'm');
        }
    } else if v is Fad {
        assert(!spells_folded(c, seq!['a', 'a', 'm'])) by {
            assert(fold_case(c[0]) != 'a');
        }
        assert(spells_folded(c, seq!['f', 'a', 'd'])) by {
            assert(fold_case(c[0]) == 'f' && fold_case(c[1]) == 'a' && fold_case(c[2]) == 'd');
        }
    } else if v is Tam {
        assert(!spells_folded(c, seq!['a', 'a', 'm'])) by {
            assert(fold_case(c[0]) != 'a');
        }
        assert(!spells_folded(c, seq!['f', 'a', 'd'])) by {
            assert(fold_case(c[0]) != 'f');
        }
        assert(spells_folded(c, seq!['t', 'a', 'm'])) by {
            assert(fold_case(c[0]) == 't' && fold_case(c[1]) == 'a' && fold_case(c[2]) == 'm');
        }
    } else {
        assert(!spells_folded(c, seq!['a', 'a', 'm']));
        assert(!spells_folded(c, seq!['f', 'a', 'd']));
        assert(!spells_folded(c, seq!['t', 'a', 'm']));
        if v is Rate18 {
            assert(c != seq!['5']);
        }
        if v is Rate27 {
            assert(c != seq!['5']);
            assert(c[0] == '2');
            assert(c != seq!['1', '8']);
        }
    }
}

} // verus!
