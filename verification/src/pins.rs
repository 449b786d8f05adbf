//! Two-level symbolic-to-numeric pin name resolution.
//!
//! A pin identifier is either a decimal number, accepted directly when it does
//! not exceed [`LAST_PIN_NUMBER`], or a symbolic name, resolved
//! case-insensitively through the schematic net-name table and the
//! SAM-controller pin-name table.

use vstd::prelude::*;
use vstd::string::StrSliceExecFns;

use crate::error::Error;

verus! {

/// Largest valid SAM-controller pin number.
pub const LAST_PIN_NUMBER: u8 = 106;

/// ASCII upper-casing of a single character; characters outside 'a'..='z'
/// are unchanged.
pub open spec fn upper_char(c: char) -> char {
    if 'a' <= c && c <= 'z' {
        ((c as u8) - 32) as char
    } else {
        c
    }
}

/// ASCII upper-casing of a character sequence.
pub open spec fn upper_seq(s: Seq<char>) -> Seq<char> {
    s.map_values(|c: char| upper_char(c))
}

pub open spec fn is_digit(c: char) -> bool {
    '0' <= c && c <= '9'
}

pub open spec fn digit_val(c: char) -> int {
    c as int - 48
}

pub open spec fn all_digits(s: Seq<char>) -> bool {
    forall|i: int| 0 <= i < s.len() ==> is_digit(#[trigger] s[i])
}

/// Value of a decimal digit string.
pub open spec fn dec_value(s: Seq<char>) -> int
    decreases s.len(),
{
    if s.len() == 0 {
        0
    } else {
        dec_value(s.drop_last()) * 10 + digit_val(s.last())
    }
}

/// How an unsigned 8-bit decimal parse of `s` goes: a leading '+' is
/// allowed, at least one digit is required, and the value must fit in `u8`.
pub open spec fn parse_u8_spec(s: Seq<char>) -> Option<u8> {
    let body = if s.len() > 0 && s[0] == '+' {
        s.skip(1)
    } else {
        s
    };
    if body.len() > 0 && all_digits(body) && dec_value(body) <= 255 {
        Some(dec_value(body) as u8)
    } else {
        None
    }
}

pub proof fn lemma_dec_value_nonneg(s: Seq<char>)
    requires
        all_digits(s),
    ensures
        dec_value(s) >= 0,
    decreases s.len(),
{
    if s.len() > 0 {
        assert(all_digits(s.drop_last()));
        lemma_dec_value_nonneg(s.drop_last());
    }
}

/// Scans `v[from..]` as a digit string. Returns `None` when the range is
/// empty or holds a non-digit; otherwise returns the value, saturated in a
/// way that still decides comparisons against bounds below 256.
fn dec_digits_capped(v: &Vec<char>, from: usize) -> (r: Option<u32>)
    requires
        from <= v@.len(),
    ensures
        match r {
            Some(val) => {
                &&& v@.len() > from
                &&& all_digits(v@.skip(from as int))
                &&& val <= 2559
                &&& (val <= 255 ==> val == dec_value(v@.skip(from as int)))
                &&& (val > 255 ==> dec_value(v@.skip(from as int)) > 255)
            },
            None => v@.len() == from || !all_digits(v@.skip(from as int)),
        },
{
    if v.len() == from {
        return None;
    }
    let ghost body = v@.skip(from as int);
    let mut val: u32 = 0;
    let mut i: usize = from;
    proof {
        assert(v@.subrange(from as int, from as int) =~= body.take(0));
    }
    while i < v.len()
        invariant
            from <= i <= v@.len(),
            body == v@.skip(from as int),
            all_digits(v@.subrange(from as int, i as int)),
            val <= 2559,
            val <= 255 ==> val == dec_value(v@.subrange(from as int, i as int)),
            val > 255 ==> dec_value(v@.subrange(from as int, i as int)) > 255,
        decreases v@.len() - i,
    {
        let c = v[i];
        if !('0' <= c && c <= '9') {
            proof {
                assert(!is_digit(body[i - from]));
            }
            return None;
        }
        let ghost pre = v@.subrange(from as int, i as int);
        let ghost post = v@.subrange(from as int, i + 1 as int);
        proof {
            assert(post.drop_last() =~= pre);
            assert(post.last() == c);
            lemma_dec_value_nonneg(pre);
        }
        if val <= 255 {
            val = val * 10 + ((c as u32) - 48);
        } else {
            proof {
                assert(dec_value(post) == dec_value(pre) * 10 + digit_val(c));
            }
        }
        i = i + 1;
    }
    proof {
        assert(v@.subrange(from as int, v@.len() as int) =~= body);
    }
    if val <= 255 {
        proof {
            lemma_dec_value_nonneg(body);
        }
        Some(val)
    } else {
        Some(val)
    }
}

/// Base pin number and largest pin index of a SAM-controller port letter.
pub open spec fn port_params(c: char) -> Option<(u8, u8)> {
    if c == 'A' {
        Some((0u8, 29u8))
    } else if c == 'B' {
        Some((32u8, 31u8))
    } else if c == 'C' {
        Some((64u8, 30u8))
    } else if c == 'D' {
        Some((96u8, 10u8))
    } else {
        None
    }
}

/// A canonical decimal index: nonempty, all digits, no leading zero.
pub open spec fn is_canon_digits(s: Seq<char>) -> bool {
    s.len() > 0 && all_digits(s) && (s.len() == 1 || s[0] != '0')
}

/// The SAM-controller pin-name table: "P", a port letter, and a canonical
/// decimal index no larger than the port's largest index, mapped to the
/// port's base number plus the index. Ports A, C and D stop short of a full
/// 32-pin group, which leaves the documented gaps in the numbering.
pub open spec fn sam3x_pin(s: Seq<char>) -> Option<u8> {
    if s.len() >= 3 && s[0] == 'P' && port_params(s[1]) is Some && is_canon_digits(s.skip(2)) {
        let (base, max_index) = port_params(s[1]).unwrap();
        let d = dec_value(s.skip(2));
        if d <= max_index {
            Some((base + d) as u8)
        } else {
            None
        }
    } else {
        None
    }
}

/// Looks `v` up in the SAM-controller pin-name table.
pub fn sam3x_lookup(v: &Vec<char>) -> (r: Option<u8>)
    ensures
        r == sam3x_pin(v@),
{
    if v.len() < 3 {
        return None;
    }
    if v[0] != 'P' {
        return None;
    }
    let port = v[1];
    let (base, max_index): (u8, u8) = if port == 'A' {
        (0, 29)
    } else if port == 'B' {
        (32, 31)
    } else if port == 'C' {
        (64, 30)
    } else if port == 'D' {
        (96, 10)
    } else {
        return None;
    };
    if v[2] == '0' && v.len() > 3 {
        return None;
    }
    match dec_digits_capped(v, 2) {
        None => None,
        Some(val) => {
            proof {
                if val <= 255 {
                    lemma_dec_value_nonneg(v@.skip(2));
                }
            }
            if val <= max_index as u32 {
                Some(base + (val as u8))
            } else {
                None
            }
        },
    }
}

/// Collects the characters of `s` into a vector.
pub fn str_to_chars(s: &str) -> (v: Vec<char>)
    ensures
        v@ == s@,
{
    let n = s.unicode_len();
    let mut v: Vec<char> = Vec::new();
    let mut i: usize = 0;
    while i < n
        invariant
            i <= n,
            n == s@.len(),
            v@ == s@.take(i as int),
        decreases n - i,
    {
        v.push(s.get_char(i));
        proof {
            assert(s@.take(i + 1 as int) =~= s@.take(i as int).push(s@[i as int]));
        }
        i = i + 1;
    }
    proof {
        assert(s@.take(n as int) =~= s@);
    }
    v
}

/// ASCII upper-casing of one character, exactly as [`upper_char`] says.
pub fn upper_char_exec(c: char) -> (r: char)
    ensures
        r == upper_char(c),
{
    if 'a' <= c && c <= 'z' {
        ((c as u8) - 32) as char
    } else {
        c
    }
}

/// ASCII upper-casing of a character vector.
pub fn upper_chars(v: &Vec<char>) -> (r: Vec<char>)
    ensures
        r@ == upper_seq(v@),
{
    let mut r: Vec<char> = Vec::new();
    let mut i: usize = 0;
    while i < v.len()
        invariant
            i <= v@.len(),
            r@ == upper_seq(v@.take(i as int)),
        decreases v@.len() - i,
    {
        r.push(upper_char_exec(v[i]));
        proof {
            assert(upper_seq(v@.take(i + 1 as int)) =~= upper_seq(v@.take(i as int)).push(
                upper_char(v@[i as int]),
            ));
        }
        i = i + 1;
    }
    proof {
        assert(v@.take(v@.len() as int) =~= v@);
        assert(upper_seq(v@.take(v@.len() as int)) =~= upper_seq(v@));
    }
    r
}

/// Compares a character vector with a string slice.
pub fn chars_eq(v: &Vec<char>, s: &str) -> (r: bool)
    ensures
        r == (v@ == s@),
{
    let n = s.unicode_len();
    if v.len() != n {
        return false;
    }
    let mut i: usize = 0;
    while i < n
        invariant
            i <= n,
            n == s@.len(),
            n == v@.len(),
            forall|j: int| 0 <= j < i ==> v@[j] == s@[j],
        decreases n - i,
    {
        if v[i] != s.get_char(i) {
            return false;
        }
        i = i + 1;
    }
    proof {
        assert(v@ =~= s@);
    }
    true
}

/// Parses `v` as an unsigned 8-bit decimal number, exactly as
/// [`parse_u8_spec`] says.
pub fn parse_u8_chars(v: &Vec<char>) -> (r: Option<u8>)
    ensures
        r == parse_u8_spec(v@),
{
    let start: usize = if v.len() > 0 && v[0] == '+' {
        1
    } else {
        0
    };
    proof {
        if start == 0 {
            assert(v@.skip(0) =~= v@);
        }
    }
    match dec_digits_capped(v, start) {
        None => None,
        Some(val) => {
            if val <= 255 {
                Some(val as u8)
            } else {
                None
            }
        },
    }
}


/// The schematic net-name table: each human-facing net label on the board
/// schematic, mapped to the SAM-controller pin name it is wired to.
pub open spec fn schematic_alias(s: Seq<char>) -> Option<Seq<char>> {
    if s == "USBSPARE0"@ {
        Some("PC10"@)
    } else if s == "USBSPARE1"@ {
        Some("PC11"@)
    } else if s == "USBSPARE2"@ {
        Some("PC12"@)
    } else if s == "USBSPARE3"@ {
        Some("PC13"@)
    } else if s == "USBRD"@ {
        Some("PA29"@)
    } else if s == "USBWR"@ {
        Some("PC18"@)
    } else if s == "USBCE"@ {
        Some("PA6"@)
    } else if s == "USBALE"@ {
        Some("PC17"@)
    } else if s == "USBCK0"@ {
        Some("PB22"@)
    } else if s == "USBCK1"@ {
        Some("PA24"@)
    } else if s == "USB_A0"@ {
        Some("PC21"@)
    } else if s == "USB_A1"@ {
        Some("PC22"@)
    } else if s == "USB_A2"@ {
        Some("PC23"@)
    } else if s == "USB_A3"@ {
        Some("PC24"@)
    } else if s == "USB_A4"@ {
        Some("PC25"@)
    } else if s == "USB_A5"@ {
        Some("PC26"@)
    } else if s == "USB_A6"@ {
        Some("PC27"@)
    } else if s == "USB_A7"@ {
        Some("PC28"@)
    } else if s == "USB_A8"@ {
        Some("PC29"@)
    } else if s == "USB_A9"@ {
        Some("PC30"@)
    } else if s == "USB_A10"@ {
        Some("PD0"@)
    } else if s == "USB_A11"@ {
        Some("PD1"@)
    } else if s == "USB_A12"@ {
        Some("PD2"@)
    } else if s == "USB_A13"@ {
        Some("PD3"@)
    } else if s == "USB_A14"@ {
        Some("PD4"@)
    } else if s == "USB_A15"@ {
        Some("PD5"@)
    } else if s == "USB_A16"@ {
        Some("PD6"@)
    } else if s == "USB_A17"@ {
        Some("PD7"@)
    } else if s == "USB_A18"@ {
        Some("PD8"@)
    } else if s == "USB_A19"@ {
        Some("PD9"@)
    } else if s == "USB_D0"@ {
        Some("PC2"@)
    } else if s == "USB_D1"@ {
        Some("PC3"@)
    } else if s == "USB_D2"@ {
        Some("PC4"@)
    } else if s == "USB_D3"@ {
        Some("PC5"@)
    } else if s == "USB_D4"@ {
        Some("PC6"@)
    } else if s == "USB_D5"@ {
        Some("PC7"@)
    } else if s == "USB_D6"@ {
        Some("PC8"@)
    } else if s == "USB_D7"@ {
        Some("PC9"@)
    } else if s == "SWSTATE"@ {
        Some("PB26"@)
    } else if s == "PWRON"@ {
        Some("PB27"@)
    } else if s == "LEDSURGE"@ {
        Some("PB14"@)
    } else if s == "SAM_FPGA_CFG_CS"@ {
        Some("PB16"@)
    } else if s == "CFG_INITB"@ {
        Some("PB18"@)
    } else if s == "CFG_DONE"@ {
        Some("PB17"@)
    } else if s == "CFB_PROGRAMB"@ {
        Some("PB19"@)
    } else if s == "SAM_FPGA_COPI"@ {
        Some("PB20"@)
    } else if s == "SAM_FPGA_CIPO"@ {
        Some("PB21"@)
    } else if s == "SAM_FPGA_CCLK"@ {
        Some("PB24"@)
    } else if s == "USB_CLK1"@ {
        Some("PA24"@)
    } else if s == "USB_SPI_CIPO"@ {
        Some("PA25"@)
    } else if s == "USB_SPI_COPI"@ {
        Some("PA26"@)
    } else if s == "USB_SPI_SCK"@ {
        Some("PA27"@)
    } else if s == "USB_SPI_CS"@ {
        Some("PA28"@)
    } else {
        None
    }
}

/// Looks `v` up in the schematic net-name table.
pub fn schematic_lookup(v: &Vec<char>) -> (r: Option<&'static str>)
    ensures
        match r {
            Some(t) => schematic_alias(v@) == Some(t@),
            None => schematic_alias(v@) is None,
        },
{
    if chars_eq(v, "USBSPARE0") {
        return Some("PC10");
    }
    if chars_eq(v, "USBSPARE1") {
        return Some("PC11");
    }
    if chars_eq(v, "USBSPARE2") {
        return Some("PC12");
    }
    if chars_eq(v, "USBSPARE3") {
        return Some("PC13");
    }
    if chars_eq(v, "USBRD") {
        return Some("PA29");
    }
    if chars_eq(v, "USBWR") {
        return Some("PC18");
    }
    if chars_eq(v, "USBCE") {
        return Some("PA6");
    }
    if chars_eq(v, "USBALE") {
        return Some("PC17");
    }
    if chars_eq(v, "USBCK0") {
        return Some("PB22");
    }
    if chars_eq(v, "USBCK1") {
        return Some("PA24");
    }
    if chars_eq(v, "USB_A0") {
        return Some("PC21");
    }
    if chars_eq(v, "USB_A1") {
        return Some("PC22");
    }
    if chars_eq(v, "USB_A2") {
        return Some("PC23");
    }
    if chars_eq(v, "USB_A3") {
        return Some("PC24");
    }
    if chars_eq(v, "USB_A4") {
        return Some("PC25");
    }
    if chars_eq(v, "USB_A5") {
        return Some("PC26");
    }
    if chars_eq(v, "USB_A6") {
        return Some("PC27");
    }
    if chars_eq(v, "USB_A7") {
        return Some("PC28");
    }
    if chars_eq(v, "USB_A8") {
        return Some("PC29");
    }
    if chars_eq(v, "USB_A9") {
        return Some("PC30");
    }
    if chars_eq(v, "USB_A10") {
        return Some("PD0");
    }
    if chars_eq(v, "USB_A11") {
        return Some("PD1");
    }
    if chars_eq(v, "USB_A12") {
        return Some("PD2");
    }
    if chars_eq(v, "USB_A13") {
        return Some("PD3");
    }
    if chars_eq(v, "USB_A14") {
        return Some("PD4");
    }
    if chars_eq(v, "USB_A15") {
        return Some("PD5");
    }
    if chars_eq(v, "USB_A16") {
        return Some("PD6");
    }
    if chars_eq(v, "USB_A17") {
        return Some("PD7");
    }
    if chars_eq(v, "USB_A18") {
        return Some("PD8");
    }
    if chars_eq(v, "USB_A19") {
        return Some("PD9");
    }
    if chars_eq(v, "USB_D0") {
        return Some("PC2");
    }
    if chars_eq(v, "USB_D1") {
        return Some("PC3");
    }
    if chars_eq(v, "USB_D2") {
        return Some("PC4");
    }
    if chars_eq(v, "USB_D3") {
        return Some("PC5");
    }
    if chars_eq(v, "USB_D4") {
        return Some("PC6");
    }
    if chars_eq(v, "USB_D5") {
        return Some("PC7");
    }
    if chars_eq(v, "USB_D6") {
        return Some("PC8");
    }
    if chars_eq(v, "USB_D7") {
        return Some("PC9");
    }
    if chars_eq(v, "SWSTATE") {
        return Some("PB26");
    }
    if chars_eq(v, "PWRON") {
        return Some("PB27");
    }
    if chars_eq(v, "LEDSURGE") {
        return Some("PB14");
    }
    if chars_eq(v, "SAM_FPGA_CFG_CS") {
        return Some("PB16");
    }
    if chars_eq(v, "CFG_INITB") {
        return Some("PB18");
    }
    if chars_eq(v, "CFG_DONE") {
        return Some("PB17");
    }
    if chars_eq(v, "CFB_PROGRAMB") {
        return Some("PB19");
    }
    if chars_eq(v, "SAM_FPGA_COPI") {
        return Some("PB20");
    }
    if chars_eq(v, "SAM_FPGA_CIPO") {
        return Some("PB21");
    }
    if chars_eq(v, "SAM_FPGA_CCLK") {
        return Some("PB24");
    }
    if chars_eq(v, "USB_CLK1") {
        return Some("PA24");
    }
    if chars_eq(v, "USB_SPI_CIPO") {
        return Some("PA25");
    }
    if chars_eq(v, "USB_SPI_COPI") {
        return Some("PA26");
    }
    if chars_eq(v, "USB_SPI_SCK") {
        return Some("PA27");
    }
    if chars_eq(v, "USB_SPI_CS") {
        return Some("PA28");
    }
    None
}

/// How resolution of a pin identifier goes: the canonical pin number, a
/// numeric identifier past the largest pin number, or a name in neither
/// table.
pub enum Resolution {
    Pin(u8),
    BadNumber(u8),
    BadName,
}

/// The pin name resolver. A numeric identifier is accepted directly when it
/// does not exceed [`LAST_PIN_NUMBER`]; otherwise the upper-cased identifier
/// goes through the schematic net-name table and then the SAM-controller
/// pin-name table.
pub open spec fn resolve_spec(s: Seq<char>) -> Resolution {
    match parse_u8_spec(s) {
        Some(n) => if n <= LAST_PIN_NUMBER {
            Resolution::Pin(n)
        } else {
            Resolution::BadNumber(n)
        },
        None => {
            let u = upper_seq(s);
            match schematic_alias(u) {
                Some(a) => match sam3x_pin(a) {
                    Some(n) => Resolution::Pin(n),
                    None => Resolution::BadName,
                },
                None => match sam3x_pin(u) {
                    Some(n) => Resolution::Pin(n),
                    None => Resolution::BadName,
                },
            }
        },
    }
}

/// Relies on `String::from_iter` over `char`: the resulting string holds
/// exactly the characters of `v`, in order.
#[verifier::external_body]
fn chars_to_string(v: &Vec<char>) -> (r: String)
    ensures
        r@ == v@,
{
    v.iter().collect()
}

/// Resolves a pin identifier to its canonical pin number, exactly as
/// [`resolve_spec`] says. Symbolic names are folded to upper case in ASCII
/// alone, which the all-ASCII tables need; characters outside 'a'..='z' are
/// left as they are. A failed resolution reports the requested pin:
/// `InvalidPinNumber` carries the out-of-range number, `InvalidPinName` the
/// upper-cased name that was found in neither table.
pub fn resolve(pinname: &str) -> (r: Result<u8, Error>)
    ensures
        match resolve_spec(pinname@) {
            Resolution::Pin(n) => r == Ok::<u8, Error>(n),
            Resolution::BadNumber(n) => r == Err::<u8, Error>(Error::InvalidPinNumber(n)),
            Resolution::BadName => {
                &&& r is Err
                &&& r->Err_0 matches Error::InvalidPinName(u)
                &&& (r->Err_0)->InvalidPinName_0@ == upper_seq(pinname@)
            },
        },
{
    let chars = str_to_chars(pinname);
    match parse_u8_chars(&chars) {
        Some(n) => {
            if n <= LAST_PIN_NUMBER {
                Ok(n)
            } else {
                Err(Error::InvalidPinNumber(n))
            }
        },
        None => {
            let upper = upper_chars(&chars);
            match schematic_lookup(&upper) {
                Some(alias) => {
                    let alias_chars = str_to_chars(alias);
                    match sam3x_lookup(&alias_chars) {
                        Some(n) => Ok(n),
                        None => Err(Error::InvalidPinName(chars_to_string(&upper))),
                    }
                },
                None => {
                    match sam3x_lookup(&upper) {
                        Some(n) => Ok(n),
                        None => Err(Error::InvalidPinName(chars_to_string(&upper))),
                    }
                },
            }
        },
    }
}

} // verus!


verus! {

/// Every key of the schematic net-name table has at least five characters,
/// so shorter names are never schematic aliases.
pub proof fn lemma_schematic_short_names(s: Seq<char>)
    requires
        s.len() < 5,
    ensures
        schematic_alias(s) is None,
{
    reveal_strlit("USBSPARE0");
    reveal_strlit("USBSPARE1");
    reveal_strlit("USBSPARE2");
    reveal_strlit("USBSPARE3");
    reveal_strlit("USBRD");
    reveal_strlit("USBWR");
    reveal_strlit("USBCE");
    reveal_strlit("USBALE");
    reveal_strlit("USBCK0");
    reveal_strlit("USBCK1");
    reveal_strlit("USB_A0");
    reveal_strlit("USB_A1");
    reveal_strlit("USB_A2");
    reveal_strlit("USB_A3");
    reveal_strlit("USB_A4");
    reveal_strlit("USB_A5");
    reveal_strlit("USB_A6");
    reveal_strlit("USB_A7");
    reveal_strlit("USB_A8");
    reveal_strlit("USB_A9");
    reveal_strlit("USB_A10");
    reveal_strlit("USB_A11");
    reveal_strlit("USB_A12");
    reveal_strlit("USB_A13");
    reveal_strlit("USB_A14");
    reveal_strlit("USB_A15");
    reveal_strlit("USB_A16");
    reveal_strlit("USB_A17");
    reveal_strlit("USB_A18");
    reveal_strlit("USB_A19");
    reveal_strlit("USB_D0");
    reveal_strlit("USB_D1");
    reveal_strlit("USB_D2");
    reveal_strlit("USB_D3");
    reveal_strlit("USB_D4");
    reveal_strlit("USB_D5");
    reveal_strlit("USB_D6");
    reveal_strlit("USB_D7");
    reveal_strlit("SWSTATE");
    reveal_strlit("PWRON");
    reveal_strlit("LEDSURGE");
    reveal_strlit("SAM_FPGA_CFG_CS");
    reveal_strlit("CFG_INITB");
    reveal_strlit("CFG_DONE");
    reveal_strlit("CFB_PROGRAMB");
    reveal_strlit("SAM_FPGA_COPI");
    reveal_strlit("SAM_FPGA_CIPO");
    reveal_strlit("SAM_FPGA_CCLK");
    reveal_strlit("USB_CLK1");
    reveal_strlit("USB_SPI_CIPO");
    reveal_strlit("USB_SPI_COPI");
    reveal_strlit("USB_SPI_SCK");
    reveal_strlit("USB_SPI_CS");
}

proof fn lemma_parse_none_when_first_not_digit(s: Seq<char>)
    requires
        s.len() > 0,
        !is_digit(upper_char(s[0])),
        upper_char(s[0]) != '+',
    ensures
        parse_u8_spec(s) is None,
{
    if is_digit(s[0]) {
        assert(upper_char(s[0]) == s[0]);
    }
    if s[0] == '+' {
        assert(upper_char(s[0]) == '+');
    }
    assert(!all_digits(s));
}

proof fn lemma_branch_step(s: Seq<char>, a: Seq<char>)
    requires
        upper_seq(s).len() > 0,
        !is_digit(upper_seq(s)[0]),
        upper_seq(s)[0] != '+',
        a.len() > 0,
        a.len() < 5,
        a[0] == 'P',
        forall|i: int| 0 <= i < a.len() ==> upper_char(#[trigger] a[i]) == a[i],
    ensures
        parse_u8_spec(s) is None,
        parse_u8_spec(a) is None,
        upper_seq(a) == a,
        schematic_alias(a) is None,
{
    assert(upper_seq(s)[0] == upper_char(s[0]));
    lemma_parse_none_when_first_not_digit(s);
    assert(upper_seq(a) =~= a);
    lemma_schematic_short_names(a);
    assert(!is_digit(a[0]));
    assert(!all_digits(a));
}

/// Alias indirection is transparent: a pin identifier that the schematic
/// net-name table maps to a SAM-controller pin name resolves exactly as that
/// SAM-controller pin name does.
pub proof fn lemma_alias_transparent(s: Seq<char>, a: Seq<char>)
    requires
        schematic_alias(upper_seq(s)) == Some(a),
    ensures
        resolve_spec(s) == resolve_spec(a),
{
    let u = upper_seq(s);
    reveal_strlit("USBSPARE0");
    reveal_strlit("USBSPARE1");
    reveal_strlit("USBSPARE2");
    reveal_strlit("USBSPARE3");
    reveal_strlit("USBRD");
    reveal_strlit("USBWR");
    reveal_strlit("USBCE");
    reveal_strlit("USBALE");
    reveal_strlit("USBCK0");
    reveal_strlit("USBCK1");
    reveal_strlit("USB_A0");
    reveal_strlit("USB_A1");
    reveal_strlit("USB_A2");
    reveal_strlit("USB_A3");
    reveal_strlit("USB_A4");
    reveal_strlit("USB_A5");
    reveal_strlit("USB_A6");
    reveal_strlit("USB_A7");
    reveal_strlit("USB_A8");
    reveal_strlit("USB_A9");
    reveal_strlit("USB_A10");
    reveal_strlit("USB_A11");
    reveal_strlit("USB_A12");
    reveal_strlit("USB_A13");
    reveal_strlit("USB_A14");
    reveal_strlit("USB_A15");
    reveal_strlit("USB_A16");
    reveal_strlit("USB_A17");
    reveal_strlit("USB_A18");
    reveal_strlit("USB_A19");
    reveal_strlit("USB_D0");
    reveal_strlit("USB_D1");
    reveal_strlit("USB_D2");
    reveal_strlit("USB_D3");
    reveal_strlit("USB_D4");
    reveal_strlit("USB_D5");
    reveal_strlit("USB_D6");
    reveal_strlit("USB_D7");
    reveal_strlit("SWSTATE");
    reveal_strlit("PWRON");
    reveal_strlit("LEDSURGE");
    reveal_strlit("SAM_FPGA_CFG_CS");
    reveal_strlit("CFG_INITB");
    reveal_strlit("CFG_DONE");
    reveal_strlit("CFB_PROGRAMB");
    reveal_strlit("SAM_FPGA_COPI");
    reveal_strlit("SAM_FPGA_CIPO");
    reveal_strlit("SAM_FPGA_CCLK");
    reveal_strlit("USB_CLK1");
    reveal_strlit("USB_SPI_CIPO");
    reveal_strlit("USB_SPI_COPI");
    reveal_strlit("USB_SPI_SCK");
    reveal_strlit("USB_SPI_CS");
    reveal_strlit("PA24");
    reveal_strlit("PA25");
    reveal_strlit("PA26");
    reveal_strlit("PA27");
    reveal_strlit("PA28");
    reveal_strlit("PA29");
    reveal_strlit("PA6");
    reveal_strlit("PB14");
    reveal_strlit("PB16");
    reveal_strlit("PB17");
    reveal_strlit("PB18");
    reveal_strlit("PB19");
    reveal_strlit("PB20");
    reveal_strlit("PB21");
    reveal_strlit("PB22");
    reveal_strlit("PB24");
    reveal_strlit("PB26");
    reveal_strlit("PB27");
    reveal_strlit("PC10");
    reveal_strlit("PC11");
    reveal_strlit("PC12");
    reveal_strlit("PC13");
    reveal_strlit("PC17");
    reveal_strlit("PC18");
    reveal_strlit("PC2");
    reveal_strlit("PC21");
    reveal_strlit("PC22");
    reveal_strlit("PC23");
    reveal_strlit("PC24");
    reveal_strlit("PC25");
    reveal_strlit("PC26");
    reveal_strlit("PC27");
    reveal_strlit("PC28");
    reveal_strlit("PC29");
    reveal_strlit("PC3");
    reveal_strlit("PC30");
    reveal_strlit("PC4");
    reveal_strlit("PC5");
    reveal_strlit("PC6");
    reveal_strlit("PC7");
    reveal_strlit("PC8");
    reveal_strlit("PC9");
    reveal_strlit("PD0");
    reveal_strlit("PD1");
    reveal_strlit("PD2");
    reveal_strlit("PD3");
    reveal_strlit("PD4");
    reveal_strlit("PD5");
    reveal_strlit("PD6");
    reveal_strlit("PD7");
    reveal_strlit("PD8");
    reveal_strlit("PD9");
    if u == "USBSPARE0"@ {
        assert(a == "PC10"@);
        lemma_branch_step(s, a);
    } else if u == "USBSPARE1"@ {
        assert(a == "PC11"@);
        lemma_branch_step(s, a);
    } else if u == "USBSPARE2"@ {
        assert(a == "PC12"@);
        lemma_branch_step(s, a);
    } else if u == "USBSPARE3"@ {
        assert(a == "PC13"@);
        lemma_branch_step(s, a);
    } else if u == "USBRD"@ {
        assert(a == "PA29"@);
        lemma_branch_step(s, a);
    } else if u == "USBWR"@ {
        assert(a == "PC18"@);
        lemma_branch_step(s, a);
    } else if u == "USBCE"@ {
        assert(a == "PA6"@);
        lemma_branch_step(s, a);
    } else if u == "USBALE"@ {
        assert(a == "PC17"@);
        lemma_branch_step(s, a);
    } else if u == "USBCK0"@ {
        assert(a == "PB22"@);
        lemma_branch_step(s, a);
    } else if u == "USBCK1"@ {
        assert(a == "PA24"@);
        lemma_branch_step(s, a);
    } else if u == "USB_A0"@ {
        assert(a == "PC21"@);
        lemma_branch_step(s, a);
    } else if u == "USB_A1"@ {
        assert(a == "PC22"@);
        lemma_branch_step(s, a);
    } else if u == "USB_A2"@ {
        assert(a == "PC23"@);
        lemma_branch_step(s, a);
    } else if u == "USB_A3"@ {
        assert(a == "PC24"@);
        lemma_branch_step(s, a);
    } else if u == "USB_A4"@ {
        assert(a == "PC25"@);
        lemma_branch_step(s, a);
    } else if u == "USB_A5"@ {
        assert(a == "PC26"@);
        lemma_branch_step(s, a);
    } else if u == "USB_A6"@ {
        assert(a == "PC27"@);
        lemma_branch_step(s, a);
    } else if u == "USB_A7"@ {
        assert(a == "PC28"@);
        lemma_branch_step(s, a);
    } else if u == "USB_A8"@ {
        assert(a == "PC29"@);
        lemma_branch_step(s, a);
    } else if u == "USB_A9"@ {
        assert(a == "PC30"@);
        lemma_branch_step(s, a);
    } else if u == "USB_A10"@ {
        assert(a == "PD0"@);
        lemma_branch_step(s, a);
    } else if u == "USB_A11"@ {
        assert(a == "PD1"@);
        lemma_branch_step(s, a);
    } else if u == "USB_A12"@ {
        assert(a == "PD2"@);
        lemma_branch_step(s, a);
    } else if u == "USB_A13"@ {
        assert(a == "PD3"@);
        lemma_branch_step(s, a);
    } else if u == "USB_A14"@ {
        assert(a == "PD4"@);
        lemma_branch_step(s, a);
    } else if u == "USB_A15"@ {
        assert(a == "PD5"@);
        lemma_branch_step(s, a);
    } else if u == "USB_A16"@ {
        assert(a == "PD6"@);
        lemma_branch_step(s, a);
    } else if u == "USB_A17"@ {
        assert(a == "PD7"@);
        lemma_branch_step(s, a);
    } else if u == "USB_A18"@ {
        assert(a == "PD8"@);
        lemma_branch_step(s, a);
    } else if u == "USB_A19"@ {
        assert(a == "PD9"@);
        lemma_branch_step(s, a);
    } else if u == "USB_D0"@ {
        assert(a == "PC2"@);
        lemma_branch_step(s, a);
    } else if u == "USB_D1"@ {
        assert(a == "PC3"@);
        lemma_branch_step(s, a);
    } else if u == "USB_D2"@ {
        assert(a == "PC4"@);
        lemma_branch_step(s, a);
    } else if u == "USB_D3"@ {
        assert(a == "PC5"@);
        lemma_branch_step(s, a);
    } else if u == "USB_D4"@ {
        assert(a == "PC6"@);
        lemma_branch_step(s, a);
    } else if u == "USB_D5"@ {
        assert(a == "PC7"@);
        lemma_branch_step(s, a);
    } else if u == "USB_D6"@ {
        assert(a == "PC8"@);
        lemma_branch_step(s, a);
    } else if u == "USB_D7"@ {
        assert(a == "PC9"@);
        lemma_branch_step(s, a);
    } else if u == "SWSTATE"@ {
        assert(a == "PB26"@);
        lemma_branch_step(s, a);
    } else if u == "PWRON"@ {
        assert(a == "PB27"@);
        lemma_branch_step(s, a);
    } else if u == "LEDSURGE"@ {
        assert(a == "PB14"@);
        lemma_branch_step(s, a);
    } else if u == "SAM_FPGA_CFG_CS"@ {
        assert(a == "PB16"@);
        lemma_branch_step(s, a);
    } else if u == "CFG_INITB"@ {
        assert(a == "PB18"@);
        lemma_branch_step(s, a);
    } else if u == "CFG_DONE"@ {
        assert(a == "PB17"@);
        lemma_branch_step(s, a);
    } else if u == "CFB_PROGRAMB"@ {
        assert(a == "PB19"@);
        lemma_branch_step(s, a);
    } else if u == "SAM_FPGA_COPI"@ {
        assert(a == "PB20"@);
        lemma_branch_step(s, a);
    } else if u == "SAM_FPGA_CIPO"@ {
        assert(a == "PB21"@);
        lemma_branch_step(s, a);
    } else if u == "SAM_FPGA_CCLK"@ {
        assert(a == "PB24"@);
        lemma_branch_step(s, a);
    } else if u == "USB_CLK1"@ {
        assert(a == "PA24"@);
        lemma_branch_step(s, a);
    } else if u == "USB_SPI_CIPO"@ {
        assert(a == "PA25"@);
        lemma_branch_step(s, a);
    } else if u == "USB_SPI_COPI"@ {
        assert(a == "PA26"@);
        lemma_branch_step(s, a);
    } else if u == "USB_SPI_SCK"@ {
        assert(a == "PA27"@);
        lemma_branch_step(s, a);
    } else if u == "USB_SPI_CS"@ {
        assert(a == "PA28"@);
        lemma_branch_step(s, a);
    } else {
        assert(false);
    }
    assert(parse_u8_spec(s) is None);
    assert(upper_seq(a) == a);
    assert(schematic_alias(a) is None);
}

/// A numeric pin identifier is accepted unchanged when it does not exceed
/// the largest pin number, and is rejected as an invalid pin number
/// otherwise.
pub proof fn lemma_resolve_numeric(s: Seq<char>, n: u8)
    requires
        parse_u8_spec(s) == Some(n),
    ensures
        n <= LAST_PIN_NUMBER ==> resolve_spec(s) == Resolution::Pin(n),
        n > LAST_PIN_NUMBER ==> resolve_spec(s) == Resolution::BadNumber(n),
{
}

proof fn lemma_upper_char_cases(c1: char, c2: char)
    requires
        upper_char(c1) == upper_char(c2),
    ensures
        is_digit(c1) <==> is_digit(c2),
        is_digit(c1) ==> c1 == c2,
        (c1 == '+') <==> (c2 == '+'),
{
}

/// Resolution is case-insensitive: two pin identifiers with the same ASCII
/// upper-casing resolve alike.
pub proof fn lemma_resolve_case_insensitive(s: Seq<char>, t: Seq<char>)
    requires
        upper_seq(s) == upper_seq(t),
    ensures
        resolve_spec(s) == resolve_spec(t),
{
    assert(upper_seq(s).len() == s.len());
    assert(upper_seq(t).len() == t.len());
    assert(s.len() == t.len());
    assert forall|i: int| 0 <= i < s.len() implies upper_char(s[i]) == upper_char(t[i]) by {
        assert(upper_seq(s)[i] == upper_char(s[i]));
        assert(upper_seq(t)[i] == upper_char(t[i]));
    }
    assert forall|i: int| 0 <= i < s.len() implies (is_digit(s[i]) <==> is_digit(t[i]))
        && (is_digit(s[i]) ==> s[i] == t[i]) && ((s[i] == '+') <==> (t[i] == '+')) by {
        lemma_upper_char_cases(s[i], t[i]);
    }
    lemma_parse_under_upper(s, t);
}

proof fn lemma_parse_under_upper(s: Seq<char>, t: Seq<char>)
    requires
        s.len() == t.len(),
        forall|i: int| 0 <= i < s.len() ==> (is_digit(#[trigger] s[i]) <==> is_digit(t[i]))
            && (is_digit(s[i]) ==> s[i] == t[i]) && ((s[i] == '+') <==> (t[i] == '+')),
    ensures
        parse_u8_spec(s) == parse_u8_spec(t),
{
    let k: int = if s.len() > 0 && s[0] == '+' { 1 } else { 0 };
    let bs = if s.len() > 0 && s[0] == '+' { s.skip(1) } else { s };
    let bt = if t.len() > 0 && t[0] == '+' { t.skip(1) } else { t };
    assert(bs =~= s.skip(k));
    assert(bt =~= t.skip(k));
    assert(bs.len() == bt.len());
    assert forall|i: int| 0 <= i < bs.len() implies (is_digit(#[trigger] bs[i]) <==> is_digit(
        bt[i],
    )) && (is_digit(bs[i]) ==> bs[i] == bt[i]) by {
        assert(bs[i] == s[i + k]);
        assert(bt[i] == t[i + k]);
    }
    if bs.len() > 0 && all_digits(bs) {
        assert forall|i: int| 0 <= i < bt.len() implies is_digit(#[trigger] bt[i]) by {
            assert(is_digit(bs[i]));
        }
        assert(all_digits(bt));
        assert forall|i: int| 0 <= i < bs.len() implies bs[i] == bt[i] by {
            assert(is_digit(bs[i]));
        }
        assert(bs =~= bt);
    } else if bt.len() > 0 && all_digits(bt) {
        assert forall|i: int| 0 <= i < bs.len() implies is_digit(#[trigger] bs[i]) by {
            assert(is_digit(bt[i]));
        }
        assert(all_digits(bs));
        assert forall|i: int| 0 <= i < bs.len() implies bs[i] == bt[i] by {
            assert(is_digit(bs[i]));
        }
        assert(bs =~= bt);
    }
}

} // verus!

