//! Textual form of colors.
//!
//! RGB renders as lower-case `#rrggbb`; HSL renders as `h,s,l` in decimal
//! with no padding.  Parsing accepts exactly those two grammars: a `#`
//! followed by six hex digits (case-insensitive), or three comma-separated
//! decimal integers, each of which must fit its channel type; out-of-range
//! but representable numbers are canonicalized, not rejected.

use vstd::prelude::*;

use crate::color::{is_canonical, normalize_spec, ColorFormat};

verus! {

/// Lower-case hex digit for a value below 16.
pub open spec fn hex_digit_char(v: int) -> char {
    if v == 0 { '0' } else if v == 1 { '1' } else if v == 2 { '2' }
    else if v == 3 { '3' } else if v == 4 { '4' } else if v == 5 { '5' }
    else if v == 6 { '6' } else if v == 7 { '7' } else if v == 8 { '8' }
    else if v == 9 { '9' } else if v == 10 { 'a' } else if v == 11 { 'b' }
    else if v == 12 { 'c' } else if v == 13 { 'd' } else if v == 14 { 'e' }
    else { 'f' }
}

/// Numeric value of a hex digit, either case; -1 for any other character.
pub open spec fn hex_val(c: char) -> int {
    if c == '0' { 0 } else if c == '1' { 1 } else if c == '2' { 2 }
    else if c == '3' { 3 } else if c == '4' { 4 } else if c == '5' { 5 }
    else if c == '6' { 6 } else if c == '7' { 7 } else if c == '8' { 8 }
    else if c == '9' { 9 }
    else if c == 'a' || c == 'A' { 10 } else if c == 'b' || c == 'B' { 11 }
    else if c == 'c' || c == 'C' { 12 } else if c == 'd' || c == 'D' { 13 }
    else if c == 'e' || c == 'E' { 14 } else if c == 'f' || c == 'F' { 15 }
    else { -1 }
}

/// Whether `c` is a hex digit in either case.
pub open spec fn is_hex_digit(c: char) -> bool {
    hex_val(c) >= 0
}

/// Decimal digit character for a value below 10.
pub open spec fn dec_digit_char(v: int) -> char {
    if v == 0 { '0' } else if v == 1 { '1' } else if v == 2 { '2' }
    else if v == 3 { '3' } else if v == 4 { '4' } else if v == 5 { '5' }
    else if v == 6 { '6' } else if v == 7 { '7' } else if v == 8 { '8' }
    else { '9' }
}

/// Numeric value of a decimal digit; -1 for any other character.
pub open spec fn dec_val_char(c: char) -> int {
    if c == '0' { 0 } else if c == '1' { 1 } else if c == '2' { 2 }
    else if c == '3' { 3 } else if c == '4' { 4 } else if c == '5' { 5 }
    else if c == '6' { 6 } else if c == '7' { 7 } else if c == '8' { 8 }
    else if c == '9' { 9 } else { -1 }
}

/// Whether `c` is a decimal digit.
pub open spec fn is_dec_digit(c: char) -> bool {
    dec_val_char(c) >= 0
}

/// Unpadded decimal rendering of a nonnegative number.
pub open spec fn dec_str(n: int) -> Seq<char>
    decreases n,
{
    if n < 10 { seq![dec_digit_char(n)] } else { dec_str(n / 10).push(dec_digit_char(n % 10)) }
}

/// Value of a digit string read as a decimal number.
pub open spec fn dec_val(t: Seq<char>) -> int
    decreases t.len(),
{
    if t.len() == 0 { 0 } else { dec_val(t.drop_last()) * 10 + dec_val_char(t.last()) }
}

/// Every character of `t` is a decimal digit.
pub open spec fn all_dec(t: Seq<char>) -> bool {
    forall|i: int| 0 <= i < t.len() ==> is_dec_digit(t[i])
}

/// The text a color renders to.
pub open spec fn format_spec(c: ColorFormat) -> Seq<char> {
    match c {
        ColorFormat::Rgb(r, g, b) => seq![
            '#',
            hex_digit_char(r as int / 16), hex_digit_char(r as int % 16),
            hex_digit_char(g as int / 16), hex_digit_char(g as int % 16),
            hex_digit_char(b as int / 16), hex_digit_char(b as int % 16),
        ],
        ColorFormat::Hsl(h, s, l) => dec_str(h as int) + seq![','] + dec_str(s as int)
            + seq![','] + dec_str(l as int),
    }
}

/// Decimal rendering uses digits only and is never empty.
pub proof fn lemma_dec_str_digits(n: int)
    requires
        0 <= n,
    ensures
        all_dec(dec_str(n)),
        dec_str(n).len() >= 1,
    decreases n,
{
    if n >= 10 {
        vstd::arithmetic::div_mod::lemma_mod_bound(n, 10);
        vstd::arithmetic::div_mod::lemma_div_pos_is_pos(n, 10);
        lemma_dec_str_digits(n / 10);
        assert forall|i: int| 0 <= i < dec_str(n).len() implies is_dec_digit(dec_str(n)[i]) by {
            if i < dec_str(n).len() - 1 {
                assert(dec_str(n)[i] == dec_str(n / 10)[i]);
            }
        }
    }
}

/// Reading a decimal rendering back gives the number it came from.
pub proof fn lemma_dec_str_val(n: int)
    requires
        0 <= n,
    ensures
        dec_val(dec_str(n)) == n,
    decreases n,
{
    if n < 10 {
        let t = dec_str(n);
        assert(t =~= seq![dec_digit_char(n)]);
        assert(t.drop_last() =~= Seq::<char>::empty());
        assert(t.last() == dec_digit_char(n));
        assert(dec_val(t.drop_last()) == 0);
        assert(dec_val(t) == dec_val_char(dec_digit_char(n)));
    } else {
        vstd::arithmetic::div_mod::lemma_mod_bound(n, 10);
        vstd::arithmetic::div_mod::lemma_div_pos_is_pos(n, 10);
        lemma_dec_str_val(n / 10);
        assert(dec_str(n).drop_last() =~= dec_str(n / 10));
        vstd::arithmetic::div_mod::lemma_fundamental_div_mod(n, 10);
    }
}

/// Digit strings decode to nonnegative values, and appending digits never
/// shrinks the value.
pub proof fn lemma_dec_val_nonneg(t: Seq<char>)
    requires
        all_dec(t),
    ensures
        0 <= dec_val(t),
    decreases t.len(),
{
    if t.len() > 0 {
        assert(all_dec(t.drop_last())) by {
            assert forall|i: int| 0 <= i < t.len() - 1 implies is_dec_digit(t.drop_last()[i]) by {
                assert(t.drop_last()[i] == t[i]);
            }
        }
        lemma_dec_val_nonneg(t.drop_last());
    }
}

/// A hex color text: `#` followed by exactly six hex digits.
pub open spec fn hex_color(t: Seq<char>) -> bool {
    t.len() == 7 && t[0] == '#' && (forall|i: int| 1 <= i < 7 ==> is_hex_digit(t[i]))
}

/// Byte value of the hex digit pair at positions `i`, `i + 1`.
pub open spec fn hex_pair(t: Seq<char>, i: int) -> int {
    hex_val(t[i]) * 16 + hex_val(t[i + 1])
}

/// `i` and `j` are the positions of the only two commas in `t`.
pub open spec fn hsl_commas_at(t: Seq<char>, i: int, j: int) -> bool {
    0 <= i < j < t.len() && t[i] == ',' && t[j] == ','
        && (forall|k: int| 0 <= k < t.len() && k != i && k != j ==> t[k] != ',')
}

/// A numeric field: nonempty, all decimal digits, value within `max`.
pub open spec fn valid_field(f: Seq<char>, max: int) -> bool {
    f.len() >= 1 && all_dec(f) && dec_val(f) <= max
}

/// Result of reading `t` as an HSL triple split at commas `i` and `j`.
/// The hue field must fit 16 bits and the others 8, as the channels do;
/// out-of-range but representable values are canonicalized.
pub open spec fn parse_hsl_at(t: Seq<char>, i: int, j: int) -> Option<ColorFormat> {
    let fh = t.subrange(0, i);
    let fs = t.subrange(i + 1, j);
    let fl = t.subrange(j + 1, t.len() as int);
    if valid_field(fh, 65535) && valid_field(fs, 255) && valid_field(fl, 255) {
        Some(normalize_spec(ColorFormat::Hsl(
            dec_val(fh) as u16,
            dec_val(fs) as u8,
            dec_val(fl) as u8,
        )))
    } else {
        None
    }
}

/// The color a text parses to, if any: hex RGB when it starts with `#`,
/// otherwise three comma-separated decimal integers as HSL.
pub open spec fn parse_spec(t: Seq<char>) -> Option<ColorFormat> {
    if t.len() > 0 && t[0] == '#' {
        if hex_color(t) {
            Some(ColorFormat::Rgb(
                hex_pair(t, 1) as u8,
                hex_pair(t, 3) as u8,
                hex_pair(t, 5) as u8,
            ))
        } else {
            None
        }
    } else if exists|i: int, j: int| hsl_commas_at(t, i, j) {
        let (i, j) = choose|i: int, j: int| hsl_commas_at(t, i, j);
        parse_hsl_at(t, i, j)
    } else {
        None
    }
}

/// The comma split of a text is unique.
pub proof fn lemma_hsl_commas_unique(t: Seq<char>, i: int, j: int, i2: int, j2: int)
    requires
        hsl_commas_at(t, i, j),
        hsl_commas_at(t, i2, j2),
    ensures
        i == i2,
        j == j2,
{
    assert(i2 == i || i2 == j);
    assert(j2 == i || j2 == j);
}

/// Decimal digit value of a character.
fn dec_digit_of(c: char) -> (r: Option<u8>)
    ensures
        r == if is_dec_digit(c) { Some(dec_val_char(c) as u8) } else { None::<u8> },
{
    match c {
        '0' => Some(0), '1' => Some(1), '2' => Some(2), '3' => Some(3), '4' => Some(4),
        '5' => Some(5), '6' => Some(6), '7' => Some(7), '8' => Some(8), '9' => Some(9),
        _ => None,
    }
}

/// Hex digit value of a character, either case.
fn hex_digit_of(c: char) -> (r: Option<u8>)
    ensures
        r == if is_hex_digit(c) { Some(hex_val(c) as u8) } else { None::<u8> },
{
    match c {
        '0' => Some(0), '1' => Some(1), '2' => Some(2), '3' => Some(3), '4' => Some(4),
        '5' => Some(5), '6' => Some(6), '7' => Some(7), '8' => Some(8), '9' => Some(9),
        'a' | 'A' => Some(10), 'b' | 'B' => Some(11), 'c' | 'C' => Some(12),
        'd' | 'D' => Some(13), 'e' | 'E' => Some(14), 'f' | 'F' => Some(15),
        _ => None,
    }
}

/// Read the characters `from..to` of `s` as a decimal number no larger
/// than `max`.
fn parse_dec_field(s: &str, from: usize, to: usize, max: u32) -> (r: Option<u32>)
    requires
        from <= to <= s@.len(),
        max <= 65535,
    ensures
        match r {
            Some(v) => valid_field(s@.subrange(from as int, to as int), max as int)
                && v == dec_val(s@.subrange(from as int, to as int)),
            None => !valid_field(s@.subrange(from as int, to as int), max as int),
        },
{
    let ghost field = s@.subrange(from as int, to as int);
    if from == to {
        return None;
    }
    let mut acc: u32 = 0;
    let mut over: bool = false;
    let mut i: usize = from;
    while i < to
        invariant
            from <= i <= to <= s@.len(),
            max <= 65535,
            field == s@.subrange(from as int, to as int),
            all_dec(s@.subrange(from as int, i as int)),
            !over ==> acc == dec_val(s@.subrange(from as int, i as int)) && acc <= max,
            over ==> dec_val(s@.subrange(from as int, i as int)) > max,
        decreases to - i,
    {
        let ghost pre = s@.subrange(from as int, i as int);
        let c = s.get_char(i);
        proof {
            assert(s@.subrange(from as int, i as int + 1) =~= pre.push(s@[i as int]));
        }
        match dec_digit_of(c) {
            None => {
                proof {
                    assert(field[i - from] == s@[i as int]);
                    assert(!all_dec(field));
                }
                return None;
            }
            Some(d) => {
                proof {
                    assert(pre.push(c).drop_last() =~= pre);
                    if over {
                        lemma_dec_val_nonneg(pre);
                    }
                }
                if !over {
                    let next: u64 = acc as u64 * 10 + d as u64;
                    if next > max as u64 {
                        over = true;
                    } else {
                        acc = next as u32;
                    }
                }
            }
        }
        i += 1;
    }
    proof {
        assert(s@.subrange(from as int, i as int) =~= field);
    }
    if over {
        None
    } else {
        Some(acc)
    }
}

/// Single lower-case hex digit as a string slice.
fn hex_digit_str(v: u8) -> (r: &'static str)
    requires
        v < 16,
    ensures
        r@ =~= seq![hex_digit_char(v as int)],
{
    proof {
        reveal_strlit("0"); reveal_strlit("1"); reveal_strlit("2"); reveal_strlit("3");
        reveal_strlit("4"); reveal_strlit("5"); reveal_strlit("6"); reveal_strlit("7");
        reveal_strlit("8"); reveal_strlit("9"); reveal_strlit("a"); reveal_strlit("b");
        reveal_strlit("c"); reveal_strlit("d"); reveal_strlit("e"); reveal_strlit("f");
    }
    match v {
        0 => "0", 1 => "1", 2 => "2", 3 => "3", 4 => "4", 5 => "5", 6 => "6",
        7 => "7", 8 => "8", 9 => "9", 10 => "a", 11 => "b", 12 => "c", 13 => "d",
        14 => "e", _ => "f",
    }
}

/// Single decimal digit as a string slice.
fn dec_digit_str(v: u16) -> (r: &'static str)
    requires
        v < 10,
    ensures
        r@ =~= seq![dec_digit_char(v as int)],
{
    proof {
        reveal_strlit("0"); reveal_strlit("1"); reveal_strlit("2"); reveal_strlit("3");
        reveal_strlit("4"); reveal_strlit("5"); reveal_strlit("6"); reveal_strlit("7");
        reveal_strlit("8"); reveal_strlit("9");
    }
    match v {
        0 => "0", 1 => "1", 2 => "2", 3 => "3", 4 => "4", 5 => "5", 6 => "6",
        7 => "7", 8 => "8", _ => "9",
    }
}

/// Append the unpadded decimal rendering of `n` to `out`.
fn push_dec(out: &mut String, n: u16)
    ensures
        final(out)@ == old(out)@ + dec_str(n as int),
    decreases n,
{
    if n < 10 {
        out.append(dec_digit_str(n));
    } else {
        push_dec(out, n / 10);
        out.append(dec_digit_str(n % 10));
        assert(final(out)@ =~= old(out)@ + dec_str(n as int));
    }
}

impl ColorFormat {
    /// Parse a color text: `#rrggbb` hex (case-insensitive) as RGB, or
    /// `h,s,l` decimal as HSL.  Wrong hex digit count, a non-numeric
    /// field, a field too large for its channel type, or a field count
    /// other than three give `None`; numerically valid but out-of-range
    /// input is canonicalized, never rejected.
    pub fn parse(s: &str) -> (r: Option<ColorFormat>)
        ensures
            r == parse_spec(s@),
            r matches Some(c) ==> is_canonical(c),
    {
        let n = s.unicode_len();
        if n > 0 && s.get_char(0) == '#' {
            if n != 7 {
                return None;
            }
            let d1 = match hex_digit_of(s.get_char(1)) { Some(v) => v, None => { return None; } };
            let d2 = match hex_digit_of(s.get_char(2)) { Some(v) => v, None => { return None; } };
            let d3 = match hex_digit_of(s.get_char(3)) { Some(v) => v, None => { return None; } };
            let d4 = match hex_digit_of(s.get_char(4)) { Some(v) => v, None => { return None; } };
            let d5 = match hex_digit_of(s.get_char(5)) { Some(v) => v, None => { return None; } };
            let d6 = match hex_digit_of(s.get_char(6)) { Some(v) => v, None => { return None; } };
            proof {
                assert forall|i: int| 1 <= i < 7 implies is_hex_digit(s@[i]) by {
                    assert(is_hex_digit(s@[1]) && is_hex_digit(s@[2]) && is_hex_digit(s@[3])
                        && is_hex_digit(s@[4]) && is_hex_digit(s@[5]) && is_hex_digit(s@[6]));
                }
                assert(hex_color(s@));
            }
            Some(ColorFormat::Rgb(d1 * 16 + d2, d3 * 16 + d4, d5 * 16 + d6))
        } else {
            let mut c1: usize = 0;
            let mut c2: usize = 0;
            let mut cnt: u32 = 0;
            let mut i: usize = 0;
            while i < n
                invariant
                    i <= n,
                    n == s@.len(),
                    cnt <= 2,
                    cnt >= 1 ==> c1 < i && s@[c1 as int] == ',',
                    cnt >= 2 ==> c2 < i && s@[c2 as int] == ',' && c1 < c2,
                    forall|k: int| 0 <= k < i && !(cnt >= 1 && k == c1) && !(cnt >= 2 && k == c2)
                        ==> s@[k] != ',',
                decreases n - i,
            {
                let ch = s.get_char(i);
                if ch == ',' {
                    if cnt == 0 {
                        c1 = i;
                        cnt = 1;
                    } else if cnt == 1 {
                        c2 = i;
                        cnt = 2;
                    } else {
                        proof {
                            if exists|a: int, b: int| hsl_commas_at(s@, a, b) {
                                let (a, b) = choose|a: int, b: int| hsl_commas_at(s@, a, b);
                                assert(c1 as int == a || c1 as int == b);
                                assert(c2 as int == a || c2 as int == b);
                                assert(i as int == a || i as int == b);
                                assert(false);
                            }
                        }
                        return None;
                    }
                }
                i += 1;
            }
            if cnt != 2 {
                proof {
                    if exists|a: int, b: int| hsl_commas_at(s@, a, b) {
                        let (a, b) = choose|a: int, b: int| hsl_commas_at(s@, a, b);
                        assert(false);
                    }
                }
                return None;
            }
            proof {
                assert(hsl_commas_at(s@, c1 as int, c2 as int));
                let (a, b) = choose|a: int, b: int| hsl_commas_at(s@, a, b);
                lemma_hsl_commas_unique(s@, a, b, c1 as int, c2 as int);
            }
            let h = match parse_dec_field(s, 0, c1, 65535) {
                Some(v) => v,
                None => { return None; }
            };
            let sv = match parse_dec_field(s, c1 + 1, c2, 255) {
                Some(v) => v,
                None => { return None; }
            };
            let lv = match parse_dec_field(s, c2 + 1, n, 255) {
                Some(v) => v,
                None => { return None; }
            };
            Some(ColorFormat::Hsl(h as u16, sv as u8, lv as u8).normalize())
        }
    }

    /// Render the color as text: `#rrggbb` for RGB, `h,s,l` for HSL.
    pub fn to_string(&self) -> (r: String)
        ensures
            r@ == format_spec(*self),
    {
        match *self {
            ColorFormat::Rgb(r, g, b) => {
                let mut out = String::new();
                proof { reveal_strlit("#"); }
                out.append("#");
                out.append(hex_digit_str(r / 16));
                out.append(hex_digit_str(r % 16));
                out.append(hex_digit_str(g / 16));
                out.append(hex_digit_str(g % 16));
                out.append(hex_digit_str(b / 16));
                out.append(hex_digit_str(b % 16));
                assert(out@ =~= format_spec(*self));
                out
            }
            ColorFormat::Hsl(h, s, l) => {
                let mut out = String::new();
                proof { reveal_strlit(","); }
                push_dec(&mut out, h);
                out.append(",");
                push_dec(&mut out, s as u16);
                out.append(",");
                push_dec(&mut out, l as u16);
                assert(out@ =~= format_spec(*self));
                out
            }
        }
    }
}

/// Formatting a canonical color and parsing the result gives the color
/// back exactly: both directions live in the integer domain, so no
/// precision is lost.
pub proof fn lemma_parse_format_inverse(c: ColorFormat)
    requires
        is_canonical(c),
    ensures
        parse_spec(format_spec(c)) == Some(c),
{
    let t = format_spec(c);
    match c {
        ColorFormat::Rgb(r, g, b) => {
            vstd::arithmetic::div_mod::lemma_fundamental_div_mod(r as int, 16);
            vstd::arithmetic::div_mod::lemma_fundamental_div_mod(g as int, 16);
            vstd::arithmetic::div_mod::lemma_fundamental_div_mod(b as int, 16);
            vstd::arithmetic::div_mod::lemma_mod_bound(r as int, 16);
            vstd::arithmetic::div_mod::lemma_mod_bound(g as int, 16);
            vstd::arithmetic::div_mod::lemma_mod_bound(b as int, 16);
            assert(0 <= r as int / 16 < 16 && 0 <= g as int / 16 < 16 && 0 <= b as int / 16 < 16);
            assert(hex_color(t));
            assert(hex_pair(t, 1) == r as int && hex_pair(t, 3) == g as int
                && hex_pair(t, 5) == b as int);
        }
        ColorFormat::Hsl(h, s, l) => {
            let dh = dec_str(h as int);
            let ds = dec_str(s as int);
            let dl = dec_str(l as int);
            lemma_dec_str_digits(h as int);
            lemma_dec_str_digits(s as int);
            lemma_dec_str_digits(l as int);
            lemma_dec_str_val(h as int);
            lemma_dec_str_val(s as int);
            lemma_dec_str_val(l as int);
            let i = dh.len() as int;
            let j = i + 1 + ds.len() as int;
            assert(t.len() == dh.len() + ds.len() + dl.len() + 2);
            assert(t[i] == ',' && t[j] == ',');
            assert(t[0] == dh[0]);
            assert(is_dec_digit(t[0]));
            assert(t[0] != '#');
            assert forall|k: int| 0 <= k < t.len() && k != i && k != j implies t[k] != ',' by {
                if k < i {
                    assert(t[k] == dh[k]);
                    assert(is_dec_digit(t[k]));
                } else if i < k < j {
                    assert(t[k] == ds[k - i - 1]);
                    assert(is_dec_digit(t[k]));
                } else if k > j {
                    assert(t[k] == dl[k - j - 1]);
                    assert(is_dec_digit(t[k]));
                }
            }
            assert(hsl_commas_at(t, i, j));
            let (a, b) = choose|a: int, b: int| hsl_commas_at(t, a, b);
            lemma_hsl_commas_unique(t, a, b, i, j);
            assert(t.subrange(0, i) =~= dh);
            assert(t.subrange(i + 1, j) =~= ds);
            assert(t.subrange(j + 1, t.len() as int) =~= dl);
            assert(valid_field(dh, 65535) && valid_field(ds, 255) && valid_field(dl, 255));
            assert(normalize_spec(c) == c);
            assert(parse_hsl_at(t, i, j) == Some(c));
        }
    }
}

} // verus!
