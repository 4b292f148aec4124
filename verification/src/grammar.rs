//! The grammar of template text and of literal values, as functions from a position in the
//! characters to what is read there and the position after it (`None` where nothing is read).
use vstd::prelude::*;
use crate::pipeline::VPipe;
use crate::tdata::{dict_insert, Date, VData};
use crate::template::{VFlat, VPart};
use crate::date::valid_ymd;

verus! {

/// Whitespace between tokens: space, tab, newline, carriage return.
pub open spec fn is_wn(c: char) -> bool {
    c == ' ' || c == '\t' || c == '\n' || c == '\r'
}

/// An ASCII letter.
pub open spec fn is_alpha(c: char) -> bool {
    ('a' <= c && c <= 'z') || ('A' <= c && c <= 'Z')
}

/// An ASCII digit.
pub open spec fn is_digit(c: char) -> bool {
    '0' <= c && c <= '9'
}

/// A character that may continue a name.
pub open spec fn is_word(c: char) -> bool {
    is_alpha(c) || is_digit(c) || c == '_'
}

/// The value of a digit character.
pub open spec fn digit_val(c: char) -> nat {
    (c as u32 - '0' as u32) as nat
}

/// The first position at or after `i` that is not whitespace.
pub open spec fn skip_wn(s: Seq<char>, i: int) -> int
    decreases s.len() - i,
{
    if 0 <= i < s.len() && is_wn(s[i]) {
        skip_wn(s, i + 1)
    } else {
        i
    }
}

/// The first position at or after `i` that is neither a space nor a tab.
pub open spec fn skip_ws(s: Seq<char>, i: int) -> int
    decreases s.len() - i,
{
    if 0 <= i < s.len() && (s[i] == ' ' || s[i] == '\t') {
        skip_ws(s, i + 1)
    } else {
        i
    }
}

/// The first position at or after `i` that is not a space, tab or newline.
pub open spec fn skip_stn(s: Seq<char>, i: int) -> int
    decreases s.len() - i,
{
    if 0 <= i < s.len() && (s[i] == ' ' || s[i] == '\t' || s[i] == '\n') {
        skip_stn(s, i + 1)
    } else {
        i
    }
}

/// The end of the run of name characters that starts at `i`.
pub open spec fn word_end(s: Seq<char>, i: int) -> int
    decreases s.len() - i,
{
    if 0 <= i < s.len() && is_word(s[i]) {
        word_end(s, i + 1)
    } else {
        i
    }
}

/// The first position at or after `i` holding `c`, or the length.
pub open spec fn find_char(s: Seq<char>, i: int, c: char) -> int
    decreases s.len() - i,
{
    if 0 <= i < s.len() && s[i] != c {
        find_char(s, i + 1, c)
    } else {
        i
    }
}

/// Whether the text `t` stands at position `i`.
pub open spec fn has_tag(s: Seq<char>, i: int, t: Seq<char>) -> bool {
    0 <= i && i + t.len() <= s.len() && s.subrange(i, i + t.len()) == t
}

/// Whether the word `t` stands at `i`, not followed by a name character.
pub open spec fn keyword_at(s: Seq<char>, i: int, t: Seq<char>) -> bool {
    has_tag(s, i, t) && !(i + t.len() < s.len() && is_word(s[i + t.len()]))
}

/// Whether the character `c` stands at `i`.
pub open spec fn char_at(s: Seq<char>, i: int, c: char) -> bool {
    0 <= i < s.len() && s[i] == c
}

/// A name: a letter followed by letters, digits and underscores.
pub open spec fn ident_s(s: Seq<char>, i: int) -> Option<(Seq<char>, int)> {
    if 0 <= i < s.len() && is_alpha(s[i]) {
        Some((s.subrange(i, word_end(s, i)), word_end(s, i)))
    } else {
        None
    }
}

/// A template name: a plain name, or any text between single quotes.
pub open spec fn tident_s(s: Seq<char>, i: int) -> Option<(Seq<char>, int)> {
    match ident_s(s, i) {
        Some(r) => Some(r),
        None => if char_at(s, i, '\'') && find_char(s, i + 1, '\'') > i + 1 && find_char(s, i + 1, '\'') < s.len() {
            Some((s.subrange(i + 1, find_char(s, i + 1, '\'')), find_char(s, i + 1, '\'') + 1))
        } else {
            None
        },
    }
}

/// Digits and underscores from `i`: the number the digits make after `acc`, the end, and
/// whether a digit was seen.
pub open spec fn uint_run(s: Seq<char>, i: int, acc: nat, seen: bool) -> (nat, int, bool)
    decreases s.len() - i,
{
    if 0 <= i < s.len() && is_digit(s[i]) {
        uint_run(s, i + 1, acc * 10 + digit_val(s[i]), true)
    } else if 0 <= i < s.len() && s[i] == '_' {
        uint_run(s, i + 1, acc, seen)
    } else {
        (acc, i, seen)
    }
}

/// An unsigned number: digits, with underscores allowed anywhere, that fits in a `usize`.
pub open spec fn uint_s(s: Seq<char>, i: int) -> Option<(usize, int)> {
    let (v, j, seen) = uint_run(s, i, 0, false);
    if seen && v <= usize::MAX {
        Some((v as usize, j))
    } else {
        None
    }
}

/// A signed number: an optional minus sign and an unsigned number that fits in an `isize`.
pub open spec fn int_s(s: Seq<char>, i: int) -> Option<(int, int)> {
    if char_at(s, i, '-') {
        match uint_s(s, i + 1) {
            Some((n, j)) => if n <= isize::MAX { Some((-(n as int), j)) } else { None },
            None => None,
        }
    } else {
        match uint_s(s, i) {
            Some((n, j)) => if n <= isize::MAX { Some((n as int, j)) } else { None },
            None => None,
        }
    }
}

/// The end of the digits and underscores that start at `i`.
pub open spec fn frac_end(s: Seq<char>, i: int) -> int
    decreases s.len() - i,
{
    if 0 <= i < s.len() && (is_digit(s[i]) || s[i] == '_') {
        frac_end(s, i + 1)
    } else {
        i
    }
}

/// The end of a float literal that starts at `i`: a signed number, a dot, digits, and an
/// optional `e` with a signed exponent.
pub open spec fn float_end(s: Seq<char>, i: int) -> Option<int> {
    match int_s(s, i) {
        Some((_, j)) => if char_at(s, j, '.') {
            let k = frac_end(s, j + 1);
            if char_at(s, k, 'e') && int_s(s, k + 1) is Some {
                Some(int_s(s, k + 1)->Some_0.1)
            } else {
                Some(k)
            }
        } else {
            None
        },
        None => None,
    }
}

/// The largest size of exponent that a float literal may have.
pub const MAX_FLOAT_EXP: isize = 1000;

/// The exponent that may follow an `e` at `q - 1` is at most `MAX_FLOAT_EXP` in size.
pub open spec fn exp_fits(t: Seq<char>, q: int) -> bool {
    match int_s(t, q) {
        Some((n, _)) => -MAX_FLOAT_EXP <= n <= MAX_FLOAT_EXP,
        None => true,
    }
}

/// Every exponent in a float literal is at most `MAX_FLOAT_EXP` in size.
pub open spec fn float_exp_ok(t: Seq<char>) -> bool {
    forall|p: int| 0 <= p < t.len() && t[p] == 'e' ==> exp_fits(t, p + 1)
}

/// What gobble's float parser gives for a float literal, printed as Rust prints an `f64`.
pub uninterp spec fn float_text_of(lexeme: Seq<char>) -> Seq<char>;

/// A month: a number from 1 to 12, or a three-letter lowercase name.
pub open spec fn month_s(s: Seq<char>, i: int) -> Option<(u32, int)> {
    match uint_s(s, i) {
        Some((n, j)) => if 1 <= n <= 12 { Some((n as u32, j)) } else { None },
        None => if has_tag(s, i, seq!['j', 'a', 'n']) { Some((1u32, i + 3)) }
            else if has_tag(s, i, seq!['f', 'e', 'b']) { Some((2u32, i + 3)) }
            else if has_tag(s, i, seq!['m', 'a', 'r']) { Some((3u32, i + 3)) }
            else if has_tag(s, i, seq!['a', 'p', 'r']) { Some((4u32, i + 3)) }
            else if has_tag(s, i, seq!['m', 'a', 'y']) { Some((5u32, i + 3)) }
            else if has_tag(s, i, seq!['j', 'u', 'n']) { Some((6u32, i + 3)) }
            else if has_tag(s, i, seq!['j', 'u', 'l']) { Some((7u32, i + 3)) }
            else if has_tag(s, i, seq!['a', 'u', 'g']) { Some((8u32, i + 3)) }
            else if has_tag(s, i, seq!['s', 'e', 'p']) { Some((9u32, i + 3)) }
            else if has_tag(s, i, seq!['o', 'c', 't']) { Some((10u32, i + 3)) }
            else if has_tag(s, i, seq!['n', 'o', 'v']) { Some((11u32, i + 3)) }
            else if has_tag(s, i, seq!['d', 'e', 'c']) { Some((12u32, i + 3)) }
            else { None },
    }
}

/// A date `day/month/year` that exists in the calendar.
pub open spec fn date_s(s: Seq<char>, i: int) -> Option<(Date, int)> {
    match uint_s(s, i) {
        Some((d, j)) => if char_at(s, j, '/') {
            match month_s(s, j + 1) {
                Some((m, k)) => if char_at(s, k, '/') {
                    match int_s(s, k + 1) {
                        Some((y, l)) => if i32::MIN <= y <= i32::MAX && d <= u32::MAX && valid_ymd(y as i32, m, d as u32) {
                            Some((Date { year: y as i32, month: m, day: d as u32 }, l))
                        } else {
                            None
                        },
                        None => None,
                    }
                } else {
                    None
                },
                None => None,
            }
        } else {
            None
        },
        None => None,
    }
}

/// The value of a hexadecimal digit, if it is one.
pub open spec fn hex_val(c: char) -> Option<nat> {
    if is_digit(c) {
        Some(digit_val(c))
    } else if 'a' <= c && c <= 'f' {
        Some((c as u32 - 'a' as u32 + 10) as nat)
    } else if 'A' <= c && c <= 'F' {
        Some((c as u32 - 'A' as u32 + 10) as nat)
    } else {
        None
    }
}

/// The number four hex digits at `i` make.
pub open spec fn hex4(s: Seq<char>, i: int) -> Option<nat> {
    if 0 <= i && i + 4 <= s.len() && hex_val(s[i]) is Some && hex_val(s[i + 1]) is Some
        && hex_val(s[i + 2]) is Some && hex_val(s[i + 3]) is Some {
        Some(hex_val(s[i])->Some_0 * 4096 + hex_val(s[i + 1])->Some_0 * 256 + hex_val(s[i + 2])->Some_0 * 16
            + hex_val(s[i + 3])->Some_0)
    } else {
        None
    }
}

/// Whether a number is a Unicode scalar value (a `char`).
pub open spec fn is_scalar(n: nat) -> bool {
    n <= 0x10FFFF && !(0xD800 <= n <= 0xDFFF)
}

/// An escape in a string literal, at the backslash: `\b \f \n \r \t`, `\uXXXX`, or an escaped
/// quote, backslash or slash.
pub open spec fn escape_s(s: Seq<char>, i: int) -> Option<(char, int)> {
    if !char_at(s, i, '\\') || i + 1 >= s.len() {
        None
    } else {
        let c = s[i + 1];
        if c == 'b' { Some(('\u{08}', i + 2)) }
        else if c == 'f' { Some(('\u{0C}', i + 2)) }
        else if c == 'n' { Some(('\n', i + 2)) }
        else if c == 'r' { Some(('\r', i + 2)) }
        else if c == 't' { Some(('\t', i + 2)) }
        else if c == 'u' {
            match hex4(s, i + 2) {
                Some(n) => if is_scalar(n) { Some((n as char, i + 6)) } else { None },
                None => None,
            }
        }
        else if c == '"' || c == '\\' || c == '/' { Some((c, i + 2)) }
        else { None }
    }
}

/// The characters of a quoted string from `i` (just after the opening quote) to the closing
/// quote, and the position after it.
pub open spec fn quoted_s(s: Seq<char>, i: int) -> Option<(Seq<char>, int)>
    decreases s.len() - i,
{
    if i < 0 || i >= s.len() {
        None
    } else if s[i] == '"' {
        Some((seq![], i + 1))
    } else if s[i] == '\\' {
        match escape_s(s, i) {
            Some((c, j)) => match quoted_s(s, j) {
                Some((rest, k)) => Some((seq![c] + rest, k)),
                None => None,
            },
            None => None,
        }
    } else {
        match quoted_s(s, i + 1) {
            Some((rest, k)) => Some((seq![s[i]] + rest, k)),
            None => None,
        }
    }
}

/// The first position at or after `i` where `"#` stands, or the length.
pub open spec fn raw_end(s: Seq<char>, i: int) -> int
    decreases s.len() - i,
{
    if 0 <= i < s.len() && !has_tag(s, i, seq!['"', '#']) {
        raw_end(s, i + 1)
    } else {
        i
    }
}

/// A string literal: `"..."` with escapes, or `r#"..."#` taken as it stands.
pub open spec fn string_s(s: Seq<char>, i: int) -> Option<(Seq<char>, int)> {
    if char_at(s, i, '"') {
        quoted_s(s, i + 1)
    } else if has_tag(s, i, seq!['r', '#', '"']) && raw_end(s, i + 3) < s.len() {
        Some((s.subrange(i + 3, raw_end(s, i + 3)), raw_end(s, i + 3) + 2))
    } else {
        None
    }
}

/// A literal value: `null`, `true`, `false`, a date, a float (whose exponent is at most
/// `MAX_FLOAT_EXP` in size), a number, a string, a list `[..]`
/// or a map `{"key": value, ..}`, tried in that order.
pub open spec fn data_s(s: Seq<char>, i: int) -> Option<(VData, int)>
    decreases s.len() - i, 1nat,
{
    if has_tag(s, i, seq!['n', 'u', 'l', 'l']) {
        Some((VData::Null, i + 4))
    } else if keyword_at(s, i, seq!['t', 'r', 'u', 'e']) {
        Some((VData::Bool(true), i + 4))
    } else if keyword_at(s, i, seq!['f', 'a', 'l', 's', 'e']) {
        Some((VData::Bool(false), i + 5))
    } else if date_s(s, i) is Some {
        Some((VData::Date(date_s(s, i)->Some_0.0), date_s(s, i)->Some_0.1))
    } else if float_end(s, i) is Some && float_exp_ok(s.subrange(i, float_end(s, i)->Some_0)) {
        let j = float_end(s, i)->Some_0;
        Some((VData::Float(float_text_of(s.subrange(i, j))), j))
    } else if uint_s(s, i) is Some {
        Some((VData::UInt(uint_s(s, i)->Some_0.0), uint_s(s, i)->Some_0.1))
    } else if int_s(s, i) is Some {
        Some((VData::Int(int_s(s, i)->Some_0.0 as isize), int_s(s, i)->Some_0.1))
    } else if string_s(s, i) is Some {
        Some((VData::String(string_s(s, i)->Some_0.0), string_s(s, i)->Some_0.1))
    } else if char_at(s, i, '[') {
        if char_at(s, i + 1, ']') {
            Some((VData::List(seq![]), i + 2))
        } else {
            match list_items_s(s, i + 1) {
                Some((l, j)) => Some((VData::List(l), j)),
                None => None,
            }
        }
    } else if char_at(s, i, '{') {
        if char_at(s, i + 1, '}') {
            Some((VData::Dict(seq![]), i + 2))
        } else {
            match map_items_s(s, i + 1) {
                Some((m, j)) => Some((VData::Dict(dict_of(m)), j)),
                None => None,
            }
        }
    } else {
        None
    }
}

/// List elements from `i`, each with whitespace around it, separated by commas, up to `]`.
pub open spec fn list_items_s(s: Seq<char>, i: int) -> Option<(Seq<VData>, int)>
    decreases s.len() - i, 2nat,
{
    if i < 0 || i > s.len() {
        None
    } else {
        proof { lemma_skip_wn(s, i); }
        match data_s(s, skip_wn(s, i)) {
            None => None,
            Some((d, k)) => {
                let k2 = skip_wn(s, k);
                if char_at(s, k2, ']') {
                    Some((seq![d], k2 + 1))
                } else if char_at(s, k2, ',') && k2 + 1 > i {
                    match list_items_s(s, k2 + 1) {
                        Some((rest, m)) => Some((seq![d] + rest, m)),
                        None => None,
                    }
                } else {
                    None
                }
            },
        }
    }
}

/// Map entries from `i`: a string key, a colon and a value, with whitespace around each,
/// separated by commas, up to `}`.
pub open spec fn map_items_s(s: Seq<char>, i: int) -> Option<(Seq<(Seq<char>, VData)>, int)>
    decreases s.len() - i, 2nat,
{
    if i < 0 || i > s.len() {
        None
    } else {
        match string_s(s, skip_wn(s, i)) {
            None => None,
            Some((key, k)) => {
                let k2 = skip_wn(s, k);
                if !char_at(s, k2, ':') || k2 + 1 <= i {
                    None
                } else {
                    proof { lemma_skip_wn(s, k2 + 1); }
                    match data_s(s, skip_wn(s, k2 + 1)) {
                        None => None,
                        Some((d, m)) => {
                            let m2 = skip_wn(s, m);
                            if char_at(s, m2, '}') {
                                Some((seq![(key, d)], m2 + 1))
                            } else if char_at(s, m2, ',') && m2 + 1 > i {
                                match map_items_s(s, m2 + 1) {
                                    Some((rest, e)) => Some((seq![(key, d)] + rest, e)),
                                    None => None,
                                }
                            } else {
                                None
                            }
                        },
                    }
                }
            },
        }
    }
}

/// A literal value as `TData::from_str` reads it: the literals of `data_s`, except that a list's
/// items need no commas between them and a map's values follow their colons directly. No
/// literal that `data_s` reads without brackets starts with `[` or `{`.
pub open spec fn basic_s(s: Seq<char>, i: int) -> Option<(VData, int)>
    decreases s.len() - i, 1nat,
{
    if char_at(s, i, '[') {
        if char_at(s, i + 1, ']') {
            Some((VData::List(seq![]), i + 2))
        } else {
            match basic_items_s(s, i + 1) {
                Some((l, j)) => Some((VData::List(l), j)),
                None => None,
            }
        }
    } else if char_at(s, i, '{') {
        if char_at(s, i + 1, '}') {
            Some((VData::Dict(seq![]), i + 2))
        } else {
            match basic_entries_s(s, i + 1) {
                Some((m, j)) => Some((VData::Dict(dict_of(m)), j)),
                None => None,
            }
        }
    } else {
        data_s(s, i)
    }
}

/// List elements from `i` for `basic_s`, each with whitespace around it, each followed by an
/// optional comma, up to `]`.
pub open spec fn basic_items_s(s: Seq<char>, i: int) -> Option<(Seq<VData>, int)>
    decreases s.len() - i, 2nat,
{
    if i < 0 || i > s.len() {
        None
    } else {
        proof { lemma_skip_wn(s, i); }
        match basic_s(s, skip_wn(s, i)) {
            None => None,
            Some((d, k)) => {
                let k2 = skip_wn(s, k);
                if char_at(s, k2, ']') {
                    Some((seq![d], k2 + 1))
                } else {
                    let n = if char_at(s, k2, ',') { k2 + 1 } else { k2 };
                    if i < n <= s.len() {
                        match basic_items_s(s, n) {
                            Some((rest, m)) => Some((seq![d] + rest, m)),
                            None => None,
                        }
                    } else {
                        None
                    }
                }
            },
        }
    }
}

/// Map entries from `i` for `basic_s`: a string key with whitespace around it, a colon and at
/// once a value, with whitespace after it, separated by commas, up to `}`.
pub open spec fn basic_entries_s(s: Seq<char>, i: int) -> Option<(Seq<(Seq<char>, VData)>, int)>
    decreases s.len() - i, 2nat,
{
    if i < 0 || i > s.len() {
        None
    } else {
        match string_s(s, skip_wn(s, i)) {
            None => None,
            Some((key, k)) => {
                let k2 = skip_wn(s, k);
                if !char_at(s, k2, ':') || k2 + 1 <= i {
                    None
                } else {
                    match basic_s(s, k2 + 1) {
                        None => None,
                        Some((d, m)) => {
                            let m2 = skip_wn(s, m);
                            if char_at(s, m2, '}') {
                                Some((seq![(key, d)], m2 + 1))
                            } else if char_at(s, m2, ',') && m2 + 1 > i {
                                match basic_entries_s(s, m2 + 1) {
                                    Some((rest, e)) => Some((seq![(key, d)] + rest, e)),
                                    None => None,
                                }
                            } else {
                                None
                            }
                        },
                    }
                }
            },
        }
    }
}

/// A map built from entries in order; a repeated key keeps its place and takes the later value.
pub open spec fn dict_of(m: Seq<(Seq<char>, VData)>) -> Seq<(Seq<char>, VData)>
    decreases m.len(),
{
    if m.len() == 0 {
        seq![]
    } else {
        dict_insert(dict_of(m.drop_last()), m.last().0, m.last().1)
    }
}

/// One part of a variable path: a name or a number.
pub open spec fn var_s(s: Seq<char>, i: int) -> Option<(VPart, int)> {
    match tident_s(s, i) {
        Some((n, j)) => Some((VPart::Id(n), j)),
        None => match uint_s(s, i) {
            Some((n, j)) => Some((VPart::Num(n), j)),
            None => None,
        },
    }
}

/// Path parts after a dot: at least one part, then more after each further dot.
pub open spec fn path_more_s(s: Seq<char>, i: int) -> Option<(Seq<VPart>, int)>
    decreases s.len() - i,
{
    match var_s(s, i) {
        None => None,
        Some((v, j)) => if char_at(s, j, '.') && j + 1 > i {
            match path_more_s(s, j + 1) {
                Some((rest, k)) => Some((seq![v] + rest, k)),
                None => None,
            }
        } else {
            Some((seq![v], j))
        },
    }
}

/// A sort criterion: an optional `-` (for descending order), then a path of names and numbers
/// separated by dots; what follows the path is left unread.
pub open spec fn comparator_s(s: Seq<char>) -> Option<(bool, Seq<VPart>)> {
    let down = char_at(s, 0, '-');
    match path_more_s(s, if down { 1 } else { 0 }) {
        Some((p, _)) => Some((down, p)),
        None => None,
    }
}

/// A variable path after `$`: parts separated by dots (possibly none).
pub open spec fn path_s(s: Seq<char>, i: int) -> Option<(Seq<VPart>, int)> {
    match var_s(s, i) {
        None => Some((seq![], i)),
        Some(_) => path_more_s(s, i),
    }
}

/// A literal written between single quotes, such as `'5'` or `'false'`: the text between the
/// quotes must be one whole literal value.
#[verifier::opaque]
pub open spec fn quoted_lit_s(s: Seq<char>, i: int) -> Option<(VData, int)> {
    let e = find_char(s, i + 1, '\'');
    if char_at(s, i, '\'') && i + 1 < e < s.len() {
        match data_s(s.subrange(i + 1, e), 0) {
            Some((d, k)) => if k == e - (i + 1) {
                Some((d, e + 1))
            } else {
                None
            },
            None => None,
        }
    } else {
        None
    }
}

/// A pipeline: `(pipeline)`, `$path`, `@`, a literal, or a command name followed by argument
/// pipelines.
pub open spec fn pipe_s(s: Seq<char>, i: int) -> Option<(VPipe, int)>
    decreases s.len() - i, 3nat,
{
    if i < 0 || i > s.len() {
        None
    } else {
        proof { lemma_skip_wn(s, i); }
        let j = skip_wn(s, i);
        if char_at(s, j, '(') {
            proof { lemma_skip_wn(s, j + 1); }
            match pipe_s(s, skip_wn(s, j + 1)) {
                Some((p, m)) => if char_at(s, skip_wn(s, m), ')') {
                    Some((p, skip_wn(s, m) + 1))
                } else {
                    None
                },
                None => None,
            }
        } else if j != i {
            None
        } else if char_at(s, i, '$') {
            match path_s(s, i + 1) {
                Some((p, k)) => Some((VPipe::Var(p), k)),
                None => None,
            }
        } else if char_at(s, i, '@') {
            Some((VPipe::Var(seq![VPart::Id(seq!['@'])]), i + 1))
        } else if data_s(s, i) is Some {
            Some((VPipe::Lit(data_s(s, i)->Some_0.0), data_s(s, i)->Some_0.1))
        } else if quoted_lit_s(s, i) is Some {
            Some((VPipe::Lit(quoted_lit_s(s, i)->Some_0.0), quoted_lit_s(s, i)->Some_0.1))
        } else {
            match tident_s(s, i) {
                Some((c, k)) => if k > i && k <= s.len() {
                    let (args, m) = args_s(s, k);
                    Some((VPipe::Command(c, args), m))
                } else {
                    None
                },
                None => None,
            }
        }
    }
}

/// As many argument pipelines from `i` as can be read, each with whitespace around it.
pub open spec fn args_s(s: Seq<char>, i: int) -> (Seq<VPipe>, int)
    decreases s.len() - i, 4nat,
{
    if i < 0 || i > s.len() {
        (seq![], i)
    } else {
        proof { lemma_skip_wn(s, i); }
        match pipe_s(s, skip_wn(s, i)) {
            None => (seq![], i),
            Some((p, m)) => {
                let m2 = skip_wn(s, m);
                if m2 > i && m2 <= s.len() {
                    let (rest, k) = args_s(s, m2);
                    (seq![p] + rest, k)
                } else {
                    (seq![], i)
                }
            },
        }
    }
}

/// One assignment `name = pipeline`, ended by `;`, `,` or a newline (or followed by `}`).
pub open spec fn assign_s(s: Seq<char>, i: int) -> Option<((Seq<char>, VPipe), int)> {
    match tident_s(s, skip_wn(s, i)) {
        None => None,
        Some((name, k)) => {
            let k2 = skip_wn(s, k);
            if !char_at(s, k2, '=') {
                None
            } else {
                match pipe_s(s, skip_wn(s, k2 + 1)) {
                    None => None,
                    Some((p, m)) => {
                        let m2 = skip_ws(s, m);
                        if char_at(s, m2, ';') || char_at(s, m2, ',') || char_at(s, m2, '\n') {
                            Some(((name, p), skip_wn(s, m2 + 1)))
                        } else if char_at(s, m2, '}') {
                            Some(((name, p), skip_wn(s, m2)))
                        } else {
                            None
                        }
                    },
                }
            }
        },
    }
}

/// As many assignments from `i` as can be read.
pub open spec fn assigns_star_s(s: Seq<char>, i: int) -> (Seq<(Seq<char>, VPipe)>, int)
    decreases s.len() - i,
{
    match assign_s(s, i) {
        None => (seq![], i),
        Some((a, j)) => if j > i && j <= s.len() {
            let (rest, k) = assigns_star_s(s, j);
            (seq![a] + rest, k)
        } else {
            (seq![], i)
        },
    }
}

/// At least one assignment from `i`, then as many more as can be read.
pub open spec fn assigns_s(s: Seq<char>, i: int) -> Option<(Seq<(Seq<char>, VPipe)>, int)> {
    match assign_s(s, i) {
        None => None,
        Some((a, j)) => if j > i && j <= s.len() {
            let (rest, k) = assigns_star_s(s, j);
            Some((seq![a] + rest, k))
        } else {
            Some((seq![a], j))
        },
    }
}

/// The opening of a tag: `{{`, or `{{-` (which also takes the whitespace before it), and the
/// whitespace after it.
pub open spec fn iopen_s(s: Seq<char>, i: int) -> Option<int> {
    if has_tag(s, skip_wn(s, i), seq!['{', '{', '-']) {
        Some(skip_wn(s, skip_wn(s, i) + 3))
    } else if has_tag(s, i, seq!['{', '{']) {
        Some(skip_wn(s, i + 2))
    } else {
        None
    }
}

/// The closing of a tag, after optional whitespace: `}}`, or `-}}` (which also takes the
/// whitespace after it).
pub open spec fn iclose_s(s: Seq<char>, i: int) -> Option<int> {
    let k = skip_wn(s, i);
    if has_tag(s, k, seq!['-', '}', '}']) {
        Some(skip_wn(s, k + 3))
    } else if has_tag(s, k, seq!['}', '}']) {
        Some(k + 2)
    } else {
        None
    }
}

/// A keyword followed by a name.
pub open spec fn named_after(s: Seq<char>, i: int, kw: Seq<char>) -> Option<(Seq<char>, int)> {
    if keyword_at(s, i, kw) {
        tident_s(s, skip_wn(s, i + kw.len()))
    } else {
        None
    }
}

/// A keyword followed by a pipeline.
pub open spec fn pipe_after(s: Seq<char>, i: int, kw: Seq<char>) -> Option<(VPipe, int)> {
    if keyword_at(s, i, kw) {
        pipe_s(s, skip_wn(s, i + kw.len()))
    } else {
        None
    }
}

/// `for k v in pipeline`.
pub open spec fn for_s(s: Seq<char>, i: int) -> Option<(VFlat, int)> {
    match named_after(s, i, seq!['f', 'o', 'r']) {
        None => None,
        Some((k, j)) => match tident_s(s, skip_wn(s, j)) {
            None => None,
            Some((v, j2)) => match pipe_after(s, skip_wn(s, j2), seq!['i', 'n']) {
                None => None,
                Some((p, m)) => Some((VFlat::For(k, v, p), m)),
            },
        },
    }
}

/// What a tag holds, the alternatives tried in order: a `#comment#`, `else`, `/if`, `/for`,
/// `if p`, `elif p`, `for k v in p`, `define n`, `let ..`, `export ..`, `@let n`, `@export n`,
/// `@name args..` (a block), `/name` (its end), and a pipeline.
pub open spec fn tag_s(s: Seq<char>, p: int) -> Option<(VFlat, int)> {
    match tag_head_s(s, p) {
        Some(r) => Some(r),
        None => tag_tail_s(s, p),
    }
}

/// The first alternatives of a tag: a comment, `else`, `/if`, `/for`, `if`, `elif`, `for` and
/// `define`.
#[verifier::opaque]
pub open spec fn tag_head_s(s: Seq<char>, p: int) -> Option<(VFlat, int)> {
    if char_at(s, p, '#') {
        if find_char(s, p + 1, '#') < s.len() {
            Some((VFlat::Comment, find_char(s, p + 1, '#') + 1))
        } else {
            None
        }
    } else if keyword_at(s, p, seq!['e', 'l', 's', 'e']) {
        Some((VFlat::Else, p + 4))
    } else if keyword_at(s, p, seq!['/', 'i', 'f']) {
        Some((VFlat::EndIf, p + 3))
    } else if keyword_at(s, p, seq!['/', 'f', 'o', 'r']) {
        Some((VFlat::EndFor, p + 4))
    } else if pipe_after(s, p, seq!['i', 'f']) is Some {
        Some((VFlat::If(pipe_after(s, p, seq!['i', 'f'])->Some_0.0), pipe_after(s, p, seq!['i', 'f'])->Some_0.1))
    } else if pipe_after(s, p, seq!['e', 'l', 'i', 'f']) is Some {
        Some((VFlat::Elif(pipe_after(s, p, seq!['e', 'l', 'i', 'f'])->Some_0.0), pipe_after(s, p, seq!['e', 'l', 'i', 'f'])->Some_0.1))
    } else if for_s(s, p) is Some {
        for_s(s, p)
    } else if named_after(s, p, seq!['d', 'e', 'f', 'i', 'n', 'e']) is Some {
        let (n, j) = named_after(s, p, seq!['d', 'e', 'f', 'i', 'n', 'e'])->Some_0;
        Some((VFlat::Define(n), j))
    } else {
        None
    }
}

/// The last alternatives of a tag: `let`, `export`, `@let`, `@export`, a block opener, a block
/// closer, and a pipeline.
#[verifier::opaque]
pub open spec fn tag_tail_s(s: Seq<char>, p: int) -> Option<(VFlat, int)> {
    if keyword_at(s, p, seq!['l', 'e', 't']) && assigns_s(s, p + 3) is Some {
        Some((VFlat::Let(assigns_s(s, p + 3)->Some_0.0), assigns_s(s, p + 3)->Some_0.1))
    } else if keyword_at(s, p, seq!['e', 'x', 'p', 'o', 'r', 't']) && assigns_s(s, p + 6) is Some {
        Some((VFlat::Export(assigns_s(s, p + 6)->Some_0.0), assigns_s(s, p + 6)->Some_0.1))
    } else if named_after(s, p, seq!['@', 'l', 'e', 't']) is Some {
        let (n, j) = named_after(s, p, seq!['@', 'l', 'e', 't'])->Some_0;
        Some((VFlat::AtLet(n), j))
    } else if named_after(s, p, seq!['@', 'e', 'x', 'p', 'o', 'r', 't']) is Some {
        let (n, j) = named_after(s, p, seq!['@', 'e', 'x', 'p', 'o', 'r', 't'])->Some_0;
        Some((VFlat::AtExport(n), j))
    } else if char_at(s, p, '@') && tident_s(s, p + 1) is Some {
        let (n, j) = tident_s(s, p + 1)->Some_0;
        let (args, k) = args_s(s, skip_stn(s, j));
        Some((VFlat::Block(n, args), k))
    } else if char_at(s, p, '/') && tident_s(s, p + 1) is Some {
        let (n, j) = tident_s(s, p + 1)->Some_0;
        Some((VFlat::EndBlock(n), skip_ws(s, j)))
    } else {
        match pipe_s(s, skip_wn(s, p)) {
            Some((x, m)) => Some((VFlat::Pipe(x), m)),
            None => None,
        }
    }
}

/// One piece of plain text: an escaped run of whitespace (which vanishes, with an optional
/// second backslash), an escaped character, a lone `{`, a run of whitespace, or a run of other
/// text.
pub open spec fn string_item_s(s: Seq<char>, i: int) -> Option<(Seq<char>, int)> {
    if i < 0 || i >= s.len() {
        None
    } else if s[i] == '\\' {
        if i + 1 < s.len() && is_wn(s[i + 1]) {
            let k = skip_wn(s, i + 1);
            if char_at(s, k, '\\') {
                Some((seq![], k + 1))
            } else {
                Some((seq![], k))
            }
        } else if i + 1 < s.len() {
            Some((seq![s[i + 1]], i + 2))
        } else {
            None
        }
    } else if s[i] == '{' {
        if char_at(s, i + 1, '{') {
            None
        } else {
            Some((seq!['{'], i + 1))
        }
    } else if is_wn(s[i]) {
        Some((s.subrange(i, skip_wn(s, i)), skip_wn(s, i)))
    } else {
        Some((s.subrange(i, text_end(s, i)), text_end(s, i)))
    }
}

/// The end of the run of plain characters (not whitespace, `{` or `\`) from `i`.
pub open spec fn text_end(s: Seq<char>, i: int) -> int
    decreases s.len() - i,
{
    if 0 <= i < s.len() && !is_wn(s[i]) && s[i] != '{' && s[i] != '\\' {
        text_end(s, i + 1)
    } else {
        i
    }
}

/// Plain text from `i`: at least one piece, then pieces up to the end or the next tag.
pub open spec fn strings_s(s: Seq<char>, i: int) -> Option<(Seq<char>, int)>
    decreases s.len() - i, 1nat,
{
    match string_item_s(s, i) {
        None => None,
        Some((t, j)) => if j > i && j <= s.len() {
            if j >= s.len() || iopen_s(s, j) is Some {
                Some((t, j))
            } else {
                match strings_s(s, j) {
                    Some((r, k)) => Some((t + r, k)),
                    None => None,
                }
            }
        } else {
            None
        },
    }
}

/// One flat item from `i`: a tag, or else plain text.
pub open spec fn item_s(s: Seq<char>, i: int) -> Option<(VFlat, int)> {
    match iopen_s(s, i) {
        Some(p) => match tag_s(s, p) {
            Some((x, q)) => match iclose_s(s, q) {
                Some(e) => Some((x, e)),
                None => None,
            },
            None => None,
        },
        None => match strings_s(s, i) {
            Some((t, j)) => Some((VFlat::String(t), j)),
            None => None,
        },
    }
}

/// The flat items from `i` to the end of the text.
pub open spec fn file_s(s: Seq<char>, i: int) -> Option<Seq<VFlat>>
    decreases s.len() - i,
{
    if i < 0 || i >= s.len() {
        Some(seq![])
    } else {
        match item_s(s, i) {
            None => None,
            Some((x, j)) => if j > i && j <= s.len() {
                match file_s(s, j) {
                    Some(rest) => Some(seq![x] + rest),
                    None => None,
                }
            } else {
                None
            },
        }
    }
}

/// Skipping whitespace never goes back, nor past the end.
pub proof fn lemma_skip_wn(s: Seq<char>, i: int)
    ensures
        skip_wn(s, i) >= i,
        0 <= i <= s.len() ==> skip_wn(s, i) <= s.len(),
    decreases s.len() - i,
{
    if 0 <= i < s.len() && is_wn(s[i]) {
        lemma_skip_wn(s, i + 1);
    }
}

} // verus!
