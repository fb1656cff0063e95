//! JSON grammar and parser. The grammar is a set of spec functions over
//! character sequences; the executable parser is proved to return exactly
//! what the grammar accepts.

use crate::json::{
    is_number_lit, is_ws, scan_digits, scan_number, view_elems, view_members, Json, JsonValue,
};
use crate::num::is_digit;
use vstd::prelude::*;

verus! {

/// First index at or after `i` that holds a non-whitespace character
/// (clamped to the end).
pub open spec fn skip_ws(s: Seq<char>, i: int) -> int
    decreases s.len() - i,
{
    if 0 <= i < s.len() && is_ws(s[i]) {
        skip_ws(s, i + 1)
    } else {
        i
    }
}

/// Is `c` a hexadecimal digit?
pub open spec fn is_hex(c: char) -> bool {
    is_digit(c) || ('a' <= c && c <= 'f') || ('A' <= c && c <= 'F')
}

/// Numeric value of a hexadecimal digit character.
pub open spec fn hex_val(c: char) -> u32 {
    if is_digit(c) {
        (c as u32 - 48) as u32
    } else if 'a' <= c && c <= 'f' {
        (c as u32 - 87) as u32
    } else {
        (c as u32 - 55) as u32
    }
}

/// The value of the four hexadecimal digits at `i`, or `None` when fewer
/// than four characters remain or one is not hexadecimal.
pub open spec fn hex4(s: Seq<char>, i: int) -> Option<u32> {
    if 0 <= i && i + 4 <= s.len() && is_hex(s[i]) && is_hex(s[i + 1]) && is_hex(s[i + 2]) && is_hex(
        s[i + 3],
    ) {
        Some(
            (((hex_val(s[i]) * 4096) + (hex_val(s[i + 1]) * 256) + (hex_val(s[i + 2]) * 16)
                + hex_val(s[i + 3])) as u32),
        )
    } else {
        None
    }
}

/// The character denoted by a simple (single-letter) string escape.
pub open spec fn simple_escape(c: char) -> Option<char> {
    if c == '"' {
        Some('"')
    } else if c == '\\' {
        Some('\\')
    } else if c == '/' {
        Some('/')
    } else if c == 'b' {
        Some(8u32 as char)
    } else if c == 'f' {
        Some(12u32 as char)
    } else if c == 'n' {
        Some('\n')
    } else if c == 'r' {
        Some('\r')
    } else if c == 't' {
        Some('\t')
    } else {
        None
    }
}

/// Is `u` a leading (high) UTF-16 surrogate code unit?
pub open spec fn is_high_surrogate(u: u32) -> bool {
    0xD800 <= u && u < 0xDC00
}

/// Is `u` a trailing (low) UTF-16 surrogate code unit?
pub open spec fn is_low_surrogate(u: u32) -> bool {
    0xDC00 <= u && u < 0xE000
}

/// The character encoded by a UTF-16 surrogate pair.
pub open spec fn surrogate_char(hi: u32, lo: u32) -> char {
    (((hi - 0xD800) * 0x400 + (lo - 0xDC00) + 0x10000) as u32) as char
}

/// Scans the content of a JSON string starting just after the opening
/// quote: returns the decoded characters and the index just after the
/// closing quote. `None` when the text up to the closing quote is not a
/// valid JSON string body (an unescaped control character, a bad escape, a
/// lone surrogate, or no closing quote).
pub open spec fn scan_string(s: Seq<char>, i: int) -> Option<(Seq<char>, int)>
    decreases s.len() - i,
{
    if !(0 <= i < s.len()) {
        None
    } else if s[i] == '"' {
        Some((Seq::empty(), i + 1))
    } else if s[i] == '\\' {
        if !(i + 1 < s.len()) {
            None
        } else if s[i + 1] == 'u' {
            match hex4(s, i + 2) {
                None => None,
                Some(u) => {
                    if is_high_surrogate(u) {
                        if i + 7 < s.len() && s[i + 6] == '\\' && s[i + 7] == 'u' {
                            match hex4(s, i + 8) {
                                None => None,
                                Some(u2) => {
                                    if is_low_surrogate(u2) {
                                        match scan_string(s, i + 12) {
                                            None => None,
                                            Some((rest, k)) => Some(
                                                (seq![surrogate_char(u, u2)] + rest, k),
                                            ),
                                        }
                                    } else {
                                        None
                                    }
                                },
                            }
                        } else {
                            None
                        }
                    } else if is_low_surrogate(u) {
                        None
                    } else {
                        match scan_string(s, i + 6) {
                            None => None,
                            Some((rest, k)) => Some((seq![u as char] + rest, k)),
                        }
                    }
                },
            }
        } else {
            match simple_escape(s[i + 1]) {
                None => None,
                Some(c) => match scan_string(s, i + 2) {
                    None => None,
                    Some((rest, k)) => Some((seq![c] + rest, k)),
                },
            }
        }
    } else if (s[i] as u32) < 32 {
        None
    } else {
        match scan_string(s, i + 1) {
            None => None,
            Some((rest, k)) => Some((seq![s[i]] + rest, k)),
        }
    }
}

/// Does the keyword `null`, `true` or `false` (already identified by its
/// first character) stand at `i`?
pub open spec fn has_keyword(s: Seq<char>, i: int, kw: Seq<char>) -> bool {
    0 <= i && i + kw.len() <= s.len() && s.subrange(i, i + kw.len()) == kw
}

/// Parses one JSON value whose first character stands at `i` (no leading
/// whitespace). `fuel` bounds the nesting; every level of nesting consumes
/// at least one character, so any fuel of at least `2 * (s.len() - i) + 2`
/// gives the same result (see [`lemma_parse_value_fuel`]).
pub open spec fn parse_value(s: Seq<char>, i: int, fuel: nat) -> Option<(Json, int)>
    decreases fuel,
{
    if fuel == 0 {
        None
    } else if !(0 <= i < s.len()) {
        None
    } else {
        let c = s[i];
        if c == 'n' {
            if has_keyword(s, i, seq!['n', 'u', 'l', 'l']) {
                Some((Json::Null, i + 4))
            } else {
                None
            }
        } else if c == 't' {
            if has_keyword(s, i, seq!['t', 'r', 'u', 'e']) {
                Some((Json::Bool(true), i + 4))
            } else {
                None
            }
        } else if c == 'f' {
            if has_keyword(s, i, seq!['f', 'a', 'l', 's', 'e']) {
                Some((Json::Bool(false), i + 5))
            } else {
                None
            }
        } else if c == '"' {
            match scan_string(s, i + 1) {
                None => None,
                Some((cs, j)) => Some((Json::Str(cs), j)),
            }
        } else if c == '-' || is_digit(c) {
            match scan_number(s, i) {
                None => None,
                Some(j) => {
                    if is_number_lit(s.subrange(i, j)) {
                        Some((Json::Num(s.subrange(i, j)), j))
                    } else {
                        None
                    }
                },
            }
        } else if c == '[' {
            let j = skip_ws(s, i + 1);
            if j < s.len() && s[j] == ']' {
                Some((Json::Arr(Seq::empty()), j + 1))
            } else {
                match parse_elems(s, j, (fuel - 1) as nat) {
                    None => None,
                    Some((es, k)) => Some((Json::Arr(es), k)),
                }
            }
        } else if c == '{' {
            let j = skip_ws(s, i + 1);
            if j < s.len() && s[j] == '}' {
                Some((Json::Obj(Seq::empty()), j + 1))
            } else {
                match parse_membs(s, j, (fuel - 1) as nat) {
                    None => None,
                    Some((ms, k)) => Some((Json::Obj(ms), k)),
                }
            }
        } else {
            None
        }
    }
}

/// Parses the non-empty element list of an array, starting at the first
/// element, up to and including the closing bracket.
pub open spec fn parse_elems(s: Seq<char>, i: int, fuel: nat) -> Option<(Seq<Json>, int)>
    decreases fuel,
{
    if fuel == 0 {
        None
    } else {
        match parse_value(s, i, (fuel - 1) as nat) {
            None => None,
            Some((v, j)) => {
                let k = skip_ws(s, j);
                if k < s.len() && s[k] == ',' {
                    match parse_elems(s, skip_ws(s, k + 1), (fuel - 1) as nat) {
                        None => None,
                        Some((es, m)) => Some((seq![v] + es, m)),
                    }
                } else if k < s.len() && s[k] == ']' {
                    Some((seq![v], k + 1))
                } else {
                    None
                }
            },
        }
    }
}

/// Parses the non-empty member list of an object, starting at the first
/// key's opening quote, up to and including the closing brace.
pub open spec fn parse_membs(s: Seq<char>, i: int, fuel: nat) -> Option<
    (Seq<(Seq<char>, Json)>, int),
>
    decreases fuel,
{
    if fuel == 0 {
        None
    } else if !(0 <= i < s.len() && s[i] == '"') {
        None
    } else {
        match scan_string(s, i + 1) {
            None => None,
            Some((key, j)) => {
                let k = skip_ws(s, j);
                if !(k < s.len() && s[k] == ':') {
                    None
                } else {
                    match parse_value(s, skip_ws(s, k + 1), (fuel - 1) as nat) {
                        None => None,
                        Some((v, m)) => {
                            let p = skip_ws(s, m);
                            if p < s.len() && s[p] == ',' {
                                match parse_membs(s, skip_ws(s, p + 1), (fuel - 1) as nat) {
                                    None => None,
                                    Some((ms, q)) => Some((seq![(key, v)] + ms, q)),
                                }
                            } else if p < s.len() && s[p] == '}' {
                                Some((seq![(key, v)], p + 1))
                            } else {
                                None
                            }
                        },
                    }
                }
            },
        }
    }
}

/// The fuel that certainly suffices to parse a value starting at `i`.
pub open spec fn enough_fuel(s: Seq<char>, i: int) -> nat {
    (if i <= s.len() {
        2 * (s.len() - i) + 2
    } else {
        2
    }) as nat
}

/// Whitespace skipping stays inside the input and never goes backwards.
pub proof fn lemma_skip_ws(s: Seq<char>, i: int)
    requires
        0 <= i <= s.len(),
    ensures
        i <= skip_ws(s, i) <= s.len(),
    decreases s.len() - i,
{
    if i < s.len() && is_ws(s[i]) {
        lemma_skip_ws(s, i + 1);
    }
}

/// Digit scanning stays inside the input and never goes backwards.
pub proof fn lemma_scan_digits(s: Seq<char>, i: int)
    requires
        0 <= i <= s.len(),
    ensures
        i <= scan_digits(s, i) <= s.len(),
    decreases s.len() - i,
{
    if i < s.len() && is_digit(s[i]) {
        lemma_scan_digits(s, i + 1);
    }
}

/// A number scan that succeeds consumes at least one character and stays
/// inside the input.
pub proof fn lemma_scan_number(s: Seq<char>, i: int)
    requires
        0 <= i <= s.len(),
    ensures
        scan_number(s, i) is Some ==> i < scan_number(s, i)->0 <= s.len(),
{
    let j = if 0 <= i < s.len() && s[i] == '-' {
        i + 1
    } else {
        i
    };
    if 0 <= j < s.len() && is_digit(s[j]) {
        lemma_scan_digits(s, j);
        lemma_scan_digits(s, j + 1);
        let k = if s[j] == '0' {
            j + 1
        } else {
            scan_digits(s, j)
        };
        if k < s.len() && s[k] == '.' {
            lemma_scan_digits(s, k + 1);
        }
        let k2 = if k < s.len() && s[k] == '.' {
            if scan_digits(s, k + 1) == k + 1 {
                k
            } else {
                scan_digits(s, k + 1)
            }
        } else {
            k
        };
        if k2 < s.len() && (s[k2] == 'e' || s[k2] == 'E') {
            let e = if k2 + 1 < s.len() && (s[k2 + 1] == '+' || s[k2 + 1] == '-') {
                k2 + 2
            } else {
                k2 + 1
            };
            if e <= s.len() {
                lemma_scan_digits(s, e);
            }
        }
    }
}

/// A string scan that succeeds consumes at least one character (the closing
/// quote) and stays inside the input.
pub proof fn lemma_scan_string(s: Seq<char>, i: int)
    ensures
        scan_string(s, i) is Some ==> i < (scan_string(s, i)->0).1 <= s.len(),
    decreases s.len() - i,
{
    if 0 <= i < s.len() {
        if s[i] == '"' {
        } else if s[i] == '\\' {
            if i + 1 < s.len() {
                if s[i + 1] == 'u' {
                    if i + 6 <= s.len() {
                        lemma_scan_string(s, i + 6);
                    }
                    if i + 12 <= s.len() {
                        lemma_scan_string(s, i + 12);
                    }
                } else {
                    lemma_scan_string(s, i + 2);
                }
            }
        } else {
            lemma_scan_string(s, i + 1);
        }
    }
}

/// A value parse that succeeds consumes at least one character and stays
/// inside the input.
pub proof fn lemma_parse_value_progress(s: Seq<char>, i: int, fuel: nat)
    ensures
        parse_value(s, i, fuel) is Some ==> i < (parse_value(s, i, fuel)->0).1 <= s.len(),
    decreases fuel, 0int,
{
    if fuel > 0 && 0 <= i < s.len() {
        let c = s[i];
        if c == '"' {
            lemma_scan_string(s, i + 1);
        } else if c == '-' || is_digit(c) {
            lemma_scan_number(s, i);
        } else if c == '[' || c == '{' {
            lemma_skip_ws(s, i + 1);
            let j = skip_ws(s, i + 1);
            if c == '[' {
                lemma_parse_elems_progress(s, j, (fuel - 1) as nat);
            } else {
                lemma_parse_membs_progress(s, j, (fuel - 1) as nat);
            }
        }
    }
}

/// An element-list parse that succeeds consumes at least one character and
/// stays inside the input.
pub proof fn lemma_parse_elems_progress(s: Seq<char>, i: int, fuel: nat)
    ensures
        parse_elems(s, i, fuel) is Some ==> i < (parse_elems(s, i, fuel)->0).1 <= s.len(),
    decreases fuel, 1int,
{
    if fuel > 0 {
        lemma_parse_value_progress(s, i, (fuel - 1) as nat);
        match parse_value(s, i, (fuel - 1) as nat) {
            None => {},
            Some((v, j)) => {
                lemma_skip_ws(s, j);
                let k = skip_ws(s, j);
                if k < s.len() && s[k] == ',' {
                    lemma_skip_ws(s, k + 1);
                    lemma_parse_elems_progress(s, skip_ws(s, k + 1), (fuel - 1) as nat);
                }
            },
        }
    }
}

/// A member-list parse that succeeds consumes at least one character and
/// stays inside the input.
pub proof fn lemma_parse_membs_progress(s: Seq<char>, i: int, fuel: nat)
    ensures
        parse_membs(s, i, fuel) is Some ==> i < (parse_membs(s, i, fuel)->0).1 <= s.len(),
    decreases fuel, 1int,
{
    if fuel > 0 && 0 <= i < s.len() && s[i] == '"' {
        lemma_scan_string(s, i + 1);
        match scan_string(s, i + 1) {
            None => {},
            Some((key, j)) => {
                lemma_skip_ws(s, j);
                let k = skip_ws(s, j);
                if k < s.len() && s[k] == ':' {
                    lemma_skip_ws(s, k + 1);
                    lemma_parse_value_progress(s, skip_ws(s, k + 1), (fuel - 1) as nat);
                    match parse_value(s, skip_ws(s, k + 1), (fuel - 1) as nat) {
                        None => {},
                        Some((v, m)) => {
                            lemma_skip_ws(s, m);
                            let p = skip_ws(s, m);
                            if p < s.len() && s[p] == ',' {
                                lemma_skip_ws(s, p + 1);
                                lemma_parse_membs_progress(s, skip_ws(s, p + 1), (fuel - 1) as nat);
                            }
                        },
                    }
                }
            },
        }
    }
}

/// Any two fuels at or above [`enough_fuel`] give the same value parse.
pub proof fn lemma_parse_value_fuel(s: Seq<char>, i: int, f: nat, g: nat)
    requires
        f >= enough_fuel(s, i),
        g >= enough_fuel(s, i),
    ensures
        parse_value(s, i, f) == parse_value(s, i, g),
    decreases f + g, 0int,
{
    if 0 <= i < s.len() {
        let c = s[i];
        if c == '[' || c == '{' {
            lemma_skip_ws(s, i + 1);
            let j = skip_ws(s, i + 1);
            if c == '[' {
                if !(j < s.len() && s[j] == ']') {
                    lemma_parse_elems_fuel(s, j, (f - 1) as nat, (g - 1) as nat);
                }
            } else {
                if !(j < s.len() && s[j] == '}') {
                    lemma_parse_membs_fuel(s, j, (f - 1) as nat, (g - 1) as nat);
                }
            }
        }
    }
}

/// Any two fuels at or above `enough_fuel + 1` give the same element-list
/// parse.
pub proof fn lemma_parse_elems_fuel(s: Seq<char>, i: int, f: nat, g: nat)
    requires
        f >= enough_fuel(s, i) + 1,
        g >= enough_fuel(s, i) + 1,
    ensures
        parse_elems(s, i, f) == parse_elems(s, i, g),
    decreases f + g, 1int,
{
    lemma_parse_value_fuel(s, i, (f - 1) as nat, (g - 1) as nat);
    lemma_parse_value_progress(s, i, (f - 1) as nat);
    match parse_value(s, i, (f - 1) as nat) {
        None => {},
        Some((v, j)) => {
            lemma_skip_ws(s, j);
            let k = skip_ws(s, j);
            if k < s.len() && s[k] == ',' {
                lemma_skip_ws(s, k + 1);
                lemma_parse_elems_fuel(s, skip_ws(s, k + 1), (f - 1) as nat, (g - 1) as nat);
            }
        },
    }
}

/// Any two fuels at or above `enough_fuel + 1` give the same member-list
/// parse.
pub proof fn lemma_parse_membs_fuel(s: Seq<char>, i: int, f: nat, g: nat)
    requires
        f >= enough_fuel(s, i) + 1,
        g >= enough_fuel(s, i) + 1,
    ensures
        parse_membs(s, i, f) == parse_membs(s, i, g),
    decreases f + g, 1int,
{
    if 0 <= i < s.len() && s[i] == '"' {
        lemma_scan_string(s, i + 1);
        match scan_string(s, i + 1) {
            None => {},
            Some((key, j)) => {
                lemma_skip_ws(s, j);
                let k = skip_ws(s, j);
                if k < s.len() && s[k] == ':' {
                    lemma_skip_ws(s, k + 1);
                    let vi = skip_ws(s, k + 1);
                    lemma_parse_value_fuel(s, vi, (f - 1) as nat, (g - 1) as nat);
                    lemma_parse_value_progress(s, vi, (f - 1) as nat);
                    match parse_value(s, vi, (f - 1) as nat) {
                        None => {},
                        Some((v, m)) => {
                            lemma_skip_ws(s, m);
                            let p = skip_ws(s, m);
                            if p < s.len() && s[p] == ',' {
                                lemma_skip_ws(s, p + 1);
                                lemma_parse_membs_fuel(
                                    s,
                                    skip_ws(s, p + 1),
                                    (f - 1) as nat,
                                    (g - 1) as nat,
                                );
                            }
                        },
                    }
                }
            },
        }
    }
}

/// One JSON document: optional whitespace, one value, optional whitespace,
/// end of input.
pub open spec fn parse_json(s: Seq<char>) -> Option<Json> {
    let i = skip_ws(s, 0);
    match parse_value(s, i, enough_fuel(s, i)) {
        None => None,
        Some((v, j)) => if skip_ws(s, j) == s.len() {
            Some(v)
        } else {
            None
        },
    }
}

/// Relies on `char::from_u32`: returns the character with the given code
/// exactly when the code is a Unicode scalar value (not a surrogate, not
/// above the maximum code point).
pub assume_specification[ char::from_u32 ](v: u32) -> (r: Option<char>)
    ensures
        r is Some <==> (v < 0xD800 || (0xE000 <= v && v <= 0x10FFFF)),
        r is Some ==> r->0 == v as char,
;

/// Index just after the whitespace run starting at `i`.
fn ws_end(s: &Vec<char>, i: usize) -> (j: usize)
    requires
        i <= s@.len(),
    ensures
        j as int == skip_ws(s@, i as int),
        i <= j <= s@.len(),
{
    let mut j = i;
    while j < s.len() && (s[j] == ' ' || s[j] == '\t' || s[j] == '\n' || s[j] == '\r')
        invariant
            i <= j <= s@.len(),
            skip_ws(s@, i as int) == skip_ws(s@, j as int),
        decreases s@.len() - j,
    {
        j = j + 1;
    }
    j
}

/// Index just after the digit run starting at `i`.
fn digits_end(s: &Vec<char>, i: usize) -> (j: usize)
    requires
        i <= s@.len(),
    ensures
        j as int == scan_digits(s@, i as int),
        i <= j <= s@.len(),
{
    let mut j = i;
    while j < s.len() && '0' <= s[j] && s[j] <= '9'
        invariant
            i <= j <= s@.len(),
            scan_digits(s@, i as int) == scan_digits(s@, j as int),
        decreases s@.len() - j,
    {
        j = j + 1;
    }
    j
}

/// End index of the JSON number starting at `i`, as the grammar gives it.
pub(crate) fn number_end(s: &Vec<char>, i: usize) -> (r: Option<usize>)
    requires
        i <= s@.len(),
    ensures
        match r {
            Some(j) => scan_number(s@, i as int) == Some(j as int) && i < j <= s@.len(),
            None => scan_number(s@, i as int) is None,
        },
{
    proof {
        lemma_scan_number(s@, i as int);
    }
    let j = if i < s.len() && s[i] == '-' {
        i + 1
    } else {
        i
    };
    if !(j < s.len() && '0' <= s[j] && s[j] <= '9') {
        return None;
    }
    let k = if s[j] == '0' {
        j + 1
    } else {
        digits_end(s, j)
    };
    let k2 = if k < s.len() && s[k] == '.' {
        let d = digits_end(s, k + 1);
        if d == k + 1 {
            return None;
        }
        d
    } else {
        k
    };
    if k2 < s.len() && (s[k2] == 'e' || s[k2] == 'E') {
        let e = if k2 + 1 < s.len() && (s[k2 + 1] == '+' || s[k2 + 1] == '-') {
            k2 + 2
        } else {
            k2 + 1
        };
        let d2 = digits_end(s, e);
        if d2 == e {
            return None;
        }
        Some(d2)
    } else {
        Some(k2)
    }
}

/// Copies the characters of `s` in `from .. to` into a fresh vector.
pub(crate) fn copy_range(s: &Vec<char>, from: usize, to: usize) -> (out: Vec<char>)
    requires
        from <= to <= s@.len(),
    ensures
        out@ == s@.subrange(from as int, to as int),
{
    let mut out: Vec<char> = Vec::new();
    let mut t = from;
    while t < to
        invariant
            from <= t <= to <= s@.len(),
            out@ == s@.subrange(from as int, t as int),
        decreases to - t,
    {
        out.push(s[t]);
        proof {
            assert(s@.subrange(from as int, t + 1 as int) =~= s@.subrange(from as int, t as int)
                + seq![s@[t as int]]);
        }
        t = t + 1;
    }
    out
}

/// Value of one hexadecimal digit character, as the grammar gives it.
fn hexd(c: char) -> (r: Option<u32>)
    ensures
        r is Some <==> is_hex(c),
        r is Some ==> r->0 == hex_val(c),
{
    if '0' <= c && c <= '9' {
        Some(c as u32 - 48)
    } else if 'a' <= c && c <= 'f' {
        Some(c as u32 - 87)
    } else if 'A' <= c && c <= 'F' {
        Some(c as u32 - 55)
    } else {
        None
    }
}

/// The value of the four hexadecimal digits at `i`, as the grammar gives it.
fn hex4_at(s: &Vec<char>, i: usize) -> (r: Option<u32>)
    requires
        i <= s@.len(),
    ensures
        r == hex4(s@, i as int),
{
    if s.len() - i < 4 {
        return None;
    }
    let d0 = match hexd(s[i]) {
        Some(d) => d,
        None => {
            return None;
        },
    };
    let d1 = match hexd(s[i + 1]) {
        Some(d) => d,
        None => {
            return None;
        },
    };
    let d2 = match hexd(s[i + 2]) {
        Some(d) => d,
        None => {
            return None;
        },
    };
    let d3 = match hexd(s[i + 3]) {
        Some(d) => d,
        None => {
            return None;
        },
    };
    Some(d0 * 4096 + d1 * 256 + d2 * 16 + d3)
}

/// Scans a string body, as the grammar gives it: the decoded content and
/// the index just after the closing quote.
fn string_body(s: &Vec<char>, start: usize) -> (r: Option<(Vec<char>, usize)>)
    requires
        start <= s@.len(),
    ensures
        match r {
            Some(p) => scan_string(s@, start as int) == Some((p.0@, p.1 as int)) && start < p.1
                <= s@.len(),
            None => scan_string(s@, start as int) is None,
        },
{
    proof {
        lemma_scan_string(s@, start as int);
    }
    let mut acc: Vec<char> = Vec::new();
    let mut i = start;
    loop
        invariant
            start <= i <= s@.len(),
            forall|rest: Seq<char>, k: int|
                scan_string(s@, i as int) == Some((rest, k)) ==> scan_string(s@, start as int)
                    == Some((acc@ + rest, k)),
            scan_string(s@, i as int) is None ==> scan_string(s@, start as int) is None,
        decreases s@.len() - i,
    {
        proof {
            lemma_scan_string(s@, i as int);
        }
        if i == s.len() {
            return None;
        }
        let c = s[i];
        if c == '"' {
            proof {
                assert(scan_string(s@, i as int) == Some((Seq::<char>::empty(), i + 1 as int)));
                assert(acc@ + Seq::<char>::empty() =~= acc@);
            }
            return Some((acc, i + 1));
        } else if c == '\\' {
            if s.len() - i < 2 {
                return None;
            }
            let e = s[i + 1];
            if e == 'u' {
                let u = match hex4_at(s, i + 2) {
                    Some(u) => u,
                    None => {
                        return None;
                    },
                };
                if 0xD800 <= u && u < 0xDC00 {
                    if !(s.len() - i > 7 && s[i + 6] == '\\' && s[i + 7] == 'u') {
                        return None;
                    }
                    let u2 = match hex4_at(s, i + 8) {
                        Some(u2) => u2,
                        None => {
                            return None;
                        },
                    };
                    if !(0xDC00 <= u2 && u2 < 0xE000) {
                        return None;
                    }
                    let code = (u - 0xD800) * 0x400 + (u2 - 0xDC00) + 0x10000;
                    let ch = match char::from_u32(code) {
                        Some(ch) => ch,
                        None => {
                            proof {
                                assert(false);
                            }
                            return None;
                        },
                    };
                    let ghost old_acc = acc@;
                    acc.push(ch);
                    proof {
                        assert(ch == surrogate_char(u, u2));
                        assert forall|rest: Seq<char>, k: int|
                            scan_string(s@, i + 12 as int) == Some((rest, k)) implies scan_string(
                            s@,
                            start as int,
                        ) == Some((acc@ + rest, k)) by {
                            assert(scan_string(s@, i as int) == Some((seq![ch] + rest, k)));
                            assert(old_acc + (seq![ch] + rest) =~= acc@ + rest);
                        }
                    }
                    i = i + 12;
                } else if 0xDC00 <= u && u < 0xE000 {
                    return None;
                } else {
                    let ch = match char::from_u32(u) {
                        Some(ch) => ch,
                        None => {
                            proof {
                                assert(false);
                            }
                            return None;
                        },
                    };
                    let ghost old_acc = acc@;
                    acc.push(ch);
                    proof {
                        assert forall|rest: Seq<char>, k: int|
                            scan_string(s@, i + 6 as int) == Some((rest, k)) implies scan_string(
                            s@,
                            start as int,
                        ) == Some((acc@ + rest, k)) by {
                            assert(scan_string(s@, i as int) == Some((seq![ch] + rest, k)));
                            assert(old_acc + (seq![ch] + rest) =~= acc@ + rest);
                        }
                    }
                    i = i + 6;
                }
            } else {
                let ch = if e == '"' {
                    '"'
                } else if e == '\\' {
                    '\\'
                } else if e == '/' {
                    '/'
                } else if e == 'b' {
                    match char::from_u32(8) {
                        Some(ch) => ch,
                        None => {
                            proof {
                                assert(false);
                            }
                            return None;
                        },
                    }
                } else if e == 'f' {
                    match char::from_u32(12) {
                        Some(ch) => ch,
                        None => {
                            proof {
                                assert(false);
                            }
                            return None;
                        },
                    }
                } else if e == 'n' {
                    '\n'
                } else if e == 'r' {
                    '\r'
                } else if e == 't' {
                    '\t'
                } else {
                    return None;
                };
                let ghost old_acc = acc@;
                acc.push(ch);
                proof {
                    assert(simple_escape(e) == Some(ch));
                    assert forall|rest: Seq<char>, k: int|
                        scan_string(s@, i + 2 as int) == Some((rest, k)) implies scan_string(
                        s@,
                        start as int,
                    ) == Some((acc@ + rest, k)) by {
                        assert(scan_string(s@, i as int) == Some((seq![ch] + rest, k)));
                        assert(old_acc + (seq![ch] + rest) =~= acc@ + rest);
                    }
                }
                i = i + 2;
            }
        } else if (c as u32) < 32 {
            return None;
        } else {
            let ghost old_acc = acc@;
            acc.push(c);
            proof {
                assert forall|rest: Seq<char>, k: int|
                    scan_string(s@, i + 1 as int) == Some((rest, k)) implies scan_string(
                    s@,
                    start as int,
                ) == Some((acc@ + rest, k)) by {
                    assert(scan_string(s@, i as int) == Some((seq![c] + rest, k)));
                    assert(old_acc + (seq![c] + rest) =~= acc@ + rest);
                }
            }
            i = i + 1;
        }
    }
}

/// Parses one JSON value starting exactly at `i`, as the grammar gives it.
fn parse_value_exec(s: &Vec<char>, i: usize) -> (r: Option<(JsonValue, usize)>)
    requires
        i <= s@.len(),
    ensures
        match r {
            Some(p) => parse_value(s@, i as int, enough_fuel(s@, i as int)) == Some(
                (p.0@, p.1 as int),
            ) && i < p.1 <= s@.len(),
            None => parse_value(s@, i as int, enough_fuel(s@, i as int)) is None,
        },
    decreases s@.len() - i, 0int,
{
    let ghost fuel = enough_fuel(s@, i as int);
    if i == s.len() {
        return None;
    }
    let c = s[i];
    if c == 'n' {
        if s.len() - i > 3 && s[i + 1] == 'u' && s[i + 2] == 'l' && s[i + 3] == 'l' {
            proof {
                assert(s@.subrange(i as int, i + 4 as int) =~= seq!['n', 'u', 'l', 'l']);
            }
            Some((JsonValue::Null, i + 4))
        } else {
            proof {
                assert(!has_keyword(s@, i as int, seq!['n', 'u', 'l', 'l'])) by {
                    if has_keyword(s@, i as int, seq!['n', 'u', 'l', 'l']) {
                        assert(s@[i + 1 as int] == s@.subrange(i as int, i + 4 as int)[1]);
                        assert(s@[i + 2 as int] == s@.subrange(i as int, i + 4 as int)[2]);
                        assert(s@[i + 3 as int] == s@.subrange(i as int, i + 4 as int)[3]);
                    }
                }
            }
            None
        }
    } else if c == 't' {
        if s.len() - i > 3 && s[i + 1] == 'r' && s[i + 2] == 'u' && s[i + 3] == 'e' {
            proof {
                assert(s@.subrange(i as int, i + 4 as int) =~= seq!['t', 'r', 'u', 'e']);
            }
            Some((JsonValue::Bool(true), i + 4))
        } else {
            proof {
                assert(!has_keyword(s@, i as int, seq!['t', 'r', 'u', 'e'])) by {
                    if has_keyword(s@, i as int, seq!['t', 'r', 'u', 'e']) {
                        assert(s@[i + 1 as int] == s@.subrange(i as int, i + 4 as int)[1]);
                        assert(s@[i + 2 as int] == s@.subrange(i as int, i + 4 as int)[2]);
                        assert(s@[i + 3 as int] == s@.subrange(i as int, i + 4 as int)[3]);
                    }
                }
            }
            None
        }
    } else if c == 'f' {
        if s.len() - i > 4 && s[i + 1] == 'a' && s[i + 2] == 'l' && s[i + 3] == 's' && s[i + 4]
            == 'e' {
            proof {
                assert(s@.subrange(i as int, i + 5 as int) =~= seq!['f', 'a', 'l', 's', 'e']);
            }
            Some((JsonValue::Bool(false), i + 5))
        } else {
            proof {
                assert(!has_keyword(s@, i as int, seq!['f', 'a', 'l', 's', 'e'])) by {
                    if has_keyword(s@, i as int, seq!['f', 'a', 'l', 's', 'e']) {
                        assert(s@[i + 1 as int] == s@.subrange(i as int, i + 5 as int)[1]);
                        assert(s@[i + 2 as int] == s@.subrange(i as int, i + 5 as int)[2]);
                        assert(s@[i + 3 as int] == s@.subrange(i as int, i + 5 as int)[3]);
                        assert(s@[i + 4 as int] == s@.subrange(i as int, i + 5 as int)[4]);
                    }
                }
            }
            None
        }
    } else if c == '"' {
        match string_body(s, i + 1) {
            None => None,
            Some((cs, j)) => {
                let content = crate::text::chars_to_string(&cs);
                Some((JsonValue::Str(content), j))
            },
        }
    } else if c == '-' || ('0' <= c && c <= '9') {
        match number_end(s, i) {
            None => None,
            Some(j) => {
                let lit = copy_range(s, i, j);
                match number_end(&lit, 0) {
                    Some(e) if e == lit.len() => {
                        let text = crate::text::chars_to_string(&lit);
                        Some((JsonValue::Num(text), j))
                    },
                    _ => {
                        proof {
                            assert(!is_number_lit(s@.subrange(i as int, j as int)));
                        }
                        None
                    },
                }
            },
        }
    } else if c == '[' {
        let j = ws_end(s, i + 1);
        if j < s.len() && s[j] == ']' {
            proof {
                assert(view_elems(Seq::<JsonValue>::empty()) =~= Seq::<Json>::empty());
            }
            let items: Vec<JsonValue> = Vec::new();
            Some((JsonValue::Arr(items), j + 1))
        } else {
            proof {
                lemma_parse_elems_fuel(
                    s@,
                    j as int,
                    (fuel - 1) as nat,
                    enough_fuel(s@, j as int) + 1,
                );
            }
            match parse_elems_exec(s, j) {
                None => None,
                Some((items, k)) => Some((JsonValue::Arr(items), k)),
            }
        }
    } else if c == '{' {
        let j = ws_end(s, i + 1);
        if j < s.len() && s[j] == '}' {
            proof {
                assert(view_members(Seq::<(String, JsonValue)>::empty()) =~= Seq::<
                    (Seq<char>, Json),
                >::empty());
            }
            let members: Vec<(String, JsonValue)> = Vec::new();
            Some((JsonValue::Obj(members), j + 1))
        } else {
            proof {
                lemma_parse_membs_fuel(
                    s@,
                    j as int,
                    (fuel - 1) as nat,
                    enough_fuel(s@, j as int) + 1,
                );
            }
            match parse_membs_exec(s, j) {
                None => None,
                Some((members, k)) => Some((JsonValue::Obj(members), k)),
            }
        }
    } else {
        None
    }
}

/// Parses the non-empty element list of an array, as the grammar gives it.
fn parse_elems_exec(s: &Vec<char>, i0: usize) -> (r: Option<(Vec<JsonValue>, usize)>)
    requires
        i0 <= s@.len(),
    ensures
        match r {
            Some(p) => parse_elems(s@, i0 as int, enough_fuel(s@, i0 as int) + 1) == Some(
                (view_elems(p.0@), p.1 as int),
            ) && i0 < p.1 <= s@.len(),
            None => parse_elems(s@, i0 as int, enough_fuel(s@, i0 as int) + 1) is None,
        },
    decreases s@.len() - i0, 1int,
{
    let mut acc: Vec<JsonValue> = Vec::new();
    let mut i = i0;
    proof {
        assert(view_elems(acc@) =~= Seq::<Json>::empty());
    }
    loop
        invariant
            i0 <= i <= s@.len(),
            forall|es: Seq<Json>, k: int|
                parse_elems(s@, i as int, enough_fuel(s@, i as int) + 1) == Some((es, k))
                    ==> parse_elems(s@, i0 as int, enough_fuel(s@, i0 as int) + 1) == Some(
                    (view_elems(acc@) + es, k),
                ),
            parse_elems(s@, i as int, enough_fuel(s@, i as int) + 1) is None ==> parse_elems(
                s@,
                i0 as int,
                enough_fuel(s@, i0 as int) + 1,
            ) is None,
        decreases s@.len() - i,
    {
        let ghost fi = enough_fuel(s@, i as int) + 1;
        proof {
            lemma_parse_elems_progress(s@, i0 as int, enough_fuel(s@, i0 as int) + 1);
        }
        match parse_value_exec(s, i) {
            None => {
                return None;
            },
            Some((v, j)) => {
                let k = ws_end(s, j);
                if k < s.len() && s[k] == ',' {
                    let k2 = ws_end(s, k + 1);
                    let ghost old_acc = acc@;
                    acc.push(v);
                    proof {
                        crate::json::lemma_view_elems_push(old_acc, v);
                        lemma_parse_elems_fuel(
                            s@,
                            k2 as int,
                            (fi - 1) as nat,
                            enough_fuel(s@, k2 as int) + 1,
                        );
                        assert forall|es: Seq<Json>, m: int|
                            parse_elems(s@, k2 as int, enough_fuel(s@, k2 as int) + 1) == Some(
                                (es, m),
                            ) implies parse_elems(s@, i0 as int, enough_fuel(s@, i0 as int) + 1)
                            == Some((view_elems(acc@) + es, m)) by {
                            assert(parse_elems(s@, i as int, fi) == Some((seq![v@] + es, m)));
                            assert(view_elems(old_acc) + (seq![v@] + es) =~= view_elems(acc@) + es);
                        }
                    }
                    i = k2;
                } else if k < s.len() && s[k] == ']' {
                    let ghost old_acc = acc@;
                    acc.push(v);
                    proof {
                        crate::json::lemma_view_elems_push(old_acc, v);
                        assert(parse_elems(s@, i as int, fi) == Some((seq![v@], k + 1 as int)));
                        assert(view_elems(old_acc) + seq![v@] =~= view_elems(acc@));
                    }
                    return Some((acc, k + 1));
                } else {
                    return None;
                }
            },
        }
    }
}

/// Parses the non-empty member list of an object, as the grammar gives it.
fn parse_membs_exec(s: &Vec<char>, i0: usize) -> (r: Option<(Vec<(String, JsonValue)>, usize)>)
    requires
        i0 <= s@.len(),
    ensures
        match r {
            Some(p) => parse_membs(s@, i0 as int, enough_fuel(s@, i0 as int) + 1) == Some(
                (view_members(p.0@), p.1 as int),
            ) && i0 < p.1 <= s@.len(),
            None => parse_membs(s@, i0 as int, enough_fuel(s@, i0 as int) + 1) is None,
        },
    decreases s@.len() - i0, 1int,
{
    let mut acc: Vec<(String, JsonValue)> = Vec::new();
    let mut i = i0;
    proof {
        assert(view_members(acc@) =~= Seq::<(Seq<char>, Json)>::empty());
    }
    loop
        invariant
            i0 <= i <= s@.len(),
            forall|ms: Seq<(Seq<char>, Json)>, k: int|
                parse_membs(s@, i as int, enough_fuel(s@, i as int) + 1) == Some((ms, k))
                    ==> parse_membs(s@, i0 as int, enough_fuel(s@, i0 as int) + 1) == Some(
                    (view_members(acc@) + ms, k),
                ),
            parse_membs(s@, i as int, enough_fuel(s@, i as int) + 1) is None ==> parse_membs(
                s@,
                i0 as int,
                enough_fuel(s@, i0 as int) + 1,
            ) is None,
        decreases s@.len() - i,
    {
        let ghost fi = enough_fuel(s@, i as int) + 1;
        proof {
            lemma_parse_membs_progress(s@, i0 as int, enough_fuel(s@, i0 as int) + 1);
        }
        if !(i < s.len() && s[i] == '"') {
            return None;
        }
        match string_body(s, i + 1) {
            None => {
                return None;
            },
            Some((key_chars, j)) => {
                let k = ws_end(s, j);
                if !(k < s.len() && s[k] == ':') {
                    return None;
                }
                let vi = ws_end(s, k + 1);
                proof {
                    lemma_parse_value_fuel(
                        s@,
                        vi as int,
                        (fi - 1) as nat,
                        enough_fuel(s@, vi as int),
                    );
                }
                match parse_value_exec(s, vi) {
                    None => {
                        return None;
                    },
                    Some((v, m)) => {
                        let key = crate::text::chars_to_string(&key_chars);
                        let p = ws_end(s, m);
                        if p < s.len() && s[p] == ',' {
                            let p2 = ws_end(s, p + 1);
                            let ghost old_acc = acc@;
                            acc.push((key, v));
                            proof {
                                crate::json::lemma_view_members_push(
                                    old_acc,
                                    acc@[acc@.len() - 1].0,
                                    acc@[acc@.len() - 1].1,
                                );
                                lemma_parse_membs_fuel(
                                    s@,
                                    p2 as int,
                                    (fi - 1) as nat,
                                    enough_fuel(s@, p2 as int) + 1,
                                );
                                assert forall|ms: Seq<(Seq<char>, Json)>, q: int|
                                    parse_membs(s@, p2 as int, enough_fuel(s@, p2 as int) + 1)
                                        == Some((ms, q)) implies parse_membs(
                                    s@,
                                    i0 as int,
                                    enough_fuel(s@, i0 as int) + 1,
                                ) == Some((view_members(acc@) + ms, q)) by {
                                    assert(parse_membs(s@, i as int, fi) == Some(
                                        (seq![(key_chars@, v@)] + ms, q),
                                    ));
                                    assert(view_members(old_acc) + (seq![(key_chars@, v@)] + ms)
                                        =~= view_members(acc@) + ms);
                                }
                            }
                            i = p2;
                        } else if p < s.len() && s[p] == '}' {
                            let ghost old_acc = acc@;
                            acc.push((key, v));
                            proof {
                                crate::json::lemma_view_members_push(
                                    old_acc,
                                    acc@[acc@.len() - 1].0,
                                    acc@[acc@.len() - 1].1,
                                );
                                assert(parse_membs(s@, i as int, fi) == Some(
                                    (seq![(key_chars@, v@)], p + 1 as int),
                                ));
                                assert(view_members(old_acc) + seq![(key_chars@, v@)]
                                    =~= view_members(acc@));
                            }
                            return Some((acc, p + 1));
                        } else {
                            return None;
                        }
                    },
                }
            },
        }
    }
}

/// Parses one complete JSON document from a character vector: optional
/// whitespace, one value, optional whitespace, end of input. Returns the
/// decoded value exactly when the text is valid JSON.
pub fn parse_json_chars(s: &Vec<char>) -> (r: Option<JsonValue>)
    ensures
        match r {
            Some(v) => parse_json(s@) == Some(v@),
            None => parse_json(s@) is None,
        },
{
    let i = ws_end(s, 0);
    match parse_value_exec(s, i) {
        None => None,
        Some((v, j)) => {
            if ws_end(s, j) == s.len() {
                Some(v)
            } else {
                None
            }
        },
    }
}

/// Parses one complete JSON document from a string.
pub fn parse_json_str(s: &str) -> (r: Option<JsonValue>)
    ensures
        match r {
            Some(v) => parse_json(s@) == Some(v@),
            None => parse_json(s@) is None,
        },
{
    let cs = crate::text::str_to_chars(s);
    parse_json_chars(&cs)
}

} // verus!
