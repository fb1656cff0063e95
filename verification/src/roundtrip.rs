//! Round trip of the codec: parsing the canonical text of a well-formed
//! value gives back exactly that value.

use crate::json::{
    elems_text, escape_char, escape_str, is_number_lit, is_ws, json_text, members_text,
    scan_digits, scan_number, wf_elems, wf_json, wf_members, Json,
};
use crate::num::is_digit;
use crate::parse::{
    enough_fuel, hex4, hex_val, is_hex, parse_elems, parse_json, parse_membs, parse_value,
    scan_string, simple_escape, skip_ws,
};
use vstd::prelude::*;

verus! {

broadcast use vstd::utf8::char_is_scalar, vstd::utf8::char_u32_cast;

/// May this character follow a complete value? In canonical text a value is
/// followed by a separator, a closing bracket, whitespace, or the end.
pub open spec fn is_delim(c: char) -> bool {
    c == ',' || c == ']' || c == '}' || is_ws(c)
}

/// The text of `j` stands in `s` at `i`, with a delimiter or the end after
/// it.
pub open spec fn embedded(s: Seq<char>, i: int, t: Seq<char>) -> bool {
    &&& 0 <= i
    &&& i + t.len() <= s.len()
    &&& s.subrange(i, i + t.len()) == t
    &&& (i + t.len() == s.len() || is_delim(s[i + t.len()]))
}

/// Escaping decomposes at the front as well.
proof fn lemma_escape_str_cons(s: Seq<char>)
    requires
        s.len() > 0,
    ensures
        escape_str(s) == escape_char(s[0]) + escape_str(s.drop_first()),
    decreases s.len(),
{
    if s.len() == 1 {
        assert(s.drop_last() =~= Seq::<char>::empty());
        assert(s.drop_first() =~= Seq::<char>::empty());
        assert(s.last() == s[0]);
        assert(escape_str(s) =~= escape_char(s[0]) + escape_str(s.drop_first()));
    } else {
        lemma_escape_str_cons(s.drop_last());
        assert(s.drop_last()[0] == s[0]);
        assert(s.drop_last().drop_first() =~= s.drop_first().drop_last());
        assert(s.drop_first().last() == s.last());
        assert(escape_str(s) == escape_str(s.drop_last()) + escape_char(s.last()));
        assert(escape_str(s.drop_first()) == escape_str(s.drop_first().drop_last()) + escape_char(
            s.last(),
        ));
        assert(escape_str(s) =~= escape_char(s[0]) + escape_str(s.drop_first()));
    }
}

/// The hexadecimal digit characters denote their values.
proof fn lemma_hex_char_val(d: int)
    requires
        0 <= d < 16,
    ensures
        is_hex(crate::json::hex_char(d)),
        hex_val(crate::json::hex_char(d)) == d,
{
    if d < 10 {
        assert(crate::json::hex_char(d) as int == 48 + d);
    } else {
        assert(crate::json::hex_char(d) as int == 87 + d);
    }
}

/// Scanning the escaped text of a string body, up to its closing quote,
/// gives back exactly the original content.
#[verifier::rlimit(50)]
#[verifier::spinoff_prover]
proof fn lemma_rt_scan_string(s: Seq<char>, i: int, content: Seq<char>)
    requires
        0 <= i,
        i + escape_str(content).len() + 1 <= s.len(),
        forall|t: int|
            0 <= t < escape_str(content).len() ==> s[i + t] == #[trigger] escape_str(content)[t],
        s[i + escape_str(content).len()] == '"',
    ensures
        scan_string(s, i) == Some((content, i + escape_str(content).len() + 1)),
    decreases content.len(),
{
    let es = escape_str(content);
    if content.len() == 0 {
        assert(es =~= Seq::<char>::empty());
        assert(s[i] == '"');
        assert(content =~= Seq::<char>::empty());
    } else {
        let c = content[0];
        let rest = content.drop_first();
        lemma_escape_str_cons(content);
        let ec = escape_char(c);
        assert(es == ec + escape_str(rest));
        assert forall|t: int| 0 <= t < ec.len() implies s[i + t] == #[trigger] ec[t] by {
            assert((ec + escape_str(rest))[t] == ec[t]);
            assert(s[i + t] == es[t]);
        }
        let i2 = i + ec.len();
        assert forall|t: int|
            0 <= t < escape_str(rest).len() implies s[i2 + t] == #[trigger] escape_str(rest)[t] by {
            assert(es[ec.len() + t] == escape_str(rest)[t]);
            assert(s[i + (ec.len() + t)] == es[ec.len() + t]);
        }
        assert(s[i2 + escape_str(rest).len()] == '"') by {
            assert(i2 + escape_str(rest).len() == i + es.len());
        }
        lemma_rt_scan_string(s, i2, rest);
        assert(seq![c] + rest =~= content);
        if c == '"' || c == '\\' || c == '\n' || c == '\r' || c == '\t' || c as u32 == 8
            || c as u32 == 12 {
            assert(s[i] == '\\' && ec.len() == 2 && s[i + 1] == ec[1]);
            if c as u32 == 8 {
                vstd::utf8::char_u32_cast(c, 8u32);
                assert(8u32 as char == c);
            }
            if c as u32 == 12 {
                vstd::utf8::char_u32_cast(c, 12u32);
                assert(12u32 as char == c);
            }
            assert(s[i + 1] != 'u' && simple_escape(s[i + 1]) == Some(c));
        } else if (c as u32) < 32 {
            let hi = (c as u32 / 16) as int;
            let lo = (c as u32 % 16) as int;
            assert(0 <= hi < 16 && 0 <= lo < 16);
            assert(s[i] == '\\' && s[i + 1] == 'u' && s[i + 2] == '0' && s[i + 3] == '0' && s[i
                + 4] == crate::json::hex_char(hi) && s[i + 5] == crate::json::hex_char(lo));
            lemma_hex_char_val(hi);
            lemma_hex_char_val(lo);
            assert(is_hex('0') && hex_val('0') == 0) by {
                assert('0' as int == 48);
            }
            assert(hex4(s, i + 2) == Some((hex_val(s[i + 4]) * 16 + hex_val(s[i + 5])) as u32)) by {
                assert(0 <= i + 2 && i + 6 <= s.len());
                assert(is_hex(s[i + 2]) && is_hex(s[i + 3]) && is_hex(s[i + 4]) && is_hex(
                    s[i + 5],
                ));
            }
            assert(hex_val(s[i + 4]) * 16 + hex_val(s[i + 5]) == c as u32);
            assert(hex4(s, i + 2) == Some(c as u32));
            assert(!crate::parse::is_high_surrogate(c as u32));
            assert(!crate::parse::is_low_surrogate(c as u32));
            vstd::utf8::char_u32_cast(c, c as u32);
            assert((c as u32) as char == c);
        } else {
            assert(ec == seq![c] && s[i] == c);
            assert(s[i] != '"' && s[i] != '\\' && !((s[i] as u32) < 32));
        }
    }
}

/// A delimiter can extend neither a digit run nor a number.
proof fn lemma_delim_is_no_number_char(c: char)
    requires
        is_delim(c),
    ensures
        !is_digit(c),
        c != '.' && c != 'e' && c != 'E' && c != '+' && c != '-',
{
}

/// Digit scanning relocates into an embedding: scanning inside `s` over the
/// copy of `lit` moves exactly as scanning `lit` itself, because the first
/// character after the copy cannot be a digit.
proof fn lemma_scan_digits_embed(s: Seq<char>, i: int, lit: Seq<char>, x: int)
    requires
        0 <= i,
        i + lit.len() <= s.len(),
        forall|t: int| 0 <= t < lit.len() ==> s[i + t] == #[trigger] lit[t],
        i + lit.len() == s.len() || is_delim(s[i + lit.len()]),
        0 <= x <= lit.len(),
    ensures
        scan_digits(s, i + x) == i + scan_digits(lit, x),
        x <= scan_digits(lit, x) <= lit.len(),
    decreases lit.len() - x,
{
    if x < lit.len() {
        assert(s[i + x] == lit[x]);
        if is_digit(lit[x]) {
            lemma_scan_digits_embed(s, i, lit, x + 1);
        }
    } else {
        if i + lit.len() < s.len() {
            lemma_delim_is_no_number_char(s[i + lit.len()]);
        }
    }
}

/// A valid number literal starts with a minus sign or a digit.
proof fn lemma_number_lit_first(lit: Seq<char>)
    requires
        is_number_lit(lit),
    ensures
        lit.len() > 0,
        lit[0] == '-' || is_digit(lit[0]),
{
}

/// Number scanning relocates into an embedding: the scan inside `s` stops
/// exactly at the end of the copied literal.
proof fn lemma_rt_scan_number(s: Seq<char>, i: int, lit: Seq<char>)
    requires
        is_number_lit(lit),
        0 <= i,
        i + lit.len() <= s.len(),
        forall|t: int| 0 <= t < lit.len() ==> s[i + t] == #[trigger] lit[t],
        i + lit.len() == s.len() || is_delim(s[i + lit.len()]),
    ensures
        scan_number(s, i) == Some(i + lit.len()),
{
    lemma_number_lit_first(lit);
    let n = lit.len() as int;
    let jl = if lit[0] == '-' {
        1int
    } else {
        0int
    };
    assert(s[i] == lit[0]);
    assert(0 <= jl < n && is_digit(lit[jl]));
    assert(s[i + jl] == lit[jl]);
    let kl = if lit[jl] == '0' {
        jl + 1
    } else {
        scan_digits(lit, jl)
    };
    if lit[jl] != '0' {
        lemma_scan_digits_embed(s, i, lit, jl);
    }
    assert(jl < kl <= n) by {
        if lit[jl] != '0' {
            lemma_scan_digits_embed(s, i, lit, jl);
            assert(scan_digits(lit, jl) == scan_digits(lit, jl + 1));
            lemma_scan_digits_embed(s, i, lit, jl + 1);
        }
    }
    assert(scan_digits(s, i + jl) == i + scan_digits(lit, jl)) by {
        lemma_scan_digits_embed(s, i, lit, jl);
    }
    let ks = i + kl;
    // Whether a fraction follows agrees on both sides.
    if kl < n {
        assert(s[i + kl] == lit[kl]);
    } else {
        if i + n < s.len() {
            lemma_delim_is_no_number_char(s[i + n]);
        }
    }
    let k2l = if kl < n && lit[kl] == '.' {
        if scan_digits(lit, kl + 1) == kl + 1 {
            kl
        } else {
            scan_digits(lit, kl + 1)
        }
    } else {
        kl
    };
    if kl < n && lit[kl] == '.' {
        lemma_scan_digits_embed(s, i, lit, kl + 1);
    }
    assert(!(kl < n && lit[kl] == '.' && k2l == kl));
    assert(kl <= k2l <= n) by {
        if kl < n && lit[kl] == '.' {
            lemma_scan_digits_embed(s, i, lit, kl + 1);
        }
    }
    // Whether an exponent follows agrees on both sides.
    if k2l < n {
        assert(s[i + k2l] == lit[k2l]);
    } else {
        if i + n < s.len() {
            lemma_delim_is_no_number_char(s[i + n]);
        }
    }
    let ml = if k2l < n && (lit[k2l] == 'e' || lit[k2l] == 'E') {
        let el = if k2l + 1 < n && (lit[k2l + 1] == '+' || lit[k2l + 1] == '-') {
            k2l + 2
        } else {
            k2l + 1
        };
        if scan_digits(lit, el) == el {
            k2l
        } else {
            scan_digits(lit, el)
        }
    } else {
        k2l
    };
    if k2l < n && (lit[k2l] == 'e' || lit[k2l] == 'E') {
        let el = if k2l + 1 < n && (lit[k2l + 1] == '+' || lit[k2l + 1] == '-') {
            k2l + 2
        } else {
            k2l + 1
        };
        // The sign test agrees: inside the literal the characters match; at
        // its end a delimiter is no sign.
        if k2l + 1 < n {
            assert(s[i + k2l + 1] == lit[k2l + 1]);
        } else {
            if i + n < s.len() {
                lemma_delim_is_no_number_char(s[i + n]);
            }
        }
        lemma_scan_digits_embed(s, i, lit, el);
    }
    assert(!(k2l < n && (lit[k2l] == 'e' || lit[k2l] == 'E') && ml == k2l));
    assert(ml == n);
}

/// The canonical text of a well-formed value is non-empty and starts with a
/// character that is neither whitespace nor a separator.
proof fn lemma_json_text_first(j: Json)
    requires
        wf_json(j),
    ensures
        json_text(j).len() > 0,
        !is_ws(json_text(j)[0]),
        json_text(j)[0] != ',' && json_text(j)[0] != ']' && json_text(j)[0] != '}',
{
    match j {
        Json::Num(lit) => {
            lemma_number_lit_first(lit);
        },
        _ => {},
    }
}

/// All of the first `n` elements are well formed, element by element.
proof fn lemma_wf_elems_index(elems: Seq<Json>, n: int, t: int)
    requires
        wf_elems(elems, n),
        0 <= t < n <= elems.len(),
    ensures
        wf_json(elems[t]),
    decreases n,
{
    if t < n - 1 {
        lemma_wf_elems_index(elems, n - 1, t);
    }
}

/// All of the first `n` members are well formed, member by member.
proof fn lemma_wf_members_index(members: Seq<(Seq<char>, Json)>, n: int, t: int)
    requires
        wf_members(members, n),
        0 <= t < n <= members.len(),
    ensures
        wf_json(members[t].1),
    decreases n,
{
    if t < n - 1 {
        lemma_wf_members_index(members, n - 1, t);
    }
}

/// The text of elements `k ..`, with a comma between neighbours.
spec fn elems_tail_text(elems: Seq<Json>, k: int) -> Seq<char>
    decreases elems.len() - k,
{
    if !(0 <= k < elems.len()) {
        Seq::empty()
    } else if k == elems.len() - 1 {
        json_text(elems[k])
    } else {
        json_text(elems[k]) + seq![','] + elems_tail_text(elems, k + 1)
    }
}

/// The text of one object member.
spec fn member_text(m: (Seq<char>, Json)) -> Seq<char> {
    seq!['"'] + escape_str(m.0) + seq!['"', ':'] + json_text(m.1)
}

/// The text of members `k ..`, with a comma between neighbours.
spec fn members_tail_text(members: Seq<(Seq<char>, Json)>, k: int) -> Seq<char>
    decreases members.len() - k,
{
    if !(0 <= k < members.len()) {
        Seq::empty()
    } else if k == members.len() - 1 {
        member_text(members[k])
    } else {
        member_text(members[k]) + seq![','] + members_tail_text(members, k + 1)
    }
}

/// The prefix-joined and suffix-joined texts of a non-empty element list
/// agree.
proof fn lemma_elems_text_tail(elems: Seq<Json>, k: int)
    requires
        0 <= k < elems.len(),
    ensures
        elems_text(elems, elems.len() as int) == elems_text(elems, k) + (if k > 0 {
            seq![',']
        } else {
            Seq::empty()
        }) + elems_tail_text(elems, k),
    decreases elems.len() - k,
{
    let n = elems.len() as int;
    if k == n - 1 {
        if k == 0 {
            assert(elems_text(elems, n) =~= elems_text(elems, 0) + Seq::<char>::empty()
                + elems_tail_text(elems, 0));
        } else {
            assert(elems_text(elems, n) == elems_text(elems, n - 1) + seq![','] + json_text(
                elems[n - 1],
            ));
            assert(elems_text(elems, n) =~= elems_text(elems, k) + seq![','] + elems_tail_text(
                elems,
                k,
            ));
        }
    } else {
        lemma_elems_text_tail(elems, k + 1);
        assert(elems_text(elems, k + 1) == elems_text(elems, k) + (if k > 0 {
            seq![',']
        } else {
            Seq::<char>::empty()
        }) + json_text(elems[k]));
        assert(elems_text(elems, n) =~= elems_text(elems, k) + (if k > 0 {
            seq![',']
        } else {
            Seq::<char>::empty()
        }) + elems_tail_text(elems, k));
    }
}

/// The prefix-joined and suffix-joined texts of a non-empty member list
/// agree.
proof fn lemma_members_text_tail(members: Seq<(Seq<char>, Json)>, k: int)
    requires
        0 <= k < members.len(),
    ensures
        members_text(members, members.len() as int) == members_text(members, k) + (if k > 0 {
            seq![',']
        } else {
            Seq::empty()
        }) + members_tail_text(members, k),
    decreases members.len() - k,
{
    let n = members.len() as int;
    if k == n - 1 {
        if k == 0 {
            assert(members_text(members, n) =~= members_text(members, 0) + Seq::<char>::empty()
                + members_tail_text(members, 0));
        } else {
            assert(members_text(members, n) =~= members_text(members, k) + seq![',']
                + members_tail_text(members, k));
        }
    } else {
        lemma_members_text_tail(members, k + 1);
        assert(members_text(members, k + 1) == members_text(members, k) + (if k > 0 {
            seq![',']
        } else {
            Seq::<char>::empty()
        }) + member_text(members[k]));
        assert(members_text(members, n) =~= members_text(members, k) + (if k > 0 {
            seq![',']
        } else {
            Seq::<char>::empty()
        }) + members_tail_text(members, k));
    }
}

/// Parsing the canonical text of a well-formed value, embedded in a larger
/// text with a delimiter after it, gives back exactly that value.
#[verifier::rlimit(100)]
#[verifier::spinoff_prover]
proof fn lemma_rt_value(s: Seq<char>, i: int, j: Json)
    requires
        wf_json(j),
        0 <= i,
        i + json_text(j).len() <= s.len(),
        forall|t: int| 0 <= t < json_text(j).len() ==> s[i + t] == #[trigger] json_text(j)[t],
        i + json_text(j).len() == s.len() || is_delim(s[i + json_text(j).len()]),
    ensures
        parse_value(s, i, enough_fuel(s, i)) == Some((j, i + json_text(j).len())),
    decreases j, 0int, 0int,
{
    let text = json_text(j);
    lemma_json_text_first(j);
    assert(s[i] == text[0]);
    match j {
        Json::Null => {
            assert(s.subrange(i, i + 4) =~= seq!['n', 'u', 'l', 'l']);
        },
        Json::Bool(b) => {
            if b {
                assert(s.subrange(i, i + 4) =~= seq!['t', 'r', 'u', 'e']);
            } else {
                assert(s.subrange(i, i + 5) =~= seq!['f', 'a', 'l', 's', 'e']);
                assert(s[i] == 'f');
            }
        },
        Json::Num(lit) => {
            lemma_rt_scan_number(s, i, lit);
            assert(s.subrange(i, i + lit.len()) =~= lit);
        },
        Json::Str(content) => {
            let es = escape_str(content);
            assert(text == seq!['"'] + es + seq!['"']);
            assert forall|t: int| 0 <= t < es.len() implies s[i + 1 + t] == #[trigger] es[t] by {
                assert(text[1 + t] == es[t]);
                assert(s[i + (1 + t)] == text[1 + t]);
            }
            assert(s[i + 1 + es.len()] == '"') by {
                assert(text[1 + es.len() as int] == '"');
            }
            lemma_rt_scan_string(s, i + 1, content);
        },
        Json::Arr(elems) => {
            let n = elems.len() as int;
            if n == 0 {
                assert(text =~= seq!['[', ']']);
                assert(s[i] == '[' && s[i + 1] == ']');
                assert(skip_ws(s, i + 1) == i + 1);
                assert(Json::Arr(Seq::empty()) == j) by {
                    assert(elems =~= Seq::<Json>::empty());
                }
            } else {
                lemma_elems_text_tail(elems, 0);
                let tail = elems_tail_text(elems, 0);
                assert(elems_text(elems, n) == tail) by {
                    assert(elems_text(elems, 0) + Seq::<char>::empty() + tail =~= tail);
                }
                assert(text == seq!['['] + tail + seq![']']);
                assert forall|t: int| 0 <= t < tail.len() implies s[i + 1 + t] == #[trigger] tail[t] by {
                    assert(text[1 + t] == tail[t]);
                    assert(s[i + (1 + t)] == text[1 + t]);
                }
                assert(s[i + 1 + tail.len()] == ']') by {
                    assert(text[1 + tail.len() as int] == ']');
                }
                lemma_wf_elems_index(elems, n, 0);
                lemma_json_text_first(elems[0]);
                assert(tail[0] == json_text(elems[0])[0]);
                assert(s[i + 1] == tail[0]);
                assert(skip_ws(s, i + 1) == i + 1);
                assert(s[i + 1] != ']');
                lemma_rt_elems(s, i + 1, elems, 0);
                assert(elems.skip(0) =~= elems);
                assert(enough_fuel(s, i + 1) + 1 == enough_fuel(s, i) - 1);
                assert(parse_value(s, i, enough_fuel(s, i)) == Some((j, i + text.len())));
            }
        },
        Json::Obj(members) => {
            let n = members.len() as int;
            if n == 0 {
                assert(text =~= seq!['{', '}']);
                assert(s[i] == '{' && s[i + 1] == '}');
                assert(skip_ws(s, i + 1) == i + 1);
                assert(Json::Obj(Seq::empty()) == j) by {
                    assert(members =~= Seq::<(Seq<char>, Json)>::empty());
                }
            } else {
                lemma_members_text_tail(members, 0);
                let tail = members_tail_text(members, 0);
                assert(members_text(members, n) == tail) by {
                    assert(members_text(members, 0) + Seq::<char>::empty() + tail =~= tail);
                }
                assert(text == seq!['{'] + tail + seq!['}']);
                assert forall|t: int| 0 <= t < tail.len() implies s[i + 1 + t] == #[trigger] tail[t] by {
                    assert(text[1 + t] == tail[t]);
                    assert(s[i + (1 + t)] == text[1 + t]);
                }
                assert(s[i + 1 + tail.len()] == '}') by {
                    assert(text[1 + tail.len() as int] == '}');
                }
                assert(tail[0] == member_text(members[0])[0]);
                assert(member_text(members[0])[0] == '"');
                assert(s[i + 1] == '"');
                assert(skip_ws(s, i + 1) == i + 1);
                assert(s[i + 1] != '}');
                lemma_rt_membs(s, i + 1, members, 0);
                assert(members.skip(0) =~= members);
                assert(enough_fuel(s, i + 1) + 1 == enough_fuel(s, i) - 1);
                assert(parse_value(s, i, enough_fuel(s, i)) == Some((j, i + text.len())));
            }
        },
    }
}

/// Parsing the joined text of elements `k ..`, followed by the closing
/// bracket, gives back exactly those elements.
#[verifier::rlimit(100)]
#[verifier::spinoff_prover]
proof fn lemma_rt_elems(s: Seq<char>, i: int, elems: Seq<Json>, k: int)
    requires
        0 <= k < elems.len(),
        wf_elems(elems, elems.len() as int),
        0 <= i,
        i + elems_tail_text(elems, k).len() + 1 <= s.len(),
        forall|t: int|
            0 <= t < elems_tail_text(elems, k).len() ==> s[i + t] == #[trigger] elems_tail_text(
                elems,
                k,
            )[t],
        s[i + elems_tail_text(elems, k).len()] == ']',
    ensures
        parse_elems(s, i, enough_fuel(s, i) + 1) == Some(
            (elems.skip(k), i + elems_tail_text(elems, k).len() + 1),
        ),
    decreases elems, elems.len() - k, 1int,
{
    let n = elems.len() as int;
    let tail = elems_tail_text(elems, k);
    let jt = json_text(elems[k]);
    lemma_wf_elems_index(elems, n, k);
    assert forall|t: int| 0 <= t < jt.len() implies s[i + t] == #[trigger] jt[t] by {
        assert(tail[t] == jt[t]) by {
            if k < n - 1 {
                assert(tail == jt + seq![','] + elems_tail_text(elems, k + 1));
            }
        }
        assert(s[i + t] == tail[t]);
    }
    let je = i + jt.len();
    if k == n - 1 {
        assert(s[je] == ']');
    } else {
        assert(tail == jt + seq![','] + elems_tail_text(elems, k + 1));
        assert(s[je] == ',') by {
            assert(tail[jt.len() as int] == ',');
        }
    }
    lemma_rt_value(s, i, elems[k]);
    assert(enough_fuel(s, i) + 1 - 1 == enough_fuel(s, i));
    assert(skip_ws(s, je) == je);
    if k == n - 1 {
        assert(parse_elems(s, i, enough_fuel(s, i) + 1) == Some((seq![elems[k]], je + 1)));
        assert(elems.skip(k) =~= seq![elems[k]]);
    } else {
        let rest = elems_tail_text(elems, k + 1);
        assert forall|t: int| 0 <= t < rest.len() implies s[je + 1 + t] == #[trigger] rest[t] by {
            assert(tail[jt.len() + 1 + t] == rest[t]);
            assert(s[i + (jt.len() + 1 + t)] == tail[jt.len() + 1 + t]);
        }
        assert(s[je + 1 + rest.len()] == ']') by {
            assert(je + 1 + rest.len() == i + tail.len());
        }
        lemma_wf_elems_index(elems, n, k + 1);
        lemma_json_text_first(elems[k + 1]);
        assert(rest[0] == json_text(elems[k + 1])[0]) by {
            if k + 1 < n - 1 {
                assert(rest == json_text(elems[k + 1]) + seq![','] + elems_tail_text(
                    elems,
                    k + 2,
                ));
            }
        }
        assert(s[je + 1] == rest[0]);
        assert(skip_ws(s, je + 1) == je + 1);
        lemma_rt_elems(s, je + 1, elems, k + 1);
        crate::parse::lemma_parse_elems_fuel(
            s,
            je + 1,
            (enough_fuel(s, i) + 1 - 1) as nat,
            enough_fuel(s, je + 1) + 1,
        );
        assert(seq![elems[k]] + elems.skip(k + 1) =~= elems.skip(k));
        assert(je + 1 + rest.len() + 1 == i + tail.len() + 1);
    }
}

/// Parsing the joined text of members `k ..`, followed by the closing
/// brace, gives back exactly those members.
#[verifier::rlimit(100)]
#[verifier::spinoff_prover]
proof fn lemma_rt_membs(s: Seq<char>, i: int, members: Seq<(Seq<char>, Json)>, k: int)
    requires
        0 <= k < members.len(),
        wf_members(members, members.len() as int),
        0 <= i,
        i + members_tail_text(members, k).len() + 1 <= s.len(),
        forall|t: int|
            0 <= t < members_tail_text(members, k).len() ==> s[i + t]
                == #[trigger] members_tail_text(members, k)[t],
        s[i + members_tail_text(members, k).len()] == '}',
    ensures
        parse_membs(s, i, enough_fuel(s, i) + 1) == Some(
            (members.skip(k), i + members_tail_text(members, k).len() + 1),
        ),
    decreases members, members.len() - k, 1int,
{
    let n = members.len() as int;
    let tail = members_tail_text(members, k);
    let one = member_text(members[k]);
    let key = members[k].0;
    let es = escape_str(key);
    let jt = json_text(members[k].1);
    lemma_wf_members_index(members, n, k);
    assert forall|t: int| 0 <= t < one.len() implies s[i + t] == #[trigger] one[t] by {
        assert(tail[t] == one[t]) by {
            if k < n - 1 {
                assert(tail == one + seq![','] + members_tail_text(members, k + 1));
            }
        }
        assert(s[i + t] == tail[t]);
    }
    assert(one == seq!['"'] + es + seq!['"', ':'] + jt);
    assert(s[i] == '"') by {
        assert(one[0] == '"');
    }
    assert forall|t: int| 0 <= t < es.len() implies s[i + 1 + t] == #[trigger] es[t] by {
        assert(one[1 + t] == es[t]);
        assert(s[i + (1 + t)] == one[1 + t]);
    }
    assert(s[i + 1 + es.len()] == '"') by {
        assert(one[1 + es.len() as int] == '"');
    }
    lemma_rt_scan_string(s, i + 1, key);
    let ce = i + 2 + es.len();
    assert(s[ce] == ':') by {
        assert(one[2 + es.len() as int] == ':');
    }
    assert(skip_ws(s, ce) == ce);
    let vi = ce + 1;
    assert forall|t: int| 0 <= t < jt.len() implies s[vi + t] == #[trigger] jt[t] by {
        assert(one[3 + es.len() + t] == jt[t]);
        assert(s[i + (3 + es.len() + t)] == one[3 + es.len() + t]);
    }
    lemma_wf_members_index(members, n, k);
    lemma_json_text_first(members[k].1);
    assert(s[vi] == jt[0]);
    assert(skip_ws(s, vi) == vi);
    let je = vi + jt.len();
    assert(je == i + one.len());
    if k == n - 1 {
        assert(s[je] == '}');
    } else {
        assert(tail == one + seq![','] + members_tail_text(members, k + 1));
        assert(s[je] == ',') by {
            assert(tail[one.len() as int] == ',');
        }
    }
    lemma_rt_value(s, vi, members[k].1);
    crate::parse::lemma_parse_value_fuel(
        s,
        vi,
        (enough_fuel(s, i) + 1 - 1) as nat,
        enough_fuel(s, vi),
    );
    assert(skip_ws(s, je) == je);
    if k == n - 1 {
        assert(parse_membs(s, i, enough_fuel(s, i) + 1) == Some(
            (seq![(key, members[k].1)], je + 1),
        ));
        assert((key, members[k].1) == members[k]);
        assert(members.skip(k) =~= seq![members[k]]);
    } else {
        let rest = members_tail_text(members, k + 1);
        assert forall|t: int| 0 <= t < rest.len() implies s[je + 1 + t] == #[trigger] rest[t] by {
            assert(tail[one.len() + 1 + t] == rest[t]);
            assert(s[i + (one.len() + 1 + t)] == tail[one.len() + 1 + t]);
        }
        assert(s[je + 1 + rest.len()] == '}') by {
            assert(je + 1 + rest.len() == i + tail.len());
        }
        assert(rest[0] == member_text(members[k + 1])[0]) by {
            if k + 1 < n - 1 {
                assert(rest == member_text(members[k + 1]) + seq![','] + members_tail_text(
                    members,
                    k + 2,
                ));
            }
        }
        assert(member_text(members[k + 1])[0] == '"');
        assert(s[je + 1] == rest[0]);
        assert(skip_ws(s, je + 1) == je + 1);
        lemma_rt_membs(s, je + 1, members, k + 1);
        crate::parse::lemma_parse_membs_fuel(
            s,
            je + 1,
            (enough_fuel(s, i) + 1 - 1) as nat,
            enough_fuel(s, je + 1) + 1,
        );
        assert(seq![members[k]] + members.skip(k + 1) =~= members.skip(k));
        assert((key, members[k].1) == members[k]);
        assert(je + 1 + rest.len() + 1 == i + tail.len() + 1);
    }
}

/// Round trip of the codec: the canonical text of a well-formed value
/// parses back to exactly that value.
pub proof fn lemma_json_round_trip(j: Json)
    requires
        wf_json(j),
    ensures
        parse_json(json_text(j)) == Some(j),
{
    let s = json_text(j);
    lemma_json_text_first(j);
    assert(skip_ws(s, 0) == 0);
    assert(forall|t: int| 0 <= t < s.len() ==> s[0 + t] == #[trigger] s[t]);
    lemma_rt_value(s, 0, j);
    assert(skip_ws(s, s.len() as int) == s.len());
}

/// The parser only produces well-formed values: every number literal it
/// keeps is checked against the grammar.
pub proof fn lemma_parse_value_wf(s: Seq<char>, i: int, fuel: nat)
    ensures
        parse_value(s, i, fuel) matches Some(r) ==> wf_json(r.0),
    decreases fuel, 0int,
{
    if fuel > 0 && 0 <= i < s.len() {
        let c = s[i];
        if c == '[' {
            let j2 = skip_ws(s, i + 1);
            if !(j2 < s.len() && s[j2] == ']') {
                lemma_parse_elems_wf(s, j2, (fuel - 1) as nat);
            }
        } else if c == '{' {
            let j2 = skip_ws(s, i + 1);
            if !(j2 < s.len() && s[j2] == '}') {
                lemma_parse_membs_wf(s, j2, (fuel - 1) as nat);
            }
        }
    }
}

/// Every element the parser produces is well formed.
proof fn lemma_parse_elems_wf(s: Seq<char>, i: int, fuel: nat)
    ensures
        parse_elems(s, i, fuel) matches Some(r) ==> wf_elems(r.0, r.0.len() as int),
    decreases fuel, 1int,
{
    if fuel > 0 {
        lemma_parse_value_wf(s, i, (fuel - 1) as nat);
        match parse_value(s, i, (fuel - 1) as nat) {
            None => {},
            Some((v, j2)) => {
                let k = skip_ws(s, j2);
                if k < s.len() && s[k] == ',' {
                    lemma_parse_elems_wf(s, skip_ws(s, k + 1), (fuel - 1) as nat);
                    match parse_elems(s, skip_ws(s, k + 1), (fuel - 1) as nat) {
                        None => {},
                        Some((es, _)) => {
                            lemma_wf_elems_cons(v, es);
                        },
                    }
                } else if k < s.len() && s[k] == ']' {
                    lemma_wf_elems_cons(v, Seq::empty());
                    assert(seq![v] + Seq::<Json>::empty() =~= seq![v]);
                }
            },
        }
    }
}

/// Every member the parser produces is well formed.
proof fn lemma_parse_membs_wf(s: Seq<char>, i: int, fuel: nat)
    ensures
        parse_membs(s, i, fuel) matches Some(r) ==> wf_members(r.0, r.0.len() as int),
    decreases fuel, 1int,
{
    if fuel > 0 && 0 <= i < s.len() && s[i] == '"' {
        match crate::parse::scan_string(s, i + 1) {
            None => {},
            Some((key, j2)) => {
                let k = skip_ws(s, j2);
                if k < s.len() && s[k] == ':' {
                    let vi = skip_ws(s, k + 1);
                    lemma_parse_value_wf(s, vi, (fuel - 1) as nat);
                    match parse_value(s, vi, (fuel - 1) as nat) {
                        None => {},
                        Some((v, m)) => {
                            let p = skip_ws(s, m);
                            if p < s.len() && s[p] == ',' {
                                lemma_parse_membs_wf(s, skip_ws(s, p + 1), (fuel - 1) as nat);
                                match parse_membs(s, skip_ws(s, p + 1), (fuel - 1) as nat) {
                                    None => {},
                                    Some((ms, _)) => {
                                        lemma_wf_members_cons((key, v), ms);
                                    },
                                }
                            } else if p < s.len() && s[p] == '}' {
                                lemma_wf_members_cons((key, v), Seq::empty());
                                assert(seq![(key, v)] + Seq::<(Seq<char>, Json)>::empty() =~= seq![
                                    (key, v),
                                ]);
                            }
                        },
                    }
                }
            },
        }
    }
}

/// The element at `t` is well formed (a helper shape for triggers).
spec fn wf_at(all: Seq<Json>, t: int) -> bool {
    wf_json(all[t])
}

/// The member at `t` is well formed (a helper shape for triggers).
spec fn wf_mat(all: Seq<(Seq<char>, Json)>, t: int) -> bool {
    wf_json(all[t].1)
}

/// Well-formedness of the first `n` elements, from each element alone.
proof fn lemma_wf_elems_build(all: Seq<Json>, n: int)
    requires
        0 <= n <= all.len(),
        forall|t: int| 0 <= t < n ==> #[trigger] wf_at(all, t),
    ensures
        wf_elems(all, n),
    decreases n,
{
    if n > 0 {
        lemma_wf_elems_build(all, n - 1);
        assert(wf_at(all, n - 1));
    }
}

/// Well-formedness of the first `n` members, from each member alone.
proof fn lemma_wf_members_build(all: Seq<(Seq<char>, Json)>, n: int)
    requires
        0 <= n <= all.len(),
        forall|t: int| 0 <= t < n ==> #[trigger] wf_mat(all, t),
    ensures
        wf_members(all, n),
    decreases n,
{
    if n > 0 {
        lemma_wf_members_build(all, n - 1);
        assert(wf_mat(all, n - 1));
    }
}

/// Prepending a well-formed element keeps a list well formed.
proof fn lemma_wf_elems_cons(v: Json, es: Seq<Json>)
    requires
        wf_json(v),
        wf_elems(es, es.len() as int),
    ensures
        wf_elems(seq![v] + es, (seq![v] + es).len() as int),
{
    let all = seq![v] + es;
    let n = all.len() as int;
    assert forall|t: int| 0 <= t < n implies #[trigger] wf_at(all, t) by {
        if t == 0 {
            assert(all[0] == v);
        } else {
            assert(all[t] == es[t - 1]);
            lemma_wf_elems_index(es, es.len() as int, t - 1);
        }
    }
    lemma_wf_elems_build(all, n);
}

/// Prepending a well-formed member keeps a list well formed.
proof fn lemma_wf_members_cons(m: (Seq<char>, Json), ms: Seq<(Seq<char>, Json)>)
    requires
        wf_json(m.1),
        wf_members(ms, ms.len() as int),
    ensures
        wf_members(seq![m] + ms, (seq![m] + ms).len() as int),
{
    let all = seq![m] + ms;
    let n = all.len() as int;
    assert forall|t: int| 0 <= t < n implies #[trigger] wf_mat(all, t) by {
        if t == 0 {
            assert(all[0] == m);
        } else {
            assert(all[t] == ms[t - 1]);
            lemma_wf_members_index(ms, ms.len() as int, t - 1);
        }
    }
    lemma_wf_members_build(all, n);
}

/// Every value a whole-document parse produces is well formed, so its own
/// canonical text parses back to it (see [`lemma_json_round_trip`]).
pub proof fn lemma_parse_json_wf(s: Seq<char>)
    ensures
        parse_json(s) matches Some(j) ==> wf_json(j),
{
    let i = skip_ws(s, 0);
    lemma_parse_value_wf(s, i, enough_fuel(s, i));
}

} // verus!
