//! Executable JSON encoder, proved to produce exactly the canonical text of
//! a value's model.

use crate::json::{
    elems_text, escape_char, escape_str, hex_char, json_text, lemma_view_elems, lemma_view_members,
    members_text, view_elems, view_members, Json, JsonValue,
};
use crate::text::{chars_to_string, str_to_chars};
use vstd::prelude::*;

verus! {

broadcast use vstd::std_specs::vec::axiom_vec_index_decreases;

/// Appends the escape sequence (or the literal character) that encodes `c`
/// inside a JSON string.
fn push_escaped_char(c: char, out: &mut Vec<char>)
    ensures
        final(out)@ == old(out)@ + escape_char(c),
{
    if c == '"' {
        out.push('\\');
        out.push('"');
    } else if c == '\\' {
        out.push('\\');
        out.push('\\');
    } else if c == '\n' {
        out.push('\\');
        out.push('n');
    } else if c == '\r' {
        out.push('\\');
        out.push('r');
    } else if c == '\t' {
        out.push('\\');
        out.push('t');
    } else if c as u32 == 8 {
        out.push('\\');
        out.push('b');
    } else if c as u32 == 12 {
        out.push('\\');
        out.push('f');
    } else if (c as u32) < 32 {
        out.push('\\');
        out.push('u');
        out.push('0');
        out.push('0');
        let hi = (c as u32) / 16;
        let lo = (c as u32) % 16;
        let hi_c = if hi < 10 {
            (48 + hi as u8) as char
        } else {
            (87 + hi as u8) as char
        };
        let lo_c = if lo < 10 {
            (48 + lo as u8) as char
        } else {
            (87 + lo as u8) as char
        };
        out.push(hi_c);
        out.push(lo_c);
        assert(hi_c == hex_char((c as u32 / 16) as int) && lo_c == hex_char((c as u32 % 16) as int));
    } else {
        out.push(c);
    }
    assert(out@ =~= old(out)@ + escape_char(c));
}

/// Appends the escaped text of the characters of `s`.
fn push_escaped_str(s: &str, out: &mut Vec<char>)
    ensures
        final(out)@ == old(out)@ + escape_str(s@),
{
    let cs = str_to_chars(s);
    let mut i: usize = 0;
    while i < cs.len()
        invariant
            i <= cs@.len(),
            cs@ == s@,
            out@ == old(out)@ + escape_str(s@.take(i as int)),
        decreases cs@.len() - i,
    {
        push_escaped_char(cs[i], out);
        proof {
            assert(s@.take(i + 1 as int).drop_last() =~= s@.take(i as int));
            assert(s@.take(i + 1 as int).last() == s@[i as int]);
            assert(out@ =~= old(out)@ + escape_str(s@.take(i + 1 as int)));
        }
        i = i + 1;
    }
    proof {
        assert(s@.take(s@.len() as int) =~= s@);
    }
}

/// Appends the characters of a string slice unchanged.
fn push_str_chars(s: &str, out: &mut Vec<char>)
    ensures
        final(out)@ == old(out)@ + s@,
{
    let mut cs = str_to_chars(s);
    out.append(&mut cs);
}

/// Appends the canonical text of `v`.
pub fn encode_into(v: &JsonValue, out: &mut Vec<char>)
    ensures
        final(out)@ == old(out)@ + json_text(v@),
    decreases v,
{
    match v {
        JsonValue::Null => {
            out.push('n');
            out.push('u');
            out.push('l');
            out.push('l');
            assert(out@ =~= old(out)@ + json_text(v@));
        },
        JsonValue::Bool(b) => {
            if *b {
                out.push('t');
                out.push('r');
                out.push('u');
                out.push('e');
            } else {
                out.push('f');
                out.push('a');
                out.push('l');
                out.push('s');
                out.push('e');
            }
            assert(out@ =~= old(out)@ + json_text(v@));
        },
        JsonValue::Num(lit) => {
            push_str_chars(lit.as_str(), out);
        },
        JsonValue::Str(s) => {
            out.push('"');
            push_escaped_str(s.as_str(), out);
            out.push('"');
            assert(out@ =~= old(out)@ + json_text(v@));
        },
        JsonValue::Arr(items) => {
            proof {
                lemma_view_elems(items@);
            }
            let ghost ve = view_elems(items@);
            out.push('[');
            let mut i: usize = 0;
            while i < items.len()
                invariant
                    *v == JsonValue::Arr(*items),
                    i <= items@.len(),
                    ve == view_elems(items@),
                    ve.len() == items@.len(),
                    forall|k: int| 0 <= k < items@.len() ==> ve[k] == #[trigger] items@[k].view(),
                    out@ == old(out)@ + seq!['['] + elems_text(ve, i as int),
                decreases items@.len() - i,
            {
                if i > 0 {
                    out.push(',');
                }
                proof {
                    assert(*items == v->Arr_0);
                    assert(decreases_to!(*v => v->Arr_0));
                    assert(decreases_to!(*items => items@));
                    assert(decreases_to!(items@ => items@[i as int]));
                }
                encode_into(&items[i], out);
                proof {
                    if i == 0 {
                        assert(out@ =~= old(out)@ + seq!['['] + elems_text(ve, i + 1 as int));
                    } else {
                        assert(elems_text(ve, i + 1 as int) == elems_text(ve, i as int) + seq![',']
                            + json_text(ve[i as int]));
                        assert(out@ =~= old(out)@ + seq!['['] + elems_text(ve, i + 1 as int));
                    }
                }
                i = i + 1;
            }
            out.push(']');
            assert(out@ =~= old(out)@ + json_text(v@));
        },
        JsonValue::Obj(members) => {
            proof {
                lemma_view_members(members@);
            }
            let ghost vm = view_members(members@);
            out.push('{');
            let mut i: usize = 0;
            while i < members.len()
                invariant
                    *v == JsonValue::Obj(*members),
                    i <= members@.len(),
                    vm == view_members(members@),
                    vm.len() == members@.len(),
                    forall|k: int|
                        0 <= k < members@.len() ==> vm[k] == (
                        #[trigger] members@[k].0@,
                        members@[k].1.view(),
                        ),
                    out@ == old(out)@ + seq!['{'] + members_text(vm, i as int),
                decreases members@.len() - i,
            {
                if i > 0 {
                    out.push(',');
                }
                out.push('"');
                push_escaped_str(members[i].0.as_str(), out);
                out.push('"');
                out.push(':');
                proof {
                    assert(*members == v->Obj_0);
                    assert(decreases_to!(*v => v->Obj_0));
                    assert(decreases_to!(*members => members@));
                    assert(decreases_to!(members@ => members@[i as int]));
                    assert(decreases_to!(members@[i as int] => members@[i as int].1));
                }
                encode_into(&members[i].1, out);
                proof {
                    let one = seq!['"'] + escape_str(vm[i as int].0) + seq!['"', ':'] + json_text(
                        vm[i as int].1,
                    );
                    if i == 0 {
                        assert(out@ =~= old(out)@ + seq!['{'] + members_text(vm, i + 1 as int));
                    } else {
                        assert(members_text(vm, i + 1 as int) == members_text(vm, i as int) + seq![
                            ',',
                        ] + one);
                        assert(out@ =~= old(out)@ + seq!['{'] + members_text(vm, i + 1 as int));
                    }
                }
                i = i + 1;
            }
            out.push('}');
            assert(out@ =~= old(out)@ + json_text(v@));
        },
    }
}

/// The canonical text of `v`, as a character vector.
pub fn encode_json(v: &JsonValue) -> (out: Vec<char>)
    ensures
        out@ == json_text(v@),
{
    let mut out: Vec<char> = Vec::new();
    encode_into(v, &mut out);
    out
}

/// The canonical text of `v`, as a string.
pub fn encode_json_string(v: &JsonValue) -> (out: String)
    ensures
        out@ == json_text(v@),
{
    let chars = encode_json(v);
    chars_to_string(&chars)
}

} // verus!
