//! JSON document model: a ghost model of JSON values, the executable value
//! type, and its view.

use crate::num::is_digit;
use vstd::prelude::*;

verus! {

/// Ghost model of a JSON value. Numbers are modelled by their decimal
/// literal, strings by their (already unescaped) character content.
pub enum Json {
    Null,
    Bool(bool),
    Num(Seq<char>),
    Str(Seq<char>),
    Arr(Seq<Json>),
    Obj(Seq<(Seq<char>, Json)>),
}

/// Executable JSON value. A number holds its decimal literal text, which the
/// library passes through uninterpreted unless a field is read as an integer.
#[derive(Debug)]
pub enum JsonValue {
    Null,
    Bool(bool),
    Num(String),
    Str(String),
    Arr(Vec<JsonValue>),
    Obj(Vec<(String, JsonValue)>),
}

/// View of a sequence of executable values, element by element.
pub open spec fn view_elems(s: Seq<JsonValue>) -> Seq<Json>
    decreases s,
{
    if s.len() == 0 {
        Seq::empty()
    } else {
        seq![s[0].view()] + view_elems(s.drop_first())
    }
}

/// View of a sequence of executable object members, member by member.
pub open spec fn view_members(s: Seq<(String, JsonValue)>) -> Seq<(Seq<char>, Json)>
    decreases s,
{
    if s.len() == 0 {
        Seq::empty()
    } else {
        seq![(s[0].0@, s[0].1.view())] + view_members(s.drop_first())
    }
}

impl View for JsonValue {
    type V = Json;

    open spec fn view(&self) -> Json
        decreases self,
    {
        match self {
            JsonValue::Null => Json::Null,
            JsonValue::Bool(b) => Json::Bool(*b),
            JsonValue::Num(n) => Json::Num(n@),
            JsonValue::Str(s) => Json::Str(s@),
            JsonValue::Arr(items) => Json::Arr(view_elems(items@)),
            JsonValue::Obj(members) => Json::Obj(view_members(members@)),
        }
    }
}

/// The view of a sequence of values has the same length and views each
/// element in place.
pub proof fn lemma_view_elems(s: Seq<JsonValue>)
    ensures
        view_elems(s).len() == s.len(),
        forall|i: int| 0 <= i < s.len() ==> #[trigger] view_elems(s)[i] == s[i].view(),
    decreases s,
{
    if s.len() > 0 {
        lemma_view_elems(s.drop_first());
        assert(view_elems(s) == seq![s[0].view()] + view_elems(s.drop_first()));
        assert(view_elems(s).len() == s.len());
        assert forall|i: int| 0 <= i < s.len() implies #[trigger] view_elems(s)[i] == s[i].view() by {
            if i > 0 {
                assert(s.drop_first()[i - 1] == s[i]);
                assert(view_elems(s)[i] == view_elems(s.drop_first())[i - 1]);
            }
        }
    }
}

/// The view of a sequence of members has the same length and views each
/// member in place.
pub proof fn lemma_view_members(s: Seq<(String, JsonValue)>)
    ensures
        view_members(s).len() == s.len(),
        forall|i: int|
            0 <= i < s.len() ==> #[trigger] view_members(s)[i] == (s[i].0@, s[i].1.view()),
    decreases s,
{
    if s.len() > 0 {
        lemma_view_members(s.drop_first());
        assert(view_members(s) == seq![(s[0].0@, s[0].1.view())] + view_members(s.drop_first()));
        assert forall|i: int|
            0 <= i < s.len() implies #[trigger] view_members(s)[i] == (s[i].0@, s[i].1.view()) by {
            if i > 0 {
                assert(s.drop_first()[i - 1] == s[i]);
                assert(view_members(s)[i] == view_members(s.drop_first())[i - 1]);
            }
        }
    }
}

/// Viewing commutes with appending one element.
pub proof fn lemma_view_elems_push(s: Seq<JsonValue>, v: JsonValue)
    ensures
        view_elems(s.push(v)) == view_elems(s).push(v@),
{
    lemma_view_elems(s);
    lemma_view_elems(s.push(v));
    assert(forall|i: int| 0 <= i < s.len() ==> s.push(v)[i] == #[trigger] s[i]);
    assert(s.push(v)[s.len() as int] == v);
    assert(view_elems(s.push(v)) =~= view_elems(s).push(v@));
}

/// Viewing commutes with appending one member.
pub proof fn lemma_view_members_push(s: Seq<(String, JsonValue)>, k: String, v: JsonValue)
    ensures
        view_members(s.push((k, v))) == view_members(s).push((k@, v@)),
{
    lemma_view_members(s);
    lemma_view_members(s.push((k, v)));
    assert(forall|i: int| 0 <= i < s.len() ==> s.push((k, v))[i] == #[trigger] s[i]);
    assert(s.push((k, v))[s.len() as int] == (k, v));
    assert(view_members(s.push((k, v))) =~= view_members(s).push((k@, v@)));
}

impl JsonValue {
    /// A deep copy with the same model.
    pub fn deep_clone(&self) -> (r: JsonValue)
        ensures
            r@ == self@,
        decreases self,
    {
        broadcast use vstd::std_specs::vec::axiom_vec_index_decreases;

        match self {
            JsonValue::Null => JsonValue::Null,
            JsonValue::Bool(b) => JsonValue::Bool(*b),
            JsonValue::Num(n) => JsonValue::Num(n.clone()),
            JsonValue::Str(s) => JsonValue::Str(s.clone()),
            JsonValue::Arr(items) => {
                proof {
                    lemma_view_elems(items@);
                }
                let mut out: Vec<JsonValue> = Vec::new();
                let mut i: usize = 0;
                while i < items.len()
                    invariant
                        *self == JsonValue::Arr(*items),
                        i <= items@.len(),
                        view_elems(out@) == view_elems(items@).take(i as int),
                        view_elems(items@).len() == items@.len(),
                        forall|k: int|
                            0 <= k < items@.len() ==> #[trigger] view_elems(items@)[k]
                                == items@[k].view(),
                    decreases items@.len() - i,
                {
                    proof {
                        assert(*items == self->Arr_0);
                        assert(decreases_to!(*self => self->Arr_0));
                        assert(decreases_to!(*items => items@));
                        assert(decreases_to!(items@ => items@[i as int]));
                    }
                    let ghost old_out = out@;
                    let c = items[i].deep_clone();
                    out.push(c);
                    proof {
                        lemma_view_elems_push(old_out, c);
                        assert(view_elems(out@) =~= view_elems(items@).take(i + 1 as int));
                    }
                    i = i + 1;
                }
                proof {
                    assert(view_elems(items@).take(items@.len() as int) =~= view_elems(items@));
                }
                JsonValue::Arr(out)
            },
            JsonValue::Obj(members) => {
                proof {
                    lemma_view_members(members@);
                }
                let mut out: Vec<(String, JsonValue)> = Vec::new();
                let mut i: usize = 0;
                while i < members.len()
                    invariant
                        *self == JsonValue::Obj(*members),
                        i <= members@.len(),
                        view_members(out@) == view_members(members@).take(i as int),
                        view_members(members@).len() == members@.len(),
                        forall|k: int|
                            0 <= k < members@.len() ==> #[trigger] view_members(members@)[k] == (
                            members@[k].0@,
                            members@[k].1.view(),
                            ),
                    decreases members@.len() - i,
                {
                    proof {
                        assert(*members == self->Obj_0);
                        assert(decreases_to!(*self => self->Obj_0));
                        assert(decreases_to!(*members => members@));
                        assert(decreases_to!(members@ => members@[i as int]));
                        assert(decreases_to!(members@[i as int] => members@[i as int].1));
                    }
                    let ghost old_out = out@;
                    let key = members[i].0.clone();
                    let c = members[i].1.deep_clone();
                    out.push((key, c));
                    proof {
                        lemma_view_members_push(old_out, out@[out@.len() - 1].0, out@[out@.len() - 1].1);
                        assert(view_members(out@) =~= view_members(members@).take(i + 1 as int));
                    }
                    i = i + 1;
                }
                proof {
                    assert(view_members(members@).take(members@.len() as int) =~= view_members(
                        members@,
                    ));
                }
                JsonValue::Obj(out)
            },
        }
    }
}

impl Clone for JsonValue {
    /// A deep copy with the same model.
    fn clone(&self) -> (r: Self)
        ensures
            r@ == self@,
    {
        self.deep_clone()
    }
}

/// The models of a sequence of strings, each as a JSON string value.
pub open spec fn strings_json(xs: Seq<String>) -> Seq<Json>
    decreases xs,
{
    if xs.len() == 0 {
        Seq::empty()
    } else {
        seq![Json::Str(xs[0]@)] + strings_json(xs.drop_first())
    }
}

/// The string-list view has the same length and views each string in place.
pub proof fn lemma_strings_json(xs: Seq<String>)
    ensures
        strings_json(xs).len() == xs.len(),
        forall|i: int| 0 <= i < xs.len() ==> #[trigger] strings_json(xs)[i] == Json::Str(xs[i]@),
    decreases xs,
{
    if xs.len() > 0 {
        lemma_strings_json(xs.drop_first());
        assert(strings_json(xs) == seq![Json::Str(xs[0]@)] + strings_json(xs.drop_first()));
        assert forall|i: int|
            0 <= i < xs.len() implies #[trigger] strings_json(xs)[i] == Json::Str(xs[i]@) by {
            if i > 0 {
                assert(xs.drop_first()[i - 1] == xs[i]);
                assert(strings_json(xs)[i] == strings_json(xs.drop_first())[i - 1]);
            }
        }
    }
}

/// Builds the array value that holds the given strings.
pub fn strings_to_json(xs: &Vec<String>) -> (r: JsonValue)
    ensures
        r@ == Json::Arr(strings_json(xs@)),
{
    proof {
        lemma_strings_json(xs@);
    }
    let mut out: Vec<JsonValue> = Vec::new();
    let mut i: usize = 0;
    while i < xs.len()
        invariant
            i <= xs@.len(),
            view_elems(out@) == strings_json(xs@).take(i as int),
            strings_json(xs@).len() == xs@.len(),
            forall|k: int|
                0 <= k < xs@.len() ==> #[trigger] strings_json(xs@)[k] == Json::Str(xs@[k]@),
        decreases xs@.len() - i,
    {
        let ghost old_out = out@;
        let c = JsonValue::Str(xs[i].clone());
        out.push(c);
        proof {
            lemma_view_elems_push(old_out, c);
            assert(view_elems(out@) =~= strings_json(xs@).take(i + 1 as int));
        }
        i = i + 1;
    }
    proof {
        assert(view_elems(out@) =~= strings_json(xs@));
    }
    JsonValue::Arr(out)
}

/// Whitespace that may separate JSON tokens.
pub open spec fn is_ws(c: char) -> bool {
    c == ' ' || c == '\t' || c == '\n' || c == '\r'
}

/// Hexadecimal digit character for a value in `0 .. 16`, lower case.
pub open spec fn hex_char(d: int) -> char {
    if d < 10 {
        ((48 + d) as u8) as char
    } else {
        ((87 + d) as u8) as char
    }
}

/// The escape sequence (without the leading backslash) or literal text that
/// encodes one character inside a JSON string.
pub open spec fn escape_char(c: char) -> Seq<char> {
    if c == '"' {
        seq!['\\', '"']
    } else if c == '\\' {
        seq!['\\', '\\']
    } else if c == '\n' {
        seq!['\\', 'n']
    } else if c == '\r' {
        seq!['\\', 'r']
    } else if c == '\t' {
        seq!['\\', 't']
    } else if c as u32 == 8 {
        seq!['\\', 'b']
    } else if c as u32 == 12 {
        seq!['\\', 'f']
    } else if (c as u32) < 32 {
        seq!['\\', 'u', '0', '0', hex_char((c as u32 / 16) as int), hex_char((c as u32 % 16) as int)]
    } else {
        seq![c]
    }
}

/// The escaped text that encodes the characters of a JSON string.
pub open spec fn escape_str(s: Seq<char>) -> Seq<char>
    decreases s.len(),
{
    if s.len() == 0 {
        Seq::empty()
    } else {
        escape_str(s.drop_last()) + escape_char(s.last())
    }
}

/// First index at or after `i` that holds a non-digit (clamped to the end).
pub open spec fn scan_digits(s: Seq<char>, i: int) -> int
    decreases s.len() - i,
{
    if 0 <= i < s.len() && is_digit(s[i]) {
        scan_digits(s, i + 1)
    } else {
        i
    }
}

/// End index of the JSON number starting at `i`, or `None` when no valid
/// number starts there. The scan is maximal: integer part (no redundant
/// leading zero), optional fraction, optional exponent.
pub open spec fn scan_number(s: Seq<char>, i: int) -> Option<int> {
    let j = if 0 <= i < s.len() && s[i] == '-' {
        i + 1
    } else {
        i
    };
    if !(0 <= j < s.len() && is_digit(s[j])) {
        None
    } else {
        let k = if s[j] == '0' {
            j + 1
        } else {
            scan_digits(s, j)
        };
        let k2 = if k < s.len() && s[k] == '.' {
            if scan_digits(s, k + 1) == k + 1 {
                k  // marks failure below
            } else {
                scan_digits(s, k + 1)
            }
        } else {
            k
        };
        if k < s.len() && s[k] == '.' && k2 == k {
            None
        } else {
            let m = if k2 < s.len() && (s[k2] == 'e' || s[k2] == 'E') {
                let e = if k2 + 1 < s.len() && (s[k2 + 1] == '+' || s[k2 + 1] == '-') {
                    k2 + 2
                } else {
                    k2 + 1
                };
                if scan_digits(s, e) == e {
                    k2  // marks failure below
                } else {
                    scan_digits(s, e)
                }
            } else {
                k2
            };
            if k2 < s.len() && (s[k2] == 'e' || s[k2] == 'E') && m == k2 {
                None
            } else {
                Some(m)
            }
        }
    }
}

/// Is `s` exactly one valid JSON number literal?
pub open spec fn is_number_lit(s: Seq<char>) -> bool {
    scan_number(s, 0) == Some(s.len() as int)
}

/// Well-formedness of a ghost JSON value: every number literal in it is a
/// valid JSON number.
pub open spec fn wf_json(j: Json) -> bool
    decreases j, 0int,
{
    match j {
        Json::Null => true,
        Json::Bool(_) => true,
        Json::Num(lit) => is_number_lit(lit),
        Json::Str(_) => true,
        Json::Arr(elems) => wf_elems(elems, elems.len() as int),
        Json::Obj(members) => wf_members(members, members.len() as int),
    }
}

/// All of the first `i` elements are well formed.
pub open spec fn wf_elems(elems: Seq<Json>, i: int) -> bool
    decreases elems, i,
{
    if i <= 0 || i > elems.len() {
        true
    } else {
        wf_elems(elems, i - 1) && wf_json(elems[i - 1])
    }
}

/// All of the first `i` members are well formed.
pub open spec fn wf_members(members: Seq<(Seq<char>, Json)>, i: int) -> bool
    decreases members, i,
{
    if i <= 0 || i > members.len() {
        true
    } else {
        wf_members(members, i - 1) && wf_json(members[i - 1].1)
    }
}

/// The canonical text of a JSON value: no whitespace between tokens, strings
/// escaped as in [`escape_char`], numbers printed as their stored literal.
pub open spec fn json_text(j: Json) -> Seq<char>
    decreases j, 0int,
{
    match j {
        Json::Null => seq!['n', 'u', 'l', 'l'],
        Json::Bool(b) => if b {
            seq!['t', 'r', 'u', 'e']
        } else {
            seq!['f', 'a', 'l', 's', 'e']
        },
        Json::Num(lit) => lit,
        Json::Str(s) => seq!['"'] + escape_str(s) + seq!['"'],
        Json::Arr(elems) => seq!['['] + elems_text(elems, elems.len() as int) + seq![']'],
        Json::Obj(members) => seq!['{'] + members_text(members, members.len() as int) + seq!['}'],
    }
}

/// Comma-joined text of the first `i` array elements.
pub open spec fn elems_text(elems: Seq<Json>, i: int) -> Seq<char>
    decreases elems, i,
{
    if i <= 0 || i > elems.len() {
        Seq::empty()
    } else if i == 1 {
        json_text(elems[0])
    } else {
        elems_text(elems, i - 1) + seq![','] + json_text(elems[i - 1])
    }
}

/// Comma-joined text of the first `i` object members, each a quoted escaped
/// key, a colon, and the member's value.
pub open spec fn members_text(members: Seq<(Seq<char>, Json)>, i: int) -> Seq<char>
    decreases members, i,
{
    if i <= 0 || i > members.len() {
        Seq::empty()
    } else {
        let one = seq!['"'] + escape_str(members[i - 1].0) + seq!['"', ':'] + json_text(
            members[i - 1].1,
        );
        if i == 1 {
            one
        } else {
            members_text(members, i - 1) + seq![','] + one
        }
    }
}

/// No escape sequence ever holds a newline.
proof fn lemma_escape_char_no_newline(c: char)
    ensures
        forall|t: int| 0 <= t < escape_char(c).len() ==> #[trigger] escape_char(c)[t] != '\n',
{
    assert(('0' as u8) as char != '\n');
    if (c as u32) < 32 && c != '"' && c != '\\' && c != '\n' && c != '\r' && c != '\t'
        && c as u32 != 8 && c as u32 != 12 {
        assert(hex_char((c as u32 / 16) as int) as int != 10 && hex_char(
            (c as u32 % 16) as int,
        ) as int != 10);
    }
}

/// Escaped string content never holds a newline.
proof fn lemma_escape_str_no_newline(s: Seq<char>)
    ensures
        forall|t: int| 0 <= t < escape_str(s).len() ==> #[trigger] escape_str(s)[t] != '\n',
    decreases s.len(),
{
    if s.len() > 0 {
        lemma_escape_str_no_newline(s.drop_last());
        lemma_escape_char_no_newline(s.last());
        let a = escape_str(s.drop_last());
        let b = escape_char(s.last());
        assert(escape_str(s) == a + b);
        assert forall|t: int| 0 <= t < escape_str(s).len() implies #[trigger] escape_str(s)[t]
            != '\n' by {
            if t < a.len() {
                assert(escape_str(s)[t] == a[t]);
            } else {
                assert(escape_str(s)[t] == b[t - a.len()]);
            }
        }
    }
}

/// Digit runs hold digits only.
proof fn lemma_scan_digits_chars(s: Seq<char>, i: int)
    requires
        0 <= i <= s.len(),
    ensures
        forall|t: int| i <= t < scan_digits(s, i) ==> is_digit(#[trigger] s[t]),
        i <= scan_digits(s, i) <= s.len(),
    decreases s.len() - i,
{
    if i < s.len() && is_digit(s[i]) {
        lemma_scan_digits_chars(s, i + 1);
    }
}

/// A valid number literal holds no newline: every character is a sign, a
/// digit, a decimal point or an exponent marker.
proof fn lemma_number_lit_no_newline(s: Seq<char>)
    requires
        is_number_lit(s),
    ensures
        forall|t: int| 0 <= t < s.len() ==> #[trigger] s[t] != '\n',
{
    let j = if 0 <= 0 < s.len() && s[0] == '-' {
        1int
    } else {
        0int
    };
    lemma_scan_digits_chars(s, j);
    let k = if s[j] == '0' {
        j + 1
    } else {
        scan_digits(s, j)
    };
    if k < s.len() && s[k] == '.' {
        lemma_scan_digits_chars(s, k + 1);
    }
    let k2 = if k < s.len() && s[k] == '.' {
        if scan_digits(s, k + 1) == k + 1 {
            k
        } else {
            scan_digits(s, k + 1)
        }
    } else {
        k
    };
    if k2 < s.len() && (s[k2] == 'e' || s[k2] == 'E') {
        let e = if k2 + 1 < s.len() && (s[k2 + 1] == '+' || s[k2 + 1] == '-') {
            k2 + 2
        } else {
            k2 + 1
        };
        lemma_scan_digits_chars(s, e);
    }
}

/// The canonical text of a well-formed value holds no newline: in the
/// newline-delimited streaming protocol, one encoded value is exactly one
/// line.
pub proof fn lemma_json_text_one_line(j: Json)
    requires
        wf_json(j),
    ensures
        forall|t: int| 0 <= t < json_text(j).len() ==> #[trigger] json_text(j)[t] != '\n',
    decreases j, 1int,
{
    match j {
        Json::Null => {
            assert(json_text(j) == seq!['n', 'u', 'l', 'l']);
            assert forall|t: int| 0 <= t < json_text(j).len() implies #[trigger] json_text(j)[t]
                != '\n' by {}
        },
        Json::Bool(b) => {
            assert forall|t: int| 0 <= t < json_text(j).len() implies #[trigger] json_text(j)[t]
                != '\n' by {}
        },
        Json::Num(lit) => {
            lemma_number_lit_no_newline(lit);
        },
        Json::Str(s) => {
            lemma_escape_str_no_newline(s);
            let mid = escape_str(s);
            assert(json_text(j) == seq!['"'] + mid + seq!['"']);
            assert forall|t: int| 0 <= t < json_text(j).len() implies #[trigger] json_text(j)[t]
                != '\n' by {
                if 0 < t < 1 + mid.len() {
                    assert(json_text(j)[t] == mid[t - 1]);
                }
            }
        },
        Json::Arr(elems) => {
            lemma_elems_text_one_line(elems, elems.len() as int);
            let mid = elems_text(elems, elems.len() as int);
            assert(json_text(j) == seq!['['] + mid + seq![']']);
            assert forall|t: int| 0 <= t < json_text(j).len() implies #[trigger] json_text(j)[t]
                != '\n' by {
                if 0 < t < 1 + mid.len() {
                    assert(json_text(j)[t] == mid[t - 1]);
                }
            }
        },
        Json::Obj(members) => {
            lemma_members_text_one_line(members, members.len() as int);
            let mid = members_text(members, members.len() as int);
            assert(json_text(j) == seq!['{'] + mid + seq!['}']);
            assert forall|t: int| 0 <= t < json_text(j).len() implies #[trigger] json_text(j)[t]
                != '\n' by {
                if 0 < t < 1 + mid.len() {
                    assert(json_text(j)[t] == mid[t - 1]);
                }
            }
        },
    }
}

/// The joined text of the first `i` well-formed elements holds no newline.
proof fn lemma_elems_text_one_line(elems: Seq<Json>, i: int)
    requires
        wf_elems(elems, i),
    ensures
        forall|t: int|
            0 <= t < elems_text(elems, i).len() ==> #[trigger] elems_text(elems, i)[t] != '\n',
    decreases elems, i, 0int,
{
    if 0 < i <= elems.len() {
        lemma_elems_text_one_line(elems, i - 1);
        lemma_json_text_one_line(elems[i - 1]);
        if i > 1 {
            let a = elems_text(elems, i - 1);
            let b = json_text(elems[i - 1]);
            assert(elems_text(elems, i) == a + seq![','] + b);
            assert forall|t: int|
                0 <= t < elems_text(elems, i).len() implies #[trigger] elems_text(elems, i)[t]
                != '\n' by {
                if t < a.len() {
                    assert(elems_text(elems, i)[t] == a[t]);
                } else if t > a.len() {
                    assert(elems_text(elems, i)[t] == b[t - a.len() - 1]);
                }
            }
        }
    }
}

/// The joined text of the first `i` well-formed members holds no newline.
proof fn lemma_members_text_one_line(members: Seq<(Seq<char>, Json)>, i: int)
    requires
        wf_members(members, i),
    ensures
        forall|t: int|
            0 <= t < members_text(members, i).len() ==> #[trigger] members_text(members, i)[t]
                != '\n',
    decreases members, i, 0int,
{
    if 0 < i <= members.len() {
        lemma_members_text_one_line(members, i - 1);
        lemma_json_text_one_line(members[i - 1].1);
        lemma_escape_str_no_newline(members[i - 1].0);
        let key = escape_str(members[i - 1].0);
        let val = json_text(members[i - 1].1);
        let one = seq!['"'] + key + seq!['"', ':'] + val;
        assert forall|t: int| 0 <= t < one.len() implies #[trigger] one[t] != '\n' by {
            if 0 < t < 1 + key.len() {
                assert(one[t] == key[t - 1]);
            } else if t >= 3 + key.len() {
                assert(one[t] == val[t - key.len() - 3]);
            }
        }
        if i > 1 {
            let a = members_text(members, i - 1);
            assert(members_text(members, i) == a + seq![','] + one);
            assert forall|t: int|
                0 <= t < members_text(members, i).len() implies #[trigger] members_text(
                members,
                i,
            )[t] != '\n' by {
                if t < a.len() {
                    assert(members_text(members, i)[t] == a[t]);
                } else if t > a.len() {
                    assert(members_text(members, i)[t] == one[t - a.len() - 1]);
                }
            }
        } else {
            assert(members_text(members, i) == one);
        }
    }
}

} // verus!
