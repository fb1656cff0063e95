//! The optional generation-parameter bag, and the validated number literal
//! that carries non-integral tuning knobs onto the wire unchanged.

use crate::json::{is_number_lit, view_members, Json, JsonValue};
use crate::num::{dec_rep, digit_char, int_rep, is_digit};
use crate::text::{chars_to_string, str_to_chars};
use vstd::prelude::*;

verus! {

/// The decimal representation holds digits only, is never empty, and has no
/// redundant leading zero.
proof fn lemma_dec_rep_digits(n: nat)
    ensures
        dec_rep(n).len() >= 1,
        forall|i: int| 0 <= i < dec_rep(n).len() ==> is_digit(#[trigger] dec_rep(n)[i]),
        dec_rep(n)[0] == '0' ==> n == 0,
    decreases n,
{
    assert(forall|d: int| 0 <= d < 10 ==> #[trigger] digit_char(d) as int == 48 + d);
    if n >= 10 {
        lemma_dec_rep_digits(n / 10);
    }
}

/// Scanning digits over an all-digit tail reaches the end of the input.
proof fn lemma_scan_digits_all(s: Seq<char>, i: int)
    requires
        0 <= i <= s.len(),
        forall|t: int| i <= t < s.len() ==> is_digit(#[trigger] s[t]),
    ensures
        crate::json::scan_digits(s, i) == s.len(),
    decreases s.len() - i,
{
    if i < s.len() {
        lemma_scan_digits_all(s, i + 1);
    }
}

/// The decimal representation of an integer is a valid JSON number literal.
pub proof fn lemma_int_rep_is_number_lit(v: int)
    ensures
        is_number_lit(int_rep(v)),
{
    let s = int_rep(v);
    assert(forall|d: int| 0 <= d < 10 ==> #[trigger] digit_char(d) as int == 48 + d);
    if v < 0 {
        lemma_dec_rep_digits((-v) as nat);
        assert(s[0] == '-');
        assert(forall|t: int| 1 <= t < s.len() ==> is_digit(#[trigger] s[t]));
        lemma_scan_digits_all(s, 1);
        if s[1] == '0' {
            assert(dec_rep((-v) as nat)[0] == '0');
            assert(-v == 0);
        }
    } else {
        lemma_dec_rep_digits(v as nat);
        assert(forall|t: int| 0 <= t < s.len() ==> is_digit(#[trigger] s[t]));
        lemma_scan_digits_all(s, 0);
        if s[0] == '0' {
            assert(v == 0);
            assert(s.len() == 1);
        }
    }
}

/// A JSON number literal, validated on construction. Values that are not
/// integers (a temperature, a probability) travel through the library as
/// their exact decimal text, uninterpreted.
#[derive(Debug)]
pub struct JsonNumber {
    text: String,
}

impl Clone for JsonNumber {
    /// A copy with the same literal.
    fn clone(&self) -> (r: Self)
        ensures
            r.lit() == self.lit(),
    {
        proof {
            use_type_invariant(self);
        }
        JsonNumber { text: self.text.clone() }
    }
}

impl JsonNumber {
    /// The literal text.
    pub closed spec fn lit(self) -> Seq<char> {
        self.text@
    }

    #[verifier::type_invariant]
    spec fn type_inv(self) -> bool {
        is_number_lit(self.text@)
    }

    /// The literal of an integer.
    pub fn from_i64(v: i64) -> (r: Self)
        ensures
            r.lit() == int_rep(v as int),
    {
        proof {
            lemma_int_rep_is_number_lit(v as int);
        }
        let mut chars: Vec<char> = Vec::new();
        crate::num::push_dec_i64(v, &mut chars);
        let text = chars_to_string(&chars);
        JsonNumber { text }
    }

    /// Accepts exactly the valid JSON number literals, keeping the text.
    pub fn from_text(s: &str) -> (r: Option<Self>)
        ensures
            match r {
                Some(n) => n.lit() == s@ && is_number_lit(s@),
                None => !is_number_lit(s@),
            },
    {
        let cs = str_to_chars(s);
        match crate::parse::number_end(&cs, 0) {
            Some(e) if e == cs.len() => Some(JsonNumber { text: s.to_owned() }),
            _ => None,
        }
    }

    /// The literal text, for the encoder; always a valid number literal.
    pub fn as_text(&self) -> (r: &String)
        ensures
            r@ == self.lit(),
            is_number_lit(self.lit()),
    {
        proof {
            use_type_invariant(self);
        }
        &self.text
    }
}

/// The optional generation parameters. Each field is independently settable;
/// an unset field is left off the wire entirely. No range validation is done
/// anywhere: the server is the authority on values.
#[derive(Debug, Clone)]
pub struct Parameter {
    pub mirostat: Option<u8>,
    pub mirostat_eta: Option<JsonNumber>,
    pub mirostat_tau: Option<JsonNumber>,
    pub num_ctx: Option<i64>,
    pub repeat_last_n: Option<i64>,
    pub repeat_penalty: Option<JsonNumber>,
    pub temperature: Option<JsonNumber>,
    pub seed: Option<i64>,
    pub stop: Option<String>,
    pub num_predict: Option<i64>,
    pub top_k: Option<i64>,
    pub top_p: Option<JsonNumber>,
    pub min_p: Option<JsonNumber>,
}

impl Parameter {
    /// True exactly when every field is unset.
    pub open spec fn spec_is_default(self) -> bool {
        &&& self.mirostat is None
        &&& self.mirostat_eta is None
        &&& self.mirostat_tau is None
        &&& self.num_ctx is None
        &&& self.repeat_last_n is None
        &&& self.repeat_penalty is None
        &&& self.temperature is None
        &&& self.seed is None
        &&& self.stop is None
        &&& self.num_predict is None
        &&& self.top_k is None
        &&& self.top_p is None
        &&& self.min_p is None
    }

    /// True exactly when every field is unset; the serializer omits the
    /// whole block in that case.
    pub fn is_default(&self) -> (r: bool)
        ensures
            r == self.spec_is_default(),
    {
        self.mirostat.is_none() && self.mirostat_eta.is_none() && self.mirostat_tau.is_none()
            && self.num_ctx.is_none() && self.repeat_last_n.is_none()
            && self.repeat_penalty.is_none() && self.temperature.is_none() && self.seed.is_none()
            && self.stop.is_none() && self.num_predict.is_none() && self.top_k.is_none()
            && self.top_p.is_none() && self.min_p.is_none()
    }

    /// Sets exactly the `mirostat` field; the result is never default.
    pub fn mirostat(&mut self, mirostat: u8)
        ensures
            *final(self) == (Parameter { mirostat: Some(mirostat), ..*old(self) }),
            !final(self).spec_is_default(),
    {
        self.mirostat = Some(mirostat);
    }

    /// Sets exactly the `mirostat_eta` field; the result is never default.
    pub fn mirostat_eta(&mut self, mirostat_eta: JsonNumber)
        ensures
            *final(self) == (Parameter { mirostat_eta: Some(mirostat_eta), ..*old(self) }),
            !final(self).spec_is_default(),
    {
        self.mirostat_eta = Some(mirostat_eta);
    }

    /// Sets exactly the `mirostat_tau` field; the result is never default.
    pub fn mirostat_tau(&mut self, mirostat_tau: JsonNumber)
        ensures
            *final(self) == (Parameter { mirostat_tau: Some(mirostat_tau), ..*old(self) }),
            !final(self).spec_is_default(),
    {
        self.mirostat_tau = Some(mirostat_tau);
    }

    /// Sets exactly the `num_ctx` field; the result is never default.
    pub fn num_ctx(&mut self, num_ctx: i64)
        ensures
            *final(self) == (Parameter { num_ctx: Some(num_ctx), ..*old(self) }),
            !final(self).spec_is_default(),
    {
        self.num_ctx = Some(num_ctx);
    }

    /// Sets exactly the `repeat_last_n` field; the result is never default.
    pub fn repeat_last_n(&mut self, repeat_last_n: i64)
        ensures
            *final(self) == (Parameter { repeat_last_n: Some(repeat_last_n), ..*old(self) }),
            !final(self).spec_is_default(),
    {
        self.repeat_last_n = Some(repeat_last_n);
    }

    /// Sets exactly the `repeat_penalty` field; the result is never default.
    pub fn repeat_penalty(&mut self, repeat_penalty: JsonNumber)
        ensures
            *final(self) == (Parameter { repeat_penalty: Some(repeat_penalty), ..*old(self) }),
            !final(self).spec_is_default(),
    {
        self.repeat_penalty = Some(repeat_penalty);
    }

    /// Sets exactly the `temperature` field; the result is never default.
    pub fn temperature(&mut self, temperature: JsonNumber)
        ensures
            *final(self) == (Parameter { temperature: Some(temperature), ..*old(self) }),
            !final(self).spec_is_default(),
    {
        self.temperature = Some(temperature);
    }

    /// Sets exactly the `seed` field; the result is never default.
    pub fn seed(&mut self, seed: i64)
        ensures
            *final(self) == (Parameter { seed: Some(seed), ..*old(self) }),
            !final(self).spec_is_default(),
    {
        self.seed = Some(seed);
    }

    /// Sets exactly the `stop` field; the result is never default.
    pub fn stop(&mut self, stop: &str)
        ensures
            final(self).stop matches Some(s) && s@ == stop@,
            *final(self) == (Parameter { stop: final(self).stop, ..*old(self) }),
            !final(self).spec_is_default(),
    {
        self.stop = Some(stop.to_owned());
    }

    /// Sets exactly the `num_predict` field; the result is never default.
    pub fn num_predict(&mut self, num_predict: i64)
        ensures
            *final(self) == (Parameter { num_predict: Some(num_predict), ..*old(self) }),
            !final(self).spec_is_default(),
    {
        self.num_predict = Some(num_predict);
    }

    /// Sets exactly the `top_k` field; the result is never default.
    pub fn top_k(&mut self, top_k: i64)
        ensures
            *final(self) == (Parameter { top_k: Some(top_k), ..*old(self) }),
            !final(self).spec_is_default(),
    {
        self.top_k = Some(top_k);
    }

    /// Sets exactly the `top_p` field; the result is never default.
    pub fn top_p(&mut self, top_p: JsonNumber)
        ensures
            *final(self) == (Parameter { top_p: Some(top_p), ..*old(self) }),
            !final(self).spec_is_default(),
    {
        self.top_p = Some(top_p);
    }

    /// Sets exactly the `min_p` field; the result is never default.
    pub fn min_p(&mut self, min_p: JsonNumber)
        ensures
            *final(self) == (Parameter { min_p: Some(min_p), ..*old(self) }),
            !final(self).spec_is_default(),
    {
        self.min_p = Some(min_p);
    }
}

impl Default for Parameter {
    /// The all-unset bag: `is_default` holds of it.
    fn default() -> (r: Self)
        ensures
            r.spec_is_default(),
    {
        Parameter {
            mirostat: None,
            mirostat_eta: None,
            mirostat_tau: None,
            num_ctx: None,
            repeat_last_n: None,
            repeat_penalty: None,
            temperature: None,
            seed: None,
            stop: None,
            num_predict: None,
            top_k: None,
            top_p: None,
            min_p: None,
        }
    }
}

/// The wire members of a parameter bag: each set field, in declaration
/// order, under its own name.
pub open spec fn parameter_members(p: Parameter) -> Seq<(Seq<char>, Json)> {
    let m0 = Seq::<(Seq<char>, Json)>::empty();
    let m1 = match p.mirostat {
        Some(v) => m0.push(("mirostat"@, Json::Num(int_rep(v as int)))),
        None => m0,
    };
    let m2 = match p.mirostat_eta {
        Some(v) => m1.push(("mirostat_eta"@, Json::Num(v.lit()))),
        None => m1,
    };
    let m3 = match p.mirostat_tau {
        Some(v) => m2.push(("mirostat_tau"@, Json::Num(v.lit()))),
        None => m2,
    };
    let m4 = match p.num_ctx {
        Some(v) => m3.push(("num_ctx"@, Json::Num(int_rep(v as int)))),
        None => m3,
    };
    let m5 = match p.repeat_last_n {
        Some(v) => m4.push(("repeat_last_n"@, Json::Num(int_rep(v as int)))),
        None => m4,
    };
    let m6 = match p.repeat_penalty {
        Some(v) => m5.push(("repeat_penalty"@, Json::Num(v.lit()))),
        None => m5,
    };
    let m7 = match p.temperature {
        Some(v) => m6.push(("temperature"@, Json::Num(v.lit()))),
        None => m6,
    };
    let m8 = match p.seed {
        Some(v) => m7.push(("seed"@, Json::Num(int_rep(v as int)))),
        None => m7,
    };
    let m9 = match p.stop {
        Some(v) => m8.push(("stop"@, Json::Str(v@))),
        None => m8,
    };
    let m10 = match p.num_predict {
        Some(v) => m9.push(("num_predict"@, Json::Num(int_rep(v as int)))),
        None => m9,
    };
    let m11 = match p.top_k {
        Some(v) => m10.push(("top_k"@, Json::Num(int_rep(v as int)))),
        None => m10,
    };
    let m12 = match p.top_p {
        Some(v) => m11.push(("top_p"@, Json::Num(v.lit()))),
        None => m11,
    };
    match p.min_p {
        Some(v) => m12.push(("min_p"@, Json::Num(v.lit()))),
        None => m12,
    }
}

/// Builds the wire object of a parameter bag.
pub fn parameter_to_json(p: &Parameter) -> (r: JsonValue)
    ensures
        r@ == Json::Obj(parameter_members(*p)),
{
    let mut ms: Vec<(String, JsonValue)> = Vec::new();
    proof {
        assert(view_members(ms@) =~= Seq::<(Seq<char>, Json)>::empty());
    }
    if let Some(v) = &p.mirostat {
        push_num_i64_member(&mut ms, "mirostat", *v as i64);
    }
    if let Some(v) = &p.mirostat_eta {
        push_num_member(&mut ms, "mirostat_eta", v);
    }
    if let Some(v) = &p.mirostat_tau {
        push_num_member(&mut ms, "mirostat_tau", v);
    }
    if let Some(v) = &p.num_ctx {
        push_num_i64_member(&mut ms, "num_ctx", *v);
    }
    if let Some(v) = &p.repeat_last_n {
        push_num_i64_member(&mut ms, "repeat_last_n", *v);
    }
    if let Some(v) = &p.repeat_penalty {
        push_num_member(&mut ms, "repeat_penalty", v);
    }
    if let Some(v) = &p.temperature {
        push_num_member(&mut ms, "temperature", v);
    }
    if let Some(v) = &p.seed {
        push_num_i64_member(&mut ms, "seed", *v);
    }
    if let Some(v) = &p.stop {
        push_str_member(&mut ms, "stop", v.as_str());
    }
    if let Some(v) = &p.num_predict {
        push_num_i64_member(&mut ms, "num_predict", *v);
    }
    if let Some(v) = &p.top_k {
        push_num_i64_member(&mut ms, "top_k", *v);
    }
    if let Some(v) = &p.top_p {
        push_num_member(&mut ms, "top_p", v);
    }
    if let Some(v) = &p.min_p {
        push_num_member(&mut ms, "min_p", v);
    }
    JsonValue::Obj(ms)
}

/// Appends one member holding an integer value.
pub fn push_num_i64_member(ms: &mut Vec<(String, JsonValue)>, key: &str, v: i64)
    ensures
        view_members(final(ms)@) == view_members(old(ms)@).push(
            (key@, Json::Num(int_rep(v as int))),
        ),
{
    let ghost old_ms = ms@;
    let mut chars: Vec<char> = Vec::new();
    crate::num::push_dec_i64(v, &mut chars);
    let text = chars_to_string(&chars);
    ms.push((key.to_owned(), JsonValue::Num(text)));
    proof {
        crate::json::lemma_view_members_push(old_ms, ms@[ms@.len() - 1].0, ms@[ms@.len() - 1].1);
    }
}

/// Appends one member holding a number literal.
pub fn push_num_member(ms: &mut Vec<(String, JsonValue)>, key: &str, v: &JsonNumber)
    ensures
        view_members(final(ms)@) == view_members(old(ms)@).push((key@, Json::Num(v.lit()))),
{
    let ghost old_ms = ms@;
    ms.push((key.to_owned(), JsonValue::Num(v.as_text().clone())));
    proof {
        crate::json::lemma_view_members_push(old_ms, ms@[ms@.len() - 1].0, ms@[ms@.len() - 1].1);
    }
}

/// Appends one member holding a string value.
pub fn push_str_member(ms: &mut Vec<(String, JsonValue)>, key: &str, v: &str)
    ensures
        view_members(final(ms)@) == view_members(old(ms)@).push((key@, Json::Str(v@))),
{
    let ghost old_ms = ms@;
    ms.push((key.to_owned(), JsonValue::Str(v.to_owned())));
    proof {
        crate::json::lemma_view_members_push(old_ms, ms@[ms@.len() - 1].0, ms@[ms@.len() - 1].1);
    }
}

} // verus!
