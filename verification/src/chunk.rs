//! The streaming chunk parser: a raw byte chunk is decoded as UTF-8,
//! trailing whitespace is trimmed, the text is split on newlines, and each
//! non-empty line is decoded independently as the target response type.

use crate::error::OllamaError;
use crate::json::is_ws;
use crate::parse::parse_json;
use crate::responses::{
    pull_streaming_decodable, push_streaming_decodable, PullModelResponse,
    PullModelStreamingResponse, PushModelStreamingResponse,
};
use crate::decode::str_field;
use crate::text::{str_to_chars, utf8_to_string};
use vstd::prelude::*;
use vstd::utf8::{decode_utf8, valid_utf8};

verus! {

/// The text without its trailing whitespace.
pub open spec fn trim_end(s: Seq<char>) -> Seq<char>
    decreases s.len(),
{
    if s.len() > 0 && is_ws(s.last()) {
        trim_end(s.drop_last())
    } else {
        s
    }
}

/// Index of the first newline at or after `i` (clamped to the end).
pub open spec fn line_break(s: Seq<char>, i: int) -> int
    decreases s.len() - i,
{
    if 0 <= i < s.len() && s[i] != '\n' {
        line_break(s, i + 1)
    } else {
        i
    }
}

/// The newline-separated pieces of `s` from `i` on (possibly empty pieces).
pub open spec fn lines_from(s: Seq<char>, i: int) -> Seq<Seq<char>>
    decreases s.len() - i,
{
    let e = line_break(s, i);
    if !(0 <= i <= s.len()) {
        Seq::empty()
    } else if e >= s.len() || e < i {
        seq![s.subrange(i, s.len() as int)]
    } else {
        seq![s.subrange(i, e)] + lines_from(s, e + 1)
    }
}

/// The non-empty pieces, in order.
pub open spec fn nonempty(ls: Seq<Seq<char>>) -> Seq<Seq<char>>
    decreases ls,
{
    if ls.len() == 0 {
        Seq::empty()
    } else if ls[0].len() > 0 {
        seq![ls[0]] + nonempty(ls.drop_first())
    } else {
        nonempty(ls.drop_first())
    }
}

/// The non-empty lines of a chunk's decoded, end-trimmed text.
pub open spec fn chunk_lines(bytes: Seq<u8>) -> Seq<Seq<char>> {
    nonempty(lines_from(trim_end(decode_utf8(bytes)), 0))
}

/// Newline scanning stays inside the input and never goes backwards.
proof fn lemma_line_break(s: Seq<char>, i: int)
    requires
        0 <= i <= s.len(),
    ensures
        i <= line_break(s, i) <= s.len(),
        forall|t: int| i <= t < line_break(s, i) ==> #[trigger] s[t] != '\n',
        line_break(s, i) < s.len() ==> s[line_break(s, i)] == '\n',
    decreases s.len() - i,
{
    if i < s.len() && s[i] != '\n' {
        lemma_line_break(s, i + 1);
    }
}

/// Splits the non-empty newline-separated pieces of a chunk's text, or
/// reports the bytes as not valid UTF-8.
#[verifier::loop_isolation(false)]
pub fn split_chunk_lines(bytes: &Vec<u8>) -> (r: Result<Vec<Vec<char>>, OllamaError>)
    ensures
        match r {
            Ok(lines) => valid_utf8(bytes@) && lines@.len() == chunk_lines(bytes@).len() && (forall|
                k: int,
            |
                0 <= k < lines@.len() ==> #[trigger] lines@[k]@ == chunk_lines(bytes@)[k]),
            Err(e) => !valid_utf8(bytes@) && (e matches OllamaError::StreamDecodingError(m) && m@
                == "chunk is not valid utf-8"@),
        },
{
    let text = match utf8_to_string(bytes) {
        Some(t) => t,
        None => {
            return Err(
                OllamaError::StreamDecodingError(String::from_str("chunk is not valid utf-8")),
            );
        },
    };
    let mut cs = str_to_chars(text.as_str());
    while cs.len() > 0 && (cs[cs.len() - 1] == ' ' || cs[cs.len() - 1] == '\t' || cs[cs.len() - 1]
        == '\n' || cs[cs.len() - 1] == '\r')
        invariant
            trim_end(cs@) == trim_end(decode_utf8(bytes@)),
        decreases cs@.len(),
    {
        let ghost before = cs@;
        cs.pop();
        proof {
            assert(cs@ =~= before.drop_last());
        }
    }
    proof {
        assert(trim_end(cs@) == cs@);
    }
    let ghost trimmed = cs@;
    let mut out: Vec<Vec<char>> = Vec::new();
    let mut i: usize = 0;
    proof {
        assert(views_of(out@) =~= Seq::<Seq<char>>::empty());
        assert(views_of(out@) + nonempty(lines_from(trimmed, 0)) =~= nonempty(
            lines_from(trimmed, 0),
        ));
    }
    let mut done = false;
    while !done
        invariant
            cs@ == trimmed,
            !done ==> 0 <= i <= cs@.len(),
            !done ==> nonempty(lines_from(trimmed, 0)) == views_of(out@) + nonempty(
                lines_from(trimmed, i as int),
            ),
            done ==> nonempty(lines_from(trimmed, 0)) == views_of(out@),
            views_of(out@).len() == out@.len(),
            forall|k: int| 0 <= k < out@.len() ==> #[trigger] views_of(out@)[k] == out@[k]@,
        decreases cs@.len() - i + (if done {
            0int
        } else {
            1int
        }),
    {
        proof {
            lemma_line_break(trimmed, i as int);
        }
        let mut e = i;
        while e < cs.len() && cs[e] != '\n'
            invariant
                i <= e <= cs@.len(),
                cs@ == trimmed,
                line_break(trimmed, i as int) == line_break(trimmed, e as int),
            decreases cs@.len() - e,
        {
            e = e + 1;
        }
        let line = crate::parse::copy_range(&cs, i, e);
        let ghost rest = if e < cs@.len() {
            nonempty(lines_from(trimmed, e + 1 as int))
        } else {
            Seq::<Seq<char>>::empty()
        };
        if line.len() > 0 {
            let ghost before = out@;
            out.push(line);
            proof {
                lemma_views_of_push(before, out@[out@.len() - 1]);
            }
        }
        proof {
            let ls = lines_from(trimmed, i as int);
            if e < cs@.len() {
                assert(ls == seq![trimmed.subrange(i as int, e as int)] + lines_from(
                    trimmed,
                    e + 1 as int,
                ));
                assert(ls[0] == line@);
                assert(ls.drop_first() =~= lines_from(trimmed, e + 1 as int));
                assert(nonempty(ls.drop_first()) == rest);
            } else {
                assert(ls == seq![trimmed.subrange(i as int, trimmed.len() as int)]);
                assert(ls[0] == line@);
                assert(ls.drop_first() =~= Seq::<Seq<char>>::empty());
                assert(nonempty(ls.drop_first()) == rest);
            }
            if line@.len() > 0 {
                assert(nonempty(ls) == seq![ls[0]] + nonempty(ls.drop_first()));
                assert(nonempty(ls) =~= seq![line@] + rest);
            } else {
                assert(nonempty(ls) =~= rest);
            }
            assert(views_of(out@) + rest =~= nonempty(lines_from(trimmed, 0)));
            if e >= cs@.len() {
                assert(views_of(out@) + rest =~= views_of(out@));
            }
        }
        if e < cs.len() {
            i = e + 1;
        } else {
            done = true;
        }
    }
    proof {
        lemma_views_of(out@);
    }
    Ok(out)
}

/// The views of a sequence of character vectors.
pub open spec fn views_of(vs: Seq<Vec<char>>) -> Seq<Seq<char>>
    decreases vs,
{
    if vs.len() == 0 {
        Seq::empty()
    } else {
        seq![vs[0]@] + views_of(vs.drop_first())
    }
}

/// The view list has the same length and views each vector in place.
pub proof fn lemma_views_of(vs: Seq<Vec<char>>)
    ensures
        views_of(vs).len() == vs.len(),
        forall|i: int| 0 <= i < vs.len() ==> #[trigger] views_of(vs)[i] == vs[i]@,
    decreases vs,
{
    if vs.len() > 0 {
        lemma_views_of(vs.drop_first());
        assert forall|i: int| 0 <= i < vs.len() implies #[trigger] views_of(vs)[i] == vs[i]@ by {
            if i > 0 {
                assert(vs.drop_first()[i - 1] == vs[i]);
                assert(views_of(vs)[i] == views_of(vs.drop_first())[i - 1]);
            }
        }
    }
}

/// Viewing commutes with appending one vector.
pub proof fn lemma_views_of_push(vs: Seq<Vec<char>>, v: Vec<char>)
    ensures
        views_of(vs.push(v)) == views_of(vs).push(v@),
{
    lemma_views_of(vs);
    lemma_views_of(vs.push(v));
    assert(forall|i: int| 0 <= i < vs.len() ==> vs.push(v)[i] == #[trigger] vs[i]);
    assert(vs.push(v)[vs.len() as int] == v);
    assert(views_of(vs.push(v)) =~= views_of(vs).push(v@));
}

/// Does the line decode as a streamed pull update carrying exactly `p`?
pub open spec fn pull_item_matches(l: Seq<char>, p: PullModelStreamingResponse) -> bool {
    parse_json(l) matches Some(j) && {
        &&& pull_streaming_decodable(j)
        &&& str_field(j, "status"@) == Some(p.status@)
        &&& crate::decode::opt_str_field(j, "digest"@) == Some(match p.digest {
            Some(s) => Some(s@),
            None => None,
        })
        &&& crate::decode::opt_i64_field(j, "total"@) == Some(p.total)
        &&& crate::decode::opt_i64_field(j, "completed"@) == Some(p.completed)
    }
}

/// Is the line one valid streamed pull update?
pub open spec fn pull_line_ok(l: Seq<char>) -> bool {
    parse_json(l) matches Some(j) && pull_streaming_decodable(j)
}

/// Decodes one raw chunk into the streamed pull updates it holds, line by
/// line: zero items on a whitespace-only chunk, one item per non-empty line
/// otherwise. Fails with `StreamDecodingError` exactly when the bytes are
/// not UTF-8 or some line is not a valid update.
pub fn parse_chunks(bytes: &Vec<u8>) -> (r: Result<Vec<PullModelStreamingResponse>, OllamaError>)
    ensures
        r is Ok <==> valid_utf8(bytes@) && (forall|k: int|
            0 <= k < chunk_lines(bytes@).len() ==> pull_line_ok(#[trigger] chunk_lines(bytes@)[k])),
        r matches Ok(items) ==> items@.len() == chunk_lines(bytes@).len() && (forall|k: int|
            0 <= k < items@.len() ==> pull_item_matches(
                #[trigger] chunk_lines(bytes@)[k],
                items@[k],
            )),
        r matches Err(e) ==> e is StreamDecodingError,
{
    let lines = match split_chunk_lines(bytes) {
        Ok(ls) => ls,
        Err(e) => {
            return Err(e);
        },
    };
    let mut items: Vec<PullModelStreamingResponse> = Vec::new();
    let mut i: usize = 0;
    while i < lines.len()
        invariant
            i <= lines@.len(),
            valid_utf8(bytes@),
            lines@.len() == chunk_lines(bytes@).len(),
            forall|k: int|
                0 <= k < lines@.len() ==> #[trigger] lines@[k]@ == chunk_lines(bytes@)[k],
            items@.len() == i,
            forall|k: int|
                0 <= k < i ==> pull_item_matches(#[trigger] chunk_lines(bytes@)[k], items@[k]),
            forall|k: int| 0 <= k < i ==> pull_line_ok(#[trigger] chunk_lines(bytes@)[k]),
        decreases lines@.len() - i,
    {
        let v = match crate::parse::parse_json_chars(&lines[i]) {
            Some(v) => v,
            None => {
                return Err(
                    OllamaError::StreamDecodingError(
                        String::from_str("stream line is not valid JSON"),
                    ),
                );
            },
        };
        match PullModelStreamingResponse::from_json(&v) {
            Some(item) => {
                items.push(item);
            },
            None => {
                return Err(
                    OllamaError::StreamDecodingError(
                        String::from_str("unexpected stream line shape"),
                    ),
                );
            },
        }
        i = i + 1;
    }
    Ok(items)
}

/// Does the line decode as a pull status line carrying exactly `p`?
pub open spec fn pull_status_matches(l: Seq<char>, p: PullModelResponse) -> bool {
    parse_json(l) matches Some(j) && str_field(j, "status"@) == Some(p.status@)
}

/// Is the line one valid pull status line?
pub open spec fn pull_status_ok(l: Seq<char>) -> bool {
    parse_json(l) matches Some(j) && str_field(j, "status"@) is Some
}

/// Decodes one raw chunk into the pull status lines it holds, as
/// [`parse_chunks`] does for the richer update type.
pub fn parse_status_chunks(bytes: &Vec<u8>) -> (r: Result<Vec<PullModelResponse>, OllamaError>)
    ensures
        r is Ok <==> valid_utf8(bytes@) && (forall|k: int|
            0 <= k < chunk_lines(bytes@).len() ==> pull_status_ok(
                #[trigger] chunk_lines(bytes@)[k],
            )),
        r matches Ok(items) ==> items@.len() == chunk_lines(bytes@).len() && (forall|k: int|
            0 <= k < items@.len() ==> pull_status_matches(
                #[trigger] chunk_lines(bytes@)[k],
                items@[k],
            )),
        r matches Err(e) ==> e is StreamDecodingError,
{
    let lines = match split_chunk_lines(bytes) {
        Ok(ls) => ls,
        Err(e) => {
            return Err(e);
        },
    };
    let mut items: Vec<PullModelResponse> = Vec::new();
    let mut i: usize = 0;
    while i < lines.len()
        invariant
            i <= lines@.len(),
            valid_utf8(bytes@),
            lines@.len() == chunk_lines(bytes@).len(),
            forall|k: int|
                0 <= k < lines@.len() ==> #[trigger] lines@[k]@ == chunk_lines(bytes@)[k],
            items@.len() == i,
            forall|k: int|
                0 <= k < i ==> pull_status_matches(#[trigger] chunk_lines(bytes@)[k], items@[k]),
            forall|k: int| 0 <= k < i ==> pull_status_ok(#[trigger] chunk_lines(bytes@)[k]),
        decreases lines@.len() - i,
    {
        let v = match crate::parse::parse_json_chars(&lines[i]) {
            Some(v) => v,
            None => {
                return Err(
                    OllamaError::StreamDecodingError(
                        String::from_str("stream line is not valid JSON"),
                    ),
                );
            },
        };
        match PullModelResponse::from_json(&v) {
            Some(item) => {
                items.push(item);
            },
            None => {
                return Err(
                    OllamaError::StreamDecodingError(
                        String::from_str("unexpected stream line shape"),
                    ),
                );
            },
        }
        i = i + 1;
    }
    Ok(items)
}

/// Does the line decode as a streamed push update carrying exactly `p`?
pub open spec fn push_item_matches(l: Seq<char>, p: PushModelStreamingResponse) -> bool {
    parse_json(l) matches Some(j) && {
        &&& push_streaming_decodable(j)
        &&& str_field(j, "status"@) == Some(p.status@)
        &&& crate::decode::opt_str_field(j, "digest"@) == Some(match p.digest {
            Some(s) => Some(s@),
            None => None,
        })
        &&& crate::decode::opt_i64_field(j, "total"@) == Some(p.total)
    }
}

/// Is the line one valid streamed push update?
pub open spec fn push_line_ok(l: Seq<char>) -> bool {
    parse_json(l) matches Some(j) && push_streaming_decodable(j)
}

/// Decodes one raw chunk into the streamed push updates it holds, as
/// [`parse_chunks`] does for pulls.
pub fn parse_push_chunks(bytes: &Vec<u8>) -> (r: Result<
    Vec<PushModelStreamingResponse>,
    OllamaError,
>)
    ensures
        r is Ok <==> valid_utf8(bytes@) && (forall|k: int|
            0 <= k < chunk_lines(bytes@).len() ==> push_line_ok(#[trigger] chunk_lines(bytes@)[k])),
        r matches Ok(items) ==> items@.len() == chunk_lines(bytes@).len() && (forall|k: int|
            0 <= k < items@.len() ==> push_item_matches(
                #[trigger] chunk_lines(bytes@)[k],
                items@[k],
            )),
        r matches Err(e) ==> e is StreamDecodingError,
{
    let lines = match split_chunk_lines(bytes) {
        Ok(ls) => ls,
        Err(e) => {
            return Err(e);
        },
    };
    let mut items: Vec<PushModelStreamingResponse> = Vec::new();
    let mut i: usize = 0;
    while i < lines.len()
        invariant
            i <= lines@.len(),
            valid_utf8(bytes@),
            lines@.len() == chunk_lines(bytes@).len(),
            forall|k: int|
                0 <= k < lines@.len() ==> #[trigger] lines@[k]@ == chunk_lines(bytes@)[k],
            items@.len() == i,
            forall|k: int|
                0 <= k < i ==> push_item_matches(#[trigger] chunk_lines(bytes@)[k], items@[k]),
            forall|k: int| 0 <= k < i ==> push_line_ok(#[trigger] chunk_lines(bytes@)[k]),
        decreases lines@.len() - i,
    {
        let v = match crate::parse::parse_json_chars(&lines[i]) {
            Some(v) => v,
            None => {
                return Err(
                    OllamaError::StreamDecodingError(
                        String::from_str("stream line is not valid JSON"),
                    ),
                );
            },
        };
        match PushModelStreamingResponse::from_json(&v) {
            Some(item) => {
                items.push(item);
            },
            None => {
                return Err(
                    OllamaError::StreamDecodingError(
                        String::from_str("unexpected stream line shape"),
                    ),
                );
            },
        }
        i = i + 1;
    }
    Ok(items)
}

/// Does the line decode as a generate response carrying exactly `g`?
pub open spec fn generate_item_matches(l: Seq<char>, g: crate::responses::GenerateResponse) -> bool {
    parse_json(l) matches Some(j) && crate::responses::generate_response_matches(j, g)
}

/// Is the line one valid generate response?
pub open spec fn generate_line_ok(l: Seq<char>) -> bool {
    parse_json(l) matches Some(j) && crate::responses::generate_response_decodable(j)
}

/// Decodes one raw chunk of a streamed generate call into the responses it
/// holds, line by line: zero items on a whitespace-only chunk, one item per
/// non-empty line otherwise.
pub fn parse_generate_chunks(bytes: &Vec<u8>) -> (r: Result<
    Vec<crate::responses::GenerateResponse>,
    OllamaError,
>)
    ensures
        r is Ok <==> valid_utf8(bytes@) && (forall|k: int|
            0 <= k < chunk_lines(bytes@).len() ==> generate_line_ok(
                #[trigger] chunk_lines(bytes@)[k],
            )),
        r matches Ok(items) ==> items@.len() == chunk_lines(bytes@).len() && (forall|k: int|
            0 <= k < items@.len() ==> generate_item_matches(
                #[trigger] chunk_lines(bytes@)[k],
                items@[k],
            )),
        r matches Err(e) ==> e is StreamDecodingError,
{
    let lines = match split_chunk_lines(bytes) {
        Ok(ls) => ls,
        Err(e) => {
            return Err(e);
        },
    };
    let mut items: Vec<crate::responses::GenerateResponse> = Vec::new();
    let mut i: usize = 0;
    while i < lines.len()
        invariant
            i <= lines@.len(),
            valid_utf8(bytes@),
            lines@.len() == chunk_lines(bytes@).len(),
            forall|k: int|
                0 <= k < lines@.len() ==> #[trigger] lines@[k]@ == chunk_lines(bytes@)[k],
            items@.len() == i,
            forall|k: int|
                0 <= k < i ==> generate_item_matches(#[trigger] chunk_lines(bytes@)[k], items@[k]),
            forall|k: int| 0 <= k < i ==> generate_line_ok(#[trigger] chunk_lines(bytes@)[k]),
        decreases lines@.len() - i,
    {
        let v = match crate::parse::parse_json_chars(&lines[i]) {
            Some(v) => v,
            None => {
                return Err(
                    OllamaError::StreamDecodingError(
                        String::from_str("stream line is not valid JSON"),
                    ),
                );
            },
        };
        match crate::responses::GenerateResponse::from_json(&v) {
            Some(item) => {
                items.push(item);
            },
            None => {
                return Err(
                    OllamaError::StreamDecodingError(
                        String::from_str("unexpected stream line shape"),
                    ),
                );
            },
        }
        i = i + 1;
    }
    Ok(items)
}

/// Does the line decode as a chat response carrying exactly `g`?
pub open spec fn chat_item_matches(l: Seq<char>, g: crate::responses::ChatCompletionResponse) -> bool {
    parse_json(l) matches Some(j) && crate::responses::chat_response_matches(j, g)
}

/// Is the line one valid chat response?
pub open spec fn chat_line_ok(l: Seq<char>) -> bool {
    parse_json(l) matches Some(j) && crate::responses::chat_response_decodable(j)
}

/// Decodes one raw chunk of a streamed chat call into the responses it
/// holds, line by line, as [`parse_generate_chunks`] does for its type.
pub fn parse_chat_chunks(bytes: &Vec<u8>) -> (r: Result<
    Vec<crate::responses::ChatCompletionResponse>,
    OllamaError,
>)
    ensures
        r is Ok <==> valid_utf8(bytes@) && (forall|k: int|
            0 <= k < chunk_lines(bytes@).len() ==> chat_line_ok(#[trigger] chunk_lines(bytes@)[k])),
        r matches Ok(items) ==> items@.len() == chunk_lines(bytes@).len() && (forall|k: int|
            0 <= k < items@.len() ==> chat_item_matches(
                #[trigger] chunk_lines(bytes@)[k],
                items@[k],
            )),
        r matches Err(e) ==> e is StreamDecodingError,
{
    let lines = match split_chunk_lines(bytes) {
        Ok(ls) => ls,
        Err(e) => {
            return Err(e);
        },
    };
    let mut items: Vec<crate::responses::ChatCompletionResponse> = Vec::new();
    let mut i: usize = 0;
    while i < lines.len()
        invariant
            i <= lines@.len(),
            valid_utf8(bytes@),
            lines@.len() == chunk_lines(bytes@).len(),
            forall|k: int|
                0 <= k < lines@.len() ==> #[trigger] lines@[k]@ == chunk_lines(bytes@)[k],
            items@.len() == i,
            forall|k: int|
                0 <= k < i ==> chat_item_matches(#[trigger] chunk_lines(bytes@)[k], items@[k]),
            forall|k: int| 0 <= k < i ==> chat_line_ok(#[trigger] chunk_lines(bytes@)[k]),
        decreases lines@.len() - i,
    {
        let v = match crate::parse::parse_json_chars(&lines[i]) {
            Some(v) => v,
            None => {
                return Err(
                    OllamaError::StreamDecodingError(
                        String::from_str("stream line is not valid JSON"),
                    ),
                );
            },
        };
        match crate::responses::ChatCompletionResponse::from_json(&v) {
            Some(item) => {
                items.push(item);
            },
            None => {
                return Err(
                    OllamaError::StreamDecodingError(
                        String::from_str("unexpected stream line shape"),
                    ),
                );
            },
        }
        i = i + 1;
    }
    Ok(items)
}

/// Does the line decode as a create status line carrying exactly `p`?
pub open spec fn create_status_matches(l: Seq<char>, p: crate::responses::CreateModelResponse) -> bool {
    parse_json(l) matches Some(j) && str_field(j, "status"@) == Some(p.status@)
}

/// Is the line one valid create status line?
pub open spec fn create_status_ok(l: Seq<char>) -> bool {
    parse_json(l) matches Some(j) && str_field(j, "status"@) is Some
}

/// Decodes one raw chunk into the create-model status lines it holds.
pub fn parse_create_chunks(bytes: &Vec<u8>) -> (r: Result<
    Vec<crate::responses::CreateModelResponse>,
    OllamaError,
>)
    ensures
        r is Ok <==> valid_utf8(bytes@) && (forall|k: int|
            0 <= k < chunk_lines(bytes@).len() ==> create_status_ok(
                #[trigger] chunk_lines(bytes@)[k],
            )),
        r matches Ok(items) ==> items@.len() == chunk_lines(bytes@).len() && (forall|k: int|
            0 <= k < items@.len() ==> create_status_matches(
                #[trigger] chunk_lines(bytes@)[k],
                items@[k],
            )),
        r matches Err(e) ==> e is StreamDecodingError,
{
    let lines = match split_chunk_lines(bytes) {
        Ok(ls) => ls,
        Err(e) => {
            return Err(e);
        },
    };
    let mut items: Vec<crate::responses::CreateModelResponse> = Vec::new();
    let mut i: usize = 0;
    while i < lines.len()
        invariant
            i <= lines@.len(),
            valid_utf8(bytes@),
            lines@.len() == chunk_lines(bytes@).len(),
            forall|k: int|
                0 <= k < lines@.len() ==> #[trigger] lines@[k]@ == chunk_lines(bytes@)[k],
            items@.len() == i,
            forall|k: int|
                0 <= k < i ==> create_status_matches(#[trigger] chunk_lines(bytes@)[k], items@[k]),
            forall|k: int| 0 <= k < i ==> create_status_ok(#[trigger] chunk_lines(bytes@)[k]),
        decreases lines@.len() - i,
    {
        let v = match crate::parse::parse_json_chars(&lines[i]) {
            Some(v) => v,
            None => {
                return Err(
                    OllamaError::StreamDecodingError(
                        String::from_str("stream line is not valid JSON"),
                    ),
                );
            },
        };
        match crate::responses::CreateModelResponse::from_json(&v) {
            Some(item) => {
                items.push(item);
            },
            None => {
                return Err(
                    OllamaError::StreamDecodingError(
                        String::from_str("unexpected stream line shape"),
                    ),
                );
            },
        }
        i = i + 1;
    }
    Ok(items)
}

} // verus!
