//! The chat message model: roles, messages, their builders, and their wire
//! codec.

use crate::decode::{obj_lookup, str_field};
use crate::json::{strings_json, view_elems, view_members, Json, JsonValue};
use vstd::prelude::*;

verus! {

broadcast use vstd::string::group_string_axioms;

/// The role of a chat message.
#[derive(Debug, Clone, Copy, PartialEq, Eq, Structural)]
pub enum Role {
    System,
    User,
    Assistant,
    Tool,
}

/// The wire name of a role.
pub open spec fn role_chars(r: Role) -> Seq<char> {
    match r {
        Role::System => "system"@,
        Role::User => "user"@,
        Role::Assistant => "assistant"@,
        Role::Tool => "tool"@,
    }
}

/// The role a wire name denotes, if any.
pub open spec fn spec_role_from(s: Seq<char>) -> Option<Role> {
    if s == "system"@ {
        Some(Role::System)
    } else if s == "user"@ {
        Some(Role::User)
    } else if s == "assistant"@ {
        Some(Role::Assistant)
    } else if s == "tool"@ {
        Some(Role::Tool)
    } else {
        None
    }
}

/// Distinct roles have distinct wire names, and each name maps back to its
/// role.
pub proof fn lemma_role_names()
    ensures
        forall|r: Role| spec_role_from(#[trigger] role_chars(r)) == Some(r),
{
    reveal_strlit("system");
    reveal_strlit("user");
    reveal_strlit("assistant");
    reveal_strlit("tool");
    assert("system"@.len() == 6);
    assert("user"@.len() == 4);
    assert("assistant"@.len() == 9);
    assert("tool"@.len() == 4);
    assert("user"@[0] == 'u' && "tool"@[0] == 't');
    assert forall|r: Role| spec_role_from(#[trigger] role_chars(r)) == Some(r) by {
        match r {
            Role::System => {},
            Role::User => {
                assert("user"@ != "system"@);
            },
            Role::Assistant => {
                assert("assistant"@ != "system"@ && "assistant"@ != "user"@);
            },
            Role::Tool => {
                assert("tool"@ != "system"@ && "tool"@ != "user"@ && "tool"@ != "assistant"@);
            },
        }
    }
}

/// The wire name of a role, as text.
pub fn role_to_string(r: &Role) -> (s: String)
    ensures
        s@ == role_chars(*r),
{
    match r {
        Role::System => String::from_str("system"),
        Role::User => String::from_str("user"),
        Role::Assistant => String::from_str("assistant"),
        Role::Tool => String::from_str("tool"),
    }
}

/// The role a wire name denotes, if any.
pub fn role_from_str(s: &str) -> (r: Option<Role>)
    ensures
        r == spec_role_from(s@),
{
    let owned = s.to_owned();
    if owned == String::from_str("system") {
        Some(Role::System)
    } else if owned == String::from_str("user") {
        Some(Role::User)
    } else if owned == String::from_str("assistant") {
        Some(Role::Assistant)
    } else if owned == String::from_str("tool") {
        Some(Role::Tool)
    } else {
        None
    }
}

/// One chat message: a role, content, and optional images and tool calls.
/// Builder methods consume and return the value, so no two chains observe
/// each other's partial state.
#[derive(Debug, Clone)]
pub struct Message {
    pub role: Role,
    pub content: String,
    pub images: Option<Vec<String>>,
    pub tool_calls: Option<Vec<JsonValue>>,
}

impl Message {
    /// A message with the given role and content and nothing else.
    pub fn new(role: Role, content: &str) -> (m: Self)
        ensures
            m.role == role,
            m.content@ == content@,
            m.images is None,
            m.tool_calls is None,
    {
        Self { role, content: content.to_owned(), images: None, tool_calls: None }
    }

    /// A system message.
    pub fn system(content: &str) -> (m: Self)
        ensures
            m.role == Role::System,
            m.content@ == content@,
            m.images is None,
            m.tool_calls is None,
    {
        Self::new(Role::System, content)
    }

    /// A user message.
    pub fn user(content: &str) -> (m: Self)
        ensures
            m.role == Role::User,
            m.content@ == content@,
            m.images is None,
            m.tool_calls is None,
    {
        Self::new(Role::User, content)
    }

    /// An assistant message.
    pub fn assistant(content: &str) -> (m: Self)
        ensures
            m.role == Role::Assistant,
            m.content@ == content@,
            m.images is None,
            m.tool_calls is None,
    {
        Self::new(Role::Assistant, content)
    }

    /// The image list so far, or empty when unset.
    pub open spec fn spec_images(self) -> Seq<String> {
        match self.images {
            Some(v) => v@,
            None => Seq::empty(),
        }
    }

    /// The tool-call list so far, or empty when unset.
    pub open spec fn spec_tool_calls(self) -> Seq<JsonValue> {
        match self.tool_calls {
            Some(v) => v@,
            None => Seq::empty(),
        }
    }

    /// Appends one base64 image, initializing the list if needed.
    pub fn image(self, image: &str) -> (m: Self)
        ensures
            m.role == self.role,
            m.content == self.content,
            m.tool_calls == self.tool_calls,
            m.images matches Some(v) && v@.len() == self.spec_images().len() + 1 && v@.take(
                self.spec_images().len() as int,
            ) == self.spec_images() && v@.last()@ == image@,
    {
        let mut cur = match self.images {
            Some(v) => v,
            None => Vec::new(),
        };
        let ghost before = cur@;
        cur.push(image.to_owned());
        proof {
            assert(cur@.take(before.len() as int) =~= before);
        }
        Self { images: Some(cur), ..self }
    }

    /// Appends base64 images, initializing the list if needed.
    pub fn images(self, images: Vec<String>) -> (m: Self)
        ensures
            m.role == self.role,
            m.content == self.content,
            m.tool_calls == self.tool_calls,
            m.images matches Some(v) && v@ == self.spec_images() + images@,
    {
        let mut cur = match self.images {
            Some(v) => v,
            None => Vec::new(),
        };
        let ghost before = cur@;
        let mut rest = images;
        cur.append(&mut rest);
        Self { images: Some(cur), ..self }
    }

    /// Appends one tool call, initializing the list if needed.
    pub fn tool_call(self, tool_call: JsonValue) -> (m: Self)
        ensures
            m.role == self.role,
            m.content == self.content,
            m.images == self.images,
            m.tool_calls matches Some(v) && v@ == self.spec_tool_calls().push(tool_call),
    {
        let mut cur = match self.tool_calls {
            Some(v) => v,
            None => Vec::new(),
        };
        cur.push(tool_call);
        Self { tool_calls: Some(cur), ..self }
    }

    /// Appends tool calls, initializing the list if needed.
    pub fn tool_calls(self, tool_calls: Vec<JsonValue>) -> (m: Self)
        ensures
            m.role == self.role,
            m.content == self.content,
            m.images == self.images,
            m.tool_calls matches Some(v) && v@ == self.spec_tool_calls() + tool_calls@,
    {
        let mut cur = match self.tool_calls {
            Some(v) => v,
            None => Vec::new(),
        };
        let mut rest = tool_calls;
        cur.append(&mut rest);
        Self { tool_calls: Some(cur), ..self }
    }
}

/// The wire members of a message: role and content always, images and tool
/// calls only when set.
pub open spec fn message_members(m: Message) -> Seq<(Seq<char>, Json)> {
    let base = seq![
        ("role"@, Json::Str(role_chars(m.role))),
        ("content"@, Json::Str(m.content@)),
    ];
    let with_images = match m.images {
        Some(im) => base.push(("images"@, Json::Arr(strings_json(im@)))),
        None => base,
    };
    match m.tool_calls {
        Some(tc) => with_images.push(("tool_calls"@, Json::Arr(view_elems(tc@)))),
        None => with_images,
    }
}

/// The wire object of a message.
pub open spec fn message_json(m: Message) -> Json {
    Json::Obj(message_members(m))
}

/// Builds the wire object of a message.
pub fn message_to_json(m: &Message) -> (r: JsonValue)
    ensures
        r@ == message_json(*m),
{
    let mut ms: Vec<(String, JsonValue)> = Vec::new();
    proof {
        assert(view_members(ms@) =~= Seq::<(Seq<char>, Json)>::empty());
    }
    crate::parameter::push_str_member(&mut ms, "role", role_to_string(&m.role).as_str());
    crate::parameter::push_str_member(&mut ms, "content", m.content.as_str());
    if let Some(im) = &m.images {
        let arr = crate::json::strings_to_json(im);
        let ghost before_ms = ms@;
        ms.push((String::from_str("images"), arr));
        proof {
            crate::json::lemma_view_members_push(before_ms, ms@[ms@.len() - 1].0, ms@[ms@.len() - 1].1);
            assert(ms@[ms@.len() - 1] == (ms@[ms@.len() - 1].0, ms@[ms@.len() - 1].1));
        }
    }
    if let Some(tc) = &m.tool_calls {
        let ghost before = view_members(ms@);
        let mut arr_items: Vec<JsonValue> = Vec::new();
        proof {
            assert(view_elems(arr_items@) =~= view_elems(tc@).take(0));
            crate::json::lemma_view_elems(tc@);
        }
        let mut i: usize = 0;
        while i < tc.len()
            invariant
                i <= tc@.len(),
                view_elems(arr_items@) == view_elems(tc@).take(i as int),
                view_elems(tc@).len() == tc@.len(),
                forall|k: int|
                    0 <= k < tc@.len() ==> #[trigger] view_elems(tc@)[k] == tc@[k].view(),
            decreases tc@.len() - i,
        {
            let ghost before_items = arr_items@;
            let c = tc[i].deep_clone();
            arr_items.push(c);
            proof {
                crate::json::lemma_view_elems_push(before_items, c);
                assert(view_elems(arr_items@) =~= view_elems(tc@).take(i + 1 as int));
            }
            i = i + 1;
        }
        proof {
            assert(view_elems(tc@).take(tc@.len() as int) =~= view_elems(tc@));
        }
        let ghost before_ms = ms@;
        ms.push((String::from_str("tool_calls"), JsonValue::Arr(arr_items)));
        proof {
            crate::json::lemma_view_members_push(before_ms, ms@[ms@.len() - 1].0, ms@[ms@.len() - 1].1);
            assert(ms@[ms@.len() - 1] == (ms@[ms@.len() - 1].0, ms@[ms@.len() - 1].1));
        }
    }
    proof {
        assert(view_members(ms@) =~= message_members(*m));
    }
    JsonValue::Obj(ms)
}

/// The string contents of a JSON array of strings; `None` when an element is
/// not a string.
pub open spec fn strs_of(es: Seq<Json>) -> Option<Seq<Seq<char>>>
    decreases es,
{
    if es.len() == 0 {
        Some(Seq::empty())
    } else {
        match es[0] {
            Json::Str(s) => match strs_of(es.drop_first()) {
                Some(rest) => Some(seq![s] + rest),
                None => None,
            },
            _ => None,
        }
    }
}

/// An optional string-array field: `Some(None)` when absent or null,
/// `Some(Some(xs))` on an array of strings, `None` on any other shape.
pub open spec fn opt_str_arr_field(j: Json, key: Seq<char>) -> Option<Option<Seq<Seq<char>>>> {
    match obj_lookup(j, key) {
        Some(Json::Arr(es)) => match strs_of(es) {
            Some(xs) => Some(Some(xs)),
            None => None,
        },
        Some(Json::Null) => Some(None),
        Some(_) => None,
        None => Some(None),
    }
}

/// An optional array field: `Some(None)` when absent or null,
/// `Some(Some(es))` on an array, `None` on any other shape.
pub open spec fn opt_arr_field(j: Json, key: Seq<char>) -> Option<Option<Seq<Json>>> {
    match obj_lookup(j, key) {
        Some(Json::Arr(es)) => Some(Some(es)),
        Some(Json::Null) => Some(None),
        Some(_) => None,
        None => Some(None),
    }
}

/// Can a message be decoded from `j`?
pub open spec fn message_decodable(j: Json) -> bool {
    &&& str_field(j, "role"@) matches Some(rs) && spec_role_from(rs) is Some
    &&& str_field(j, "content"@) is Some
    &&& opt_str_arr_field(j, "images"@) is Some
    &&& opt_arr_field(j, "tool_calls"@) is Some
}

/// Does `m` carry exactly the fields of the wire object `j`: the role and
/// content, and the images and tool calls including their absence?
pub open spec fn message_matches(j: Json, m: Message) -> bool {
    &&& str_field(j, "role"@) == Some(role_chars(m.role))
    &&& str_field(j, "content"@) == Some(m.content@)
    &&& match m.images {
        Some(im) => opt_str_arr_field(j, "images"@) == Some(Some(strings_views(im@))),
        None => opt_str_arr_field(j, "images"@) == Some(None::<Seq<Seq<char>>>),
    }
    &&& match m.tool_calls {
        Some(tc) => opt_arr_field(j, "tool_calls"@) == Some(Some(view_elems(tc@))),
        None => opt_arr_field(j, "tool_calls"@) == Some(None::<Seq<Json>>),
    }
}

/// Decodes a message from its wire object: role and content are required,
/// images and tool calls optional. Succeeds exactly on decodable objects.
#[verifier::loop_isolation(false)]
pub fn message_from_json(v: &JsonValue) -> (r: Option<Message>)
    ensures
        r is Some <==> message_decodable(v@),
        r matches Some(m) ==> message_matches(v@, m),
{
    let role_s = match crate::decode::get_str(v, "role") {
        Some(s) => s,
        None => {
            return None;
        },
    };
    let role = match role_from_str(role_s.as_str()) {
        Some(r) => r,
        None => {
            proof {
                lemma_role_names();
            }
            return None;
        },
    };
    proof {
        lemma_role_names();
    }
    let content = match crate::decode::get_str(v, "content") {
        Some(s) => s,
        None => {
            return None;
        },
    };
    let images = match crate::decode::obj_get(v, "images") {
        Some(JsonValue::Arr(es)) => {
            proof {
                crate::json::lemma_view_elems(es@);
            }
            let ghost ve = view_elems(es@);
            let mut out: Vec<String> = Vec::new();
            let mut i: usize = 0;
            while i < es.len()
                invariant
                    i <= es@.len(),
                    ve == view_elems(es@),
                    ve.len() == es@.len(),
                    forall|k: int| 0 <= k < es@.len() ==> #[trigger] ve[k] == es@[k].view(),
                    strs_of(ve) is Some ==> strs_of(ve)->0.take(i as int) == strings_views(out@),
                    forall|k: int| 0 <= k < i ==> #[trigger] ve[k] is Str,
                    strings_views(out@).len() == i,
                decreases es@.len() - i,
            {
                match &es[i] {
                    JsonValue::Str(s) => {
                        let ghost before = out@;
                        out.push(s.clone());
                        proof {
                            lemma_strings_views_push(before, out@[out@.len() - 1]);
                            if strs_of(ve) is Some {
                                lemma_strs_of_prefix(ve, i as int);
                                assert(strs_of(ve.skip(i as int)) is Some);
                                assert(ve.skip(i as int)[0] == ve[i as int]);
                                assert(strs_of(ve)->0.skip(i as int)[0] == strs_of(
                                    ve.skip(i as int),
                                )->0[0]);
                                assert(strs_of(ve)->0[i as int] == s@);
                                assert(strs_of(ve)->0.take(i + 1 as int) =~= strs_of(
                                    ve,
                                )->0.take(i as int).push(strs_of(ve)->0[i as int]));
                            }
                        }
                    },
                    other => {
                        proof {
                            if strs_of(ve) is Some {
                                lemma_strs_of_prefix(ve, i as int);
                                assert(ve.skip(i as int)[0] == ve[i as int]);
                                assert(strs_of(ve.skip(i as int)) is Some);
                                assert(ve[i as int] is Str);
                                match other {
                                    JsonValue::Null => {},
                                    JsonValue::Bool(_) => {},
                                    JsonValue::Num(_) => {},
                                    JsonValue::Str(_) => {},
                                    JsonValue::Arr(_) => {},
                                    JsonValue::Obj(_) => {},
                                }
                                assert(false);
                            }
                        }
                        return None;
                    },
                }
                i = i + 1;
            }
            proof {
                if strs_of(ve) is Some {
                    lemma_strs_of_len(ve);
                    assert(strs_of(ve)->0.take(ve.len() as int) =~= strs_of(ve)->0);
                } else {
                    lemma_strs_of_all_str(ve);
                }
            }
            Some(out)
        },
        Some(JsonValue::Null) => None,
        Some(_) => {
            return None;
        },
        None => None,
    };
    let tool_calls = match crate::decode::obj_get(v, "tool_calls") {
        Some(JsonValue::Arr(es)) => {
            proof {
                crate::json::lemma_view_elems(es@);
            }
            let mut out: Vec<JsonValue> = Vec::new();
            let mut i: usize = 0;
            while i < es.len()
                invariant
                    i <= es@.len(),
                    view_elems(out@) == view_elems(es@).take(i as int),
                    view_elems(es@).len() == es@.len(),
                    forall|k: int|
                        0 <= k < es@.len() ==> #[trigger] view_elems(es@)[k] == es@[k].view(),
                decreases es@.len() - i,
            {
                let ghost before = out@;
                let c = es[i].deep_clone();
                out.push(c);
                proof {
                    crate::json::lemma_view_elems_push(before, c);
                    assert(view_elems(out@) =~= view_elems(es@).take(i + 1 as int));
                }
                i = i + 1;
            }
            proof {
                assert(view_elems(es@).take(es@.len() as int) =~= view_elems(es@));
            }
            Some(out)
        },
        Some(JsonValue::Null) => None,
        Some(_) => {
            return None;
        },
        None => None,
    };
    Some(Message { role, content, images, tool_calls })
}

/// A list of string values reads back as exactly those strings.
pub proof fn lemma_strs_of_strings_json(xs: Seq<String>)
    ensures
        strs_of(strings_json(xs)) == Some(strings_views(xs)),
    decreases xs,
{
    if xs.len() > 0 {
        lemma_strs_of_strings_json(xs.drop_first());
        assert(strings_json(xs).drop_first() =~= strings_json(xs.drop_first()));
        assert(seq![xs[0]@] + strings_views(xs.drop_first()) =~= strings_views(xs));
    } else {
        assert(strings_views(xs) =~= Seq::<Seq<char>>::empty());
    }
}

/// Round trip: the wire object of a message decodes back to the same role
/// and content, and to the same images and tool calls, each list staying
/// absent when it was never set. Together with the contract of
/// [`message_from_json`], this pins the decoded message down completely.
pub proof fn lemma_message_round_trip(m: Message)
    ensures
        message_decodable(message_json(m)),
        str_field(message_json(m), "role"@) == Some(role_chars(m.role)),
        str_field(message_json(m), "content"@) == Some(m.content@),
        m.images is None ==> opt_str_arr_field(message_json(m), "images"@) == Some(
            None::<Seq<Seq<char>>>,
        ),
        m.images matches Some(im) ==> opt_str_arr_field(message_json(m), "images"@) == Some(
            Some(strings_views(im@)),
        ),
        m.tool_calls is None ==> opt_arr_field(message_json(m), "tool_calls"@) == Some(
            None::<Seq<Json>>,
        ),
        m.tool_calls matches Some(tc) ==> opt_arr_field(message_json(m), "tool_calls"@) == Some(
            Some(view_elems(tc@)),
        ),
{
    lemma_role_names();
    reveal_with_fuel(crate::decode::members_lookup, 6);
    reveal_strlit("role");
    reveal_strlit("content");
    reveal_strlit("images");
    reveal_strlit("tool_calls");
    assert("role"@.len() == 4 && "content"@.len() == 7 && "images"@.len() == 6 && "tool_calls"@.len()
        == 10);
    assert("role"@[0] == 'r' && "content"@[0] == 'c' && "images"@[0] == 'i' && "tool_calls"@[0]
        == 't');
    let ms = message_members(m);
    let role_m = ("role"@, Json::Str(role_chars(m.role)));
    let content_m = ("content"@, Json::Str(m.content@));
    let base = seq![role_m, content_m];
    match m.images {
        Some(im) => {
            lemma_strs_of_strings_json(im@);
            let img_m = ("images"@, Json::Arr(strings_json(im@)));
            match m.tool_calls {
                Some(tc) => {
                    let tc_m = ("tool_calls"@, Json::Arr(view_elems(tc@)));
                    assert(ms =~= seq![role_m, content_m, img_m, tc_m]);
                    assert(ms.drop_first() =~= seq![content_m, img_m, tc_m]);
                    assert(ms.drop_first().drop_first() =~= seq![img_m, tc_m]);
                    assert(ms.drop_first().drop_first().drop_first() =~= seq![tc_m]);
                },
                None => {
                    assert(ms =~= seq![role_m, content_m, img_m]);
                    assert(ms.drop_first() =~= seq![content_m, img_m]);
                    assert(ms.drop_first().drop_first() =~= seq![img_m]);
                    assert(ms.drop_first().drop_first().drop_first() =~= Seq::<
                        (Seq<char>, Json),
                    >::empty());
                },
            }
        },
        None => {
            match m.tool_calls {
                Some(tc) => {
                    let tc_m = ("tool_calls"@, Json::Arr(view_elems(tc@)));
                    assert(ms =~= seq![role_m, content_m, tc_m]);
                    assert(ms.drop_first() =~= seq![content_m, tc_m]);
                    assert(ms.drop_first().drop_first() =~= seq![tc_m]);
                    assert(ms.drop_first().drop_first().drop_first() =~= Seq::<
                        (Seq<char>, Json),
                    >::empty());
                },
                None => {
                    assert(ms =~= seq![role_m, content_m]);
                    assert(ms.drop_first() =~= seq![content_m]);
                    assert(ms.drop_first().drop_first() =~= Seq::<(Seq<char>, Json)>::empty());
                },
            }
        },
    }
}

/// Reads an optional string-array field of `v`; the outer `None` means a
/// member of the wrong shape.
#[verifier::loop_isolation(false)]
pub fn get_opt_strings(v: &JsonValue, key: &str) -> (r: Option<Option<Vec<String>>>)
    ensures
        match r {
            Some(Some(xs)) => opt_str_arr_field(v@, key@) == Some(Some(strings_views(xs@))),
            Some(None) => opt_str_arr_field(v@, key@) == Some(None::<Seq<Seq<char>>>),
            None => opt_str_arr_field(v@, key@) is None,
        },
{
    match crate::decode::obj_get(v, key) {
        Some(JsonValue::Arr(es)) => {
            proof {
                crate::json::lemma_view_elems(es@);
            }
            let ghost ve = view_elems(es@);
            let mut out: Vec<String> = Vec::new();
            let mut i: usize = 0;
            while i < es.len()
                invariant
                    i <= es@.len(),
                    strs_of(ve) is Some ==> strs_of(ve)->0.take(i as int) == strings_views(out@),
                    forall|k: int| 0 <= k < i ==> #[trigger] ve[k] is Str,
                    strings_views(out@).len() == i,
                decreases es@.len() - i,
            {
                match &es[i] {
                    JsonValue::Str(s) => {
                        let ghost before = out@;
                        out.push(s.clone());
                        proof {
                            lemma_strings_views_push(before, out@[out@.len() - 1]);
                            if strs_of(ve) is Some {
                                lemma_strs_of_prefix(ve, i as int);
                                assert(strs_of(ve.skip(i as int)) is Some);
                                assert(ve.skip(i as int)[0] == ve[i as int]);
                                assert(strs_of(ve)->0.skip(i as int)[0] == strs_of(
                                    ve.skip(i as int),
                                )->0[0]);
                                assert(strs_of(ve)->0[i as int] == s@);
                                assert(strs_of(ve)->0.take(i + 1 as int) =~= strs_of(
                                    ve,
                                )->0.take(i as int).push(strs_of(ve)->0[i as int]));
                            }
                        }
                    },
                    other => {
                        proof {
                            if strs_of(ve) is Some {
                                lemma_strs_of_prefix(ve, i as int);
                                assert(ve.skip(i as int)[0] == ve[i as int]);
                                assert(strs_of(ve.skip(i as int)) is Some);
                                assert(ve[i as int] is Str);
                                match other {
                                    JsonValue::Null => {},
                                    JsonValue::Bool(_) => {},
                                    JsonValue::Num(_) => {},
                                    JsonValue::Str(_) => {},
                                    JsonValue::Arr(_) => {},
                                    JsonValue::Obj(_) => {},
                                }
                                assert(false);
                            }
                        }
                        return None;
                    },
                }
                i = i + 1;
            }
            proof {
                if strs_of(ve) is Some {
                    lemma_strs_of_len(ve);
                    assert(strs_of(ve)->0.take(ve.len() as int) =~= strs_of(ve)->0);
                } else {
                    lemma_strs_of_all_str(ve);
                }
            }
            Some(Some(out))
        },
        Some(JsonValue::Null) => Some(None),
        Some(_) => None,
        None => Some(None),
    }
}

/// The views of a sequence of strings.
pub open spec fn strings_views(xs: Seq<String>) -> Seq<Seq<char>>
    decreases xs,
{
    if xs.len() == 0 {
        Seq::empty()
    } else {
        seq![xs[0]@] + strings_views(xs.drop_first())
    }
}

/// The string-view list has the same length and views each string in place.
pub proof fn lemma_strings_views(xs: Seq<String>)
    ensures
        strings_views(xs).len() == xs.len(),
        forall|i: int| 0 <= i < xs.len() ==> #[trigger] strings_views(xs)[i] == xs[i]@,
    decreases xs,
{
    if xs.len() > 0 {
        lemma_strings_views(xs.drop_first());
        assert forall|i: int| 0 <= i < xs.len() implies #[trigger] strings_views(xs)[i]
            == xs[i]@ by {
            if i > 0 {
                assert(xs.drop_first()[i - 1] == xs[i]);
                assert(strings_views(xs)[i] == strings_views(xs.drop_first())[i - 1]);
            }
        }
    }
}

/// Viewing commutes with appending one string.
pub proof fn lemma_strings_views_push(xs: Seq<String>, x: String)
    ensures
        strings_views(xs.push(x)) == strings_views(xs).push(x@),
{
    lemma_strings_views(xs);
    lemma_strings_views(xs.push(x));
    assert(forall|i: int| 0 <= i < xs.len() ==> xs.push(x)[i] == #[trigger] xs[i]);
    assert(xs.push(x)[xs.len() as int] == x);
    assert(strings_views(xs.push(x)) =~= strings_views(xs).push(x@));
}

/// A successful string-array read decomposes over any split point.
pub proof fn lemma_strs_of_prefix(es: Seq<Json>, i: int)
    requires
        0 <= i <= es.len(),
        strs_of(es) is Some,
    ensures
        strs_of(es.skip(i)) is Some,
        strs_of(es)->0.len() == es.len(),
        strs_of(es)->0.skip(i) == strs_of(es.skip(i))->0,
    decreases i,
{
    if i == 0 {
        assert(es.skip(0) =~= es);
        lemma_strs_of_len(es);
        assert(strs_of(es)->0.skip(0) =~= strs_of(es)->0);
    } else {
        lemma_strs_of_prefix(es, i - 1);
        let tail = es.skip(i - 1);
        assert(tail.drop_first() =~= es.skip(i));
        lemma_strs_of_len(es);
        lemma_strs_of_len(es.skip(i));
        assert(strs_of(es)->0.skip(i) =~= strs_of(es)->0.skip(i - 1).drop_first());
        assert(strs_of(es)->0.skip(i - 1) == strs_of(tail)->0);
        assert(strs_of(tail)->0.drop_first() =~= strs_of(tail.drop_first())->0);
    }
}

/// A sequence of string values always reads back as strings.
pub proof fn lemma_strs_of_all_str(es: Seq<Json>)
    requires
        forall|k: int| 0 <= k < es.len() ==> #[trigger] es[k] is Str,
    ensures
        strs_of(es) is Some,
    decreases es,
{
    if es.len() > 0 {
        assert(es[0] is Str);
        assert(forall|k: int|
            0 <= k < es.drop_first().len() ==> #[trigger] es.drop_first()[k] == es[k + 1]);
        lemma_strs_of_all_str(es.drop_first());
    }
}

/// A successful string-array read has one string per element.
pub proof fn lemma_strs_of_len(es: Seq<Json>)
    requires
        strs_of(es) is Some,
    ensures
        strs_of(es)->0.len() == es.len(),
    decreases es,
{
    if es.len() > 0 {
        lemma_strs_of_len(es.drop_first());
    }
}

} // verus!
