//! Mapping between the Codex Responses API and the OpenAI Chat API.
use vstd::prelude::*;
use crate::json::{lemma_first_member_absent, lemma_first_member_at, as_items, as_text, json_clone, json_str, json_view, member, opt_as_str, Json, JsonValue};
use crate::text::to_owned_string;

verus! {

/// A text, or the default when absent.
pub open spec fn text_or(t: Option<Seq<char>>, default: Seq<char>) -> Seq<char> {
    match t {
        Some(s) => s,
        None => default,
    }
}

/// The chat messages for a Responses request: a text input becomes one user
/// message, an array input is taken as the messages, anything else is `null`.
pub open spec fn chat_messages_spec(body: Json) -> Json {
    match member(body, "input"@) {
        Some(Json::Str(t)) => Json::Array(
            seq![Json::Object(seq![("role"@, Json::Str("user"@)), ("content"@, Json::Str(t))])],
        ),
        Some(Json::Array(a)) => Json::Array(a),
        _ => Json::Null,
    }
}

/// The Chat API body for a Responses API body: the model (empty when absent),
/// the messages, and the instructions as `system` when they are a text.
pub open spec fn chat_body_spec(body: Json) -> Json {
    let model = text_or(as_text(member(body, "model"@)), ""@);
    let base = seq![("model"@, Json::Str(model)), ("messages"@, chat_messages_spec(body))];
    match as_text(member(body, "instructions"@)) {
        Some(i) => Json::Object(base.push(("system"@, Json::Str(i)))),
        None => Json::Object(base),
    }
}

/// The view of an optional borrowed value.
pub open spec fn opt_json(v: Option<&JsonValue>) -> Option<Json> {
    match v {
        Some(x) => Some(x@),
        None => None,
    }
}

/// The text of an optional string value, or a default.
fn text_or_default(v: Option<&JsonValue>, default: &str) -> (s: String)
    ensures
        s@ == text_or(as_text(opt_json(v)), default@),
{
    match opt_as_str(v) {
        Some(s) => s.clone(),
        None => to_owned_string(default),
    }
}

/// Converts a Codex Responses API request body to the OpenAI Chat API format.
/// The conversion always succeeds.
pub fn codex_response_to_chat(body: &JsonValue) -> (r: Result<JsonValue, String>)
    ensures
        r matches Ok(v) && v@ == chat_body_spec(body@),
{
    let model = text_or_default(body.get("model"), "");
    let input = body.get("input");
    let messages = match input {
        Some(JsonValue::Str(t)) => {
            let mut msg: Vec<(String, JsonValue)> = Vec::new();
            msg.push((to_owned_string("role"), json_str("user")));
            msg.push((to_owned_string("content"), JsonValue::Str(t.clone())));
            let m = JsonValue::Object(msg);
            assert(m@ == Json::Object(
                seq![("role"@, Json::Str("user"@)), ("content"@, Json::Str(t@))],
            )) by {
                reveal_with_fuel(json_view, 2);
                if let Json::Object(x) = m@ {
                    assert(x =~= seq![("role"@, Json::Str("user"@)), ("content"@, Json::Str(t@))]);
                }
            }
            let mut arr: Vec<JsonValue> = Vec::new();
            arr.push(m);
            let a = JsonValue::Array(arr);
            assert(a@ == chat_messages_spec(body@)) by {
                if let Json::Array(x) = a@ {
                    assert(x =~= seq![m@]);
                }
            }
            a
        },
        Some(JsonValue::Array(_)) => json_clone(input.unwrap()),
        _ => JsonValue::Null,
    };
    assert(messages@ == chat_messages_spec(body@));
    let mut obj: Vec<(String, JsonValue)> = Vec::new();
    obj.push((to_owned_string("model"), JsonValue::Str(model)));
    obj.push((to_owned_string("messages"), messages));
    let ghost base = seq![("model"@, Json::Str(model@)), ("messages"@, messages@)];
    let instructions = body.get("instructions");
    match opt_as_str(instructions) {
        Some(i) => {
            obj.push((to_owned_string("system"), JsonValue::Str(i.clone())));
        },
        None => {},
    }
    let out = JsonValue::Object(obj);
    assert(out@ == chat_body_spec(body@)) by {
        reveal_with_fuel(json_view, 2);
        if let Json::Object(x) = out@ {
            match as_text(member(body@, "instructions"@)) {
                Some(i) => assert(x =~= base.push(("system"@, Json::Str(i)))),
                None => assert(x =~= base),
            }
        }
    }
    Ok(out)
}

/// The Responses API output item for one chat choice, when it has a message:
/// the message's role (default `assistant`) and its content (default empty)
/// as one text part.
pub open spec fn output_item_spec(choice: Json) -> Option<Json> {
    match member(choice, "message"@) {
        Some(msg) => {
            let content = text_or(as_text(member(msg, "content"@)), ""@);
            let role = text_or(as_text(member(msg, "role"@)), "assistant"@);
            let part = Json::Object(seq![("type"@, Json::Str("text"@)), ("text"@, Json::Str(content))]);
            Some(
                Json::Object(
                    seq![
                        ("id"@, Json::Str("msg_001"@)),
                        ("role"@, Json::Str(role)),
                        ("content"@, Json::Array(seq![part])),
                    ],
                ),
            )
        },
        None => None,
    }
}

/// The output items for the chat choices, in order, one for each choice that
/// has a message.
pub open spec fn output_items_spec(choices: Seq<Json>) -> Seq<Json>
    decreases choices.len(),
{
    if choices.len() == 0 {
        Seq::<Json>::empty()
    } else {
        let rest = output_items_spec(choices.drop_last());
        match output_item_spec(choices.last()) {
            Some(item) => rest.push(item),
            None => rest,
        }
    }
}

/// The Responses API body for a Chat API response: its id (default
/// `resp_001`), the object kind `response`, its model (`null` when absent),
/// and the output items of its choices.
pub open spec fn codex_response_spec(body: Json) -> Json {
    let id = text_or(as_text(member(body, "id"@)), "resp_001"@);
    let model = match member(body, "model"@) {
        Some(m) => m,
        None => Json::Null,
    };
    let choices = match as_items(member(body, "choices"@)) {
        Some(c) => c,
        None => Seq::<Json>::empty(),
    };
    Json::Object(
        seq![
            ("id"@, Json::Str(id)),
            ("object"@, Json::Str("response"@)),
            ("model"@, model),
            ("output"@, Json::Array(output_items_spec(choices))),
        ],
    )
}

/// The output item for one chat choice, when it has a message.
fn output_item(choice: &JsonValue) -> (r: Option<JsonValue>)
    ensures
        match r {
            Some(x) => output_item_spec(choice@) == Some(x@),
            None => output_item_spec(choice@).is_none(),
        },
{
    match choice.get("message") {
        Some(msg) => {
            let content = text_or_default(msg.get("content"), "");
            let role = text_or_default(msg.get("role"), "assistant");
            let mut part_members: Vec<(String, JsonValue)> = Vec::new();
            part_members.push((to_owned_string("type"), json_str("text")));
            part_members.push((to_owned_string("text"), JsonValue::Str(content)));
            let part = JsonValue::Object(part_members);
            let mut parts: Vec<JsonValue> = Vec::new();
            parts.push(part);
            let parts_value = JsonValue::Array(parts);
            let ghost parts_v = parts_value@;
            let mut item_members: Vec<(String, JsonValue)> = Vec::new();
            item_members.push((to_owned_string("id"), json_str("msg_001")));
            item_members.push((to_owned_string("role"), JsonValue::Str(role)));
            item_members.push((to_owned_string("content"), parts_value));
            let item = JsonValue::Object(item_members);
            proof {
                reveal_with_fuel(json_view, 2);
                let content_s = text_or(as_text(member(msg@, "content"@)), ""@);
                let part_s = Json::Object(
                    seq![("type"@, Json::Str("text"@)), ("text"@, Json::Str(content_s))],
                );
                if let Json::Object(x) = part@ {
                    assert(x =~= seq![("type"@, Json::Str("text"@)), ("text"@, Json::Str(content_s))]);
                }
                assert(part@ == part_s);
                if let Json::Array(x) = parts_v {
                    assert(x =~= seq![part_s]);
                }
                if let Json::Object(x) = item@ {
                    assert(x =~= seq![
                        ("id"@, Json::Str("msg_001"@)),
                        ("role"@, Json::Str(text_or(as_text(member(msg@, "role"@)), "assistant"@))),
                        ("content"@, Json::Array(seq![part_s])),
                    ]);
                }
            }
            Some(item)
        },
        None => None,
    }
}

/// Converts an OpenAI Chat API response to the Codex Responses API format.
/// The conversion always succeeds.
pub fn chat_to_codex_response(body: &JsonValue) -> (r: Result<JsonValue, String>)
    ensures
        r matches Ok(v) && v@ == codex_response_spec(body@),
{
    let mut output: Vec<JsonValue> = Vec::new();
    let ghost choices_s = match as_items(member(body@, "choices"@)) {
        Some(c) => c,
        None => Seq::<Json>::empty(),
    };
    match body.get("choices") {
        Some(JsonValue::Array(choices)) => {
            let mut i: usize = 0;
            assert(choices_s.len() == choices@.len());
            while i < choices.len()
                invariant
                    i <= choices.len(),
                    choices_s.len() == choices@.len(),
                    forall|j: int| 0 <= j < choices@.len() ==> #[trigger] choices_s[j] == choices@[j]@,
                    Seq::new(output@.len(), |j: int| output@[j]@) == output_items_spec(
                        choices_s.subrange(0, i as int),
                    ),
                decreases choices.len() - i,
            {
                let ghost pre = choices_s.subrange(0, i as int);
                let ghost post = choices_s.subrange(0, i + 1);
                assert(post.drop_last() =~= pre);
                let ghost before = Seq::new(output@.len(), |j: int| output@[j]@);
                match output_item(&choices[i]) {
                    Some(item) => {
                        output.push(item);
                        assert(Seq::new(output@.len(), |j: int| output@[j]@) =~= before.push(
                            output@.last()@,
                        ));
                    },
                    None => {},
                }
                i = i + 1;
            }
            assert(choices_s.subrange(0, choices@.len() as int) =~= choices_s);
        },
        _ => {
            assert(Seq::new(output@.len(), |j: int| output@[j]@) =~= output_items_spec(
                choices_s,
            ));
        },
    }
    let id = text_or_default(body.get("id"), "resp_001");
    let model = match body.get("model") {
        Some(m) => json_clone(m),
        None => JsonValue::Null,
    };
    let ghost out_items = Seq::new(output@.len(), |j: int| output@[j]@);
    let output_value = JsonValue::Array(output);
    assert(output_value@ == Json::Array(output_items_spec(choices_s))) by {
        if let Json::Array(x) = output_value@ {
            assert(x =~= out_items);
        }
    }
    let mut members: Vec<(String, JsonValue)> = Vec::new();
    members.push((to_owned_string("id"), JsonValue::Str(id)));
    members.push((to_owned_string("object"), json_str("response")));
    members.push((to_owned_string("model"), model));
    members.push((to_owned_string("output"), output_value));
    let out = JsonValue::Object(members);
    assert(out@ == codex_response_spec(body@)) by {
        reveal_with_fuel(json_view, 2);
        if let Json::Object(x) = out@ {
            if let Json::Object(y) = codex_response_spec(body@) {
                assert(x =~= y);
            }
        }
    }
    Ok(out)
}

/// Every chat choice with a message gives exactly one output item, in order:
/// the number of output items is the number of such choices.
pub proof fn lemma_output_items_count(choices: Seq<Json>)
    ensures
        output_items_spec(choices).len() == choices.filter(
            |c: Json| output_item_spec(c) is Some,
        ).len(),
    decreases choices.len(),
{
    reveal_with_fuel(Seq::<_>::filter, 1);
    if choices.len() > 0 {
        lemma_output_items_count(choices.drop_last());
    }
}


/// What the Chat body holds for any Responses body: the request's model text
/// (empty when it has none); as messages, one user message with a text input,
/// the input array itself, or `null` for any other input; and, whenever the
/// instructions are a string, a `system` member equal to them, whatever the
/// input is (no `system` member otherwise).
pub proof fn lemma_chat_body_members(body: Json)
    ensures
        member(chat_body_spec(body), "model"@) == Some(
            Json::Str(
                match member(body, "model"@) {
                    Some(Json::Str(m)) => m,
                    _ => Seq::<char>::empty(),
                },
            ),
        ),
        member(body, "input"@) matches Some(Json::Str(t)) ==> member(
            chat_body_spec(body),
            "messages"@,
        ) == Some(
            Json::Array(
                seq![Json::Object(seq![("role"@, Json::Str("user"@)), ("content"@, Json::Str(t))])],
            ),
        ),
        member(body, "input"@) matches Some(Json::Array(a)) ==> member(
            chat_body_spec(body),
            "messages"@,
        ) == Some(Json::Array(a)),
        !(member(body, "input"@) matches Some(Json::Str(_))) && !(member(
            body,
            "input"@,
        ) matches Some(Json::Array(_))) ==> member(chat_body_spec(body), "messages"@) == Some(
            Json::Null,
        ),
        member(body, "instructions"@) matches Some(Json::Str(i)) ==> member(
            chat_body_spec(body),
            "system"@,
        ) == Some(Json::Str(i)),
        !(member(body, "instructions"@) matches Some(Json::Str(_))) ==> member(
            chat_body_spec(body),
            "system"@,
        ) is None,
{
    reveal_strlit("model");
    reveal_strlit("messages");
    reveal_strlit("system");
    reveal_strlit("");
    reveal_with_fuel(crate::json::first_member, 4);
    let out = chat_body_spec(body);
    if let Json::Object(m) = out {
        assert(m[0].0 == "model"@);
        assert(m[1].0 == "messages"@);
        assert(m.drop_first()[0] == m[1]);
        assert(m.len() == 3 ==> m.drop_first().drop_first()[0] == m[2]);
        assert(m.len() == 2 ==> m.drop_first().drop_first().len() == 0);
        assert(m.len() == 3 ==> m.drop_first().drop_first().drop_first().len() == 0);
    }
    assert(""@ =~= Seq::<char>::empty());
}


/// The choices of a chat response (none when it has no `choices` array).
pub open spec fn response_choices(body: Json) -> Seq<Json> {
    match member(body, "choices"@) {
        Some(Json::Array(c)) => c,
        _ => Seq::<Json>::empty(),
    }
}

/// What the Responses body holds for any chat response: the upstream `id`
/// whenever it is a string (`resp_001` only when it is absent or not a
/// string), the object kind `response`, the upstream model (`null` when
/// absent), and one output item for each choice that has a message.
pub proof fn lemma_codex_response_members(body: Json)
    ensures
        member(codex_response_spec(body), "id"@) == Some(
            Json::Str(
                match member(body, "id"@) {
                    Some(Json::Str(i)) => i,
                    _ => "resp_001"@,
                },
            ),
        ),
        member(codex_response_spec(body), "object"@) == Some(Json::Str("response"@)),
        member(codex_response_spec(body), "model"@) == Some(
            match member(body, "model"@) {
                Some(m) => m,
                None => Json::Null,
            },
        ),
        member(codex_response_spec(body), "output"@) matches Some(Json::Array(items))
            && items.len() == response_choices(body).filter(
            |c: Json| member(c, "message"@) is Some,
        ).len(),
{
    reveal_strlit("id");
    reveal_strlit("object");
    reveal_strlit("model");
    reveal_strlit("output");
    let id = text_or(as_text(member(body, "id"@)), "resp_001"@);
    let model = match member(body, "model"@) {
        Some(m) => m,
        None => Json::Null,
    };
    let cs = match as_items(member(body, "choices"@)) {
        Some(c) => c,
        None => Seq::<Json>::empty(),
    };
    let m = seq![
        ("id"@, Json::Str(id)),
        ("object"@, Json::Str("response"@)),
        ("model"@, model),
        ("output"@, Json::Array(output_items_spec(cs))),
    ];
    assert(codex_response_spec(body) == Json::Object(m));
    assert("object"@[1] != "output"@[1]);
    lemma_first_member_at(m, "id"@, 0);
    assert(m[0].0 != "object"@);
    lemma_first_member_at(m, "object"@, 1);
    assert("id"@.len() == 2 && "object"@.len() == 6 && "model"@.len() == 5 && "output"@.len() == 6);
    assert(m[0].0 != "model"@ && m[1].0 != "model"@);
    lemma_first_member_at(m, "model"@, 2);
    assert(m[0].0 != "output"@ && m[1].0 != "output"@ && m[2].0 != "output"@);
    lemma_first_member_at(m, "output"@, 3);
    let choices = response_choices(body);
    assert(choices == match as_items(member(body, "choices"@)) {
        Some(c) => c,
        None => Seq::<Json>::empty(),
    });
    lemma_items_count(choices);
}

proof fn lemma_items_count(choices: Seq<Json>)
    ensures
        output_items_spec(choices).len() == choices.filter(
            |c: Json| member(c, "message"@) is Some,
        ).len(),
    decreases choices.len(),
{
    reveal_with_fuel(Seq::<_>::filter, 1);
    if choices.len() > 0 {
        lemma_items_count(choices.drop_last());
    }
}

/// When every choice has a message, the output has one item per choice, in
/// order: item `k` carries choice `k`'s message role (`assistant` when it has
/// none) and its content (empty when it has none) as one text part.
pub proof fn lemma_output_items_follow_choices(choices: Seq<Json>)
    requires
        forall|k: int| 0 <= k < choices.len() ==> #[trigger] member(choices[k], "message"@) is Some,
    ensures
        output_items_spec(choices).len() == choices.len(),
        forall|k: int|
            0 <= k < choices.len() ==> {
                let msg = member(choices[k], "message"@)->0;
                &&& member(#[trigger] output_items_spec(choices)[k], "role"@) == Some(
                    Json::Str(
                        match member(msg, "role"@) {
                            Some(Json::Str(r)) => r,
                            _ => "assistant"@,
                        },
                    ),
                )
                &&& member(output_items_spec(choices)[k], "content"@) matches Some(
                    Json::Array(parts),
                ) && parts.len() == 1 && member(parts[0], "type"@) == Some(Json::Str("text"@))
                    && member(parts[0], "text"@) == Some(
                    Json::Str(
                        match member(msg, "content"@) {
                            Some(Json::Str(c)) => c,
                            _ => Seq::<char>::empty(),
                        },
                    ),
                )
            },
    decreases choices.len(),
{
    if choices.len() > 0 {
        let init = choices.drop_last();
        assert forall|k: int| 0 <= k < init.len() implies #[trigger] member(init[k], "message"@) is Some by {
            assert(init[k] == choices[k]);
            assert(member(choices[k], "message"@) is Some);
        }
        lemma_output_items_follow_choices(init);
        let n = choices.len() - 1;
        assert(member(choices[n], "message"@) is Some);
        assert(choices.last() == choices[n]);
        lemma_output_item_members(choices[n]);
        assert forall|k: int| 0 <= k < n implies #[trigger] output_items_spec(choices)[k]
            == output_items_spec(init)[k] && init[k] == choices[k] by {}
    }
}

/// The members of one output item.
proof fn lemma_output_item_members(choice: Json)
    requires
        member(choice, "message"@) is Some,
    ensures
        ({
            let msg = member(choice, "message"@)->0;
            let item = output_item_spec(choice)->0;
            &&& output_item_spec(choice) is Some
            &&& member(item, "role"@) == Some(
                Json::Str(
                    match member(msg, "role"@) {
                        Some(Json::Str(r)) => r,
                        _ => "assistant"@,
                    },
                ),
            )
            &&& member(item, "content"@) matches Some(Json::Array(parts)) && parts.len() == 1
                && member(parts[0], "type"@) == Some(Json::Str("text"@)) && member(
                parts[0],
                "text"@,
            ) == Some(
                Json::Str(
                    match member(msg, "content"@) {
                        Some(Json::Str(c)) => c,
                        _ => Seq::<char>::empty(),
                    },
                ),
            )
        }),
{
    reveal_strlit("id");
    reveal_strlit("role");
    reveal_strlit("content");
    reveal_strlit("");
    let msg = member(choice, "message"@)->0;
    let content = text_or(as_text(member(msg, "content"@)), ""@);
    let role = text_or(as_text(member(msg, "role"@)), "assistant"@);
    let part = Json::Object(seq![("type"@, Json::Str("text"@)), ("text"@, Json::Str(content))]);
    let m = seq![
        ("id"@, Json::Str("msg_001"@)),
        ("role"@, Json::Str(role)),
        ("content"@, Json::Array(seq![part])),
    ];
    assert(output_item_spec(choice) == Some(Json::Object(m)));
    assert("id"@.len() == 2 && "role"@.len() == 4 && "content"@.len() == 7);
    assert(m[0].0 != "role"@);
    lemma_first_member_at(m, "role"@, 1);
    assert(m[0].0 != "content"@ && m[1].0 != "content"@);
    lemma_first_member_at(m, "content"@, 2);
    assert(""@ =~= Seq::<char>::empty());
    assert(member(Json::Object(m), "role"@) == Some(Json::Str(role)));
    assert(member(Json::Object(m), "content"@) == Some(Json::Array(seq![part])));
    assert(content == match member(msg, "content"@) {
        Some(Json::Str(c)) => c,
        _ => Seq::<char>::empty(),
    });
    assert(role == match member(msg, "role"@) {
        Some(Json::Str(r)) => r,
        _ => "assistant"@,
    });
    assert(output_item_spec(choice)->0 == Json::Object(m));
    let pm = seq![("type"@, Json::Str("text"@)), ("text"@, Json::Str(content))];
    assert(part == Json::Object(pm));
    reveal_strlit("type");
    reveal_strlit("text");
    assert("type"@.len() == 4 && "text"@.len() == 4 && "type"@[1] != "text"@[1]);
    lemma_first_member_at(pm, "type"@, 0);
    assert(pm[0].0 != "text"@);
    lemma_first_member_at(pm, "text"@, 1);
}

} // verus!
