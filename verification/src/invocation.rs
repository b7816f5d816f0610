//! Building the execution request that the test runner sends to the invoker:
//! the environment of the tested image, and its injection into every
//! `executeCommand` step of the request.

use crate::json::{
    array_value, lemma_insert_then_read, copy_items, field, first_item, insert_field, insert_member, lemma_view_fields,
    items_of, lemma_key_index, lemma_view_items, member, member_of, object_value, text_of, text_value,
    view_fields, view_items, view_opt, Json, JsonView,
};
use crate::text::{char_pos, find_char, lemma_char_pos_found};
use vstd::prelude::*;

verus! {

/// Why the environment of an image cannot be read. The first two are errors
/// that the runner reports; the others are failed assertions about the
/// image description.
#[derive(Debug, PartialEq)]
pub enum EnvFault {
    /// The description has no `/0/Config/Env` member.
    EnvMissing,
    /// `/0/Config/Env` is not an array.
    EnvNotArray,
    /// An item of the environment is not a string.
    EntryNotString { index: usize },
    /// An item of the environment has no `=`.
    EntryWithoutValue { index: usize },
}

/// `/0/Config/Env` of an image description.
pub open spec fn image_env(description: JsonView) -> Option<JsonView> {
    match first_item(description) {
        Some(image) => member_of(member(image, "Config"@), "Env"@),
        None => None,
    }
}

/// `NAME=VALUE` split at its first `=`.
pub open spec fn split_env(item: Seq<char>) -> Option<(Seq<char>, Seq<char>)> {
    let i = char_pos(item, '=');
    if i < item.len() {
        Some((item.take(i as int), item.skip((i + 1) as int)))
    } else {
        None
    }
}

/// The request form of one environment variable:
/// `{"name": name, "value": {"plain": value}}`.
pub open spec fn env_entry(name: Seq<char>, value: Seq<char>) -> JsonView {
    JsonView::Object(
        seq![
            ("name"@, JsonView::Str(name)),
            ("value"@, JsonView::Object(seq![("plain"@, JsonView::Str(value))])),
        ],
    )
}

/// The request entries of the environment items from position `k` on.
pub open spec fn env_entries_from(items: Seq<JsonView>, k: int) -> Result<Seq<JsonView>, EnvFault>
    decreases items.len() - k,
{
    if k < 0 || k >= items.len() {
        Ok(seq![])
    } else {
        match items[k] {
            JsonView::Str(s) => match split_env(s) {
                Some((name, value)) => match env_entries_from(items, k + 1) {
                    Ok(rest) => Ok(seq![env_entry(name, value)] + rest),
                    Err(e) => Err(e),
                },
                None => Err(EnvFault::EntryWithoutValue { index: k as usize }),
            },
            _ => Err(EnvFault::EntryNotString { index: k as usize }),
        }
    }
}

/// The request entries of the environment that an image description lists.
pub open spec fn env_entries_of(description: JsonView) -> Result<Seq<JsonView>, EnvFault> {
    match image_env(description) {
        None => Err(EnvFault::EnvMissing),
        Some(JsonView::Array(items)) => env_entries_from(items, 0),
        Some(_) => Err(EnvFault::EnvNotArray),
    }
}

/// Splitting an item at its first `=` loses no character: the name holds no
/// `=`, and the name, `=` and the value give back the item. An item splits
/// exactly when it holds an `=`.
pub proof fn lemma_split_env_keeps_item(item: Seq<char>)
    ensures
        split_env(item) is Some <==> item.contains('='),
        match split_env(item) {
            Some((name, value)) => name + seq!['='] + value == item && !name.contains('='),
            None => true,
        },
{
    lemma_char_pos_found(item, '=');
    let i = char_pos(item, '=');
    if i < item.len() {
        assert(item[i as int] == '=');
        let name = item.take(i as int);
        let value = item.skip((i + 1) as int);
        assert(name + seq!['='] + value =~= item);
        assert forall|j: int| 0 <= j < name.len() implies name[j] != '=' by {
            assert(name[j] == item[j]);
        }
    } else {
        assert forall|j: int| 0 <= j < item.len() implies item[j] != '=' by {}
    }
}

/// The name and the value that a request entry carries.
pub proof fn lemma_env_entry_members(name: Seq<char>, value: Seq<char>)
    ensures
        text_of(member(env_entry(name, value), "name"@)) == Some(name),
        text_of(member_of(member(env_entry(name, value), "value"@), "plain"@)) == Some(value),
{
    reveal_strlit("name");
    reveal_strlit("value");
    reveal_strlit("plain");
    let inner = seq![("plain"@, JsonView::Str(value))];
    let fields = seq![
        ("name"@, JsonView::Str(name)),
        ("value"@, JsonView::Object(inner)),
    ];
    assert("name"@ != "value"@) by {
        assert("name"@.len() != "value"@.len());
    }
    lemma_key_index(fields, "name"@, 0);
    lemma_key_index(fields, "value"@, 1);
    lemma_key_index(inner, "plain"@, 0);
}

/// Whether a request entry spells the environment item it was made of: its
/// name holds no `=`, and its name, `=` and its value give back the item.
pub open spec fn entry_spells_item(entry: JsonView, item: JsonView) -> bool {
    match (
        text_of(member(entry, "name"@)),
        text_of(member_of(member(entry, "value"@), "plain"@)),
        item,
    ) {
        (Some(n), Some(v), JsonView::Str(s)) => n + seq!['='] + v == s && !n.contains('='),
        _ => false,
    }
}

/// The request entries of the items from position `k` on are one per item,
/// in order, and each spells its item.
pub proof fn lemma_env_entries_keep_items(items: Seq<JsonView>, k: int)
    requires
        0 <= k <= items.len(),
    ensures
        env_entries_from(items, k) matches Ok(entries) ==> {
            &&& entries.len() == items.len() - k
            &&& forall|i: int|
                0 <= i < entries.len() ==> entry_spells_item(#[trigger] entries[i], items[k + i])
        },
    decreases items.len() - k,
{
    if k < items.len() {
        lemma_env_entries_keep_items(items, k + 1);
        if let Ok(entries) = env_entries_from(items, k) {
            if let JsonView::Str(s) = items[k] {
                lemma_split_env_keeps_item(s);
                if let Some((name, value)) = split_env(s) {
                    lemma_env_entry_members(name, value);
                    let rest = env_entries_from(items, k + 1)->Ok_0;
                    assert forall|i: int| 0 <= i < entries.len() implies entry_spells_item(
                        #[trigger] entries[i],
                        items[k + i],
                    ) by {
                        if i > 0 {
                            assert(entries[i] == rest[i - 1]);
                            assert(items[k + i] == items[(k + 1) + (i - 1)]);
                        }
                    }
                }
            }
        }
    }
}

/// Every request entry of an image environment comes from the listed item at
/// the same position, split at its first `=` with no character lost.
pub proof fn lemma_image_env_entries_keep_items(description: JsonView)
    ensures
        env_entries_of(description) matches Ok(entries) ==> match image_env(description) {
            Some(JsonView::Array(items)) => {
                &&& entries.len() == items.len()
                &&& forall|i: int|
                    0 <= i < entries.len() ==> entry_spells_item(#[trigger] entries[i], items[i])
            },
            _ => false,
        },
{
    if let Some(JsonView::Array(items)) = image_env(description) {
        lemma_env_entries_keep_items(items, 0);
        if let Ok(entries) = env_entries_from(items, 0) {
            assert forall|i: int| 0 <= i < entries.len() implies entry_spells_item(
                #[trigger] entries[i],
                items[i],
            ) by {
                assert(items[0 + i] == items[i]);
            }
        }
    }
}

/// The request entry of one environment variable.
pub fn env_entry_value(name: String, value: String) -> (r: Json)
    ensures
        r@ == env_entry(name@, value@),
{
    let mut plain: Vec<(String, Json)> = Vec::new();
    plain.push((String::from_str("plain"), text_value(value)));
    proof {
        lemma_view_fields(plain@);
    }
    let inner = object_value(plain);
    assert(inner@ == JsonView::Object(seq![("plain"@, JsonView::Str(value@))])) by {
        assert(view_fields(plain@) =~= seq![("plain"@, JsonView::Str(value@))]);
    }
    let mut fields: Vec<(String, Json)> = Vec::new();
    fields.push((String::from_str("name"), text_value(name)));
    fields.push((String::from_str("value"), inner));
    proof {
        lemma_view_fields(fields@);
        assert(view_fields(fields@) =~= seq![
            ("name"@, JsonView::Str(name@)),
            ("value"@, JsonView::Object(seq![("plain"@, JsonView::Str(value@))])),
        ]);
    }
    object_value(fields)
}

/// The environment that an image description lists, or the first fault in it.
#[verifier::loop_isolation(false)]
fn try_env_entries(description: &Json) -> (r: Result<Vec<Json>, EnvFault>)
    ensures
        match r {
            Ok(entries) => env_entries_of(description@) == Ok::<Seq<JsonView>, EnvFault>(
                view_items(entries@),
            ),
            Err(e) => env_entries_of(description@) == Err::<Seq<JsonView>, EnvFault>(e),
        },
{
    let env = match description.first_item() {
        Some(image) => match image.member("Config") {
            Some(config) => config.member("Env"),
            None => None,
        },
        None => None,
    };
    assert(view_opt(env) == image_env(description@));
    let items = match env {
        None => {
            return Err(EnvFault::EnvMissing);
        },
        Some(Json::Array(items)) => items,
        Some(_) => {
            return Err(EnvFault::EnvNotArray);
        },
    };
    let ghost iv = view_items(items@);
    proof {
        lemma_view_items(items@);
    }
    let mut entries: Vec<Json> = Vec::new();
    let mut k: usize = 0;
    while k < items.len()
        invariant
            0 <= k <= items.len(),
            env_entries_from(iv, 0) matches Ok(all) ==> env_entries_from(iv, k as int) matches Ok(
                rest,
            ) && all == view_items(entries@) + rest,
            env_entries_from(iv, 0) is Err ==> env_entries_from(iv, k as int)
                == env_entries_from(iv, 0),
            env_entries_from(iv, k as int) is Ok ==> env_entries_from(iv, 0) is Ok,
        decreases items.len() - k,
    {
        let item = match &items[k] {
            Json::Str(s) => s,
            _ => {
                return Err(EnvFault::EntryNotString { index: k });
            },
        };
        let at = find_char(item.as_str(), '=');
        let n = item.as_str().unicode_len();
        if at == n {
            return Err(EnvFault::EntryWithoutValue { index: k });
        }
        let name = String::from_str(item.as_str().substring_char(0, at));
        let value = String::from_str(item.as_str().substring_char(at + 1, n));
        assert(name@ =~= item@.take(at as int));
        assert(value@ =~= item@.skip(at + 1));
        let entry = env_entry_value(name, value);
        let ghost before = entries@;
        entries.push(entry);
        proof {
            lemma_view_items(before);
            lemma_view_items(entries@);
            assert(view_items(entries@) =~= view_items(before).push(entry@));
            if let Ok(all) = env_entries_from(iv, 0) {
                let rest = env_entries_from(iv, k + 1)->Ok_0;
                assert(all =~= view_items(entries@) + rest);
            }
        }
        k = k + 1;
    }
    proof {
        lemma_view_items(entries@);
        if let Ok(all) = env_entries_from(iv, 0) {
            assert(all =~= view_items(entries@));
        }
    }
    Ok(entries)
}


/// The fault among the items of an image's environment that stops reading
/// it: an item that is not a string, or one without `=`. Missing or non-array
/// environments are not such faults.
pub open spec fn env_item_fault_of(description: JsonView) -> Option<EnvFault> {
    match env_entries_of(description) {
        Err(EnvFault::EntryNotString { index }) => Some(EnvFault::EntryNotString { index }),
        Err(EnvFault::EntryWithoutValue { index }) => Some(EnvFault::EntryWithoutValue { index }),
        _ => None,
    }
}

/// The first environment item of an image description that is not a
/// `NAME=VALUE` string, if any.
pub fn env_item_fault(description: &Json) -> (r: Option<EnvFault>)
    ensures
        r == env_item_fault_of(description@),
{
    match try_env_entries(description) {
        Err(EnvFault::EntryNotString { index }) => Some(EnvFault::EntryNotString { index }),
        Err(EnvFault::EntryWithoutValue { index }) => Some(EnvFault::EntryWithoutValue { index }),
        _ => None,
    }
}

/// The environment that an image description (`docker inspect` output)
/// lists, each `NAME=VALUE` item turned into its request entry. A missing or
/// non-array `/0/Config/Env` is an error; every listed item must be a
/// `NAME=VALUE` string.
pub fn image_env_entries(description: &Json) -> (r: Result<Vec<Json>, EnvFault>)
    requires
        env_item_fault_of(description@) is None,
    ensures
        match r {
            Ok(entries) => env_entries_of(description@) == Ok::<Seq<JsonView>, EnvFault>(
                view_items(entries@),
            ),
            Err(e) => env_entries_of(description@) == Err::<Seq<JsonView>, EnvFault>(e),
        },
        r matches Err(e) ==> e == EnvFault::EnvMissing || e == EnvFault::EnvNotArray,
{
    try_env_entries(description)
}

/// Why a request document cannot take the image environment; each is a
/// failed assertion about the shape of the request.
#[derive(Debug, PartialEq)]
pub enum RequestFault {
    /// The request is not an object.
    NotObject,
    /// The request has no `steps` member.
    StepsMissing,
    /// `steps` is not an array.
    StepsNotArray,
    /// A step has no `action` member.
    ActionMissing { index: usize },
    /// The `action` of a step is not an object.
    ActionNotObject { index: usize },
    /// The `executeCommand` of a step is not an object.
    ExecuteCommandNotObject { index: usize },
    /// The `executeCommand` of a step has no `env` member.
    EnvMissing { index: usize },
    /// The `env` of an `executeCommand` is not an array.
    EnvNotArray { index: usize },
}

/// Step `k` after appending `envs` to the `env` of its `executeCommand`
/// action; a step whose action is not `executeCommand` stays as it is.
pub open spec fn step_with_env(step: JsonView, envs: Seq<JsonView>, k: int) -> Result<
    JsonView,
    RequestFault,
> {
    match member(step, "action"@) {
        None => Err(RequestFault::ActionMissing { index: k as usize }),
        Some(JsonView::Object(action)) => match field(action, "executeCommand"@) {
            None => Ok(step),
            Some(JsonView::Object(exec)) => match field(exec, "env"@) {
                None => Err(RequestFault::EnvMissing { index: k as usize }),
                Some(JsonView::Array(env)) => {
                    let exec2 = insert_field(exec, "env"@, JsonView::Array(env + envs));
                    let action2 = insert_field(
                        action,
                        "executeCommand"@,
                        JsonView::Object(exec2),
                    );
                    match step {
                        JsonView::Object(fields) => Ok(
                            JsonView::Object(
                                insert_field(fields, "action"@, JsonView::Object(action2)),
                            ),
                        ),
                        _ => Ok(step),
                    }
                },
                Some(_) => Err(RequestFault::EnvNotArray { index: k as usize }),
            },
            Some(_) => Err(RequestFault::ExecuteCommandNotObject { index: k as usize }),
        },
        Some(_) => Err(RequestFault::ActionNotObject { index: k as usize }),
    }
}

/// The steps from position `k` on, each with the environment appended.
pub open spec fn steps_with_env(steps: Seq<JsonView>, envs: Seq<JsonView>, k: int) -> Result<
    Seq<JsonView>,
    RequestFault,
>
    decreases steps.len() - k,
{
    if k < 0 || k >= steps.len() {
        Ok(seq![])
    } else {
        match step_with_env(steps[k], envs, k) {
            Err(e) => Err(e),
            Ok(step) => match steps_with_env(steps, envs, k + 1) {
                Ok(rest) => Ok(seq![step] + rest),
                Err(e) => Err(e),
            },
        }
    }
}

/// The request document after setting its `id` and appending the image
/// environment to every `executeCommand` step.
pub open spec fn prepared_request(body: JsonView, id: Seq<char>, envs: Seq<JsonView>) -> Result<
    JsonView,
    RequestFault,
> {
    match body {
        JsonView::Object(fields) => {
            let with_id = insert_field(fields, "id"@, JsonView::Str(id));
            match field(with_id, "steps"@) {
                None => Err(RequestFault::StepsMissing),
                Some(JsonView::Array(steps)) => match steps_with_env(steps, envs, 0) {
                    Ok(steps2) => Ok(
                        JsonView::Object(insert_field(with_id, "steps"@, JsonView::Array(steps2))),
                    ),
                    Err(e) => Err(e),
                },
                Some(_) => Err(RequestFault::StepsNotArray),
            }
        },
        _ => Err(RequestFault::NotObject),
    }
}

/// The value of a request-building result.
pub open spec fn json_result(r: Result<Json, RequestFault>) -> Result<JsonView, RequestFault> {
    match r {
        Ok(j) => Ok(j@),
        Err(e) => Err(e),
    }
}

/// Step `index` with `envs` appended to the `env` of its `executeCommand`.
fn add_env_to_step(step: &Json, envs: &Vec<Json>, index: usize) -> (r: Result<
    Json,
    RequestFault,
>)
    ensures
        json_result(r) == step_with_env(step@, view_items(envs@), index as int),
{
    let action = match step.member("action") {
        None => {
            return Err(RequestFault::ActionMissing { index });
        },
        Some(a) => a,
    };
    let action_fields = match action {
        Json::Object(f) => f,
        _ => {
            return Err(RequestFault::ActionNotObject { index });
        },
    };
    let exec = match action.member("executeCommand") {
        None => {
            return Ok(step.duplicate());
        },
        Some(e) => e,
    };
    let exec_fields = match exec {
        Json::Object(f) => f,
        _ => {
            return Err(RequestFault::ExecuteCommandNotObject { index });
        },
    };
    let env = match exec.member("env") {
        None => {
            return Err(RequestFault::EnvMissing { index });
        },
        Some(e) => e,
    };
    let env_items = match env {
        Json::Array(v) => v,
        _ => {
            return Err(RequestFault::EnvNotArray { index });
        },
    };
    let mut new_env: Vec<Json> = Vec::new();
    proof {
        lemma_view_items(new_env@);
        assert(view_items(new_env@) =~= seq![]);
    }
    copy_items(env_items, &mut new_env);
    copy_items(envs, &mut new_env);
    let exec2 = insert_member(exec_fields, String::from_str("env"), array_value(new_env));
    let action2 = insert_member(
        action_fields,
        String::from_str("executeCommand"),
        object_value(exec2),
    );
    match step {
        Json::Object(step_fields) => {
            let fields = insert_member(
                step_fields,
                String::from_str("action"),
                object_value(action2),
            );
            Ok(object_value(fields))
        },
        _ => Ok(step.duplicate()),
    }
}

/// Sets the `id` of a request document and appends `envs` to the `env` of
/// every `executeCommand` step, in order, or finds the first fault.
#[verifier::loop_isolation(false)]
fn try_prepare_request(body: &Json, id: String, envs: &Vec<Json>) -> (r: Result<
    Json,
    RequestFault,
>)
    ensures
        json_result(r) == prepared_request(body@, id@, view_items(envs@)),
{
    let ghost ev = view_items(envs@);
    let fields = match body {
        Json::Object(f) => f,
        _ => {
            return Err(RequestFault::NotObject);
        },
    };
    let with_id = object_value(insert_member(fields, String::from_str("id"), text_value(id)));
    let with_id_fields = match &with_id {
        Json::Object(f) => f,
        _ => {
            return Err(RequestFault::NotObject);
        },
    };
    let steps = match with_id.member("steps") {
        None => {
            return Err(RequestFault::StepsMissing);
        },
        Some(Json::Array(v)) => v,
        Some(_) => {
            return Err(RequestFault::StepsNotArray);
        },
    };
    let ghost sv = view_items(steps@);
    proof {
        lemma_view_items(steps@);
    }
    let mut new_steps: Vec<Json> = Vec::new();
    let mut k: usize = 0;
    while k < steps.len()
        invariant
            0 <= k <= steps.len(),
            steps_with_env(sv, ev, 0) matches Ok(all) ==> steps_with_env(sv, ev, k as int) matches Ok(
                rest,
            ) && all == view_items(new_steps@) + rest,
            steps_with_env(sv, ev, 0) is Err ==> steps_with_env(sv, ev, k as int)
                == steps_with_env(sv, ev, 0),
            steps_with_env(sv, ev, k as int) is Ok ==> steps_with_env(sv, ev, 0) is Ok,
        decreases steps.len() - k,
    {
        let step = match add_env_to_step(&steps[k], envs, k) {
            Ok(s) => s,
            Err(e) => {
                return Err(e);
            },
        };
        let ghost before = new_steps@;
        new_steps.push(step);
        proof {
            lemma_view_items(before);
            lemma_view_items(new_steps@);
            assert(view_items(new_steps@) =~= view_items(before).push(step@));
            if let Ok(all) = steps_with_env(sv, ev, 0) {
                let rest = steps_with_env(sv, ev, k + 1)->Ok_0;
                assert(all =~= view_items(new_steps@) + rest);
            }
        }
        k = k + 1;
    }
    proof {
        lemma_view_items(new_steps@);
        if let Ok(all) = steps_with_env(sv, ev, 0) {
            assert(all =~= view_items(new_steps@));
        }
    }
    let result = insert_member(with_id_fields, String::from_str("steps"), array_value(new_steps));
    Ok(object_value(result))
}


/// Whether a character is a lowercase hexadecimal digit.
pub open spec fn is_lower_hex(c: char) -> bool {
    ('0' <= c && c <= '9') || ('a' <= c && c <= 'f')
}

/// The hyphenated form of a random (version 4, RFC 4122 variant) UUID: 36
/// characters, `-` at positions 8, 13, 18 and 23, lowercase hexadecimal digits
/// elsewhere, `4` at position 14 and one of `8`, `9`, `a`, `b` at position 19.
pub open spec fn is_hyphenated_uuid(s: Seq<char>) -> bool {
    &&& s.len() == 36
    &&& forall|i: int|
        0 <= i < 36 ==> if i == 8 || i == 13 || i == 18 || i == 23 {
            #[trigger] s[i] == '-'
        } else {
            is_lower_hex(s[i])
        }
    &&& s[14] == '4'
    &&& s[19] == '8' || s[19] == '9' || s[19] == 'a' || s[19] == 'b'
}

/// A fresh random request id: `Uuid::new_v4()` written by
/// `Uuid::to_hyphenated` and `to_string`. The encoder in the crate writes
/// 36 characters, lowercase hexadecimal digits with `-` after the groups of
/// 8, 4, 4 and 4 digits; `new_v4` sets the version digit (position 14) to
/// `4` and the variant digit (position 19) to one of `8`, `9`, `a`, `b`. The
/// contract claims that format; the other digits are random.
#[verifier::external_body]
fn new_request_id() -> (id: String)
    ensures
        is_hyphenated_uuid(id@),
{
    uuid::Uuid::new_v4().to_hyphenated().to_string()
}

/// The execution request for a test: the request document with a fresh
/// random `id` and the image environment appended to every `executeCommand`
/// step.
pub fn build_exec_request(body: &Json, envs: &Vec<Json>) -> (r: Json)
    requires
        request_fault_of(body@) is None,
    ensures
        exists|id: Seq<char>|
            #![trigger prepared_request(body@, id, view_items(envs@))]
            is_hyphenated_uuid(id) && prepared_request(body@, id, view_items(envs@)) == Ok::<
                JsonView,
                RequestFault,
            >(r@),
{
    let id = new_request_id();
    let ghost idv = id@;
    let r = prepare_request(body, id, envs);
    assert(is_hyphenated_uuid(idv) && prepared_request(body@, idv, view_items(envs@)) == Ok::<
        JsonView,
        RequestFault,
    >(r@));
    r
}


/// Preparing the steps from position `k` on gives one prepared step for each
/// of them.
pub proof fn lemma_steps_kept(steps: Seq<JsonView>, envs: Seq<JsonView>, k: int)
    requires
        0 <= k <= steps.len(),
    ensures
        steps_with_env(steps, envs, k) matches Ok(prepared) ==> prepared.len() == steps.len() - k,
    decreases steps.len() - k,
{
    if k < steps.len() {
        lemma_steps_kept(steps, envs, k + 1);
    }
}

/// A prepared request carries the given id, and its steps are as many as
/// the given request's.
pub proof fn lemma_prepared_request_carries_id(body: JsonView, id: Seq<char>, envs: Seq<JsonView>)
    ensures
        prepared_request(body, id, envs) matches Ok(doc) ==> member(doc, "id"@) == Some(
            JsonView::Str(id),
        ),
        prepared_request(body, id, envs) matches Ok(doc) ==> (match (
            member(body, "steps"@),
            member(doc, "steps"@),
        ) {
            (Some(JsonView::Array(before)), Some(JsonView::Array(after))) => before.len()
                == after.len(),
            _ => false,
        }),
{
    if let JsonView::Object(fields) = body {
        let with_id = insert_field(fields, "id"@, JsonView::Str(id));
        reveal_strlit("id");
        reveal_strlit("steps");
        assert("steps"@ != "id"@) by {
            assert("steps"@.len() != "id"@.len());
        }
        lemma_insert_then_read(fields, "id"@, JsonView::Str(id), "steps"@);
        if let Some(JsonView::Array(steps)) = field(with_id, "steps"@) {
            if let Ok(steps2) = steps_with_env(steps, envs, 0) {
                lemma_insert_then_read(with_id, "steps"@, JsonView::Array(steps2), "id"@);
                lemma_steps_kept(steps, envs, 0);
            }
        }
    }
}


/// The `env` items of the `executeCommand` action of a step, if it has one.
pub open spec fn exec_env(step: JsonView) -> Option<Seq<JsonView>> {
    items_of(member_of(member_of(member(step, "action"@), "executeCommand"@), "env"@))
}

/// Whether `after` is `before` prepared with `envs`: a step with an
/// `executeCommand` action that lists `env` items gets all of `envs`
/// appended to them, in order, and keeps every other member of the step, of
/// its action and of the `executeCommand`; a step without an
/// `executeCommand` stays as it is.
pub open spec fn step_prepared_from(before: JsonView, after: JsonView, envs: Seq<JsonView>) -> bool {
    &&& exec_env(before) matches Some(env) ==> {
        &&& exec_env(after) == Some(env + envs)
        &&& forall|key: Seq<char>|
            key != "action"@ ==> #[trigger] member(after, key) == member(before, key)
        &&& forall|key: Seq<char>|
            key != "executeCommand"@ ==> #[trigger] member_of(member(after, "action"@), key)
                == member_of(member(before, "action"@), key)
        &&& forall|key: Seq<char>|
            key != "env"@ ==> #[trigger] member_of(
                member_of(member(after, "action"@), "executeCommand"@),
                key,
            ) == member_of(member_of(member(before, "action"@), "executeCommand"@), key)
    }
    &&& member_of(member(before, "action"@), "executeCommand"@) is None ==> after == before
}

/// Preparing one step appends all of `envs`, in order, after the `env` items
/// of its `executeCommand` action and keeps everything else; a step without
/// one stays as it is.
pub proof fn lemma_step_env_appended(step: JsonView, envs: Seq<JsonView>, k: int)
    ensures
        step_with_env(step, envs, k) matches Ok(prepared) ==> step_prepared_from(
            step,
            prepared,
            envs,
        ),
{
    if let Ok(prepared) = step_with_env(step, envs, k) {
        if let (JsonView::Object(fields), Some(JsonView::Object(action))) = (
            step,
            member(step, "action"@),
        ) {
            if let Some(JsonView::Object(exec)) = field(action, "executeCommand"@) {
                if let Some(JsonView::Array(env)) = field(exec, "env"@) {
                    let exec2 = insert_field(exec, "env"@, JsonView::Array(env + envs));
                    let action2 = insert_field(
                        action,
                        "executeCommand"@,
                        JsonView::Object(exec2),
                    );
                    let a2 = JsonView::Object(action2);
                    let e2 = JsonView::Object(exec2);
                    let env2 = JsonView::Array(env + envs);
                    lemma_insert_then_read(fields, "action"@, a2, "action"@);
                    lemma_insert_then_read(action, "executeCommand"@, e2, "executeCommand"@);
                    lemma_insert_then_read(exec, "env"@, env2, "env"@);
                    assert forall|key: Seq<char>| key != "action"@ implies #[trigger] member(
                        prepared,
                        key,
                    ) == member(step, key) by {
                        lemma_insert_then_read(fields, "action"@, a2, key);
                    }
                    assert forall|key: Seq<char>| key != "executeCommand"@ implies #[trigger] member_of(
                        member(prepared, "action"@),
                        key,
                    ) == member_of(member(step, "action"@), key) by {
                        lemma_insert_then_read(action, "executeCommand"@, e2, key);
                    }
                    assert forall|key: Seq<char>| key != "env"@ implies #[trigger] member_of(
                        member_of(member(prepared, "action"@), "executeCommand"@),
                        key,
                    ) == member_of(member_of(member(step, "action"@), "executeCommand"@), key) by {
                        lemma_insert_then_read(exec, "env"@, env2, key);
                    }
                }
            }
        }
    }
}

/// Preparing the steps from position `k` on gives one step for each, in
/// order, each prepared from the step at the same position.
pub proof fn lemma_steps_env_appended(steps: Seq<JsonView>, envs: Seq<JsonView>, k: int)
    requires
        0 <= k <= steps.len(),
    ensures
        steps_with_env(steps, envs, k) matches Ok(prepared) ==> {
            &&& prepared.len() == steps.len() - k
            &&& forall|i: int|
                0 <= i < prepared.len() ==> step_prepared_from(
                    steps[k + i],
                    #[trigger] prepared[i],
                    envs,
                )
        },
    decreases steps.len() - k,
{
    if k < steps.len() {
        lemma_steps_env_appended(steps, envs, k + 1);
        lemma_step_env_appended(steps[k], envs, k);
        if let Ok(prepared) = steps_with_env(steps, envs, k) {
            let rest = steps_with_env(steps, envs, k + 1)->Ok_0;
            assert forall|i: int| 0 <= i < prepared.len() implies step_prepared_from(
                steps[k + i],
                #[trigger] prepared[i],
                envs,
            ) by {
                if i > 0 {
                    assert(prepared[i] == rest[i - 1]);
                    assert(steps[k + i] == steps[(k + 1) + (i - 1)]);
                }
            }
        }
    }
}

/// Preparing a request keeps its steps in number and order, appends the whole
/// image environment to the `env` of every `executeCommand` step and keeps
/// everything else of that step, and leaves every other step as it is.
pub proof fn lemma_prepared_request_extends_every_step(
    body: JsonView,
    id: Seq<char>,
    envs: Seq<JsonView>,
)
    ensures
        prepared_request(body, id, envs) matches Ok(doc) ==> match (
            member(body, "steps"@),
            member(doc, "steps"@),
        ) {
            (Some(JsonView::Array(before)), Some(JsonView::Array(after))) => {
                &&& after.len() == before.len()
                &&& forall|i: int|
                    0 <= i < after.len() ==> step_prepared_from(
                        before[i],
                        #[trigger] after[i],
                        envs,
                    )
            },
            _ => false,
        },
        prepared_request(body, id, envs) matches Ok(doc) ==> forall|key: Seq<char>|
            key != "id"@ && key != "steps"@ ==> #[trigger] member(doc, key) == member(body, key),
{
    if let JsonView::Object(fields) = body {
        let with_id = insert_field(fields, "id"@, JsonView::Str(id));
        reveal_strlit("id");
        reveal_strlit("steps");
        assert("steps"@ != "id"@) by {
            assert("steps"@.len() != "id"@.len());
        }
        lemma_insert_then_read(fields, "id"@, JsonView::Str(id), "steps"@);
        if let Some(JsonView::Array(steps)) = field(with_id, "steps"@) {
            if let Ok(steps2) = steps_with_env(steps, envs, 0) {
                lemma_insert_then_read(with_id, "steps"@, JsonView::Array(steps2), "steps"@);
                lemma_steps_env_appended(steps, envs, 0);
                assert forall|key: Seq<char>| key != "id"@ && key != "steps"@ implies #[trigger] member(
                    prepared_request(body, id, envs)->Ok_0,
                    key,
                ) == member(body, key) by {
                    lemma_insert_then_read(fields, "id"@, JsonView::Str(id), key);
                    lemma_insert_then_read(with_id, "steps"@, JsonView::Array(steps2), key);
                }
            }
        }
    }
}

/// The fault of a request document: the first thing that stops setting its
/// id and environment, whatever the id and the environment are.
pub open spec fn request_fault_of(body: JsonView) -> Option<RequestFault> {
    match prepared_request(body, seq![], seq![]) {
        Err(e) => Some(e),
        Ok(_) => None,
    }
}

/// The fault of a result.
pub open spec fn fault_of<T>(r: Result<T, RequestFault>) -> Option<RequestFault> {
    match r {
        Err(e) => Some(e),
        Ok(_) => None,
    }
}

proof fn lemma_steps_fault_independent(
    steps: Seq<JsonView>,
    envs1: Seq<JsonView>,
    envs2: Seq<JsonView>,
    k: int,
)
    ensures
        fault_of(steps_with_env(steps, envs1, k)) == fault_of(steps_with_env(steps, envs2, k)),
    decreases steps.len() - k,
{
    if 0 <= k < steps.len() {
        lemma_steps_fault_independent(steps, envs1, envs2, k + 1);
    }
}

/// Whether and where preparing a request fails depends on the request alone,
/// not on the id or the environment.
pub proof fn lemma_request_fault_independent(body: JsonView, id: Seq<char>, envs: Seq<JsonView>)
    ensures
        fault_of(prepared_request(body, id, envs)) == request_fault_of(body),
{
    if let JsonView::Object(fields) = body {
        reveal_strlit("id");
        reveal_strlit("steps");
        assert("steps"@ != "id"@) by {
            assert("steps"@.len() != "id"@.len());
        }
        lemma_insert_then_read(fields, "id"@, JsonView::Str(id), "steps"@);
        lemma_insert_then_read(fields, "id"@, JsonView::Str(seq![]), "steps"@);
        if let Some(JsonView::Array(steps)) = field(fields, "steps"@) {
            lemma_steps_fault_independent(steps, envs, seq![], 0);
        }
    }
}

/// The first fault of a request document, if it has one.
pub fn request_fault(body: &Json) -> (r: Option<RequestFault>)
    ensures
        r == request_fault_of(body@),
{
    let envs: Vec<Json> = Vec::new();
    proof {
        lemma_view_items(envs@);
        assert(view_items(envs@) =~= seq![]);
    }
    let id = String::new();
    match try_prepare_request(body, id, &envs) {
        Ok(_) => None,
        Err(e) => Some(e),
    }
}

/// Sets the `id` of a request document and appends `envs` to the `env` of
/// every `executeCommand` step, in order.
pub fn prepare_request(body: &Json, id: String, envs: &Vec<Json>) -> (r: Json)
    requires
        request_fault_of(body@) is None,
    ensures
        prepared_request(body@, id@, view_items(envs@)) == Ok::<JsonView, RequestFault>(r@),
{
    let ghost idv = id@;
    proof {
        lemma_request_fault_independent(body@, idv, view_items(envs@));
    }
    match try_prepare_request(body, id, envs) {
        Ok(j) => j,
        Err(_) => {
            assert(false);
            Json::Null
        },
    }
}

} // verus!
