//! Workload lists as a node reports them over RMB: the payload of
//! `zos.deployment.get` (an object with `workloads`) or of
//! `zos.deployment.changes` (an array), with sparse results filled in and each
//! item decoded into a [`Workload`].

use vstd::prelude::*;

use crate::error::GridError;
use crate::json::{
    clone_json, field, field_text, json_model, lemma_item_models_len, lemma_member_models_len,
    member, member_models, object_push, JsonModel, JsonNumber, JsonValue,
};
use crate::text::str_eq;
use crate::zos::{workload_views, ResultData, ResultDataView, Workload, WorkloadView, STATE_INIT};

verus! {

/// `i` is the position of the first member named `key`.
pub open spec fn key_index(ms: Seq<(Seq<char>, JsonModel)>, key: Seq<char>, i: int) -> bool {
    &&& 0 <= i < ms.len()
    &&& ms[i].0 == key
    &&& forall|j: int| #![trigger ms[j]] 0 <= j < i ==> ms[j].0 != key
}

/// The member found at the first position of `key` is what `member` returns.
pub proof fn lemma_member_at(ms: Seq<(Seq<char>, JsonModel)>, key: Seq<char>, i: int)
    requires
        key_index(ms, key, i),
    ensures
        member(ms, key) == Some(ms[i].1),
    decreases i,
{
    if i > 0 {
        let rest = ms.drop_first();
        assert(ms[0].0 != key);
        assert forall|j: int| #![trigger rest[j]] 0 <= j < i - 1 implies rest[j].0 != key by {
            assert(rest[j] == ms[j + 1]);
        }
        assert(rest[i - 1] == ms[i]);
        lemma_member_at(rest, key, i - 1);
    }
}

/// With no member named `key`, `member` finds nothing.
pub proof fn lemma_member_absent(ms: Seq<(Seq<char>, JsonModel)>, key: Seq<char>)
    requires
        forall|j: int| #![trigger ms[j]] 0 <= j < ms.len() ==> ms[j].0 != key,
    ensures
        member(ms, key) is None,
    decreases ms.len(),
{
    if ms.len() > 0 {
        let rest = ms.drop_first();
        assert(ms[0].0 != key);
        assert forall|j: int| #![trigger rest[j]] 0 <= j < rest.len() implies rest[j].0 != key by {
            assert(rest[j] == ms[j + 1]);
        }
        lemma_member_absent(rest, key);
    }
}

/// The first position of `key` is unique.
pub proof fn lemma_key_index_unique(ms: Seq<(Seq<char>, JsonModel)>, key: Seq<char>, i: int)
    requires
        key_index(ms, key, i),
    ensures
        (choose|k: int| key_index(ms, key, k)) == i,
{
    let k = choose|k: int| key_index(ms, key, k);
    assert(key_index(ms, key, k));
    if k < i {
        assert(ms[k].0 == key);
    } else if i < k {
        assert(ms[i].0 == key);
    }
}

/// `ms` with the member `key` set to `v` when it has no such member.
pub open spec fn with_default(ms: Seq<(Seq<char>, JsonModel)>, key: Seq<char>, v: JsonModel) -> Seq<(Seq<char>, JsonModel)> {
    if member(ms, key) is Some {
        ms
    } else {
        ms.push((key, v))
    }
}

/// A result object with `created`, `state`, `error` and `data` filled in
/// where they are missing.
pub open spec fn filled_result(rs: Seq<(Seq<char>, JsonModel)>) -> Seq<(Seq<char>, JsonModel)> {
    let a = with_default(rs, "created"@, JsonModel::Number(JsonNumber::PosInt(0)));
    let b = with_default(a, "state"@, JsonModel::Str(Seq::empty()));
    let c = with_default(b, "error"@, JsonModel::Str(Seq::empty()));
    with_default(c, "data"@, JsonModel::Null)
}

/// A workload object whose result is filled in: a missing `result` becomes an
/// object of defaults, an object result gets its missing fields; anything
/// else stays as it is.
pub open spec fn normalized(w: JsonModel) -> JsonModel {
    match w {
        JsonModel::Object(ms) => match member(ms, "result"@) {
            None => JsonModel::Object(ms.push(("result"@, JsonModel::Object(filled_result(Seq::empty()))))),
            Some(JsonModel::Object(rs)) => {
                let i = choose|k: int| key_index(ms, "result"@, k);
                JsonModel::Object(ms.update(i, ("result"@, JsonModel::Object(filled_result(rs)))))
            },
            Some(_) => w,
        },
        _ => w,
    }
}

proof fn lemma_member_models_update(members: Seq<(String, JsonValue)>, i: int, x: (String, JsonValue))
    requires
        0 <= i < members.len(),
    ensures
        member_models(members.update(i, x)) == member_models(members).update(i, (x.0@, json_model(x.1))),
{
    lemma_member_models_len(members);
    lemma_member_models_len(members.update(i, x));
    assert(member_models(members.update(i, x)) =~= member_models(members).update(i, (x.0@, json_model(x.1))));
}

/// The position of the first member named `key`.
fn key_position(members: &Vec<(String, JsonValue)>, key: &str) -> (r: Option<usize>)
    ensures
        match r {
            Some(i) => key_index(member_models(members@), key@, i as int),
            None => forall|j: int| #![trigger member_models(members@)[j]] 0 <= j < members@.len() ==> member_models(members@)[j].0 != key@,
        },
        member_models(members@).len() == members@.len(),
{
    proof {
        lemma_member_models_len(members@);
    }
    let ghost ms = member_models(members@);
    let mut i: usize = 0;
    while i < members.len()
        invariant
            i <= members@.len(),
            ms == member_models(members@),
            ms.len() == members@.len(),
            forall|j: int| 0 <= j < members@.len() ==> #[trigger] ms[j] == (members@[j].0@, json_model(members@[j].1)),
            forall|j: int| #![trigger ms[j]] 0 <= j < i ==> ms[j].0 != key@,
        decreases members.len() - i,
    {
        assert(ms[i as int] == (members@[i as int].0@, json_model(members@[i as int].1)));
        if str_eq(members[i].0.as_str(), key) {
            return Some(i);
        }
        i = i + 1;
    }
    None
}

/// Sets the member `key` to `value` when there is no member of that name.
fn push_default(members: &mut Vec<(String, JsonValue)>, key: &str, value: JsonValue)
    ensures
        member_models(final(members)@) == with_default(member_models(old(members)@), key@, value@),
{
    match key_position(members, key) {
        Some(i) => {
            proof {
                lemma_member_at(member_models(members@), key@, i as int);
            }
        },
        None => {
            proof {
                lemma_member_absent(member_models(members@), key@);
            }
            object_push(members, key, value);
        },
    }
}

/// Fills the missing fields of a result object.
fn fill_result(rs: &mut Vec<(String, JsonValue)>)
    ensures
        member_models(final(rs)@) == filled_result(member_models(old(rs)@)),
{
    push_default(rs, "created", JsonValue::Number(JsonNumber::PosInt(0)));
    push_default(rs, "state", JsonValue::String(String::new()));
    push_default(rs, "error", JsonValue::String(String::new()));
    push_default(rs, "data", JsonValue::Null);
}

/// Fills in the result of a workload object as a node may send it sparsely:
/// `created` 0, `state` and `error` empty and `data` null where missing, and
/// an empty result object where the workload has none.
pub fn normalize_workload(workload: JsonValue) -> (r: JsonValue)
    ensures
        r@ == normalized(workload@),
{
    match workload {
        JsonValue::Object(members) => {
            let mut members = members;
            let ghost ms = member_models(members@);
            match key_position(&members, "result") {
                None => {
                    proof {
                        lemma_member_absent(ms, "result"@);
                    }
                    let mut rs: Vec<(String, JsonValue)> = Vec::new();
                    fill_result(&mut rs);
                    object_push(&mut members, "result", JsonValue::Object(rs));
                    JsonValue::Object(members)
                },
                Some(i) => {
                    proof {
                        lemma_member_at(ms, "result"@, i as int);
                        lemma_member_models_len(members@);
                    }
                    let current = clone_json(&members[i].1);
                    match current {
                        JsonValue::Object(rs) => {
                            let mut rs = rs;
                            fill_result(&mut rs);
                            let entry = (String::from_str("result"), JsonValue::Object(rs));
                            let ghost before = members@;
                            members.set(i, entry);
                            proof {
                                lemma_member_models_update(before, i as int, entry);
                                lemma_key_index_unique(ms, "result"@, i as int);
                            }
                            JsonValue::Object(members)
                        },
                        _ => JsonValue::Object(members),
                    }
                },
            }
        },
        other => other,
    }
}

/// A JSON integer that fits `u32`.
pub open spec fn u32_of(v: JsonModel) -> Option<u32> {
    match v {
        JsonModel::Number(JsonNumber::PosInt(n)) => if n <= u32::MAX { Some(n as u32) } else { None },
        _ => None,
    }
}

/// A JSON integer that fits `i64`.
pub open spec fn i64_of(v: JsonModel) -> Option<i64> {
    match v {
        JsonModel::Number(JsonNumber::PosInt(n)) => if n <= i64::MAX { Some(n as i64) } else { None },
        JsonModel::Number(JsonNumber::NegInt(n)) => Some(n),
        _ => None,
    }
}

/// The member `key`, when it is an integer that fits `u32`.
pub open spec fn field_u32(v: JsonModel, key: Seq<char>) -> Option<u32> {
    match field(v, key) {
        Some(x) => u32_of(x),
        None => None,
    }
}

/// The member `key`, when it is an integer that fits `i64`.
pub open spec fn field_i64(v: JsonModel, key: Seq<char>) -> Option<i64> {
    match field(v, key) {
        Some(x) => i64_of(x),
        None => None,
    }
}

/// A result object decoded: `created`, `state`, `error` and `data` are all
/// required; other members are ignored.
pub open spec fn result_of(v: JsonModel) -> Option<ResultDataView> {
    if field_i64(v, "created"@) is Some && field_text(v, "state"@) is Some && field_text(v, "error"@) is Some
        && field(v, "data"@) is Some {
        Some(ResultDataView {
            created: field_i64(v, "created"@).unwrap(),
            state: field_text(v, "state"@).unwrap(),
            error: field_text(v, "error"@).unwrap(),
            data: field(v, "data"@).unwrap(),
        })
    } else {
        None
    }
}

/// The result a workload without one is given.
pub open spec fn default_result() -> ResultDataView {
    ResultDataView { created: 0, state: STATE_INIT@, error: Seq::empty(), data: JsonModel::Null }
}

/// The result member of a workload, decoded; the default when it is missing.
pub open spec fn result_member(v: JsonModel) -> Option<ResultDataView> {
    match field(v, "result"@) {
        None => Some(default_result()),
        Some(r) => result_of(r),
    }
}

/// A workload object decoded: `version`, `name`, `type`, `data`, `metadata`
/// and `description` are required, `result` may be missing.
pub open spec fn workload_of(v: JsonModel) -> Option<WorkloadView> {
    if field_u32(v, "version"@) is Some && field_text(v, "name"@) is Some && field_text(v, "type"@) is Some
        && field(v, "data"@) is Some && field_text(v, "metadata"@) is Some && field_text(v, "description"@) is Some
        && result_member(v) is Some {
        Some(WorkloadView {
            version: field_u32(v, "version"@).unwrap(),
            name: field_text(v, "name"@).unwrap(),
            workload_type: field_text(v, "type"@).unwrap(),
            data: field(v, "data"@).unwrap(),
            metadata: field_text(v, "metadata"@).unwrap(),
            description: field_text(v, "description"@).unwrap(),
            result: result_member(v).unwrap(),
        })
    } else {
        None
    }
}

/// The workload items of a payload: the payload itself when it is an array,
/// its `workloads` array when it is an object, otherwise none.
pub open spec fn payload_items(p: JsonModel) -> Seq<JsonModel> {
    match p {
        JsonModel::Array(items) => items,
        JsonModel::Object(ms) => match member(ms, "workloads"@) {
            Some(JsonModel::Array(items)) => items,
            _ => Seq::empty(),
        },
        _ => Seq::empty(),
    }
}

/// Every item normalized and decoded, in order; `None` when one fails.
pub open spec fn decoded_items(items: Seq<JsonModel>) -> Option<Seq<WorkloadView>>
    decreases items.len(),
{
    if items.len() == 0 {
        Some(Seq::empty())
    } else {
        match decoded_items(items.drop_last()) {
            Some(ws) => match workload_of(normalized(items.last())) {
                Some(w) => Some(ws.push(w)),
                None => None,
            },
            None => None,
        }
    }
}

fn get_u32(v: &JsonValue, key: &str) -> (r: Option<u32>)
    ensures
        r == field_u32(v@, key@),
{
    match v.get(key) {
        Some(JsonValue::Number(JsonNumber::PosInt(n))) => if *n <= 4294967295u64 { Some(*n as u32) } else { None },
        _ => None,
    }
}

fn get_i64(v: &JsonValue, key: &str) -> (r: Option<i64>)
    ensures
        r == field_i64(v@, key@),
{
    match v.get(key) {
        Some(JsonValue::Number(JsonNumber::PosInt(n))) => if *n <= 9223372036854775807u64 { Some(*n as i64) } else { None },
        Some(JsonValue::Number(JsonNumber::NegInt(n))) => Some(*n),
        _ => None,
    }
}

fn get_string(v: &JsonValue, key: &str) -> (r: Option<String>)
    ensures
        match field_text(v@, key@) {
            Some(t) => r matches Some(s) && s@ == t,
            None => r is None,
        },
{
    match v.get(key) {
        Some(x) => match x.as_str() {
            Some(s) => Some(String::from_str(s)),
            None => None,
        },
        None => None,
    }
}

fn get_value(v: &JsonValue, key: &str) -> (r: Option<JsonValue>)
    ensures
        match field(v@, key@) {
            Some(x) => r matches Some(y) && y@ == x,
            None => r is None,
        },
{
    match v.get(key) {
        Some(x) => Some(clone_json(x)),
        None => None,
    }
}

/// Decodes a result object.
pub fn decode_result(v: &JsonValue) -> (r: Option<ResultData>)
    ensures
        match result_of(v@) {
            Some(x) => r matches Some(y) && y@ == x,
            None => r is None,
        },
{
    let created = get_i64(v, "created");
    let state = get_string(v, "state");
    let error = get_string(v, "error");
    let data = get_value(v, "data");
    match (created, state, error, data) {
        (Some(created), Some(state), Some(error), Some(data)) => Some(ResultData { created, state, error, data }),
        _ => None,
    }
}

/// Decodes a workload object.
pub fn decode_workload(v: &JsonValue) -> (r: Option<Workload>)
    ensures
        match workload_of(v@) {
            Some(x) => r matches Some(y) && y@ == x,
            None => r is None,
        },
{
    let result = match v.get("result") {
        None => Some(ResultData::default()),
        Some(x) => decode_result(x),
    };
    let version = get_u32(v, "version");
    let name = get_string(v, "name");
    let kind = get_string(v, "type");
    let data = get_value(v, "data");
    let metadata = get_string(v, "metadata");
    let description = get_string(v, "description");
    match (version, name, kind, data, metadata, description, result) {
        (Some(version), Some(name), Some(workload_type), Some(data), Some(metadata), Some(description), Some(result)) => {
            Some(Workload { version, name, workload_type, data, metadata, description, result })
        },
        _ => None,
    }
}

/// When a prefix fails to decode, the whole sequence fails.
proof fn lemma_decoded_prefix_none(items: Seq<JsonModel>, k: int)
    requires
        0 <= k <= items.len(),
        decoded_items(items.take(k)) is None,
    ensures
        decoded_items(items) is None,
    decreases items.len(),
{
    if items.len() == k {
        assert(items.take(k) =~= items);
    } else {
        assert(items.drop_last().take(k) =~= items.take(k));
        lemma_decoded_prefix_none(items.drop_last(), k);
    }
}

fn decode_items(items: &Vec<JsonValue>) -> (r: Result<Vec<Workload>, GridError>)
    ensures
        match decoded_items(crate::json::item_models(items@)) {
            Some(ws) => r matches Ok(v) && workload_views(v@) == ws,
            None => r matches Err(GridError::Codec(_)),
        },
{
    proof {
        lemma_item_models_len(items@);
    }
    let ghost models = crate::json::item_models(items@);
    let mut out: Vec<Workload> = Vec::new();
    let mut i: usize = 0;
    assert(models.take(0) =~= Seq::<JsonModel>::empty());
    assert(workload_views(out@) =~= Seq::<WorkloadView>::empty());
    while i < items.len()
        invariant
            i <= items@.len(),
            models == crate::json::item_models(items@),
            models.len() == items@.len(),
            forall|j: int| 0 <= j < items@.len() ==> #[trigger] models[j] == json_model(items@[j]),
            decoded_items(models.take(i as int)) == Some(workload_views(out@)),
        decreases items.len() - i,
    {
        let w = normalize_workload(clone_json(&items[i]));
        proof {
            assert(models.take(i + 1).drop_last() =~= models.take(i as int));
            assert(models.take(i + 1).last() == models[i as int]);
        }
        match decode_workload(&w) {
            Some(x) => {
                let ghost before = out@;
                out.push(x);
                proof {
                    assert(workload_views(out@) =~= workload_views(before).push(x@));
                }
            },
            None => {
                proof {
                    lemma_decoded_prefix_none(models, i + 1);
                }
                return Err(GridError::Codec(String::from_str("workload payload does not match the workload schema")));
            },
        }
        i = i + 1;
    }
    assert(models.take(items@.len() as int) =~= models);
    Ok(out)
}

/// The workloads of a node payload: an array of workloads, or an object whose
/// `workloads` member is one (anything else holds none). Each is normalized
/// and decoded; a codec error when one cannot be.
pub fn extract_workloads(payload: JsonValue) -> (r: Result<Vec<Workload>, GridError>)
    ensures
        match decoded_items(payload_items(payload@)) {
            Some(ws) => r matches Ok(v) && workload_views(v@) == ws,
            None => r matches Err(GridError::Codec(_)),
        },
{
    let none: Vec<Workload> = Vec::new();
    assert(workload_views(none@) =~= Seq::<WorkloadView>::empty());
    match &payload {
        JsonValue::Array(items) => decode_items(items),
        JsonValue::Object(_) => match payload.get("workloads") {
            Some(JsonValue::Array(items)) => decode_items(items),
            _ => Ok(none),
        },
        _ => Ok(none),
    }
}

} // verus!
