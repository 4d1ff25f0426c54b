//! The challenge text of a deployment, whose MD5 digest is what its owner
//! signs and what a node checks.

use vstd::prelude::*;
use vstd::string::StringSliceAdditionalSpecFns;
use vstd::utf8::encode_utf8;

use crate::codec::{hex_decode, hex_decoded, hex_encode, hex_text, md5_compute, md5_digest};
use crate::error::{is_validation, GridError};
use crate::json::{
    bool_of, field, field_bool, field_text, field_u64, get_text, item_models, json_text, lemma_item_models_push,
    lemma_member_models_len, member_models, push_json, text_of, JsonModel, JsonValue,
};
use crate::live::deployment::{DeployDeployment, DeployWorkload, DeployWorkloadView, Signature};
use crate::text::{bool_text, decimal, push_bool, push_decimal, push_signed_decimal, signed_decimal, str_eq};
use crate::workloads::{optional_field, u16_of};
use crate::zos;

verus! {

// ---------------------------------------------------------------------------
// Reading typed workload data
// ---------------------------------------------------------------------------

/// A required `u8` member.
pub open spec fn field_u8(v: JsonModel, key: Seq<char>) -> Option<u8> {
    match field_u64(v, key) {
        Some(n) => if n <= 255 {
            Some(n as u8)
        } else {
            None
        },
        None => None,
    }
}

/// A boolean member that defaults to false when absent.
pub open spec fn bool_or_false(v: JsonModel, key: Seq<char>) -> Option<bool> {
    match field(v, key) {
        None => Some(false),
        Some(x) => bool_of(x),
    }
}

/// The texts of array items, when every item is a string.
pub open spec fn strings_all(items: Seq<JsonModel>) -> Option<Seq<Seq<char>>>
    decreases items.len(),
{
    if items.len() == 0 {
        Some(Seq::empty())
    } else {
        match (strings_all(items.drop_last()), text_of(items.last())) {
            (Some(r), Some(t)) => Some(r.push(t)),
            _ => None,
        }
    }
}

/// A list of strings; absent reads as empty unless `required`.
pub open spec fn string_list(v: JsonModel, key: Seq<char>, required: bool) -> Option<Seq<Seq<char>>> {
    match field(v, key) {
        None => if required {
            None
        } else {
            Some(Seq::empty())
        },
        Some(JsonModel::Array(items)) => strings_all(items),
        Some(_) => None,
    }
}

/// An object with the string members `a` and `b`.
pub open spec fn pair_of(v: JsonModel, a: Seq<char>, b: Seq<char>) -> Option<(Seq<char>, Seq<char>)> {
    match (field_text(v, a), field_text(v, b)) {
        (Some(x), Some(y)) => Some((x, y)),
        _ => None,
    }
}

pub open spec fn pairs_all(items: Seq<JsonModel>, a: Seq<char>, b: Seq<char>) -> Option<Seq<(Seq<char>, Seq<char>)>>
    decreases items.len(),
{
    if items.len() == 0 {
        Some(Seq::empty())
    } else {
        match (pairs_all(items.drop_last(), a, b), pair_of(items.last(), a, b)) {
            (Some(r), Some(p)) => Some(r.push(p)),
            _ => None,
        }
    }
}

/// A list of such objects; absent reads as empty unless `required`.
pub open spec fn pair_list(v: JsonModel, key: Seq<char>, a: Seq<char>, b: Seq<char>, required: bool) -> Option<Seq<(Seq<char>, Seq<char>)>> {
    match field(v, key) {
        None => if required {
            None
        } else {
            Some(Seq::empty())
        },
        Some(JsonModel::Array(items)) => pairs_all(items, a, b),
        Some(_) => None,
    }
}

/// The members of an object whose values are all strings.
pub open spec fn env_all(ms: Seq<(Seq<char>, JsonModel)>) -> Option<Seq<(Seq<char>, Seq<char>)>>
    decreases ms.len(),
{
    if ms.len() == 0 {
        Some(Seq::empty())
    } else {
        match (env_all(ms.drop_last()), text_of(ms.last().1)) {
            (Some(r), Some(t)) => Some(r.push((ms.last().0, t))),
            _ => None,
        }
    }
}

/// An environment object; absent reads as empty.
pub open spec fn env_field(v: JsonModel, key: Seq<char>) -> Option<Seq<(Seq<char>, Seq<char>)>> {
    match field(v, key) {
        None => Some(Seq::empty()),
        Some(JsonModel::Object(ms)) => env_all(ms),
        Some(_) => None,
    }
}

/// The mycelium data of a network: its decoded key and its peers.
pub struct MyceliumView {
    pub key: Seq<u8>,
    pub peers: Seq<Seq<char>>,
}

pub open spec fn mycelium_of(v: JsonModel) -> Option<MyceliumView> {
    match (field_text(v, "hex_key"@), string_list(v, "peers"@, false)) {
        (Some(h), Some(p)) => match hex_decoded(h) {
            Some(k) => Some(MyceliumView { key: k, peers: p }),
            None => None,
        },
        _ => None,
    }
}

/// Optional mycelium data: absent or null is none.
pub open spec fn opt_mycelium(v: JsonModel, key: Seq<char>) -> Option<Option<MyceliumView>> {
    match optional_field(v, key) {
        None => Some(None),
        Some(x) => match mycelium_of(x) {
            Some(m) => Some(Some(m)),
            None => None,
        },
    }
}

/// The mycelium address data of a machine: its network and decoded seed.
pub open spec fn mycelium_ip_of(v: JsonModel) -> Option<(Seq<char>, Seq<u8>)> {
    match (field_text(v, "network"@), field_text(v, "hex_seed"@)) {
        (Some(n), Some(h)) => match hex_decoded(h) {
            Some(s) => Some((n, s)),
            None => None,
        },
        _ => None,
    }
}

pub open spec fn opt_mycelium_ip(v: JsonModel, key: Seq<char>) -> Option<Option<(Seq<char>, Seq<u8>)>> {
    match optional_field(v, key) {
        None => Some(None),
        Some(x) => match mycelium_ip_of(x) {
            Some(m) => Some(Some(m)),
            None => None,
        },
    }
}

// ---------------------------------------------------------------------------
// Challenge texts
// ---------------------------------------------------------------------------

/// The concatenation of texts.
pub open spec fn concat(ss: Seq<Seq<char>>) -> Seq<char>
    decreases ss.len(),
{
    if ss.len() == 0 {
        Seq::empty()
    } else {
        concat(ss.drop_last()) + ss.last()
    }
}

/// Each pair's two texts, one pair after the other.
pub open spec fn pairs_text(ps: Seq<(Seq<char>, Seq<char>)>) -> Seq<char>
    decreases ps.len(),
{
    if ps.len() == 0 {
        Seq::empty()
    } else {
        pairs_text(ps.drop_last()) + ps.last().0 + ps.last().1
    }
}

/// Each variable as `key=value`, one after the other.
pub open spec fn env_text(es: Seq<(Seq<char>, Seq<char>)>) -> Seq<char>
    decreases es.len(),
{
    if es.len() == 0 {
        Seq::empty()
    } else {
        env_text(es.drop_last()) + es.last().0 + seq!['='] + es.last().1
    }
}

/// Character-wise lexicographic order, the order of `str` comparison.
pub open spec fn key_lt(a: Seq<char>, b: Seq<char>) -> bool
    decreases a.len(),
{
    if a.len() == 0 {
        b.len() > 0
    } else if b.len() == 0 {
        false
    } else if a[0] != b[0] {
        (a[0] as u32) < (b[0] as u32)
    } else {
        key_lt(a.drop_first(), b.drop_first())
    }
}

/// `x` inserted into `s` before the first entry with a greater key.
pub open spec fn insert_sorted(s: Seq<(Seq<char>, Seq<char>)>, x: (Seq<char>, Seq<char>)) -> Seq<(Seq<char>, Seq<char>)>
    decreases s.len(),
{
    if s.len() == 0 {
        seq![x]
    } else if key_lt(x.0, s[0].0) {
        seq![x] + s
    } else {
        seq![s[0]] + insert_sorted(s.drop_first(), x)
    }
}

/// The entries in key order (equal keys keep their order).
pub open spec fn sort_env(s: Seq<(Seq<char>, Seq<char>)>) -> Seq<(Seq<char>, Seq<char>)>
    decreases s.len(),
{
    if s.len() == 0 {
        Seq::empty()
    } else {
        insert_sorted(sort_env(s.drop_last()), s.last())
    }
}

pub open spec fn mycelium_text(m: Option<MyceliumView>) -> Seq<char> {
    match m {
        Some(x) => hex_text(x.key) + concat(x.peers),
        None => Seq::empty(),
    }
}

pub open spec fn mycelium_ip_text(m: Option<(Seq<char>, Seq<u8>)>) -> Seq<char> {
    match m {
        Some(x) => x.0 + hex_text(x.1),
        None => Seq::empty(),
    }
}

/// What the challenge of a workload's data comes to.
pub enum DataChallenge {
    Text(Seq<char>),
    BadData,
    MissingSize,
    Unsupported,
}

/// The shared tail of machine challenges: interfaces, mycelium, size,
/// capacity, mounts, entrypoint, sorted environment, GPUs; `None` when the
/// data does not read.
pub open spec fn machine_rest(d: JsonModel, net: JsonModel) -> Option<Seq<char>> {
    match (
        pair_list(net, "interfaces"@, "network"@, "ip"@, true),
        opt_mycelium_ip(net, "mycelium"@),
        field_u64(d, "size"@),
        field(d, "compute_capacity"@),
        pair_list(d, "mounts"@, "name"@, "mountpoint"@, false),
        field_text(d, "entrypoint"@),
        env_field(d, "env"@),
        bool_or_false(d, "corex"@),
        string_list(d, "gpu"@, false),
    ) {
        (Some(ifs), Some(myc), Some(size), Some(cap), Some(mounts), Some(entry), Some(env), Some(_), Some(gpu)) => {
            match (field_u8(cap, "cpu"@), field_u64(cap, "memory"@)) {
                (Some(cpu), Some(mem)) => Some(
                    pairs_text(ifs) + mycelium_ip_text(myc) + decimal(size as nat) + decimal(cpu as nat) + decimal(
                        mem as nat,
                    ) + pairs_text(mounts) + entry + env_text(sort_env(env)) + concat(gpu),
                ),
                _ => None,
            }
        },
        _ => None,
    }
}

/// The peers of a network, each as its compact JSON text.
pub open spec fn peers_text(items: Seq<JsonModel>) -> Seq<char>
    decreases items.len(),
{
    if items.len() == 0 {
        Seq::empty()
    } else {
        peers_text(items.drop_last()) + json_text(items.last())
    }
}

/// The challenge of network-light data.
pub open spec fn network_light_text(d: JsonModel) -> Option<Seq<char>> {
    match (field_text(d, "subnet"@), opt_mycelium(d, "mycelium"@)) {
        (Some(s), Some(m)) => Some("<nil>"@ + s + "0"@ + mycelium_text(m)),
        _ => None,
    }
}

/// The challenge of zmachine-light data.
pub open spec fn machine_light_text(d: JsonModel) -> Option<Seq<char>> {
    match (field_text(d, "flist"@), field(d, "network"@)) {
        (Some(flist), Some(net)) => match machine_rest(d, net) {
            Some(rest) => Some(flist + rest),
            None => None,
        },
        _ => None,
    }
}

/// The challenge of public IP data; a flag that is not a boolean reads as
/// false.
pub open spec fn public_ip_text(d: JsonModel) -> Seq<char> {
    let v4 = match field_bool(d, "v4"@) {
        Some(b) => b,
        None => false,
    };
    let v6 = match field_bool(d, "v6"@) {
        Some(b) => b,
        None => false,
    };
    bool_text(v4) + bool_text(v6)
}

/// The challenge of network data.
pub open spec fn network_text(d: JsonModel) -> Option<Seq<char>> {
    let port: Option<u16> = match field(d, "wireguard_listen_port"@) {
        Some(x) => u16_of(x),
        None => None,
    };
    match (
        field_text(d, "ip_range"@),
        field_text(d, "subnet"@),
        field_text(d, "wireguard_private_key"@),
        port,
        field(d, "peers"@),
        opt_mycelium(d, "mycelium"@),
    ) {
        (Some(a), Some(b), Some(k), Some(p), Some(JsonModel::Array(peers)), Some(m)) => Some(
            a + b + k + decimal(p as nat) + peers_text(peers) + mycelium_text(m),
        ),
        _ => None,
    }
}

/// The challenge of zmachine data.
pub open spec fn machine_text(d: JsonModel) -> Option<Seq<char>> {
    match (field_text(d, "flist"@), field(d, "network"@)) {
        (Some(flist), Some(net)) => match (field_text(net, "public_ip"@), field_bool(net, "planetary"@), machine_rest(d, net)) {
            (Some(ip), Some(planetary), Some(rest)) => Some(flist + ip + bool_text(planetary) + rest),
            _ => None,
        },
        _ => None,
    }
}

/// `Text` of a challenge that reads, else `BadData`.
pub open spec fn text_or_bad(t: Option<Seq<char>>) -> DataChallenge {
    match t {
        Some(x) => DataChallenge::Text(x),
        None => DataChallenge::BadData,
    }
}

/// The challenge of the data of a workload of type `kind`.
pub open spec fn data_challenge(kind: Seq<char>, d: JsonModel) -> DataChallenge {
    if kind == zos::NETWORK_LIGHT_TYPE@ {
        text_or_bad(network_light_text(d))
    } else if kind == zos::ZMACHINE_LIGHT_TYPE@ {
        text_or_bad(machine_light_text(d))
    } else if kind == zos::VOLUME_TYPE@ {
        match field_u64(d, "size"@) {
            Some(n) => DataChallenge::Text(decimal(n as nat)),
            None => DataChallenge::MissingSize,
        }
    } else if kind == zos::PUBLIC_IP_TYPE@ {
        DataChallenge::Text(public_ip_text(d))
    } else if kind == zos::NETWORK_TYPE@ {
        text_or_bad(network_text(d))
    } else if kind == zos::ZMACHINE_TYPE@ {
        text_or_bad(machine_text(d))
    } else {
        DataChallenge::Unsupported
    }
}

/// The fields every workload challenge starts with.
pub open spec fn workload_prefix(w: DeployWorkloadView) -> Seq<char> {
    decimal(w.version as nat) + w.name + w.workload_type + w.metadata + w.description
}

/// `e` is the error for the failed challenge `c` of a workload of `kind`.
pub open spec fn challenge_error(c: DataChallenge, kind: Seq<char>, e: GridError) -> bool {
    match c {
        DataChallenge::BadData => e is Codec,
        DataChallenge::MissingSize => is_validation(e, "live volume workload missing size"@),
        DataChallenge::Unsupported => is_validation(e, "unsupported live workload type "@ + kind),
        DataChallenge::Text(_) => false,
    }
}

// ---------------------------------------------------------------------------
// Reading, executably
// ---------------------------------------------------------------------------

pub(crate) fn read_u8(v: &JsonValue, key: &str) -> (r: Option<u8>)
    ensures
        r == field_u8(v@, key@),
{
    match crate::json::get_u64(v, key) {
        Some(n) => if n <= 255 {
            Some(n as u8)
        } else {
            None
        },
        None => None,
    }
}

pub(crate) fn read_bool_or_false(v: &JsonValue, key: &str) -> (r: Option<bool>)
    ensures
        r == bool_or_false(v@, key@),
{
    match v.get(key) {
        None => Some(false),
        Some(x) => x.as_bool(),
    }
}

#[verifier::loop_isolation(false)]
fn read_string_list(v: &JsonValue, key: &str, required: bool) -> (r: Option<Vec<String>>)
    ensures
        match string_list(v@, key@, required) {
            Some(l) => r matches Some(x) && x@.map_values(|s: String| s@) == l,
            None => r is None,
        },
{
    let items = match v.get(key) {
        None => {
            if required {
                return None;
            }
            let out: Vec<String> = Vec::new();
            assert(out@.map_values(|s: String| s@) =~= Seq::<Seq<char>>::empty());
            return Some(out);
        },
        Some(x) => match x.as_array() {
            Some(items) => items,
            None => return None,
        },
    };
    let mut out: Vec<String> = Vec::new();
    let mut i: usize = 0;
    while i < items.len()
        invariant
            i <= items@.len(),
            strings_all(item_models(items@.take(i as int))) == Some(out@.map_values(|s: String| s@)),
        decreases items.len() - i,
    {
        proof {
            assert(items@.take(i + 1) =~= items@.take(i as int).push(items@[i as int]));
            lemma_item_models_push(items@.take(i as int), items@[i as int]);
            assert(item_models(items@.take(i + 1)).drop_last() =~= item_models(items@.take(i as int)));
        }
        match items[i].as_str() {
            Some(t) => {
                let ghost before = out@;
                out.push(String::from_str(t));
                assert(out@.map_values(|s: String| s@) =~= before.map_values(|s: String| s@).push(t@));
            },
            None => {
                proof {
                    crate::json::lemma_item_models_len(items@);
                    crate::json::lemma_item_models_len(items@.take(i + 1));
                    lemma_strings_prefix(item_models(items@), i + 1);
                    assert(item_models(items@).take(i + 1) =~= item_models(items@.take(i + 1)));
                }
                return None;
            },
        }
        i = i + 1;
    }
    assert(items@.take(items@.len() as int) =~= items@);
    Some(out)
}

proof fn lemma_strings_prefix(s: Seq<JsonModel>, k: int)
    requires
        0 <= k <= s.len(),
    ensures
        strings_all(s.take(k)) is None ==> strings_all(s) is None,
    decreases s.len() - k,
{
    if k < s.len() {
        assert(s.drop_last().take(k) =~= s.take(k));
        lemma_strings_prefix(s.drop_last(), k);
    } else {
        assert(s.take(k) =~= s);
    }
}

proof fn lemma_pairs_prefix(s: Seq<JsonModel>, a: Seq<char>, b: Seq<char>, k: int)
    requires
        0 <= k <= s.len(),
    ensures
        pairs_all(s.take(k), a, b) is None ==> pairs_all(s, a, b) is None,
    decreases s.len() - k,
{
    if k < s.len() {
        assert(s.drop_last().take(k) =~= s.take(k));
        lemma_pairs_prefix(s.drop_last(), a, b, k);
    } else {
        assert(s.take(k) =~= s);
    }
}

proof fn lemma_env_prefix(s: Seq<(Seq<char>, JsonModel)>, k: int)
    requires
        0 <= k <= s.len(),
    ensures
        env_all(s.take(k)) is None ==> env_all(s) is None,
    decreases s.len() - k,
{
    if k < s.len() {
        assert(s.drop_last().take(k) =~= s.take(k));
        lemma_env_prefix(s.drop_last(), k);
    } else {
        assert(s.take(k) =~= s);
    }
}

/// A pair as held in memory.
pub open spec fn pair_view(p: (String, String)) -> (Seq<char>, Seq<char>) {
    (p.0@, p.1@)
}

#[verifier::loop_isolation(false)]
pub(crate) fn read_pair_list(v: &JsonValue, key: &str, a: &str, b: &str, required: bool) -> (r: Option<Vec<(String, String)>>)
    ensures
        match pair_list(v@, key@, a@, b@, required) {
            Some(l) => r matches Some(x) && x@.map_values(|p: (String, String)| pair_view(p)) == l,
            None => r is None,
        },
{
    let items = match v.get(key) {
        None => {
            if required {
                return None;
            }
            let out: Vec<(String, String)> = Vec::new();
            assert(out@.map_values(|p: (String, String)| pair_view(p)) =~= Seq::<(Seq<char>, Seq<char>)>::empty());
            return Some(out);
        },
        Some(x) => match x.as_array() {
            Some(items) => items,
            None => return None,
        },
    };
    let mut out: Vec<(String, String)> = Vec::new();
    let mut i: usize = 0;
    while i < items.len()
        invariant
            i <= items@.len(),
            pairs_all(item_models(items@.take(i as int)), a@, b@) == Some(out@.map_values(|p: (String, String)| pair_view(p))),
        decreases items.len() - i,
    {
        proof {
            assert(items@.take(i + 1) =~= items@.take(i as int).push(items@[i as int]));
            lemma_item_models_push(items@.take(i as int), items@[i as int]);
            assert(item_models(items@.take(i + 1)).drop_last() =~= item_models(items@.take(i as int)));
        }
        match (get_text(&items[i], a), get_text(&items[i], b)) {
            (Some(x), Some(y)) => {
                let ghost before = out@;
                out.push((String::from_str(x), String::from_str(y)));
                assert(out@.map_values(|p: (String, String)| pair_view(p)) =~= before.map_values(|p: (String, String)| pair_view(p)).push((x@, y@)));
            },
            _ => {
                proof {
                    crate::json::lemma_item_models_len(items@);
                    crate::json::lemma_item_models_len(items@.take(i + 1));
                    lemma_pairs_prefix(item_models(items@), a@, b@, i + 1);
                    assert(item_models(items@).take(i + 1) =~= item_models(items@.take(i + 1)));
                }
                return None;
            },
        }
        i = i + 1;
    }
    assert(items@.take(items@.len() as int) =~= items@);
    Some(out)
}

#[verifier::loop_isolation(false)]
pub(crate) fn read_env(v: &JsonValue, key: &str) -> (r: Option<Vec<(String, String)>>)
    ensures
        match env_field(v@, key@) {
            Some(l) => r matches Some(x) && x@.map_values(|p: (String, String)| pair_view(p)) == l,
            None => r is None,
        },
{
    let members = match v.get(key) {
        None => {
            let out: Vec<(String, String)> = Vec::new();
            assert(out@.map_values(|p: (String, String)| pair_view(p)) =~= Seq::<(Seq<char>, Seq<char>)>::empty());
            return Some(out);
        },
        Some(JsonValue::Object(members)) => members,
        Some(_) => return None,
    };
    let mut out: Vec<(String, String)> = Vec::new();
    let mut i: usize = 0;
    while i < members.len()
        invariant
            i <= members@.len(),
            env_all(member_models(members@.take(i as int))) == Some(out@.map_values(|p: (String, String)| pair_view(p))),
        decreases members.len() - i,
    {
        proof {
            assert(members@.take(i + 1) =~= members@.take(i as int).push(members@[i as int]));
            crate::json::lemma_member_models_push(members@.take(i as int), members@[i as int]);
            assert(member_models(members@.take(i + 1)).drop_last() =~= member_models(members@.take(i as int)));
        }
        match members[i].1.as_str() {
            Some(t) => {
                let ghost before = out@;
                out.push((members[i].0.clone(), String::from_str(t)));
                assert(out@.map_values(|p: (String, String)| pair_view(p)) =~= before.map_values(|p: (String, String)| pair_view(p)).push((members@[i as int].0@, t@)));
            },
            None => {
                proof {
                    lemma_member_models_len(members@);
                    lemma_member_models_len(members@.take(i + 1));
                    lemma_env_prefix(member_models(members@), i + 1);
                    assert(member_models(members@).take(i + 1) =~= member_models(members@.take(i + 1)));
                }
                return None;
            },
        }
        i = i + 1;
    }
    assert(members@.take(members@.len() as int) =~= members@);
    Some(out)
}

fn get_optional<'a>(v: &'a JsonValue, key: &str) -> (r: Option<&'a JsonValue>)
    ensures
        match optional_field(v@, key@) {
            Some(x) => r matches Some(y) && y@ == x,
            None => r is None,
        },
{
    match v.get(key) {
        Some(JsonValue::Null) => None,
        x => x,
    }
}

fn read_opt_mycelium(v: &JsonValue, key: &str) -> (r: Option<Option<(Vec<u8>, Vec<String>)>>)
    ensures
        match opt_mycelium(v@, key@) {
            Some(None) => r == Some(None::<(Vec<u8>, Vec<String>)>),
            Some(Some(m)) => r matches Some(Some(x)) && x.0@ == m.key && x.1@.map_values(|s: String| s@) == m.peers,
            None => r is None,
        },
{
    match get_optional(v, key) {
        None => Some(None),
        Some(m) => {
            let hex = match get_text(m, "hex_key") {
                Some(h) => h,
                None => return None,
            };
            let peers = match read_string_list(m, "peers", false) {
                Some(p) => p,
                None => return None,
            };
            match hex_decode(hex) {
                Some(k) => Some(Some((k, peers))),
                None => None,
            }
        },
    }
}

fn read_opt_mycelium_ip(v: &JsonValue, key: &str) -> (r: Option<Option<(String, Vec<u8>)>>)
    ensures
        match opt_mycelium_ip(v@, key@) {
            Some(None) => r == Some(None::<(String, Vec<u8>)>),
            Some(Some(m)) => r matches Some(Some(x)) && x.0@ == m.0 && x.1@ == m.1,
            None => r is None,
        },
{
    match get_optional(v, key) {
        None => Some(None),
        Some(m) => {
            let network = match get_text(m, "network") {
                Some(n) => n,
                None => return None,
            };
            let hex = match get_text(m, "hex_seed") {
                Some(h) => h,
                None => return None,
            };
            match hex_decode(hex) {
                Some(s) => Some(Some((String::from_str(network), s))),
                None => None,
            }
        },
    }
}

// ---------------------------------------------------------------------------
// Writing, executably
// ---------------------------------------------------------------------------

fn push_pairs(out: &mut String, ps: &Vec<(String, String)>)
    ensures
        final(out)@ == old(out)@ + pairs_text(ps@.map_values(|p: (String, String)| pair_view(p))),
{
    let ghost start = out@;
    let mut i: usize = 0;
    while i < ps.len()
        invariant
            i <= ps@.len(),
            out@ == start + pairs_text(ps@.take(i as int).map_values(|p: (String, String)| pair_view(p))),
        decreases ps.len() - i,
    {
        out.append(ps[i].0.as_str());
        out.append(ps[i].1.as_str());
        proof {
            let t = ps@.take(i + 1).map_values(|p: (String, String)| pair_view(p));
            assert(t.drop_last() =~= ps@.take(i as int).map_values(|p: (String, String)| pair_view(p)));
            assert(out@ =~= start + pairs_text(t));
        }
        i = i + 1;
    }
    assert(ps@.take(ps@.len() as int) =~= ps@);
}

fn push_env(out: &mut String, es: &Vec<(String, String)>)
    ensures
        final(out)@ == old(out)@ + env_text(es@.map_values(|p: (String, String)| pair_view(p))),
{
    let ghost start = out@;
    let mut i: usize = 0;
    while i < es.len()
        invariant
            i <= es@.len(),
            out@ == start + env_text(es@.take(i as int).map_values(|p: (String, String)| pair_view(p))),
        decreases es.len() - i,
    {
        out.append(es[i].0.as_str());
        proof {
            reveal_strlit("=");
        }
        out.append("=");
        out.append(es[i].1.as_str());
        proof {
            let t = es@.take(i + 1).map_values(|p: (String, String)| pair_view(p));
            assert(t.drop_last() =~= es@.take(i as int).map_values(|p: (String, String)| pair_view(p)));
            assert(out@ =~= start + env_text(t));
        }
        i = i + 1;
    }
    assert(es@.take(es@.len() as int) =~= es@);
}

fn push_all(out: &mut String, ss: &Vec<String>)
    ensures
        final(out)@ == old(out)@ + concat(ss@.map_values(|s: String| s@)),
{
    let ghost start = out@;
    let mut i: usize = 0;
    while i < ss.len()
        invariant
            i <= ss@.len(),
            out@ == start + concat(ss@.take(i as int).map_values(|s: String| s@)),
        decreases ss.len() - i,
    {
        out.append(ss[i].as_str());
        proof {
            let t = ss@.take(i + 1).map_values(|s: String| s@);
            assert(t.drop_last() =~= ss@.take(i as int).map_values(|s: String| s@));
            assert(out@ =~= start + concat(t));
        }
        i = i + 1;
    }
    assert(ss@.take(ss@.len() as int) =~= ss@);
}

fn push_peers(out: &mut String, items: &Vec<JsonValue>)
    ensures
        final(out)@ == old(out)@ + peers_text(item_models(items@)),
{
    let ghost start = out@;
    let mut i: usize = 0;
    while i < items.len()
        invariant
            i <= items@.len(),
            out@ == start + peers_text(item_models(items@.take(i as int))),
        decreases items.len() - i,
    {
        push_json(out, &items[i]);
        proof {
            assert(items@.take(i + 1) =~= items@.take(i as int).push(items@[i as int]));
            lemma_item_models_push(items@.take(i as int), items@[i as int]);
            let t = item_models(items@.take(i + 1));
            assert(t.drop_last() =~= item_models(items@.take(i as int)));
            assert(t.last() == items@[i as int]@);
            assert(out@ =~= start + peers_text(t));
        }
        i = i + 1;
    }
    assert(items@.take(items@.len() as int) =~= items@);
}

/// Whether `a` comes before `b` in key order.
fn key_less(a: &str, b: &str) -> (r: bool)
    ensures
        r == key_lt(a@, b@),
{
    let n = a.unicode_len();
    let m = b.unicode_len();
    let mut i: usize = 0;
    assert(a@.skip(0) =~= a@);
    assert(b@.skip(0) =~= b@);
    while i < n && i < m
        invariant
            n == a@.len(),
            m == b@.len(),
            i <= n,
            i <= m,
            key_lt(a@, b@) == key_lt(a@.skip(i as int), b@.skip(i as int)),
        decreases n - i,
    {
        let x = a.get_char(i);
        let y = b.get_char(i);
        proof {
            assert(a@.skip(i as int)[0] == x);
            assert(b@.skip(i as int)[0] == y);
            assert(a@.skip(i as int).drop_first() =~= a@.skip(i + 1));
            assert(b@.skip(i as int).drop_first() =~= b@.skip(i + 1));
        }
        if x != y {
            return (x as u32) < (y as u32);
        }
        i = i + 1;
    }
    proof {
        assert(a@.skip(i as int).len() == n - i);
        assert(b@.skip(i as int).len() == m - i);
    }
    i == n && i < m
}

proof fn lemma_insert_sorted(s: Seq<(Seq<char>, Seq<char>)>, x: (Seq<char>, Seq<char>), p: int)
    requires
        0 <= p <= s.len(),
        forall|j: int| 0 <= j < p ==> !key_lt(x.0, #[trigger] s[j].0),
        p == s.len() || key_lt(x.0, s[p].0),
    ensures
        insert_sorted(s, x) == s.take(p).push(x) + s.skip(p),
    decreases s.len(),
{
    if s.len() == 0 {
        assert(s.take(p).push(x) + s.skip(p) =~= seq![x]);
    } else if p == 0 {
        assert(s.take(p).push(x) + s.skip(p) =~= seq![x] + s);
    } else {
        assert forall|j: int| 0 <= j < p - 1 implies !key_lt(x.0, #[trigger] s.drop_first()[j].0) by {
            assert(s.drop_first()[j] == s[j + 1]);
        }
        lemma_insert_sorted(s.drop_first(), x, p - 1);
        assert(seq![s[0]] + (s.drop_first().take(p - 1).push(x) + s.drop_first().skip(p - 1)) =~= s.take(p).push(x) + s.skip(p));
    }
}

/// The environment in key order.
fn sorted_env(es: Vec<(String, String)>) -> (r: Vec<(String, String)>)
    ensures
        r@.map_values(|p: (String, String)| pair_view(p)) == sort_env(es@.map_values(|p: (String, String)| pair_view(p))),
{
    let mut out: Vec<(String, String)> = Vec::new();
    let mut es = es;
    let ghost all = es@;
    let mut i: usize = 0;
    let n = es.len();
    while i < n
        invariant
            n == all.len(),
            es@.len() == n,
            forall|j: int| i <= j < n ==> #[trigger] es@[j] == all[j],
            i <= n,
            out@.map_values(|p: (String, String)| pair_view(p)) == sort_env(all.take(i as int).map_values(|p: (String, String)| pair_view(p))),
        decreases n - i,
    {
        let ghost sorted = out@.map_values(|p: (String, String)| pair_view(p));
        let mut p: usize = 0;
        while p < out.len() && !key_less(es[i].0.as_str(), out[p].0.as_str())
            invariant
                p <= out@.len(),
                i < n,
                es@.len() == n,
                sorted == out@.map_values(|q: (String, String)| pair_view(q)),
                forall|j: int| 0 <= j < p ==> !key_lt(es@[i as int].0@, #[trigger] sorted[j].0),
            decreases out.len() - p,
        {
            p = p + 1;
        }
        let e = (es[i].0.clone(), es[i].1.clone());
        proof {
            lemma_insert_sorted(sorted, pair_view(e), p as int);
            let t = all.take(i + 1).map_values(|q: (String, String)| pair_view(q));
            assert(t.drop_last() =~= all.take(i as int).map_values(|q: (String, String)| pair_view(q)));
            assert(t.last() == pair_view(e));
        }
        out.insert(p, e);
        proof {
            assert(out@.map_values(|q: (String, String)| pair_view(q)) =~= sorted.take(p as int).push(pair_view(e)) + sorted.skip(p as int));
        }
        i = i + 1;
    }
    assert(all.take(n as int) =~= all);
    out
}

/// Appends the shared tail of a machine challenge (see [`machine_rest`]).
#[verifier::loop_isolation(false)]
fn push_machine_rest(out: &mut String, d: &JsonValue, net: &JsonValue) -> (r: bool)
    ensures
        match machine_rest(d@, net@) {
            Some(t) => r && final(out)@ == old(out)@ + t,
            None => !r && final(out)@ == old(out)@,
        },
{
    let ifs = read_pair_list(net, "interfaces", "network", "ip", true);
    let myc = read_opt_mycelium_ip(net, "mycelium");
    let size = crate::json::get_u64(d, "size");
    let cap = d.get("compute_capacity");
    let mounts = read_pair_list(d, "mounts", "name", "mountpoint", false);
    let entry = get_text(d, "entrypoint");
    let env = read_env(d, "env");
    let corex = read_bool_or_false(d, "corex");
    let gpu = read_string_list(d, "gpu", false);
    match (ifs, myc, size, cap, mounts, entry, env, corex, gpu) {
        (Some(ifs), Some(myc), Some(size), Some(cap), Some(mounts), Some(entry), Some(env), Some(_), Some(gpu)) => {
            let cpu = read_u8(cap, "cpu");
            let mem = crate::json::get_u64(cap, "memory");
            match (cpu, mem) {
                (Some(cpu), Some(mem)) => {
                    push_pairs(out, &ifs);
                    match &myc {
                        Some(m) => {
                            out.append(m.0.as_str());
                            out.append(hex_encode(m.1.as_slice()).as_str());
                        },
                        None => {},
                    }
                    push_decimal(out, size);
                    push_decimal(out, cpu as u64);
                    push_decimal(out, mem);
                    push_pairs(out, &mounts);
                    out.append(entry);
                    let sorted = sorted_env(env);
                    push_env(out, &sorted);
                    push_all(out, &gpu);
                    true
                },
                _ => false,
            }
        },
        _ => false,
    }
}

fn push_network_light(out: &mut String, d: &JsonValue) -> (r: bool)
    ensures
        match network_light_text(d@) {
            Some(t) => r && final(out)@ == old(out)@ + t,
            None => !r && final(out)@ == old(out)@,
        },
{
    let subnet = get_text(d, "subnet");
    let myc = read_opt_mycelium(d, "mycelium");
    match (subnet, myc) {
        (Some(s), Some(m)) => {
            proof {
                reveal_strlit("<nil>");
                reveal_strlit("0");
            }
            let ghost start = out@;
            out.append("<nil>");
            out.append(s);
            out.append("0");
            let ghost mid = out@;
            match &m {
                Some(x) => {
                    out.append(hex_encode(x.0.as_slice()).as_str());
                    push_all(out, &x.1);
                },
                None => {},
            }
            let ghost mv = match opt_mycelium(d@, "mycelium"@) {
                Some(mm) => mm,
                None => None,
            };
            assert(out@ =~= mid + mycelium_text(mv));
            assert(out@ =~= start + ("<nil>"@ + s@ + "0"@ + mycelium_text(mv)));
            true
        },
        _ => false,
    }
}

fn push_machine_light(out: &mut String, d: &JsonValue) -> (r: bool)
    ensures
        match machine_light_text(d@) {
            Some(t) => r && final(out)@ == old(out)@ + t,
            None => !r && final(out)@ == old(out)@,
        },
{
    let flist = get_text(d, "flist");
    let net = d.get("network");
    match (flist, net) {
        (Some(flist), Some(net)) => {
            let mut rest = String::new();
            if push_machine_rest(&mut rest, d, net) {
                out.append(flist);
                out.append(rest.as_str());
                true
            } else {
                false
            }
        },
        _ => false,
    }
}

fn push_network(out: &mut String, d: &JsonValue) -> (r: bool)
    ensures
        match network_text(d@) {
            Some(t) => r && final(out)@ == old(out)@ + t,
            None => !r && final(out)@ == old(out)@,
        },
{
    let ip_range = get_text(d, "ip_range");
    let subnet = get_text(d, "subnet");
    let key = get_text(d, "wireguard_private_key");
    let port: Option<u16> = match d.get("wireguard_listen_port") {
        Some(x) => match x.as_u64() {
            Some(n) => if n <= 65535 {
                Some(n as u16)
            } else {
                None
            },
            None => None,
        },
        None => None,
    };
    let peers = match d.get("peers") {
        Some(JsonValue::Array(items)) => Some(items),
        _ => None,
    };
    let myc = read_opt_mycelium(d, "mycelium");
    match (ip_range, subnet, key, port, peers, myc) {
        (Some(a), Some(b), Some(k), Some(p), Some(items), Some(m)) => {
            let ghost start = out@;
            out.append(a);
            out.append(b);
            out.append(k);
            push_decimal(out, p as u64);
            push_peers(out, items);
            let ghost mid = out@;
            match &m {
                Some(x) => {
                    out.append(hex_encode(x.0.as_slice()).as_str());
                    push_all(out, &x.1);
                },
                None => {},
            }
            let ghost mv = match opt_mycelium(d@, "mycelium"@) {
                Some(mm) => mm,
                None => None,
            };
            assert(out@ =~= mid + mycelium_text(mv));
            assert(out@ =~= start + (a@ + b@ + k@ + decimal(p as nat) + peers_text(item_models(items@)) + mycelium_text(mv)));
            true
        },
        _ => false,
    }
}

fn push_machine(out: &mut String, d: &JsonValue) -> (r: bool)
    ensures
        match machine_text(d@) {
            Some(t) => r && final(out)@ == old(out)@ + t,
            None => !r && final(out)@ == old(out)@,
        },
{
    let flist = get_text(d, "flist");
    let net = d.get("network");
    match (flist, net) {
        (Some(flist), Some(net)) => {
            let public_ip = get_text(net, "public_ip");
            let planetary = crate::json::get_bool(net, "planetary");
            let mut rest = String::new();
            let ok = push_machine_rest(&mut rest, d, net);
            match (public_ip, planetary) {
                (Some(ip), Some(planetary)) => {
                    if ok {
                        let ghost start = out@;
                        out.append(flist);
                        out.append(ip);
                        push_bool(out, planetary);
                        out.append(rest.as_str());
                        assert(out@ =~= start + (flist@ + ip@ + bool_text(planetary) + rest@));
                        true
                    } else {
                        false
                    }
                },
                _ => false,
            }
        },
        _ => false,
    }
}

/// Appends the challenge of one workload: its version, name, type,
/// metadata and description, then what its data contributes (see
/// [`data_challenge`]). When the data does not read, only the common
/// fields were appended.
pub fn workload_challenge(out: &mut String, workload: &DeployWorkload) -> (r: Result<(), GridError>)
    ensures
        match data_challenge(workload.workload_type@, workload.data@) {
            DataChallenge::Text(t) => r is Ok && final(out)@ == old(out)@ + workload_prefix(workload@) + t,
            c => r matches Err(e) && challenge_error(c, workload.workload_type@, e)
                && final(out)@ == old(out)@ + workload_prefix(workload@),
        },
{
    push_decimal(out, workload.version as u64);
    out.append(workload.name.as_str());
    out.append(workload.workload_type.as_str());
    out.append(workload.metadata.as_str());
    out.append(workload.description.as_str());
    assert(out@ =~= old(out)@ + workload_prefix(workload@));
    let kind = workload.workload_type.as_str();
    let d = &workload.data;
    if str_eq(kind, zos::NETWORK_LIGHT_TYPE) {
        if push_network_light(out, d) {
            Ok(())
        } else {
            Err(GridError::Codec(String::from_str("invalid network-light workload data")))
        }
    } else if str_eq(kind, zos::ZMACHINE_LIGHT_TYPE) {
        if push_machine_light(out, d) {
            Ok(())
        } else {
            Err(GridError::Codec(String::from_str("invalid zmachine-light workload data")))
        }
    } else if str_eq(kind, zos::VOLUME_TYPE) {
        match crate::json::get_u64(d, "size") {
            Some(n) => {
                push_decimal(out, n);
                Ok(())
            },
            None => Err(GridError::validation("live volume workload missing size")),
        }
    } else if str_eq(kind, zos::PUBLIC_IP_TYPE) {
        let v4 = match crate::json::get_bool(d, "v4") {
            Some(b) => b,
            None => false,
        };
        let v6 = match crate::json::get_bool(d, "v6") {
            Some(b) => b,
            None => false,
        };
        let ghost start = out@;
        push_bool(out, v4);
        push_bool(out, v6);
        assert(out@ =~= start + (bool_text(v4) + bool_text(v6)));
        Ok(())
    } else if str_eq(kind, zos::NETWORK_TYPE) {
        if push_network(out, d) {
            Ok(())
        } else {
            Err(GridError::Codec(String::from_str("invalid network workload data")))
        }
    } else if str_eq(kind, zos::ZMACHINE_TYPE) {
        if push_machine(out, d) {
            Ok(())
        } else {
            Err(GridError::Codec(String::from_str("invalid zmachine workload data")))
        }
    } else {
        Err(GridError::Validation(String::from_str("unsupported live workload type ").concat(kind)))
    }
}

// ---------------------------------------------------------------------------
// Deployments
// ---------------------------------------------------------------------------

/// The challenge texts of workloads one after the other, or the first
/// failure.
pub open spec fn workloads_challenge(ws: Seq<DeployWorkloadView>) -> Result<Seq<char>, (DataChallenge, Seq<char>)>
    decreases ws.len(),
{
    if ws.len() == 0 {
        Ok(Seq::empty())
    } else {
        match workloads_challenge(ws.drop_last()) {
            Err(e) => Err(e),
            Ok(t) => match data_challenge(ws.last().workload_type, ws.last().data) {
                DataChallenge::Text(x) => Ok(t + workload_prefix(ws.last()) + x),
                c => Err((c, ws.last().workload_type)),
            },
        }
    }
}

/// Each signature request as twin, required flag and weight.
pub open spec fn requests_text(rs: Seq<zos::SignatureRequest>) -> Seq<char>
    decreases rs.len(),
{
    if rs.len() == 0 {
        Seq::empty()
    } else {
        requests_text(rs.drop_last()) + decimal(rs.last().twin_id as nat) + bool_text(rs.last().required) + decimal(
            rs.last().weight as nat,
        )
    }
}

/// The challenge of a deployment: version, twin, metadata, description,
/// expiration, every workload's challenge, the signature requests, the
/// required weight and the signature style.
pub open spec fn deployment_challenge(d: DeployDeployment) -> Result<Seq<char>, (DataChallenge, Seq<char>)> {
    match workloads_challenge(crate::live::deployment::deploy_views(d.workloads@)) {
        Err(e) => Err(e),
        Ok(ws) => Ok(
            decimal(d.version as nat) + decimal(d.twin_id as nat) + d.metadata@ + d.description@ + signed_decimal(
                d.expiration as int,
            ) + ws + requests_text(d.signature_requirement.requests@) + decimal(
                d.signature_requirement.weight_required as nat,
            ) + d.signature_requirement.signature_style@,
        ),
    }
}

proof fn lemma_workloads_challenge_prefix(ws: Seq<DeployWorkloadView>, k: int)
    requires
        0 <= k <= ws.len(),
        workloads_challenge(ws.take(k)) is Err,
    ensures
        workloads_challenge(ws) == workloads_challenge(ws.take(k)),
    decreases ws.len() - k,
{
    if k < ws.len() {
        assert(ws.drop_last().take(k) =~= ws.take(k));
        lemma_workloads_challenge_prefix(ws.drop_last(), k);
    } else {
        assert(ws.take(k) =~= ws);
    }
}

/// The challenge text of a deployment.
#[verifier::loop_isolation(false)]
pub fn deployment_challenge_text(deployment: &DeployDeployment) -> (r: Result<String, GridError>)
    ensures
        match deployment_challenge(*deployment) {
            Ok(t) => r matches Ok(s) && s@ == t,
            Err(c) => r matches Err(e) && challenge_error(c.0, c.1, e),
        },
{
    let mut challenge = String::new();
    push_decimal(&mut challenge, deployment.version as u64);
    push_decimal(&mut challenge, deployment.twin_id as u64);
    challenge.append(deployment.metadata.as_str());
    challenge.append(deployment.description.as_str());
    push_signed_decimal(&mut challenge, deployment.expiration);
    let ghost head = challenge@;
    let ghost views = crate::live::deployment::deploy_views(deployment.workloads@);
    let mut i: usize = 0;
    while i < deployment.workloads.len()
        invariant
            i <= deployment.workloads@.len(),
            workloads_challenge(views.take(i as int)) matches Ok(t) && challenge@ == head + t,
        decreases deployment.workloads.len() - i,
    {
        let ghost before = challenge@;
        let res = workload_challenge(&mut challenge, &deployment.workloads[i]);
        proof {
            assert(views.take(i + 1).drop_last() =~= views.take(i as int));
            assert(views.take(i + 1).last() == deployment.workloads@[i as int]@);
        }
        match res {
            Ok(()) => {},
            Err(e) => {
                proof {
                    lemma_workloads_challenge_prefix(views, i + 1);
                    assert(views.take(views.len() as int) =~= views);
                }
                return Err(e);
            },
        }
        i = i + 1;
    }
    assert(views.take(views.len() as int) =~= views);
    let ghost mid = challenge@;
    let reqs = &deployment.signature_requirement.requests;
    let mut j: usize = 0;
    while j < reqs.len()
        invariant
            j <= reqs@.len(),
            challenge@ == mid + requests_text(reqs@.take(j as int)),
        decreases reqs.len() - j,
    {
        push_decimal(&mut challenge, reqs[j].twin_id as u64);
        push_bool(&mut challenge, reqs[j].required);
        push_decimal(&mut challenge, reqs[j].weight as u64);
        proof {
            assert(reqs@.take(j + 1).drop_last() =~= reqs@.take(j as int));
        }
        j = j + 1;
    }
    assert(reqs@.take(reqs@.len() as int) =~= reqs@);
    push_decimal(&mut challenge, deployment.signature_requirement.weight_required as u64);
    challenge.append(deployment.signature_requirement.signature_style.as_str());
    Ok(challenge)
}

/// The MD5 digest of the challenge of a deployment.
pub fn deployment_hash_bytes(deployment: &DeployDeployment) -> (r: Result<Vec<u8>, GridError>)
    ensures
        match deployment_challenge(*deployment) {
            Ok(t) => r matches Ok(h) && h@ == md5_digest(encode_utf8(t)),
            Err(c) => r matches Err(e) && challenge_error(c.0, c.1, e),
        },
{
    let challenge = deployment_challenge_text(deployment)?;
    let bytes = challenge.as_str().as_bytes();
    Ok(md5_compute(bytes))
}

/// The hex text of the digest of a deployment's challenge.
pub fn deployment_hash_hex(deployment: &DeployDeployment) -> (r: Result<String, GridError>)
    ensures
        match deployment_challenge(*deployment) {
            Ok(t) => r matches Ok(h) && h@ == hex_text(md5_digest(encode_utf8(t))),
            Err(c) => r matches Err(e) && challenge_error(c.0, c.1, e),
        },
{
    let hash = deployment_hash_bytes(deployment)?;
    Ok(hex_encode(hash.as_slice()))
}

/// The challenge of a deployment, and so the hash its contract is created
/// with, does not depend on its contract id nor on the signatures it
/// carries: assigning the contract and signing leave it unchanged.
pub proof fn law_challenge_ignores_contract_and_signatures(a: DeployDeployment, b: DeployDeployment)
    requires
        a.version == b.version,
        a.twin_id == b.twin_id,
        a.metadata@ == b.metadata@,
        a.description@ == b.description@,
        a.expiration == b.expiration,
        crate::live::deployment::deploy_views(a.workloads@) == crate::live::deployment::deploy_views(b.workloads@),
        a.signature_requirement.requests@ == b.signature_requirement.requests@,
        a.signature_requirement.weight_required == b.signature_requirement.weight_required,
        a.signature_requirement.signature_style@ == b.signature_requirement.signature_style@,
    ensures
        deployment_challenge(a) == deployment_challenge(b),
{
}

/// Attaches the sr25519 signature `signature` of `twin_id`, in hex.
pub fn attach_signature(deployment: &mut DeployDeployment, twin_id: u32, signature: &[u8])
    ensures
        final(deployment).signature_requirement.signatures@.len() == old(deployment).signature_requirement.signatures@.len() + 1,
        final(deployment).signature_requirement.signatures@.drop_last() == old(deployment).signature_requirement.signatures@,
        final(deployment).signature_requirement.signatures@.last().twin_id == twin_id,
        final(deployment).signature_requirement.signatures@.last().signature@ == hex_text(signature@),
        final(deployment).signature_requirement.signatures@.last().signature_type@ == "sr25519"@,
        final(deployment).signature_requirement.requests == old(deployment).signature_requirement.requests,
        final(deployment).signature_requirement.weight_required == old(deployment).signature_requirement.weight_required,
        final(deployment).signature_requirement.signature_style == old(deployment).signature_requirement.signature_style,
        final(deployment).workloads == old(deployment).workloads,
        final(deployment).version == old(deployment).version,
        final(deployment).twin_id == old(deployment).twin_id,
        final(deployment).contract_id == old(deployment).contract_id,
        final(deployment).metadata == old(deployment).metadata,
        final(deployment).description == old(deployment).description,
        final(deployment).expiration == old(deployment).expiration,
{
    let s = Signature {
        twin_id,
        signature: hex_encode(signature),
        signature_type: String::from_str("sr25519"),
    };
    deployment.signature_requirement.signatures.push(s);
}

} // verus!
