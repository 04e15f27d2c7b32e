//! Reading the registry from the JSON document of a configuration.
//!
//! The document has three members: `proxy_url`, a text or nothing;
//! `api_keys`, an object of credential pools by pool id; and `models`, an
//! object of models by model id. The key of a pool may be given as one text
//! or as an array of texts: one text is a pool of one key.

use crate::config::{
    ApiKeyInfo, ApiKeyInfoView, ApiKeyProvider, ApiKeyProviderView, ModelInfo,
    ModelInfoView, UniModelsInfo,
};
use crate::decode::{
    bool_member_or, optional_text_member, read_bool_or, read_optional_text, read_text,
    text_member,
};
use crate::json::{
    items_view, json_parse, lemma_array_view, lemma_object_view, lookup, members_view, parse,
    Json, JsonView,
};
use crate::request::decode_texts;
use crate::table::Table;
use crate::text::str_eq;
use crate::view::{opt_text, opt_texts, opt_view, texts_view};
use vstd::prelude::*;

verus! {

/// The provider that a name stands for.
pub open spec fn provider_of_name(name: Seq<char>) -> Option<ApiKeyProviderView> {
    if name == "Aliyun"@ {
        Some(ApiKeyProviderView::Aliyun)
    } else if name == "Tencent"@ {
        Some(ApiKeyProviderView::Tencent)
    } else if name == "Bytedance"@ {
        Some(ApiKeyProviderView::Bytedance)
    } else if name == "DeepSeek"@ {
        Some(ApiKeyProviderView::DeepSeek)
    } else if name == "Google"@ {
        Some(ApiKeyProviderView::Google)
    } else if name == "Siliconflow"@ {
        Some(ApiKeyProviderView::Siliconflow)
    } else {
        None
    }
}

/// What is read from the document of a provider: one of the six names, or
/// an object with the one member `Custom` that holds the URL.
pub open spec fn decode_provider(v: JsonView) -> Option<ApiKeyProviderView> {
    match v {
        JsonView::Str(name) => provider_of_name(name),
        JsonView::Object(members) => if members.len() == 1 && members[0].0 == "Custom"@ {
            match members[0].1 {
                JsonView::Str(url) => Some(ApiKeyProviderView::Custom(url)),
                _ => None,
            }
        } else {
            None
        },
        _ => None,
    }
}

/// The keys of a pool: none where the member is missing, one where it is a
/// text, and the texts of an array otherwise.
pub open spec fn decode_keys(v: JsonView) -> Option<Seq<Seq<char>>> {
    match v.member("api_key"@) {
        None => Some(Seq::empty()),
        Some(JsonView::Str(key)) => Some(seq![key]),
        Some(JsonView::Array(items)) => decode_texts(items),
        Some(_) => None,
    }
}

/// What is read from the document of a pool: its keys, its provider, and
/// whether it needs the proxy, which it does not where the member is
/// missing. The cursor starts at zero.
pub open spec fn decode_pool(v: JsonView) -> Option<ApiKeyInfoView> {
    match v.member("provider"@) {
        Some(p) => match (decode_keys(v), decode_provider(p), bool_member_or(
            v,
            "need_proxy"@,
            false,
        )) {
            (Some(api_key), Some(provider), Some(need_proxy)) => Some(
                ApiKeyInfoView { api_key, provider, need_proxy, cur_index: 0 },
            ),
            _ => None,
        },
        None => None,
    }
}

/// What is read from the document of a model: its name at the provider and
/// the id of its pool.
pub open spec fn decode_model(v: JsonView) -> Option<ModelInfoView> {
    match (text_member(v, "name"@), text_member(v, "api_key_id"@)) {
        (Some(name), Some(api_key_id)) => Some(ModelInfoView { name, api_key_id }),
        _ => None,
    }
}

/// The pools of the members of an object, where every member can be read.
/// Of two members with one id the later counts.
pub open spec fn decode_pools(members: Seq<(Seq<char>, JsonView)>) -> Option<
    Map<Seq<char>, ApiKeyInfoView>,
>
    decreases members.len(),
{
    if members.len() == 0 {
        Some(Map::empty())
    } else {
        match (decode_pools(members.drop_last()), decode_pool(members.last().1)) {
            (Some(before), Some(pool)) => Some(before.insert(members.last().0, pool)),
            _ => None,
        }
    }
}

/// The models of the members of an object, where every member can be read.
/// Of two members with one id the later counts.
pub open spec fn decode_models(members: Seq<(Seq<char>, JsonView)>) -> Option<
    Map<Seq<char>, ModelInfoView>,
>
    decreases members.len(),
{
    if members.len() == 0 {
        Some(Map::empty())
    } else {
        match (decode_models(members.drop_last()), decode_model(members.last().1)) {
            (Some(before), Some(model)) => Some(before.insert(members.last().0, model)),
            _ => None,
        }
    }
}

/// What a configuration holds.
pub struct ConfigView {
    pub proxy_url: Option<Seq<char>>,
    pub api_keys: Map<Seq<char>, ApiKeyInfoView>,
    pub models: Map<Seq<char>, ModelInfoView>,
}

/// What is read from the document of a configuration.
pub open spec fn decode_config(v: JsonView) -> Option<ConfigView> {
    match (v.member("api_keys"@), v.member("models"@)) {
        (Some(JsonView::Object(pools)), Some(JsonView::Object(models))) => match (
            optional_text_member(v, "proxy_url"@),
            decode_pools(pools),
            decode_models(models),
        ) {
            (Some(proxy_url), Some(api_keys), Some(models)) => Some(
                ConfigView { proxy_url, api_keys, models },
            ),
            _ => None,
        },
        _ => None,
    }
}

/// What a registry holds.
pub open spec fn config_view(reg: UniModelsInfo) -> ConfigView {
    ConfigView { proxy_url: opt_text(reg.proxy_url), api_keys: reg.api_keys@, models: reg.models@ }
}

/// The model of a registry that may have been refused.
pub open spec fn opt_config_view(reg: Option<UniModelsInfo>) -> Option<ConfigView> {
    match reg {
        Some(reg) => Some(config_view(reg)),
        None => None,
    }
}

impl ApiKeyProvider {
    /// Reads a provider as [`decode_provider`] says.
    pub fn from_json(v: &Json) -> (r: Option<ApiKeyProvider>)
        ensures
            opt_view(r) == decode_provider(v@),
    {
        match v {
            Json::Str(name) => {
                let name = name.as_str();
                if str_eq(name, "Aliyun") {
                    Some(ApiKeyProvider::Aliyun)
                } else if str_eq(name, "Tencent") {
                    Some(ApiKeyProvider::Tencent)
                } else if str_eq(name, "Bytedance") {
                    Some(ApiKeyProvider::Bytedance)
                } else if str_eq(name, "DeepSeek") {
                    Some(ApiKeyProvider::DeepSeek)
                } else if str_eq(name, "Google") {
                    Some(ApiKeyProvider::Google)
                } else if str_eq(name, "Siliconflow") {
                    Some(ApiKeyProvider::Siliconflow)
                } else {
                    None
                }
            },
            Json::Object(members) => {
                proof {
                    lemma_object_view(*members);
                }
                if members.len() == 1 && str_eq(members[0].0.as_str(), "Custom") {
                    match &members[0].1 {
                        Json::Str(url) => Some(ApiKeyProvider::Custom(url.clone())),
                        _ => None,
                    }
                } else {
                    None
                }
            },
            _ => None,
        }
    }
}

/// Reads the keys of a pool as [`decode_keys`] says.
fn read_keys(v: &Json) -> (r: Option<Vec<String>>)
    ensures
        opt_texts(r) == decode_keys(v@),
{
    match v.get("api_key") {
        None => {
            let keys: Vec<String> = Vec::new();
            assert(texts_view(keys@) =~= Seq::empty());
            Some(keys)
        },
        Some(Json::Str(key)) => {
            let mut keys: Vec<String> = Vec::new();
            keys.push(key.clone());
            assert(texts_view(keys@) =~= seq![key@]);
            Some(keys)
        },
        Some(Json::Array(items)) => {
            proof {
                lemma_array_view(*items);
            }
            let ghost docs = items_view(items@);
            let mut keys: Vec<String> = Vec::new();
            let mut i: usize = 0;
            while i < items.len()
                invariant
                    i <= items.len(),
                    docs == items_view(items@),
                    v@.member("api_key"@) == Some(JsonView::Array(docs)),
                    keys.len() == i,
                    forall|k: int|
                        0 <= k < i ==> (#[trigger] docs[k]) is Str && docs[k]->Str_0 == keys[k]@,
                decreases items.len() - i,
            {
                match &items[i] {
                    Json::Str(s) => {
                        keys.push(s.clone());
                    },
                    _ => {
                        assert(!(docs[i as int] is Str));
                        return None;
                    },
                }
                i += 1;
            }
            proof {
                assert(decode_texts(docs) is Some);
                assert(texts_view(keys@) =~= decode_texts(docs)->Some_0);
            }
            Some(keys)
        },
        Some(_) => None,
    }
}

impl ApiKeyInfo {
    /// Reads a pool as [`decode_pool`] says.
    pub fn from_json(v: &Json) -> (r: Option<ApiKeyInfo>)
        ensures
            opt_view(r) == decode_pool(v@),
    {
        let provider = match v.get("provider") {
            Some(p) => match ApiKeyProvider::from_json(p) {
                Some(provider) => provider,
                None => {
                    return None;
                },
            },
            None => {
                return None;
            },
        };
        let api_key = match read_keys(v) {
            Some(keys) => keys,
            None => {
                return None;
            },
        };
        let need_proxy = match read_bool_or(v, "need_proxy", false) {
            Some(b) => b,
            None => {
                return None;
            },
        };
        Some(ApiKeyInfo { api_key, provider, need_proxy, cur_index: 0 })
    }
}

impl ModelInfo {
    /// Reads a model as [`decode_model`] says.
    pub fn from_json(v: &Json) -> (r: Option<ModelInfo>)
        ensures
            opt_view(r) == decode_model(v@),
    {
        let name = match read_text(v, "name") {
            Some(n) => n,
            None => {
                return None;
            },
        };
        let api_key_id = match read_text(v, "api_key_id") {
            Some(id) => id,
            None => {
                return None;
            },
        };
        Some(ModelInfo { name, api_key_id })
    }
}

/// Where the members up to some point cannot be read, all of them cannot.
proof fn lemma_pools_refused(members: Seq<(Seq<char>, JsonView)>, n: int)
    requires
        0 <= n <= members.len(),
        decode_pools(members.take(n)) is None,
    ensures
        decode_pools(members) is None,
    decreases members.len() - n,
{
    if n < members.len() {
        assert(members.take(n + 1).drop_last() =~= members.take(n));
        lemma_pools_refused(members, n + 1);
    } else {
        assert(members.take(n) =~= members);
    }
}

/// Where the members up to some point cannot be read, all of them cannot.
proof fn lemma_models_refused(members: Seq<(Seq<char>, JsonView)>, n: int)
    requires
        0 <= n <= members.len(),
        decode_models(members.take(n)) is None,
    ensures
        decode_models(members) is None,
    decreases members.len() - n,
{
    if n < members.len() {
        assert(members.take(n + 1).drop_last() =~= members.take(n));
        lemma_models_refused(members, n + 1);
    } else {
        assert(members.take(n) =~= members);
    }
}

/// The model of a table that may have been refused.
pub open spec fn opt_table_view<V: View>(t: Option<Table<V>>) -> Option<Map<Seq<char>, V::V>> {
    match t {
        Some(t) => Some(t@),
        None => None,
    }
}

/// Reads the pools of a configuration as [`decode_pools`] says.
fn read_pools(members: &Vec<(String, Json)>) -> (r: Option<Table<ApiKeyInfo>>)
    ensures
        opt_table_view(r) == decode_pools(members_view(members@)),
{
    let ghost all = members_view(members@);
    let mut table: Table<ApiKeyInfo> = Table::new();
    let mut i: usize = 0;
    assert(all.take(0) =~= Seq::empty());
    while i < members.len()
        invariant
            i <= members.len(),
            all == members_view(members@),
            decode_pools(all.take(i as int)) == Some(table@),
        decreases members.len() - i,
    {
        proof {
            assert(all.take(i + 1).drop_last() =~= all.take(i as int));
            assert(all.take(i + 1).last() == all[i as int]);
        }
        match ApiKeyInfo::from_json(&members[i].1) {
            Some(pool) => {
                table.insert(members[i].0.clone(), pool);
            },
            None => {
                proof {
                    lemma_pools_refused(all, i + 1);
                }
                return None;
            },
        }
        i += 1;
    }
    assert(all.take(i as int) =~= all);
    Some(table)
}

/// Reads the models of a configuration as [`decode_models`] says.
fn read_models(members: &Vec<(String, Json)>) -> (r: Option<Table<ModelInfo>>)
    ensures
        opt_table_view(r) == decode_models(members_view(members@)),
{
    let ghost all = members_view(members@);
    let mut table: Table<ModelInfo> = Table::new();
    let mut i: usize = 0;
    assert(all.take(0) =~= Seq::empty());
    while i < members.len()
        invariant
            i <= members.len(),
            all == members_view(members@),
            decode_models(all.take(i as int)) == Some(table@),
        decreases members.len() - i,
    {
        proof {
            assert(all.take(i + 1).drop_last() =~= all.take(i as int));
            assert(all.take(i + 1).last() == all[i as int]);
        }
        match ModelInfo::from_json(&members[i].1) {
            Some(model) => {
                table.insert(members[i].0.clone(), model);
            },
            None => {
                proof {
                    lemma_models_refused(all, i + 1);
                }
                return None;
            },
        }
        i += 1;
    }
    assert(all.take(i as int) =~= all);
    Some(table)
}

impl UniModelsInfo {
    /// Reads a registry from the document of a configuration, as
    /// [`decode_config`] says.
    pub fn from_json(v: &Json) -> (r: Option<UniModelsInfo>)
        ensures
            opt_config_view(r) == decode_config(v@),
    {
        let pools = match v.get("api_keys") {
            Some(Json::Object(members)) => {
                proof {
                    lemma_object_view(*members);
                }
                members
            },
            _ => {
                return None;
            },
        };
        let models = match v.get("models") {
            Some(Json::Object(members)) => {
                proof {
                    lemma_object_view(*members);
                }
                members
            },
            _ => {
                return None;
            },
        };
        let proxy_url = match read_optional_text(v, "proxy_url") {
            Some(url) => url,
            None => {
                return None;
            },
        };
        let api_keys = match read_pools(pools) {
            Some(table) => table,
            None => {
                return None;
            },
        };
        let models = match read_models(models) {
            Some(table) => table,
            None => {
                return None;
            },
        };
        Some(UniModelsInfo { proxy_url, api_keys, models })
    }
}

/// What the text of a configuration holds: the text must be a JSON document
/// that reads as a configuration.
pub open spec fn config_of_text(text: Seq<char>) -> Option<ConfigView> {
    match json_parse(text) {
        Some(doc) => decode_config(doc),
        None => None,
    }
}

/// Reads a registry from the text of a configuration, as [`config_of_text`]
/// says.
pub fn parse_config(text: &str) -> (r: Option<UniModelsInfo>)
    ensures
        opt_config_view(r) == config_of_text(text@),
{
    match parse(text) {
        Some(doc) => UniModelsInfo::from_json(&doc),
        None => None,
    }
}

/// One key is a pool of one: a pool whose key is given as one text is read
/// as the pool whose keys are given as the array of that text.
pub proof fn lemma_one_key_is_a_pool_of_one(key: Seq<char>, rest: Seq<(Seq<char>, JsonView)>)
    ensures
        decode_pool(JsonView::Object(seq![("api_key"@, JsonView::Str(key))] + rest))
            == decode_pool(
            JsonView::Object(
                seq![("api_key"@, JsonView::Array(seq![JsonView::Str(key)]))] + rest,
            ),
        ),
{
    reveal_strlit("api_key");
    reveal_strlit("provider");
    reveal_strlit("need_proxy");
    let single = seq![("api_key"@, JsonView::Str(key))] + rest;
    let list = seq![("api_key"@, JsonView::Array(seq![JsonView::Str(key)]))] + rest;
    let one = JsonView::Object(single);
    let many = JsonView::Object(list);
    assert(single[0] == ("api_key"@, JsonView::Str(key)));
    assert(list[0] == ("api_key"@, JsonView::Array(seq![JsonView::Str(key)])));
    assert(single.skip(1) =~= rest);
    assert(list.skip(1) =~= rest);
    assert("api_key"@.len() == 7 && "provider"@.len() == 8 && "need_proxy"@.len() == 10);
    assert("api_key"@ != "provider"@ && "api_key"@ != "need_proxy"@);
    assert(lookup(single, "provider"@) == lookup(single.skip(1), "provider"@));
    assert(lookup(list, "provider"@) == lookup(list.skip(1), "provider"@));
    assert(lookup(single, "need_proxy"@) == lookup(single.skip(1), "need_proxy"@));
    assert(lookup(list, "need_proxy"@) == lookup(list.skip(1), "need_proxy"@));
    assert(one.member("provider"@) == lookup(rest, "provider"@));
    assert(many.member("provider"@) == lookup(rest, "provider"@));
    assert(one.member("need_proxy"@) == lookup(rest, "need_proxy"@));
    assert(many.member("need_proxy"@) == lookup(rest, "need_proxy"@));
    let items = seq![JsonView::Str(key)];
    assert(decode_texts(items) is Some);
    assert(decode_texts(items)->Some_0 =~= seq![key]);
    assert(decode_keys(one) == Some(seq![key]));
    assert(decode_keys(many) == Some(seq![key]));
}

} // verus!
