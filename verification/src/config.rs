//! The registry of models and credential pools, and the round-robin rotation
//! of a pool.

use crate::table::{lemma_contains, Table};
use crate::text::join;
use crate::view::texts_view;
use vstd::arithmetic::div_mod::{
    lemma_add_mod_noop, lemma_mod_bound, lemma_mod_twice, lemma_small_mod,
};
use vstd::prelude::*;

verus! {

/// How a model is called at its provider.
#[derive(Debug, PartialEq, Eq)]
pub struct ModelInfo {
    /// The name of the model at the provider.
    pub name: String,
    /// The id of the credential pool to call it with.
    pub api_key_id: String,
}

/// The model of a [`ModelInfo`].
pub struct ModelInfoView {
    pub name: Seq<char>,
    pub api_key_id: Seq<char>,
}

impl View for ModelInfo {
    type V = ModelInfoView;

    open spec fn view(&self) -> ModelInfoView {
        ModelInfoView { name: self.name@, api_key_id: self.api_key_id@ }
    }
}

impl Clone for ModelInfo {
    fn clone(&self) -> (r: Self)
        ensures
            r@ == self@,
    {
        ModelInfo { name: self.name.clone(), api_key_id: self.api_key_id.clone() }
    }
}

impl Default for ModelInfo {
    fn default() -> (r: ModelInfo)
        ensures
            r@ == (ModelInfoView { name: Seq::empty(), api_key_id: Seq::empty() }),
    {
        ModelInfo { name: String::new(), api_key_id: String::new() }
    }
}

/// The provider that a credential belongs to.
#[derive(Debug, PartialEq, Eq)]
pub enum ApiKeyProvider {
    Aliyun,
    Tencent,
    Bytedance,
    DeepSeek,
    Google,
    Siliconflow,
    /// A provider of the flat-message kind at the given URL.
    Custom(String),
}

/// The model of an [`ApiKeyProvider`].
pub enum ApiKeyProviderView {
    Aliyun,
    Tencent,
    Bytedance,
    DeepSeek,
    Google,
    Siliconflow,
    Custom(Seq<char>),
}

impl View for ApiKeyProvider {
    type V = ApiKeyProviderView;

    open spec fn view(&self) -> ApiKeyProviderView {
        match self {
            ApiKeyProvider::Aliyun => ApiKeyProviderView::Aliyun,
            ApiKeyProvider::Tencent => ApiKeyProviderView::Tencent,
            ApiKeyProvider::Bytedance => ApiKeyProviderView::Bytedance,
            ApiKeyProvider::DeepSeek => ApiKeyProviderView::DeepSeek,
            ApiKeyProvider::Google => ApiKeyProviderView::Google,
            ApiKeyProvider::Siliconflow => ApiKeyProviderView::Siliconflow,
            ApiKeyProvider::Custom(url) => ApiKeyProviderView::Custom(url@),
        }
    }
}

impl Clone for ApiKeyProvider {
    fn clone(&self) -> (r: Self)
        ensures
            r@ == self@,
    {
        match self {
            ApiKeyProvider::Aliyun => ApiKeyProvider::Aliyun,
            ApiKeyProvider::Tencent => ApiKeyProvider::Tencent,
            ApiKeyProvider::Bytedance => ApiKeyProvider::Bytedance,
            ApiKeyProvider::DeepSeek => ApiKeyProvider::DeepSeek,
            ApiKeyProvider::Google => ApiKeyProvider::Google,
            ApiKeyProvider::Siliconflow => ApiKeyProvider::Siliconflow,
            ApiKeyProvider::Custom(url) => ApiKeyProvider::Custom(url.clone()),
        }
    }
}

impl Default for ApiKeyProvider {
    fn default() -> (r: ApiKeyProvider)
        ensures
            r@ == ApiKeyProviderView::Aliyun,
    {
        ApiKeyProvider::Aliyun
    }
}

/// A credential pool: the keys of one account, rotated round-robin.
#[derive(Debug, PartialEq, Eq)]
pub struct ApiKeyInfo {
    /// The keys, in the order in which they are handed out.
    pub api_key: Vec<String>,
    pub provider: ApiKeyProvider,
    /// Whether requests with these keys go through the proxied client.
    pub need_proxy: bool,
    /// The rotation cursor: the key handed out next is the one at
    /// `cur_index` modulo the number of keys.
    pub cur_index: u32,
}

/// The model of an [`ApiKeyInfo`].
pub struct ApiKeyInfoView {
    pub api_key: Seq<Seq<char>>,
    pub provider: ApiKeyProviderView,
    pub need_proxy: bool,
    pub cur_index: u32,
}

impl View for ApiKeyInfo {
    type V = ApiKeyInfoView;

    open spec fn view(&self) -> ApiKeyInfoView {
        ApiKeyInfoView {
            api_key: texts_view(self.api_key@),
            provider: self.provider@,
            need_proxy: self.need_proxy,
            cur_index: self.cur_index,
        }
    }
}

impl Clone for ApiKeyInfo {
    fn clone(&self) -> (r: Self)
        ensures
            r@ == self@,
    {
        let mut keys: Vec<String> = Vec::new();
        let mut i: usize = 0;
        while i < self.api_key.len()
            invariant
                i <= self.api_key.len(),
                keys.len() == i,
                forall|k: int| 0 <= k < i ==> (#[trigger] keys[k])@ == self.api_key[k]@,
            decreases self.api_key.len() - i,
        {
            keys.push(self.api_key[i].clone());
            i += 1;
        }
        assert(texts_view(keys@) =~= texts_view(self.api_key@));
        ApiKeyInfo {
            api_key: keys,
            provider: self.provider.clone(),
            need_proxy: self.need_proxy,
            cur_index: self.cur_index,
        }
    }
}

impl Default for ApiKeyInfo {
    fn default() -> (r: ApiKeyInfo)
        ensures
            r@ == (ApiKeyInfoView {
                api_key: Seq::empty(),
                provider: ApiKeyProviderView::Aliyun,
                need_proxy: false,
                cur_index: 0,
            }),
    {
        let r = ApiKeyInfo {
            api_key: Vec::new(),
            provider: ApiKeyProvider::Aliyun,
            need_proxy: false,
            cur_index: 0,
        };
        assert(texts_view(r.api_key@) =~= Seq::empty());
        r
    }
}

/// One key of a pool, picked for one request.
#[derive(Debug, PartialEq, Eq)]
pub struct SelectedApiKeyInfo {
    pub api_key: String,
    pub provider: ApiKeyProvider,
    pub need_proxy: bool,
}

/// The model of a [`SelectedApiKeyInfo`].
pub struct SelectedApiKeyInfoView {
    pub api_key: Seq<char>,
    pub provider: ApiKeyProviderView,
    pub need_proxy: bool,
}

impl View for SelectedApiKeyInfo {
    type V = SelectedApiKeyInfoView;

    open spec fn view(&self) -> SelectedApiKeyInfoView {
        SelectedApiKeyInfoView {
            api_key: self.api_key@,
            provider: self.provider@,
            need_proxy: self.need_proxy,
        }
    }
}

/// The index of the key that a cursor hands out, in a pool of `len` keys.
pub open spec fn rotation_index(cursor: u32, len: nat) -> int {
    cursor as int % len as int
}

/// The cursor after one rotation. It counts up by one; at the end of its
/// range it starts again at the index that follows the one handed out, so
/// that the rotation stays periodic.
pub open spec fn next_cursor(cursor: u32, len: nat) -> u32 {
    if cursor < u32::MAX {
        (cursor + 1) as u32
    } else {
        ((rotation_index(cursor, len) + 1) % len as int) as u32
    }
}

/// The cursor after `n` rotations.
pub open spec fn cursor_after(cursor: u32, len: nat, n: nat) -> u32
    decreases n,
{
    if n == 0 {
        cursor
    } else {
        next_cursor(cursor_after(cursor, len, (n - 1) as nat), len)
    }
}

impl ApiKeyInfoView {
    /// Whether the pool can be rotated: it holds a key, and no more keys
    /// than the cursor can count.
    pub open spec fn rotatable(self) -> bool {
        0 < self.api_key.len() <= u32::MAX
    }

    /// What one rotation hands out.
    pub open spec fn handed_out(self) -> SelectedApiKeyInfoView {
        SelectedApiKeyInfoView {
            api_key: self.api_key[rotation_index(self.cur_index, self.api_key.len())],
            provider: self.provider,
            need_proxy: self.need_proxy,
        }
    }

    /// The pool after one rotation.
    pub open spec fn rotated(self) -> ApiKeyInfoView {
        ApiKeyInfoView { cur_index: next_cursor(self.cur_index, self.api_key.len()), ..self }
    }
}

impl ApiKeyInfo {
    /// Whether the pool can be rotated.
    pub fn is_rotatable(&self) -> (r: bool)
        ensures
            r == self@.rotatable(),
    {
        0 < self.api_key.len() && self.api_key.len() <= 0xFFFF_FFFF
    }

    /// Hands out the next key of the pool, round-robin, and moves the cursor.
    pub fn selected(&mut self) -> (r: SelectedApiKeyInfo)
        requires
            old(self)@.rotatable(),
        ensures
            r@ == old(self)@.handed_out(),
            final(self)@ == old(self)@.rotated(),
    {
        let len: usize = self.api_key.len();
        let index: usize = (self.cur_index as u64 % len as u64) as usize;
        let ghost before = self@;
        if self.cur_index < u32::MAX {
            self.cur_index = self.cur_index + 1;
        } else {
            self.cur_index = ((index as u64 + 1) % len as u64) as u32;
        }
        assert(self@.api_key =~= before.api_key);
        SelectedApiKeyInfo {
            api_key: self.api_key[index].clone(),
            provider: self.provider.clone(),
            need_proxy: self.need_proxy,
        }
    }
}

/// One rotation moves the index that is handed out to its cyclic successor.
pub proof fn lemma_rotation_step(cursor: u32, len: nat)
    requires
        0 < len <= u32::MAX,
    ensures
        rotation_index(next_cursor(cursor, len), len) == (rotation_index(cursor, len) + 1)
            % len as int,
{
    let n = len as int;
    lemma_mod_bound(cursor as int, n);
    if cursor < u32::MAX {
        lemma_add_mod_noop(cursor as int, 1, n);
        if n == 1 {
            assert(1int % 1 == 0);
            lemma_mod_twice(cursor as int + 1, n);
        } else {
            lemma_small_mod(1, len);
        }
    } else {
        lemma_mod_bound(rotation_index(cursor, len) + 1, n);
        lemma_mod_twice(rotation_index(cursor, len) + 1, n);
    }
}

/// Round robin: after `n` rotations the index that is handed out has moved
/// `n` places forward in the cycle `0, 1, .., len - 1, 0, ..`.
pub proof fn lemma_round_robin(cursor: u32, len: nat, n: nat)
    requires
        0 < len <= u32::MAX,
    ensures
        rotation_index(cursor_after(cursor, len, n), len) == (rotation_index(cursor, len) + n)
            % len as int,
    decreases n,
{
    let m = len as int;
    let start = rotation_index(cursor, len);
    lemma_mod_bound(cursor as int, m);
    if n == 0 {
        lemma_small_mod(start as nat, len);
    } else {
        let k = (n - 1) as nat;
        lemma_round_robin(cursor, len, k);
        lemma_rotation_step(cursor_after(cursor, len, k), len);
        lemma_add_mod_noop(start + k, 1, m);
        if m == 1 {
            assert(1int % 1 == 0);
            lemma_mod_twice(start + k + 1, m);
        } else {
            lemma_small_mod(1, len);
        }
    }
}

/// In `len` rotations in a row no index is handed out twice.
pub proof fn lemma_period_has_no_repeat(cursor: u32, len: nat, i: nat, j: nat)
    requires
        0 < len <= u32::MAX,
        i < j < len,
    ensures
        rotation_index(cursor_after(cursor, len, i), len) != rotation_index(
            cursor_after(cursor, len, j),
            len,
        ),
{
    let m = len as int;
    let start = rotation_index(cursor, len);
    lemma_mod_bound(cursor as int, m);
    lemma_round_robin(cursor, len, i);
    lemma_round_robin(cursor, len, j);
    lemma_cyclic_offsets_differ(start, m, i as int, j as int);
}

/// In `len` rotations in a row every index of the pool is handed out: the
/// index `target` comes after `(target - start) mod len` rotations, where
/// `start` is the index handed out first.
pub proof fn lemma_period_covers_pool(cursor: u32, len: nat, target: nat) -> (n: nat)
    requires
        0 < len <= u32::MAX,
        target < len,
    ensures
        n < len,
        rotation_index(cursor_after(cursor, len, n), len) == target,
{
    let m = len as int;
    let start = rotation_index(cursor, len);
    lemma_mod_bound(cursor as int, m);
    let n: nat = if target >= start {
        (target - start) as nat
    } else {
        (target + m - start) as nat
    };
    lemma_round_robin(cursor, len, n);
    if target >= start {
        lemma_small_mod(target, len);
    } else {
        lemma_wrap_once(target as int, m);
    }
    n
}

/// After `len` rotations the pool hands out the same index again.
pub proof fn lemma_rotation_is_periodic(cursor: u32, len: nat, n: nat)
    requires
        0 < len <= u32::MAX,
    ensures
        rotation_index(cursor_after(cursor, len, n + len), len) == rotation_index(
            cursor_after(cursor, len, n),
            len,
        ),
{
    let m = len as int;
    let start = rotation_index(cursor, len);
    lemma_round_robin(cursor, len, n);
    lemma_round_robin(cursor, len, n + len);
    lemma_add_mod_noop(start + n, m, m);
    vstd::arithmetic::div_mod::lemma_mod_self_0(m);
    lemma_mod_twice(start + n, m);
}

/// A number in `m..2m` is reduced by taking `m` off once.
proof fn lemma_wrap_once(x: int, m: int)
    requires
        0 <= x < m,
    ensures
        (x + m) % m == x,
{
    vstd::arithmetic::div_mod::lemma_mod_add_multiples_vanish(x, m);
    lemma_small_mod(x as nat, m as nat);
}

/// Two offsets below `m` that differ give different places in the cycle.
proof fn lemma_cyclic_offsets_differ(start: int, m: int, i: int, j: int)
    requires
        0 <= start < m,
        0 <= i < j < m,
    ensures
        (start + i) % m != (start + j) % m,
{
    let a = start + i;
    let b = start + j;
    if a < m {
        lemma_small_mod(a as nat, m as nat);
    } else {
        lemma_wrap_once(a - m, m);
    }
    if b < m {
        lemma_small_mod(b as nat, m as nat);
    } else {
        lemma_wrap_once(b - m, m);
    }
}

/// The registry: the models by their id, and the credential pools by theirs.
#[derive(Debug, PartialEq, Eq)]
pub struct UniModelsInfo {
    /// The URL of the proxy for the pools that ask for one.
    pub proxy_url: Option<String>,
    /// The credential pools, by pool id.
    pub api_keys: Table<ApiKeyInfo>,
    /// The models, by model id.
    pub models: Table<ModelInfo>,
}

/// The pool of a provider as the default registry holds it: one key to be
/// filled in, and the cursor at zero.
pub open spec fn placeholder_pool(
    provider: ApiKeyProviderView,
    need_proxy: bool,
) -> ApiKeyInfoView {
    ApiKeyInfoView { api_key: seq!["[YOUR-API-KEY]"@], provider, need_proxy, cur_index: 0 }
}

/// The pools of the default registry.
pub open spec fn default_pools() -> Map<Seq<char>, ApiKeyInfoView> {
    Map::empty().insert("aliyun"@, placeholder_pool(ApiKeyProviderView::Aliyun, false)).insert(
        "bytedance"@,
        placeholder_pool(ApiKeyProviderView::Bytedance, false),
    ).insert("tencent"@, placeholder_pool(ApiKeyProviderView::Tencent, false)).insert(
        "siliconflow"@,
        placeholder_pool(ApiKeyProviderView::Siliconflow, false),
    ).insert("google"@, placeholder_pool(ApiKeyProviderView::Google, true))
}

/// A model of the registry.
pub open spec fn model_entry(name: Seq<char>, api_key_id: Seq<char>) -> ModelInfoView {
    ModelInfoView { name, api_key_id }
}

/// The models of the default registry.
pub open spec fn default_models() -> Map<Seq<char>, ModelInfoView> {
    Map::empty().insert("aliyun-r1"@, model_entry("deepseek-r1"@, "aliyun"@)).insert(
        "aliyun-qwen-max-latest"@,
        model_entry("qwen-max-latest"@, "aliyun"@),
    ).insert("bytedance-r1"@, model_entry("ep-20250207154718-64blv"@, "bytedance"@)).insert(
        "tencent-r1"@,
        model_entry("deepseek-r1"@, "tencent"@),
    ).insert("siliconflow-r1"@, model_entry("deepseek-ai/DeepSeek-R1"@, "siliconflow"@)).insert(
        "gemini-1.5-flash"@,
        model_entry("gemini-1.5-flash"@, "google"@),
    ).insert("gemini-2.0-flash"@, model_entry("gemini-2.0-flash"@, "google"@)).insert(
        "gemini-2.0-flash-thinking-exp"@,
        model_entry("gemini-2.0-flash-thinking-exp"@, "google"@),
    )
}

/// A pool with one key to be filled in.
fn new_placeholder_pool(provider: ApiKeyProvider, need_proxy: bool) -> (r: ApiKeyInfo)
    ensures
        r@ == placeholder_pool(provider@, need_proxy),
{
    let mut keys: Vec<String> = Vec::new();
    keys.push("[YOUR-API-KEY]".to_owned());
    assert(texts_view(keys@) =~= seq!["[YOUR-API-KEY]"@]);
    ApiKeyInfo { api_key: keys, provider, need_proxy, cur_index: 0 }
}

/// A model of the registry.
fn new_model(name: &str, api_key_id: &str) -> (r: ModelInfo)
    ensures
        r@ == model_entry(name@, api_key_id@),
{
    ModelInfo { name: name.to_owned(), api_key_id: api_key_id.to_owned() }
}

impl Default for UniModelsInfo {
    /// The registry that a new configuration starts from: a local proxy, one
    /// pool for each of five providers, and eight models.
    fn default() -> (r: UniModelsInfo)
        ensures
            r.proxy_url is Some,
            r.proxy_url->Some_0@ == "http://127.0.0.1:11111"@,
            r.api_keys@ == default_pools(),
            r.models@ == default_models(),
    {
        let mut api_keys: Table<ApiKeyInfo> = Table::new();
        api_keys.insert("aliyun".to_owned(), new_placeholder_pool(ApiKeyProvider::Aliyun, false));
        api_keys.insert(
            "bytedance".to_owned(),
            new_placeholder_pool(ApiKeyProvider::Bytedance, false),
        );
        api_keys.insert("tencent".to_owned(), new_placeholder_pool(ApiKeyProvider::Tencent, false));
        api_keys.insert(
            "siliconflow".to_owned(),
            new_placeholder_pool(ApiKeyProvider::Siliconflow, false),
        );
        api_keys.insert("google".to_owned(), new_placeholder_pool(ApiKeyProvider::Google, true));
        let mut models: Table<ModelInfo> = Table::new();
        models.insert("aliyun-r1".to_owned(), new_model("deepseek-r1", "aliyun"));
        models.insert("aliyun-qwen-max-latest".to_owned(), new_model("qwen-max-latest", "aliyun"));
        models.insert("bytedance-r1".to_owned(), new_model("ep-20250207154718-64blv", "bytedance"));
        models.insert("tencent-r1".to_owned(), new_model("deepseek-r1", "tencent"));
        models.insert(
            "siliconflow-r1".to_owned(),
            new_model("deepseek-ai/DeepSeek-R1", "siliconflow"),
        );
        models.insert("gemini-1.5-flash".to_owned(), new_model("gemini-1.5-flash", "google"));
        models.insert("gemini-2.0-flash".to_owned(), new_model("gemini-2.0-flash", "google"));
        models.insert(
            "gemini-2.0-flash-thinking-exp".to_owned(),
            new_model("gemini-2.0-flash-thinking-exp", "google"),
        );
        UniModelsInfo { proxy_url: Some("http://127.0.0.1:11111".to_owned()), api_keys, models }
    }
}

/// The suffix that marks the latest version of a model.
pub open spec fn latest_tag() -> Seq<char> {
    ":latest"@
}

/// Whether `id` is the id of a model of `models` with the tag behind it.
pub open spec fn is_tagged_id(models: Map<Seq<char>, ModelInfoView>, id: Seq<char>) -> bool {
    &&& id.len() >= latest_tag().len()
    &&& id.skip(id.len() - latest_tag().len()) == latest_tag()
    &&& models.contains_key(id.take(id.len() - latest_tag().len()))
}

/// The models with, for every model, a second entry under its id with
/// `:latest` behind it. Where such an id was taken already, the tagged model
/// takes its place.
pub open spec fn with_latest_tags(models: Map<Seq<char>, ModelInfoView>) -> Map<
    Seq<char>,
    ModelInfoView,
> {
    Map::new(
        |id: Seq<char>| models.contains_key(id) || is_tagged_id(models, id),
        |id: Seq<char>|
            if is_tagged_id(models, id) {
                models[id.take(id.len() - latest_tag().len())]
            } else {
                models[id]
            },
    )
}

/// The models with a tagged entry for each of the first `n` of `ids`.
pub open spec fn tagged_so_far(
    models: Map<Seq<char>, ModelInfoView>,
    ids: Seq<Seq<char>>,
    n: int,
) -> Map<Seq<char>, ModelInfoView> {
    Map::new(
        |id: Seq<char>| models.contains_key(id) || is_tag_of_some(models, ids, n, id),
        |id: Seq<char>|
            if is_tag_of_some(models, ids, n, id) {
                models[id.take(id.len() - latest_tag().len())]
            } else {
                models[id]
            },
    )
}

/// Whether `id` is one of the first `n` of `ids` with the tag behind it.
pub open spec fn is_tag_of_some(
    models: Map<Seq<char>, ModelInfoView>,
    ids: Seq<Seq<char>>,
    n: int,
    id: Seq<char>,
) -> bool {
    &&& is_tagged_id(models, id)
    &&& exists|j: int|
        0 <= j < n && j < ids.len() && #[trigger] ids[j] == id.take(
            id.len() - latest_tag().len(),
        )
}

impl UniModelsInfo {
    /// Gives every model a second id, its own with `:latest` behind it.
    pub fn insert_latest_tag_for_openwebui(&mut self)
        ensures
            final(self).models@ == with_latest_tags(old(self).models@),
            final(self).api_keys == old(self).api_keys,
            final(self).proxy_url == old(self).proxy_url,
    {
        let ghost before = self.models@;
        let mut tagged: Vec<(String, ModelInfo)> = Vec::new();
        let mut i: usize = 0;
        while i < self.models.entries.len()
            invariant
                i <= self.models.entries.len(),
                self.models == old(self).models,
                before == self.models@,
                tagged.len() == i,
                forall|k: int|
                    0 <= k < i ==> {
                        &&& (#[trigger] tagged[k]).0@ == self.models.entries[k].0@ + latest_tag()
                        &&& before.contains_key(self.models.entries[k].0@)
                        &&& tagged[k].1@ == before[self.models.entries[k].0@]
                    },
            decreases self.models.entries.len() - i,
        {
            let id = self.models.entries[i].0.as_str();
            let value = match self.models.get(id) {
                Some(v) => v.clone(),
                None => {
                    proof {
                        lemma_contains(self.models.entries@, id@);
                    }
                    self.models.entries[i].1.clone()
                },
            };
            proof {
                lemma_contains(self.models.entries@, id@);
            }
            tagged.push((join(id, ":latest"), value));
            i += 1;
        }
        let ghost ids = Seq::new(tagged.len() as nat, |k: int| old(self).models.entries[k].0@);
        let ghost n_ids = tagged.len();
        let mut k: usize = 0;
        proof {
            assert(self.models@ =~= tagged_so_far(before, ids, 0));
        }
        while k < tagged.len()
            invariant
                k <= tagged.len(),
                tagged.len() == n_ids,
                ids.len() == n_ids,
                self.api_keys == old(self).api_keys,
                self.proxy_url == old(self).proxy_url,
                self.models@ == tagged_so_far(before, ids, k as int),
                forall|j: int|
                    0 <= j < tagged.len() ==> {
                        &&& (#[trigger] tagged[j]).0@ == ids[j] + latest_tag()
                        &&& before.contains_key(ids[j])
                        &&& tagged[j].1@ == before[ids[j]]
                    },
            decreases tagged.len() - k,
        {
            let id = tagged[k].0.clone();
            let value = tagged[k].1.clone();
            proof {
                let tag = latest_tag();
                let full = ids[k as int] + tag;
                assert(full.skip(full.len() - tag.len()) =~= tag);
                assert(full.take(full.len() - tag.len()) =~= ids[k as int]);
                assert(is_tagged_id(before, full));
                let now = tagged_so_far(before, ids, k as int).insert(id@, value@);
                let next = tagged_so_far(before, ids, k + 1);
                assert forall|x: Seq<char>|
                    is_tag_of_some(before, ids, k + 1, x) <==> (x == full || is_tag_of_some(
                        before,
                        ids,
                        k as int,
                        x,
                    )) by {
                    let stem = x.take(x.len() - tag.len());
                    if is_tag_of_some(before, ids, k + 1, x) && x != full {
                        let j = choose|j: int|
                            0 <= j < k + 1 && j < ids.len() && #[trigger] ids[j] == stem;
                        if j == k {
                            assert(x =~= stem + x.skip(x.len() - tag.len()));
                        }
                    }
                    if x == full {
                        assert(ids[k as int] == stem);
                    }
                    if is_tag_of_some(before, ids, k as int, x) {
                        let j = choose|j: int|
                            0 <= j < k && j < ids.len() && #[trigger] ids[j] == stem;
                        assert(0 <= j < k + 1 && ids[j] == stem);
                    }
                }
                assert forall|x: Seq<char>| now.contains_key(x) <==> next.contains_key(x) by {}
                assert forall|x: Seq<char>| now.contains_key(x) implies now[x] == next[x] by {}
                assert(tagged_so_far(before, ids, k as int).insert(id@, value@) =~= tagged_so_far(
                    before,
                    ids,
                    k + 1,
                ));
            }
            self.models.insert(id, value);
            k += 1;
        }
        proof {
            assert forall|id: Seq<char>|
                is_tagged_id(before, id) implies is_tag_of_some(before, ids, n_ids as int, id) by {
                let stem = id.take(id.len() - latest_tag().len());
                lemma_contains(old(self).models.entries@, stem);
                let j = choose|j: int|
                    0 <= j < old(self).models.entries.len() && (#[trigger] old(
                        self,
                    ).models.entries@[j]).0@ == stem;
                assert(ids[j] == stem);
            }
            assert(tagged_so_far(before, ids, n_ids as int) =~= with_latest_tags(before));
        }
    }
}

impl ApiKeyInfoView {
    /// The pool after `n` rotations.
    pub open spec fn rotated_times(self, n: nat) -> ApiKeyInfoView
        decreases n,
    {
        if n == 0 {
            self
        } else {
            self.rotated_times((n - 1) as nat).rotated()
        }
    }
}

/// Round robin over a pool: rotations change nothing but the cursor, and the
/// key handed out after `n` rotations is the one `n` places behind the first
/// in the cycle of the keys.
pub proof fn lemma_pool_round_robin(pool: ApiKeyInfoView, n: nat)
    requires
        pool.rotatable(),
    ensures
        pool.rotated_times(n) == (ApiKeyInfoView {
            cur_index: cursor_after(pool.cur_index, pool.api_key.len(), n),
            ..pool
        }),
        pool.rotated_times(n).rotatable(),
        pool.rotated_times(n).handed_out() == (SelectedApiKeyInfoView {
            api_key: pool.api_key[(rotation_index(pool.cur_index, pool.api_key.len()) + n)
                % pool.api_key.len() as int],
            provider: pool.provider,
            need_proxy: pool.need_proxy,
        }),
    decreases n,
{
    if n > 0 {
        lemma_pool_round_robin(pool, (n - 1) as nat);
    }
    lemma_round_robin(pool.cur_index, pool.api_key.len(), n);
}

} // verus!
