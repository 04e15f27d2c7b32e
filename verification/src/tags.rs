//! The two small documents of the canonical protocol: the list of models and
//! the version.

use crate::config::UniModelsInfo;
use crate::json::{
    items_view, lemma_array_view, lemma_object_view, members_view, push_member, Json, JsonView,
};
use crate::table::{absent_before, first_names, lemma_contains, lemma_first_names};
use vstd::prelude::*;

verus! {

/// The JSON object of one model of the list: its id, as `name` and as
/// `model`.
pub open spec fn tag_json(id: Seq<char>) -> JsonView {
    JsonView::Object(seq![("name"@, JsonView::Str(id)), ("model"@, JsonView::Str(id))])
}

/// The document of the list of models: one entry for each id, in order.
pub open spec fn tags_json(ids: Seq<Seq<char>>) -> JsonView {
    JsonView::Object(
        seq![("models"@, JsonView::Array(Seq::new(ids.len(), |i: int| tag_json(ids[i]))))],
    )
}

/// The ids of the models of a registry, in the order of its entries, each
/// id once.
pub open spec fn model_ids(reg: UniModelsInfo) -> Seq<Seq<char>> {
    reg.models.spec_names()
}

/// The document of the version.
pub open spec fn version_json() -> JsonView {
    JsonView::Object(seq![("version"@, JsonView::Str("0.5.1"@))])
}

/// The JSON object of one model of the list.
fn tag_to_json(id: &str) -> (r: Json)
    ensures
        r@ == tag_json(id@),
{
    let mut members: Vec<(String, Json)> = Vec::new();
    assert(members_view(members@) =~= Seq::empty());
    push_member(&mut members, "name", Json::Str(id.to_owned()));
    push_member(&mut members, "model", Json::Str(id.to_owned()));
    proof {
        lemma_object_view(members);
        assert(members_view(members@) =~= tag_json(id@)->Object_0);
    }
    Json::Object(members)
}

/// The document of the list of the models of a registry: one entry for
/// each model id of the registry, and none for any other id.
pub fn api_tags(registry: &UniModelsInfo) -> (r: Json)
    ensures
        r@ == tags_json(model_ids(*registry)),
        forall|id: Seq<char>|
            model_ids(*registry).contains(id) <==> registry.models@.contains_key(id),
        forall|i: int, j: int|
            0 <= i < j < model_ids(*registry).len() ==> model_ids(*registry)[i] != model_ids(
                *registry,
            )[j],
{
    let ghost entries = registry.models.entries@;
    let mut items: Vec<Json> = Vec::new();
    let mut i: usize = 0;
    while i < registry.models.entries.len()
        invariant
            i <= registry.models.entries.len(),
            entries == registry.models.entries@,
            items.len() == first_names(entries, i as int).len(),
            forall|k: int|
                0 <= k < items.len() ==> (#[trigger] items[k])@ == tag_json(
                    first_names(entries, i as int)[k],
                ),
        decreases registry.models.entries.len() - i,
    {
        let id = registry.models.entries[i].0.as_str();
        proof {
            lemma_contains(entries, id@);
        }
        match registry.models.position(id) {
            Some(at) => {
                if at == i {
                    items.push(tag_to_json(id));
                } else {
                    assert(entries[at as int].0@ == id@);
                    assert(!absent_before(entries, id@, i as int));
                }
            },
            None => {},
        }
        i += 1;
    }
    let ghost ids = model_ids(*registry);
    proof {
        lemma_array_view(items);
        assert(items_view(items@) =~= Seq::new(ids.len(), |i: int| tag_json(ids[i])));
        lemma_first_names(entries, entries.len() as int);
        assert forall|id: Seq<char>|
            ids.contains(id) <==> registry.models@.contains_key(id) by {
            lemma_contains(entries, id);
        }
    }
    let mut members: Vec<(String, Json)> = Vec::new();
    assert(members_view(members@) =~= Seq::empty());
    push_member(&mut members, "models", Json::Array(items));
    proof {
        lemma_object_view(members);
        assert(members_view(members@) =~= tags_json(ids)->Object_0);
    }
    Json::Object(members)
}

/// The document of the version.
pub fn api_version() -> (r: Json)
    ensures
        r@ == version_json(),
{
    let mut members: Vec<(String, Json)> = Vec::new();
    assert(members_view(members@) =~= Seq::empty());
    push_member(&mut members, "version", Json::Str("0.5.1".to_owned()));
    proof {
        lemma_object_view(members);
        assert(members_view(members@) =~= version_json()->Object_0);
    }
    Json::Object(members)
}

} // verus!
