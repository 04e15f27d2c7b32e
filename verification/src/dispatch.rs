//! The dispatcher: from the model that a request names to the provider, the
//! credential and the network path of the outbound request.

use crate::config::{
    ApiKeyInfoView, ApiKeyProvider, ApiKeyProviderView, ModelInfoView, UniModelsInfo,
};
use crate::error::{AppError, AppErrorView};
use crate::table::{lemma_contains, lemma_update};
use vstd::prelude::*;

verus! {

/// The network client that an outbound request goes through.
#[derive(Clone, Copy, Debug, PartialEq, Eq, Structural)]
pub enum ClientKind {
    /// The client that connects to the provider itself.
    Direct,
    /// The client that connects through the configured proxy.
    Proxied,
}

/// Where a request goes: the model, the key and the provider to call, and
/// the client to call with.
#[derive(Debug, PartialEq, Eq)]
pub struct Route {
    /// The id of the model, as the request names it.
    pub model_id: String,
    /// The name of the model at the provider.
    pub model_name: String,
    pub api_key: String,
    pub provider: ApiKeyProvider,
    pub client: ClientKind,
}

/// The model of a [`Route`].
pub struct RouteView {
    pub model_id: Seq<char>,
    pub model_name: Seq<char>,
    pub api_key: Seq<char>,
    pub provider: ApiKeyProviderView,
    pub client: ClientKind,
}

impl View for Route {
    type V = RouteView;

    open spec fn view(&self) -> RouteView {
        RouteView {
            model_id: self.model_id@,
            model_name: self.model_name@,
            api_key: self.api_key@,
            provider: self.provider@,
            client: self.client,
        }
    }
}

/// The model of the registry: its models and its pools.
pub struct RegistryView {
    pub models: Map<Seq<char>, ModelInfoView>,
    pub api_keys: Map<Seq<char>, ApiKeyInfoView>,
}

impl View for UniModelsInfo {
    type V = RegistryView;

    open spec fn view(&self) -> RegistryView {
        RegistryView { models: self.models@, api_keys: self.api_keys@ }
    }
}

impl RegistryView {
    /// Every pool that a model refers to can be rotated: it holds a key.
    pub open spec fn well_formed(self) -> bool {
        forall|id: Seq<char>|
            #![trigger self.models[id]]
            self.models.contains_key(id) && self.api_keys.contains_key(self.models[id].api_key_id)
                ==> self.api_keys[self.models[id].api_key_id].rotatable()
    }

    /// The pool that a model is called with, if the registry holds both.
    pub open spec fn pool_of(self, model_id: Seq<char>) -> Option<Seq<char>> {
        if self.models.contains_key(model_id) && self.api_keys.contains_key(
            self.models[model_id].api_key_id,
        ) {
            Some(self.models[model_id].api_key_id)
        } else {
            None
        }
    }

    /// The registry after a request for `model_id`: the pool of the model has
    /// made one rotation; where the model or its pool is unknown, nothing
    /// has changed.
    pub open spec fn after_request(self, model_id: Seq<char>) -> RegistryView {
        match self.pool_of(model_id) {
            Some(pool_id) => RegistryView {
                api_keys: self.api_keys.insert(pool_id, self.api_keys[pool_id].rotated()),
                ..self
            },
            None => self,
        }
    }

    /// The outcome of a request for `model_id`: the failure where the model
    /// or its pool is unknown, or where the key asks for the proxied client
    /// and none is configured; otherwise the route, with the key that the
    /// rotation hands out.
    pub open spec fn route_for(self, model_id: Seq<char>, proxy_configured: bool) -> Result<
        RouteView,
        AppErrorView,
    > {
        if !self.models.contains_key(model_id) {
            Err(AppErrorView::UnknownModel)
        } else if !self.api_keys.contains_key(self.models[model_id].api_key_id) {
            Err(AppErrorView::UnknownCredentialPool)
        } else {
            let model = self.models[model_id];
            let picked = self.api_keys[model.api_key_id].handed_out();
            if picked.need_proxy && !proxy_configured {
                Err(AppErrorView::ProxyNotConfigured)
            } else {
                Ok(
                    RouteView {
                        model_id,
                        model_name: model.name,
                        api_key: picked.api_key,
                        provider: picked.provider,
                        client: if picked.need_proxy {
                            ClientKind::Proxied
                        } else {
                            ClientKind::Direct
                        },
                    },
                )
            }
        }
    }
}

/// The model of the outcome of a request.
pub open spec fn outcome_view(r: Result<Route, AppError>) -> Result<RouteView, AppErrorView> {
    match r {
        Ok(route) => Ok(route@),
        Err(e) => Err(e@),
    }
}

/// Rotating a pool that can be rotated leaves it so.
pub proof fn lemma_rotation_keeps_well_formed(reg: RegistryView, model_id: Seq<char>)
    requires
        reg.well_formed(),
    ensures
        reg.after_request(model_id).well_formed(),
{
    let after = reg.after_request(model_id);
    assert forall|id: Seq<char>|
        #![trigger after.models[id]]
        after.models.contains_key(id) && after.api_keys.contains_key(
            after.models[id].api_key_id,
        ) implies after.api_keys[after.models[id].api_key_id].rotatable() by {
        assert(reg.models[id] == after.models[id]);
        if reg.pool_of(model_id) is Some {
            assert(reg.models[model_id].api_key_id == reg.pool_of(model_id)->Some_0);
        }
    }
}

impl UniModelsInfo {
    /// Whether every pool that a model refers to holds a key.
    pub fn is_well_formed(&self) -> (r: bool)
        ensures
            r == self@.well_formed(),
    {
        let mut i: usize = 0;
        while i < self.models.entries.len()
            invariant
                i <= self.models.entries.len(),
                forall|k: int|
                    #![trigger self.models.entries[k]]
                    0 <= k < i ==> {
                        let model = self@.models[self.models.entries[k].0@];
                        self@.api_keys.contains_key(model.api_key_id)
                            ==> self@.api_keys[model.api_key_id].rotatable()
                    },
            decreases self.models.entries.len() - i,
        {
            let id = self.models.entries[i].0.as_str();
            proof {
                lemma_contains(self.models.entries@, id@);
            }
            match self.models.get(id) {
                Some(model) => {
                    match self.api_keys.get(model.api_key_id.as_str()) {
                        Some(pool) => {
                            if !pool.is_rotatable() {
                                assert(!self@.api_keys[self@.models[id@].api_key_id].rotatable());
                                return false;
                            }
                        },
                        None => {},
                    }
                },
                None => {},
            }
            i += 1;
        }
        proof {
            assert forall|id: Seq<char>|
                #![trigger self@.models[id]]
                self@.models.contains_key(id) && self@.api_keys.contains_key(
                    self@.models[id].api_key_id,
                ) implies self@.api_keys[self@.models[id].api_key_id].rotatable() by {
                lemma_contains(self.models.entries@, id);
                let k = choose|k: int|
                    0 <= k < self.models.entries.len() && (#[trigger] self.models.entries@[k]).0@
                        == id;
                assert(self.models.entries[k].0@ == id);
            }
        }
        true
    }

    /// Picks the route of a request for `model_id` and rotates the pool of
    /// the model, as [`RegistryView::route_for`] and
    /// [`RegistryView::after_request`] say.
    pub fn resolve(&mut self, model_id: &str, proxy_configured: bool) -> (r: Result<
        Route,
        AppError,
    >)
        requires
            old(self)@.well_formed(),
        ensures
            outcome_view(r) == old(self)@.route_for(model_id@, proxy_configured),
            final(self)@ == old(self)@.after_request(model_id@),
            final(self)@.well_formed(),
            final(self).proxy_url == old(self).proxy_url,
    {
        proof {
            lemma_rotation_keeps_well_formed(self@, model_id@);
        }
        let (model_name, pool_id) = match self.models.get(model_id) {
            Some(model) => (model.name.clone(), model.api_key_id.clone()),
            None => {
                return Err(AppError::UnknownModel);
            },
        };
        let at = match self.api_keys.position(pool_id.as_str()) {
            Some(at) => at,
            None => {
                return Err(AppError::UnknownCredentialPool);
            },
        };
        let ghost before = self.api_keys.entries@;
        let ghost pool_before = self.api_keys.entries[at as int].1;
        assert(pool_before@.rotatable());
        let picked = self.api_keys.entries[at].1.selected();
        proof {
            let key = before[at as int].0;
            let pool_after = self.api_keys.entries[at as int].1;
            assert(self.api_keys.entries@ =~= before.update(at as int, (key, pool_after)));
            lemma_update(before, at as int, key, pool_after);
        }
        if picked.need_proxy && !proxy_configured {
            return Err(AppError::ProxyNotConfigured);
        }
        let client = if picked.need_proxy {
            ClientKind::Proxied
        } else {
            ClientKind::Direct
        };
        Ok(
            Route {
                model_id: model_id.to_owned(),
                model_name,
                api_key: picked.api_key,
                provider: picked.provider,
                client,
            },
        )
    }
}

} // verus!
