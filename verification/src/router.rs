//! The router: a provider that delegates each request to the provider of the
//! model its routing strategy selects.
//!
//! The router is generic over the provider handle `V`, the strategy `S`, the
//! details `P` carried by model profiles and the cost tracker `C`; calling
//! the selected provider and recording costs happen outside this module.

use vstd::prelude::*;
use crate::error::ProviderError;
use crate::message::Message;
use crate::provider::CompletionRequest;
use crate::registry::ModelRegistry;
use crate::text::first_named;
use crate::strategy::{
    rough_tokens, routing_of, selection_view, ModelSelection, RoutingError, RoutingRequest, RoutingStrategy,
};

verus! {

/// The names of a list of named providers.
pub open spec fn names_of<V>(providers: Seq<(String, V)>) -> Seq<Seq<char>> {
    providers.map_values(|e: (String, V)| e.0@)
}

/// `names` with `name` registered: kept in place when present, else added.
pub open spec fn with_name(names: Seq<Seq<char>>, name: Seq<char>) -> Seq<Seq<char>> {
    match first_named(names, name) {
        Some(i) => names,
        None => names.push(name),
    }
}

/// The handles of a list of named providers.
pub open spec fn handles_of<V>(providers: Seq<(String, V)>) -> Seq<V> {
    providers.map_values(|e: (String, V)| e.1)
}

/// `handles` with `handle` registered under `name`, given the names the
/// handles are registered under: replacing the handle of that name when
/// present, else added.
pub open spec fn with_handle<V>(names: Seq<Seq<char>>, handles: Seq<V>, name: Seq<char>, handle: V) -> Seq<V> {
    match first_named(names, name) {
        Some(i) => handles.update(i, handle),
        None => handles.push(handle),
    }
}

/// A router that implements a provider by delegating to named providers.
pub struct Router<V, S, P, C> {
    /// Providers keyed by name (e.g. "openai", "anthropic").
    providers: Vec<(String, V)>,
    /// Model registry.
    registry: ModelRegistry<P>,
    /// The routing strategy.
    strategy: S,
    /// Cost tracker.
    cost_tracker: C,
}

impl<V, S, P, C> Router<V, S, P, C> {
    /// The names of the registered providers.
    pub closed spec fn provider_names(&self) -> Seq<Seq<char>> {
        names_of(self.providers@)
    }

    /// The handles of the registered providers, in the order of their names.
    pub closed spec fn provider_handles(&self) -> Seq<V> {
        handles_of(self.providers@)
    }

    /// The routing strategy.
    pub closed spec fn spec_strategy(&self) -> S {
        self.strategy
    }

    /// The model registry.
    pub closed spec fn registry_view(&self) -> ModelRegistry<P> {
        self.registry
    }

    /// The router's cost tracker.
    pub closed spec fn tracker(&self) -> C {
        self.cost_tracker
    }

    /// A builder for a router.
    pub fn builder() -> (r: RouterBuilder<V, S, P, C>)
        ensures
            r.names() == Seq::<Seq<char>>::empty(),
            r.has_strategy() == false,
    {
        RouterBuilder::new()
    }

    /// The router's name.
    pub fn name(&self) -> (r: &'static str)
        ensures
            r@ == "router"@,
    {
        "router"
    }

    /// The cost tracker.
    pub fn cost_tracker(&self) -> (r: &C)
        ensures
            *r == self.tracker(),
    {
        &self.cost_tracker
    }

    /// The model registry.
    pub fn registry(&self) -> (r: &ModelRegistry<P>)
        ensures
            *r == self.registry_view(),
    {
        &self.registry
    }

    /// The number of registered providers.
    pub fn provider_count(&self) -> (r: usize)
        ensures
            r == self.provider_names().len(),
    {
        self.providers.len()
    }

    /// The provider at `i`.
    pub fn provider_at(&self, i: usize) -> (r: &V)
        requires
            i < self.provider_names().len(),
        ensures
            *r == self.provider_handles()[i as int],
    {
        &self.providers[i]
            .1
    }

    /// Whether `r` is what a strategy's selection `selected` resolves to: a
    /// strategy error, or a selection naming no registered provider, is an
    /// unsupported model; otherwise the first provider of the selected name
    /// with the selection.
    pub open spec fn resolves(
        &self,
        selected: Result<ModelSelection, RoutingError>,
        r: Result<(usize, ModelSelection), ProviderError>,
    ) -> bool {
        match selected {
            Err(e) => r matches Err(ProviderError::ModelNotSupported(m)) && m@ == e.display(),
            Ok(s) => match first_named(self.provider_names(), s.provider@) {
                Some(i) => r matches Ok((j, t)) && j == i && t == s,
                None => r matches Err(ProviderError::ModelNotSupported(m)) && m@ == "Provider '"@
                    + s.provider@ + "' not registered"@,
            },
        }
    }

    /// Turns a strategy's selection into the provider to call: a strategy
    /// error, or a selection naming no registered provider, is reported as
    /// an unsupported model.
    #[verifier::loop_isolation(false)]
    pub fn resolve(&self, selected: Result<ModelSelection, RoutingError>) -> (r: Result<
        (usize, ModelSelection),
        ProviderError,
    >)
        ensures
            self.resolves(selected, r),
            r matches Ok((i, s)) ==> i < self.provider_names().len()
                && self.provider_names()[i as int] == s.provider@,
    {
        match selected {
            Err(e) => Err(ProviderError::ModelNotSupported(e.to_string())),
            Ok(s) => {
                let ghost names = self.provider_names();
                let mut i: usize = 0;
                while i < self.providers.len()
                    invariant
                        0 <= i <= self.providers@.len(),
                        names == self.provider_names(),
                        forall|j: int| 0 <= j < i ==> names[j] != s.provider@,
                    decreases self.providers@.len() - i,
                {
                    assert(names[i as int] == self.providers@[i as int].0@);
                    if self.providers[i].0 == s.provider {
                        assert(first_named(names, s.provider@) == Some(i as int));
                        return Ok((i, s));
                    }
                    i = i + 1;
                }
                let m = String::from_str("Provider '").concat(s.provider.as_str()).concat(
                    "' not registered",
                );
                Err(ProviderError::ModelNotSupported(m))
            },
        }
    }

    /// Routes a request: asks the strategy for a model, then finds the
    /// provider that serves it.
    pub fn route(&self, request: &CompletionRequest) -> (r: Result<
        (usize, ModelSelection),
        ProviderError,
    >) where S: RoutingStrategy<P>
        requires
            rough_tokens(request.messages@.map_values(|m: Message| m@)) <= usize::MAX,
        ensures
            // The result is what the strategy's selection, for this request
            // and the router's registry, resolves to.
            exists|selected: Result<ModelSelection, RoutingError>| selection_view(selected)
                == self.spec_strategy().selection(routing_of(request), self.registry_view())
                && #[trigger] self.resolves(selected, r),
            r matches Ok((i, s)) ==> i < self.provider_names().len() && self.provider_names()[i as int]
                == s.provider@,
    {
        let routing = RoutingRequest::from_completion(request);
        let selected = self.strategy.select(&routing, &self.registry);
        let ghost sel = selected;
        let r = self.resolve(selected);
        assert(self.resolves(sel, r));
        r
    }
}

/// Builder for a [`Router`].
pub struct RouterBuilder<V, S, P, C> {
    providers: Vec<(String, V)>,
    registry: ModelRegistry<P>,
    strategy: Option<S>,
    cost_tracker: Option<C>,
}

impl<V, S, P, C> RouterBuilder<V, S, P, C> {
    /// The names of the providers given so far.
    pub closed spec fn names(&self) -> Seq<Seq<char>> {
        names_of(self.providers@)
    }

    /// Whether a strategy was given.
    pub closed spec fn has_strategy(&self) -> bool {
        self.strategy is Some
    }

    /// The handles of the providers given so far, in the order of `names`.
    pub closed spec fn handles(&self) -> Seq<V> {
        handles_of(self.providers@)
    }

    /// The strategy given, if any.
    pub closed spec fn given_strategy(&self) -> Option<S> {
        self.strategy
    }

    /// The registry given (an empty one until one is).
    pub closed spec fn given_registry(&self) -> ModelRegistry<P> {
        self.registry
    }

    /// The cost tracker given, if any.
    pub closed spec fn given_tracker(&self) -> Option<C> {
        self.cost_tracker
    }

    /// An empty builder.
    pub fn new() -> (r: RouterBuilder<V, S, P, C>)
        ensures
            r.names() == Seq::<Seq<char>>::empty(),
            r.handles() == Seq::<V>::empty(),
            r.has_strategy() == false,
            r.given_strategy() is None,
            r.given_registry()@.len() == 0,
            r.given_tracker() is None,
    {
        let r = RouterBuilder {
            providers: Vec::new(),
            registry: ModelRegistry::new(),
            strategy: None,
            cost_tracker: None,
        };
        assert(r.names() =~= Seq::<Seq<char>>::empty());
        assert(r.handles() =~= Seq::<V>::empty());
        r
    }

    /// Registers a provider by name, replacing one of the same name.
    pub fn provider(self, name: &str, provider: V) -> (r: RouterBuilder<V, S, P, C>)
        ensures
            r.names() == with_name(self.names(), name@),
            r.handles() == with_handle(self.names(), self.handles(), name@, provider),
            r.has_strategy() == self.has_strategy(),
            r.given_strategy() == self.given_strategy(),
            r.given_registry() == self.given_registry(),
            r.given_tracker() == self.given_tracker(),
    {
        let mut b = self;
        let key = String::from_str(name);
        let ghost names = b.names();
        let mut i: usize = 0;
        while i < b.providers.len()
            invariant
                0 <= i <= b.providers@.len(),
                names == b.names(),
                names == self.names(),
                b == self,
                b.has_strategy() == self.has_strategy(),
                key@ == name@,
                forall|j: int| 0 <= j < i ==> names[j] != name@,
            decreases b.providers@.len() - i,
        {
            assert(names[i as int] == b.providers@[i as int].0@);
            if b.providers[i].0 == key {
                assert(first_named(names, name@) == Some(i as int));
                let ghost hs = b.handles();
                b.providers.set(i, (key, provider));
                assert(b.names() =~= names);
                assert(b.handles() =~= hs.update(i as int, provider));
                return b;
            }
            i = i + 1;
        }
        let ghost hs = b.handles();
        b.providers.push((key, provider));
        assert(b.names() =~= names.push(name@));
        assert(b.handles() =~= hs.push(provider));
        b
    }

    /// Sets the model registry.
    pub fn registry(self, registry: ModelRegistry<P>) -> (r: RouterBuilder<V, S, P, C>)
        ensures
            r.names() == self.names(),
            r.handles() == self.handles(),
            r.has_strategy() == self.has_strategy(),
            r.given_strategy() == self.given_strategy(),
            r.given_registry() == registry,
            r.given_tracker() == self.given_tracker(),
    {
        let mut b = self;
        b.registry = registry;
        b
    }

    /// Sets the routing strategy.
    pub fn strategy(self, strategy: S) -> (r: RouterBuilder<V, S, P, C>)
        ensures
            r.names() == self.names(),
            r.handles() == self.handles(),
            r.has_strategy(),
            r.given_strategy() == Some(strategy),
            r.given_registry() == self.given_registry(),
            r.given_tracker() == self.given_tracker(),
    {
        let mut b = self;
        b.strategy = Some(strategy);
        b
    }

    /// Sets a custom cost tracker.
    pub fn cost_tracker(self, tracker: C) -> (r: RouterBuilder<V, S, P, C>)
        ensures
            r.names() == self.names(),
            r.handles() == self.handles(),
            r.has_strategy() == self.has_strategy(),
            r.given_strategy() == self.given_strategy(),
            r.given_registry() == self.given_registry(),
            r.given_tracker() == Some(tracker),
    {
        let mut b = self;
        b.cost_tracker = Some(tracker);
        b
    }

    /// Builds the router; `fallback_tracker` serves when no cost tracker was
    /// set. A strategy and at least one provider are required.
    pub fn build(self, fallback_tracker: C) -> (r: Result<Router<V, S, P, C>, String>)
        ensures
            !self.has_strategy() ==> (r matches Err(m) && m@ == "Routing strategy is required"@),
            self.has_strategy() && self.names().len() == 0 ==> (r matches Err(m) && m@
                == "At least one provider is required"@),
            self.has_strategy() && self.names().len() > 0 ==> (r matches Ok(router) && {
                &&& router.provider_names() == self.names()
                &&& router.provider_handles() == self.handles()
                &&& Some(router.spec_strategy()) == self.given_strategy()
                &&& router.registry_view() == self.given_registry()
                &&& router.tracker() == match self.given_tracker() {
                    Some(c) => c,
                    None => fallback_tracker,
                }
            }),
    {
        match self.strategy {
            None => Err(String::from_str("Routing strategy is required")),
            Some(strategy) => {
                if self.providers.len() == 0 {
                    return Err(String::from_str("At least one provider is required"));
                }
                let cost_tracker = match self.cost_tracker {
                    Some(c) => c,
                    None => fallback_tracker,
                };
                Ok(
                    Router {
                        providers: self.providers,
                        registry: self.registry,
                        strategy,
                        cost_tracker,
                    },
                )
            },
        }
    }
}

impl<V, S, P, C> Default for RouterBuilder<V, S, P, C> {
    /// An empty builder.
    fn default() -> (r: RouterBuilder<V, S, P, C>)
        ensures
            r.names() == Seq::<Seq<char>>::empty(),
            r.handles() == Seq::<V>::empty(),
            r.given_strategy() is None,
            r.given_registry()@.len() == 0,
            r.given_tracker() is None,
    {
        RouterBuilder::new()
    }
}

} // verus!
