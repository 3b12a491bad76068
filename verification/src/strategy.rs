//! Routing strategies: pluggable model selection.

use vstd::prelude::*;
use crate::message::{first_text, Message, MessageView};
use crate::provider::CompletionRequest;
use crate::registry::{lookup, make_key, model_key, ModelRegistry};
use crate::token_budget::byte_len;

verus! {

/// The result of a routing decision.
#[derive(Debug)]
pub struct ModelSelection {
    /// The selected provider name.
    pub provider: String,
    /// The selected model identifier.
    pub model: String,
    /// Registry key, `"provider/model"`.
    pub key: String,
}

/// Errors from routing.
#[derive(Debug)]
pub enum RoutingError {
    NoModelAvailable(String),
    ModelNotFound(String),
}

impl RoutingError {
    /// The human-readable message of the error.
    pub open spec fn display(&self) -> Seq<char> {
        match self {
            RoutingError::NoModelAvailable(s) => "No model available: "@ + s@,
            RoutingError::ModelNotFound(s) => "Model not found in registry: "@ + s@,
        }
    }

    /// Renders the error message.
    pub fn to_string(&self) -> (r: String)
        ensures
            r@ == self.display(),
    {
        match self {
            RoutingError::NoModelAvailable(s) => String::from_str("No model available: ").concat(
                s.as_str(),
            ),
            RoutingError::ModelNotFound(s) => String::from_str("Model not found in registry: ")
                .concat(s.as_str()),
        }
    }
}

/// The rough input-token estimate of messages: a quarter of the UTF-8 bytes
/// of each message's text, rounded down, summed.
pub open spec fn rough_tokens(msgs: Seq<MessageView>) -> nat
    decreases msgs.len(),
{
    if msgs.len() == 0 {
        0
    } else {
        rough_tokens(msgs.drop_last()) + match first_text(msgs.last().content) {
            Some(t) => byte_len(t) / 4,
            None => 0,
        }
    }
}

/// A routing request: the completion request with routing context.
#[derive(Debug)]
pub struct RoutingRequest<'a> {
    /// The original completion request.
    pub request: &'a CompletionRequest,
    /// Number of tools in the request.
    pub tool_count: usize,
    /// Estimated input tokens (rough heuristic).
    pub estimated_input_tokens: usize,
}

/// The rough token estimate of a prefix never exceeds the whole.
proof fn lemma_rough_tokens_prefix(msgs: Seq<MessageView>, k: int)
    requires
        0 <= k <= msgs.len(),
    ensures
        rough_tokens(msgs.subrange(0, k)) <= rough_tokens(msgs),
    decreases msgs.len() - k,
{
    if k < msgs.len() {
        lemma_rough_tokens_prefix(msgs, k + 1);
        assert(msgs.subrange(0, k + 1).drop_last() =~= msgs.subrange(0, k));
    } else {
        assert(msgs.subrange(0, k) =~= msgs);
    }
}

impl<'a> RoutingRequest<'a> {
    /// Wraps a completion request, counting its tools and estimating its
    /// input tokens.
    pub fn from_completion(request: &'a CompletionRequest) -> (r: RoutingRequest<'a>)
        requires
            rough_tokens(request.messages@.map_values(|m: Message| m@)) <= usize::MAX,
        ensures
            r == routing_of(request),
            r.request == request,
            r.tool_count == request.tools@.len(),
            r.estimated_input_tokens == rough_tokens(request.messages@.map_values(|m: Message| m@)),
    {
        let ghost msgs = request.messages@.map_values(|m: Message| m@);
        let mut total: usize = 0;
        let mut i: usize = 0;
        while i < request.messages.len()
            invariant
                0 <= i <= request.messages@.len(),
                msgs == request.messages@.map_values(|m: Message| m@),
                total == rough_tokens(msgs.subrange(0, i as int)),
                rough_tokens(msgs) <= usize::MAX,
            decreases request.messages@.len() - i,
        {
            proof {
                assert(msgs.subrange(0, i + 1).drop_last() =~= msgs.subrange(0, i as int));
                assert(msgs.subrange(0, i + 1).last() == request.messages@[i as int]@);
                lemma_rough_tokens_prefix(msgs, i + 1);
            }
            match request.messages[i].text() {
                Some(t) => {
                    total = total + t.as_bytes().len() / 4;
                },
                None => {},
            }
            i = i + 1;
        }
        assert(msgs.subrange(0, msgs.len() as int) =~= msgs);
        RoutingRequest { request, tool_count: request.tools.len(), estimated_input_tokens: total }
    }
}

/// What a routing decision says: the provider, model and registry key
/// selected, or the error with its text.
pub enum SelectionView {
    Selected(Seq<char>, Seq<char>, Seq<char>),
    NoModelAvailable(Seq<char>),
    ModelNotFound(Seq<char>),
}

/// The view of a routing decision.
pub open spec fn selection_view(r: Result<ModelSelection, RoutingError>) -> SelectionView {
    match r {
        Ok(s) => SelectionView::Selected(s.provider@, s.model@, s.key@),
        Err(RoutingError::NoModelAvailable(m)) => SelectionView::NoModelAvailable(m@),
        Err(RoutingError::ModelNotFound(m)) => SelectionView::ModelNotFound(m@),
    }
}

/// The routing request of a completion request, as `from_completion`
/// builds it.
pub open spec fn routing_of(request: &CompletionRequest) -> RoutingRequest<'_> {
    RoutingRequest {
        request,
        tool_count: request.tools@.len() as usize,
        estimated_input_tokens: rough_tokens(request.messages@.map_values(|m: Message| m@)) as usize,
    }
}

/// A model routing strategy.
pub trait RoutingStrategy<P> {
    /// The decision of the strategy for a request and a registry.
    spec fn selection(&self, request: RoutingRequest, registry: ModelRegistry<P>) -> SelectionView;

    /// Selects a model for the request among the registered ones.
    fn select(&self, request: &RoutingRequest, registry: &ModelRegistry<P>) -> (r: Result<
        ModelSelection,
        RoutingError,
    >)
        ensures
            selection_view(r) == self.selection(*request, *registry),
    ;
}

/// Fixed routing: always routes to one provider and model.
#[derive(Debug)]
pub struct FixedRouter {
    provider: String,
    model: String,
}

impl FixedRouter {
    /// The provider routed to.
    pub closed spec fn target_provider(&self) -> Seq<char> {
        self.provider@
    }

    /// The model routed to.
    pub closed spec fn target_model(&self) -> Seq<char> {
        self.model@
    }

    /// A router to `provider`'s `model`.
    pub fn new(provider: &str, model: &str) -> (r: FixedRouter)
        ensures
            r.target_provider() == provider@,
            r.target_model() == model@,
    {
        FixedRouter { provider: String::from_str(provider), model: String::from_str(model) }
    }
}

impl<P> RoutingStrategy<P> for FixedRouter {
    /// The fixed model when it is registered, else its key not found; the
    /// request's content plays no part.
    open spec fn selection(&self, request: RoutingRequest, registry: ModelRegistry<P>) -> SelectionView {
        let k = model_key(self.target_provider(), self.target_model());
        if lookup(registry@, k) is Some {
            SelectionView::Selected(self.target_provider(), self.target_model(), k)
        } else {
            SelectionView::ModelNotFound(k)
        }
    }

    /// Selects the fixed model when it is registered; the request's content
    /// plays no part.
    fn select(&self, request: &RoutingRequest, registry: &ModelRegistry<P>) -> (r: Result<
        ModelSelection,
        RoutingError,
    >)
        ensures
            lookup(registry@, model_key(self.target_provider(), self.target_model())) is Some
                ==> (r matches Ok(s) && s.provider@ == self.target_provider() && s.model@
                == self.target_model() && s.key@ == model_key(
                self.target_provider(),
                self.target_model(),
            )),
            lookup(registry@, model_key(self.target_provider(), self.target_model())) is None
                ==> (r matches Err(RoutingError::ModelNotFound(k)) && k@ == model_key(
                self.target_provider(),
                self.target_model(),
            )),
    {
        let key = make_key(self.provider.as_str(), self.model.as_str());
        match registry.get(key.as_str()) {
            Some(_) => Ok(
                ModelSelection { provider: self.provider.clone(), model: self.model.clone(), key },
            ),
            None => Err(RoutingError::ModelNotFound(key)),
        }
    }
}

} // verus!
