use lortex::message::Message;
use lortex::provider::{aggregate_capabilities, CompletionRequest, ProviderCapabilities};
use lortex::json::Json;
use lortex::registry::{Modality, ModelProfile, ModelRegistry};
use lortex::router::{Router, RouterBuilder};
use lortex::strategy::{FixedRouter, RoutingError, RoutingRequest, RoutingStrategy};

#[derive(Debug, Clone, PartialEq)]
struct Details {
    speed: f64,
    input_per_million: f64,
}

fn profile(provider: &str, model: &str, context_window: usize, modalities: Vec<Modality>, speed: f64) -> ModelProfile<Details> {
    ModelProfile {
        provider: provider.into(),
        model: model.into(),
        context_window,
        modalities,
        supports_streaming: true,
        supports_tools: true,
        details: Details { speed, input_per_million: 1.0 },
    }
}

fn gpt4o() -> ModelProfile<Details> {
    profile("openai", "gpt-4o", 128_000, vec![Modality::Text, Modality::Image], 80.0)
}

fn sonnet_model() -> ModelProfile<Details> {
    profile("anthropic", "sonnet-4", 200_000, vec![Modality::Text, Modality::Image], 60.0)
}

fn cheap_model() -> ModelProfile<Details> {
    profile("openai", "gpt-4o-mini", 128_000, vec![Modality::Text], 150.0)
}

fn test_registry() -> ModelRegistry<Details> {
    let mut reg = ModelRegistry::new();
    reg.register(profile("openai", "gpt-4o", 128_000, vec![Modality::Text], 80.0));
    reg.register(profile("anthropic", "sonnet-4", 200_000, vec![Modality::Text], 60.0));
    reg
}

fn test_request() -> CompletionRequest {
    CompletionRequest {
        model: "any".into(),
        messages: vec![Message::user("hello")],
        tools: vec![],
        temperature: "0.7".into(),
        max_tokens: None,
        stop: vec![],
        extra: Json::Null,
    }
}

#[test]
fn model_profile_key() {
    assert_eq!(gpt4o().key(), "openai/gpt-4o");
}

#[test]
fn registry_new_is_empty() {
    let reg: ModelRegistry<Details> = ModelRegistry::new();
    assert!(reg.is_empty());
    assert_eq!(reg.len(), 0);
}

#[test]
fn register_and_get() {
    let mut reg = ModelRegistry::new();
    reg.register(gpt4o());
    assert_eq!(reg.len(), 1);
    let p = reg.get("openai/gpt-4o").unwrap();
    assert_eq!(p.model, "gpt-4o");
    assert_eq!(p.provider, "openai");
}

#[test]
fn get_by_name() {
    let mut reg = ModelRegistry::new();
    reg.register(sonnet_model());
    let p = reg.get_by_name("anthropic", "sonnet-4").unwrap();
    assert_eq!(p.model, "sonnet-4");
}

#[test]
fn get_nonexistent_returns_none() {
    let reg: ModelRegistry<Details> = ModelRegistry::new();
    assert!(reg.get("openai/gpt-5").is_none());
}

#[test]
fn register_overwrites_same_key() {
    let mut reg = ModelRegistry::new();
    reg.register(gpt4o());
    let mut updated = gpt4o();
    updated.details.speed = 100.0;
    reg.register(updated);
    assert_eq!(reg.len(), 1);
    assert_eq!(reg.get("openai/gpt-4o").unwrap().details.speed, 100.0);
}

#[test]
fn register_keeps_order_of_first_registration() {
    let mut reg = ModelRegistry::new();
    reg.register(gpt4o());
    reg.register(sonnet_model());
    reg.register(gpt4o());
    let all = reg.all();
    assert_eq!(all[0].model, "gpt-4o");
    assert_eq!(all[1].model, "sonnet-4");
}

#[test]
fn all_returns_all_models() {
    let mut reg = ModelRegistry::new();
    reg.register(gpt4o());
    reg.register(sonnet_model());
    reg.register(cheap_model());
    assert_eq!(reg.all().len(), 3);
}

#[test]
fn remove_model() {
    let mut reg = ModelRegistry::new();
    reg.register(gpt4o());
    let removed = reg.remove("openai/gpt-4o");
    assert!(removed.is_some());
    assert!(reg.is_empty());
}

#[test]
fn remove_nonexistent_returns_none() {
    let mut reg: ModelRegistry<Details> = ModelRegistry::new();
    assert!(reg.remove("ghost").is_none());
}

#[test]
fn with_modality_filters() {
    let mut reg = ModelRegistry::new();
    reg.register(gpt4o());
    reg.register(cheap_model());
    let image_models = reg.with_modality(&Modality::Image);
    assert_eq!(image_models.len(), 1);
    assert_eq!(image_models[0].model, "gpt-4o");
    assert_eq!(reg.with_modality(&Modality::Text).len(), 2);
}

#[test]
fn with_tools_filters() {
    let mut reg = ModelRegistry::new();
    reg.register(gpt4o());
    let mut no_tools = cheap_model();
    no_tools.supports_tools = false;
    no_tools.model = "no-tools".into();
    reg.register(no_tools);
    assert_eq!(reg.with_tools().len(), 1);
}

#[test]
fn with_min_context_filters() {
    let mut reg = ModelRegistry::new();
    reg.register(gpt4o());
    reg.register(sonnet_model());
    let large = reg.with_min_context(150_000);
    assert_eq!(large.len(), 1);
    assert_eq!(large[0].model, "sonnet-4");
    assert_eq!(reg.with_min_context(100_000).len(), 2);
}

#[test]
fn routing_request_from_completion() {
    let req = test_request();
    let routing = RoutingRequest::from_completion(&req);
    assert_eq!(routing.tool_count, 0);
    assert!(routing.estimated_input_tokens > 0);
}

#[test]
fn fixed_router_selects_specified_model() {
    let reg = test_registry();
    let router = FixedRouter::new("openai", "gpt-4o");
    let req = test_request();
    let routing = RoutingRequest::from_completion(&req);
    let selection = router.select(&routing, &reg).unwrap();
    assert_eq!(selection.provider, "openai");
    assert_eq!(selection.model, "gpt-4o");
    assert_eq!(selection.key, "openai/gpt-4o");
}

#[test]
fn fixed_router_errors_on_missing_model() {
    let reg = test_registry();
    let router = FixedRouter::new("openai", "gpt-5");
    let req = test_request();
    let routing = RoutingRequest::from_completion(&req);
    let result = router.select(&routing, &reg);
    assert!(result.is_err());
    match result {
        Err(e @ RoutingError::ModelNotFound(_)) => assert!(e.to_string().contains("openai/gpt-5")),
        _ => panic!("expected ModelNotFound"),
    }
}

#[test]
fn fixed_router_ignores_request_content() {
    let reg = test_registry();
    let router = FixedRouter::new("anthropic", "sonnet-4");
    let mut req = test_request();
    req.messages = vec![
        Message::user("complex task requiring deep reasoning"),
        Message::user("with multiple messages"),
    ];
    let routing = RoutingRequest::from_completion(&req);
    let selection = router.select(&routing, &reg).unwrap();
    assert_eq!(selection.provider, "anthropic");
    assert_eq!(selection.model, "sonnet-4");
}

fn builder() -> RouterBuilder<&'static str, FixedRouter, Details, u32> {
    RouterBuilder::new()
}

#[test]
fn builder_requires_strategy() {
    let result = builder().provider("openai", "p").build(0);
    assert!(result.is_err());
    assert!(result.err().unwrap().contains("strategy"));
}

#[test]
fn builder_requires_provider() {
    let result = builder().strategy(FixedRouter::new("openai", "gpt-4o")).build(0);
    assert!(result.is_err());
    assert!(result.err().unwrap().contains("provider"));
}

#[test]
fn builder_success() {
    let router = builder()
        .provider("openai", "p")
        .registry(test_registry())
        .strategy(FixedRouter::new("openai", "gpt-4o"))
        .build(0);
    assert!(router.is_ok());
}

#[test]
fn router_name() {
    let router = builder()
        .provider("openai", "p")
        .registry(test_registry())
        .strategy(FixedRouter::new("openai", "gpt-4o"))
        .build(0)
        .unwrap();
    assert_eq!(router.name(), "router");
}

#[test]
fn routes_to_correct_provider() {
    let router: Router<&str, FixedRouter, Details, u32> = builder()
        .provider("openai", "openai-handle")
        .provider("anthropic", "anthropic-handle")
        .registry(test_registry())
        .strategy(FixedRouter::new("openai", "gpt-4o"))
        .build(0)
        .unwrap();
    let (index, selection) = router.route(&test_request()).unwrap();
    assert_eq!(*router.provider_at(index), "openai-handle");
    assert_eq!(selection.key, "openai/gpt-4o");
}

#[test]
fn errors_on_missing_provider() {
    let mut reg = ModelRegistry::new();
    reg.register(profile("anthropic", "haiku-3", 200_000, vec![Modality::Text], 60.0));
    let router = builder()
        .provider("openai", "p")
        .registry(reg)
        .strategy(FixedRouter::new("anthropic", "haiku-3"))
        .build(0)
        .unwrap();
    let result = router.route(&test_request());
    assert!(result.is_err());
    assert_eq!(result.err().unwrap().to_string(), "Model not supported: Provider 'anthropic' not registered");
}

#[test]
fn cost_tracker_accessible() {
    let router = builder()
        .provider("openai", "p")
        .registry(test_registry())
        .strategy(FixedRouter::new("openai", "gpt-4o"))
        .cost_tracker(7)
        .build(0)
        .unwrap();
    assert_eq!(*router.cost_tracker(), 7);
}

#[test]
fn capabilities_aggregated() {
    let caps = vec![ProviderCapabilities { tool_calling: true, ..ProviderCapabilities::default() }];
    assert!(aggregate_capabilities(&caps).tool_calling);
    let both = vec![
        ProviderCapabilities { streaming: true, ..ProviderCapabilities::default() },
        ProviderCapabilities { vision: true, ..ProviderCapabilities::default() },
    ];
    let agg = aggregate_capabilities(&both);
    assert!(agg.streaming && agg.vision && !agg.embeddings);
}

#[test]
fn builder_default_keeps_handles_in_place() {
    let b: RouterBuilder<&'static str, FixedRouter, Details, u32> = Default::default();
    let router = b
        .provider("openai", "p1")
        .provider("anthropic", "p2")
        .provider("openai", "p3")
        .strategy(FixedRouter::new("openai", "gpt-4o"))
        .registry(test_registry())
        .build(7)
        .unwrap();
    assert_eq!(router.provider_count(), 2);
    assert_eq!(*router.provider_at(0), "p3");
    assert_eq!(*router.provider_at(1), "p2");
    assert_eq!(*router.cost_tracker(), 7);
    assert_eq!(router.registry().len(), 2);
}
