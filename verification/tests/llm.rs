use axon::config::{AxonConfig, ModelEntry};
use axon::llm::local::{
    begin, can_reuse, download_source, fetch_error, keep_prefix, known_models, plan_prefill,
    prefix_tokens, resolve_cw, resolve_model, system_key, wants_logits, window_tokens, GenAction,
    Generation, LocalBackend, PrefixCache,
};
use axon::llm::{
    chat_url, list_models, read_chat_event, role_name, tags_url, BackendError, ChatStream,
    DaemonBackend, InferOptions, OllamaBackend, StreamEvent,
};
use axon::session::{Message, Role};

#[test]
fn replies_arrive_in_chunks() {
    let mut s = ChatStream::new();
    assert!(s.feed("{\"message\":{\"content\":\"he").is_empty());
    let evs = s.feed("llo\"},\"done\":false}\n\nnot json\n{\"done\":tr");
    assert_eq!(evs.len(), 1);
    assert_eq!(evs[0].delta, "hello");
    assert!(!evs[0].done);
    let evs = s.feed("ue}\n{\"message\":{\"content\":\"late\"}}\n");
    assert_eq!(evs.len(), 1);
    assert_eq!(evs[0].delta, "");
    assert!(evs[0].done);
    assert!(s.is_done());
}

#[test]
fn lines_that_are_other_json_are_empty_events() {
    let mut s = ChatStream::new();
    let evs = s.feed("7\n{\"message\":\"x\"}\n");
    assert_eq!(evs.len(), 2);
    assert!(evs.iter().all(|e| e.delta.is_empty() && !e.done));
    assert!(read_chat_event(false, &None, &None).is_none());
}

#[test]
fn backend_basics() {
    assert_eq!(role_name(Role::System), "system");
    assert_eq!(role_name(Role::User), "user");
    assert_eq!(role_name(Role::Assistant), "assistant");
    assert_eq!(chat_url("http://h:1"), "http://h:1/api/chat");
    let o = OllamaBackend::new("u".to_string(), "m".to_string());
    assert_eq!(o.model_name(), "m");
    assert_eq!(o.context_window(), 4096);
    let d = DaemonBackend::new(7, "m", 99);
    assert_eq!((d.port(), d.model_name(), d.context_window()), (7, "m", 99));
    assert!(InferOptions::default().grammar.is_none());
    assert!(StreamEvent::end().done);
    assert_eq!(
        BackendError::ModelNotCached.message(),
        "model not cached and --no-download is set"
    );
    assert_eq!(BackendError::Unavailable("x".to_string()).message(), "backend unavailable: x");
    assert_eq!(BackendError::Inference("x".to_string()).message(), "inference error: x");
}

fn config() -> AxonConfig {
    let mut c = AxonConfig::default();
    c.models.push(ModelEntry {
        name: "mine".to_string(),
        hf_repo: "r".to_string(),
        hf_file: "f".to_string(),
        context_window: 7,
    });
    c
}

#[test]
fn models_are_resolved() {
    let c = config();
    assert_eq!(resolve_model(&c, "mine"), ("r".to_string(), "f".to_string(), 7));
    assert_eq!(
        resolve_model(&c, "qwen3.5:2b"),
        ("unsloth/Qwen3.5-2B-GGUF".to_string(), "Qwen3.5-2B-Q4_K_M.gguf".to_string(), 32768)
    );
    assert_eq!(resolve_model(&c, "qwen3.5-4b").0, "unsloth/Qwen3.5-4B-GGUF");
    assert_eq!(resolve_model(&c, "qwen3-4b").1, "Qwen3-4B-Q4_K_M.gguf");
    assert_eq!(resolve_model(&c, "/x.gguf"), ("/x.gguf".to_string(), String::new(), 2048));
    assert_eq!(resolve_model(&c, "other"), ("other".to_string(), String::new(), 4096));
    assert_eq!(resolve_cw(&c, "mine"), 7);
    assert_eq!(known_models(), vec!["qwen3.5:2b", "qwen3.5:4b-mlx", "qwen3:4b"]);
    assert_eq!(download_source(&c, "mine", false), Some(("r".to_string(), "f".to_string())));
    assert_eq!(download_source(&c, "mine", true), None);
    assert_eq!(download_source(&c, "/x.gguf", false), None);
    let b = LocalBackend::new(&c, "mine", true);
    assert_eq!((b.name.as_str(), b.cw, b.no_download), ("mine", 7, true));
}

#[test]
fn fetch_failures() {
    assert!(matches!(fetch_error("r", "f", true), BackendError::ModelNotCached));
    assert_eq!(
        fetch_error("r", "f", false).message(),
        "backend unavailable: failed to download f from r"
    );
}

fn talk() -> Vec<Message> {
    vec![Message::system("a"), Message::user("u"), Message::system("b")]
}

#[test]
fn system_messages_are_the_cache_key() {
    assert_eq!(system_key(&talk()), "a\nb");
    assert_eq!(system_key(&vec![Message::user("u")]), "");
    assert_eq!(prefix_tokens(&talk(), Some(5)), 5);
    assert_eq!(prefix_tokens(&talk(), None), 0);
    assert_eq!(prefix_tokens(&vec![Message::user("u")], Some(5)), 0);
}

#[test]
fn the_prefix_is_reused() {
    let cache = keep_prefix("k".to_string(), 3);
    assert!(can_reuse(&cache, "k", 3));
    assert!(!can_reuse(&cache, "k", 4));
    assert!(!can_reuse(&cache, "j", 3));
    assert!(!can_reuse(&None, "k", 3));
    assert!(keep_prefix("k".to_string(), 0).is_none());
}

#[test]
fn prompts_are_decoded_in_chunks() {
    let fresh = plan_prefill(&None, "k", 3, 1030);
    let bounds: Vec<(usize, usize)> = fresh.chunks.iter().map(|c| (c.start, c.end)).collect();
    assert_eq!(bounds, vec![(0, 512), (512, 1024), (1024, 1030)]);
    assert_eq!(fresh.sample_at, 5);
    assert_eq!(fresh.keep, None);
    let cache = Some(PrefixCache { system_key: "k".to_string(), prefix_len: 3 });
    let warm = plan_prefill(&cache, "k", 3, 515);
    let bounds: Vec<(usize, usize)> = warm.chunks.iter().map(|c| (c.start, c.end)).collect();
    assert_eq!(bounds, vec![(3, 515)]);
    assert_eq!(warm.sample_at, 511);
    assert_eq!(warm.keep, Some(3));
    let nothing = plan_prefill(&cache, "k", 3, 3);
    assert!(nothing.chunks.is_empty());
    assert_eq!(nothing.sample_at, 0);
    assert!(wants_logits(4, 5));
    assert!(!wants_logits(3, 5));
}

#[test]
fn replies_end_with_the_window() {
    assert_eq!(window_tokens(4096), 4096);
    let run = match begin(&None, &talk(), 0, 3, 5) {
        Some(i) => i,
        None => panic!("there is a prompt"),
    };
    assert_eq!(run.key, "a\nb");
    let mut g = run.generation;
    assert_eq!(g.next(false), GenAction::Sample { at: 2 });
    assert_eq!(g.sampled(false, true), GenAction::Decode { at: 3 });
    assert_eq!(g.next(false), GenAction::Sample { at: 0 });
    assert_eq!(g.next(true), GenAction::Stop);
    assert_eq!(g.sampled(false, true), GenAction::Decode { at: 4 });
    assert_eq!(g.next(false), GenAction::Stop);
    assert!(begin(&None, &talk(), 0, 0, 5).is_none());
    let mut h = Generation::new(1, 0, 10);
    assert_eq!(h.sampled(true, true), GenAction::Stop);
    assert_eq!(h.sampled(false, false), GenAction::Stop);
}

#[test]
fn models_are_listed() {
    let answer = r#"{"models":[{"name":"a:1","size":3},{"size":1},7,{"name":"b"}]}"#;
    assert_eq!(list_models(answer), vec!["a:1", "b"]);
    assert!(list_models("{}").is_empty());
    assert!(list_models("no json").is_empty());
    assert_eq!(tags_url("http://h:1"), "http://h:1/api/tags");
}
