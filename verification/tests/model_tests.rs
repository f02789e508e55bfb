use ghostteam::model::ghostos::{backoff_ms, GhostOsBackend, GhostOsConfig};
use ghostteam::model::llamacpp::{generation_result, LlamaCppBackend};
use ghostteam::model::ollama::{decode_reply, generate_request, reply_text, OllamaSettings};
use ghostteam::model::{backend_for, Backend, BackendKind, ModelBackend};

#[test]
fn ghostos_backend_returns_stub_text() {
    let backend = GhostOsBackend::default();
    let reply = backend.generate("ping").expect("ghostos generation failed");
    assert!(reply.contains("ghostos stub"));
    assert!(reply.contains("ping"));
    assert_eq!(reply, "[ghostos stub] ping");
}

#[test]
fn backend_kind_parse_accepts_names_and_aliases() {
    assert_eq!(BackendKind::parse(" Ollama "), Ok(BackendKind::Ollama));
    assert_eq!(BackendKind::parse("llama.cpp"), Ok(BackendKind::LlamaCpp));
    assert_eq!(BackendKind::parse("LLAMA_CPP"), Ok(BackendKind::LlamaCpp));
    assert_eq!(BackendKind::parse("llamacpp"), Ok(BackendKind::LlamaCpp));
    assert_eq!(BackendKind::parse("GhostOS"), Ok(BackendKind::GhostOS));
    assert_eq!(BackendKind::parse(" Mystery "), Err("unknown backend kind: mystery".to_string()));
}

#[test]
fn ghostos_config_defaults_and_keys() {
    let mut config = GhostOsConfig::default();
    assert_eq!(config.ghostos_endpoint, "http://localhost:9000/infer");
    assert_eq!(config.ghostos_model, "ghost-1");
    assert!(config.set_key("ghostos_model", "ghost-2").is_ok());
    assert_eq!(config.ghostos_model, "ghost-2");
    assert_eq!(
        config.set_key("colour", "blue"),
        Err("unknown config key: colour (supported: ghostos_endpoint, ghostos_model)".to_string())
    );
}

#[test]
fn ghostos_retry_backoff_doubles() {
    assert_eq!(backoff_ms(1), 100);
    assert_eq!(backoff_ms(2), 200);
}

#[test]
fn ollama_reply_and_settings() {
    assert_eq!(reply_text(Some("hi".to_string())), "hi");
    assert_eq!(reply_text(None), "");
    let s = OllamaSettings::from_settings(None, Some("llama3".to_string()));
    assert_eq!(s.model, "llama3");
}

#[test]
fn llamacpp_settings_parse_args_json() {
    let b = LlamaCppBackend::from_settings(Some("llama".to_string()), Some("[\"-m\",\"model.gguf\"]".to_string()));
    assert_eq!(b.binary(), "llama");
    assert_eq!(b.args(), &vec!["-m".to_string(), "model.gguf".to_string()]);
    let bad = LlamaCppBackend::from_settings(None, Some("not json".to_string()));
    assert!(bad.args().is_empty());
}

#[test]
fn llamacpp_generation_result_trims_stdout() {
    assert_eq!(generation_result(true, "exit status: 0", " mock:hello \n", ""), Ok("mock:hello".to_string()));
    assert!(generation_result(false, "exit status: 1", "", "boom").is_err());
}

#[test]
fn backend_for_selects_by_kind() {
    let pick = |kind| backend_for(kind, OllamaSettings::from_settings(None, None), LlamaCppBackend::from_settings(None, None));
    assert!(matches!(pick(BackendKind::Ollama), Backend::Ollama(ref s) if s.model == "llama3"));
    assert!(matches!(pick(BackendKind::LlamaCpp), Backend::LlamaCpp(ref b) if b.binary() == "llama-cli"));
    assert!(matches!(pick(BackendKind::GhostOS), Backend::GhostOS(_)));
}

#[test]
fn backend_names_ignore_case_and_spaces() {
    for name in ["ollama", " OLLAMA ", "\tOllama\n"] {
        assert_eq!(BackendKind::parse(name), Ok(BackendKind::Ollama));
    }
    assert_eq!(BackendKind::parse(" GhostOS "), BackendKind::parse("ghostos"));
}

#[test]
fn ollama_backend_posts_expected_payload() {
    let settings = OllamaSettings::from_settings(None, Some("llama3".to_string()));
    assert_eq!(settings.endpoint, "http://localhost:11434/api/generate");
    let request = generate_request(&settings, "hello from ollama");
    assert_eq!(request.model, "llama3");
    assert_eq!(request.prompt, "hello from ollama");
    assert!(!request.stream);
    assert_eq!(decode_reply("{\"response\":\"ollama reply\"}"), Ok("ollama reply".to_string()));
}

#[test]
fn llamacpp_backend_spawns_subprocess_and_reads_stdout() {
    let backend = LlamaCppBackend::from_settings(
        Some("powershell".to_string()),
        Some("[\"-NoProfile\",\"-Command\",\"$input\"]".to_string()),
    );
    assert_eq!(backend.binary(), "powershell");
    assert_eq!(backend.args().len(), 3);
    let reply = generation_result(true, "exit status: 0", "mock:hello from llama.cpp\n", "")
        .expect("llama.cpp generation failed");
    assert_eq!(reply, "mock:hello from llama.cpp");
}
