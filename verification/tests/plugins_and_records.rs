use zoro_desktop::ai_settings::{AiProvider, AiSettings, PdfTranslationSettings, TaskModelDefaults, TranslationPrompts};
use zoro_desktop::plugins::{endpoint_for_model, plugin_models, plugin_prompts, PluginChatMessage};
use zoro_desktop::records::{TerminalRegistry, missing_html_fetches, pick_proxy_agent, proxy_config_overrides, model_total, proxy_listen_addr, terminal_for_paper, terminal_shell, 
    agent_probe, append_history, lab_provider_info, update_html_fetch, update_proxy, HtmlFetchConfigResponse,
    ProxyConfigResponse, MAX_HISTORY_BYTES,
};

fn s(x: &str) -> String {
    x.to_string()
}

fn msg(role: &str, content: &str) -> PluginChatMessage {
    PluginChatMessage { role: s(role), content: s(content) }
}

fn ai() -> AiSettings {
    AiSettings {
        provider: s("openai"),
        base_url: s("https://x/v1"),
        api_key: s("k"),
        model: s("m"),
        auto_translate: false,
        html_concurrency: 1,
        glossary_enabled: false,
        glossary_threshold: 1,
        translation_prompts: TranslationPrompts {
            title_system: s(""),
            title_user: s(""),
            abstract_system: s(""),
            abstract_user: s(""),
            html_system: s(""),
            html_user: s(""),
        },
        pdf_translation: PdfTranslationSettings {
            enabled: false,
            babeldoc_command: s(""),
            use_ai_config: true,
            custom_api_key: s(""),
            custom_base_url: s(""),
            custom_model: s(""),
            qps: 1,
            extra_args: s(""),
        },
        providers: vec![AiProvider { id: s("p"), name: s("P"), base_url: s("u"), api_key: s(""), models: vec![s("a"), s("b")] }],
        task_model_defaults: TaskModelDefaults {
            quick_translation: s(""),
            normal_translation: s(""),
            heavy_translation: s(""),
            glossary_extraction: s(""),
        },
    }
}

#[test]
fn plugin_model_list_matches_the_chat_providers() {
    let ms = plugin_models(&ai());
    assert_eq!(ms.len(), 2);
    assert_eq!(ms[0].id, "default");
    assert_eq!(ms[0].name, "openai");
    assert_eq!(ms[0].models, vec![s("m")]);
    assert_eq!(ms[1].id, "p");
    assert_eq!(ms[1].models, vec![s("a"), s("b")]);
}

#[test]
fn plugin_prompts_split_system_and_conversation() {
    let msgs = vec![msg("system", "Be brief."), msg("user", "Hi"), msg("system", "Use English."), msg("assistant", "Hello")];
    let (sys, usr) = plugin_prompts(&msgs);
    assert_eq!(sys, "Be brief.\n\nUse English.");
    assert_eq!(usr, "[user]: Hi\n\n[assistant]: Hello");
    let (sys, usr) = plugin_prompts(&vec![]);
    assert_eq!(sys, "");
    assert_eq!(usr, "");
}

#[test]
fn model_specific_endpoints() {
    assert_eq!(endpoint_for_model(s("https://x/v1"), s("http://127.0.0.1:9000/v1"), "https://x/v1"), "http://127.0.0.1:9000/v1");
    assert_eq!(endpoint_for_model(s("https://p/v1"), s("https://x/v1"), "https://x/v1"), "https://p/v1");
    assert_eq!(endpoint_for_model(s("https://p/v1"), s(""), "https://x/v1"), "https://p/v1");
}

#[test]
fn settings_updates_keep_absent_values() {
    let mut h = HtmlFetchConfigResponse { auto_fetch_arxiv_html: true, html_fetch_concurrency: 2, html_fetch_delay_secs: 5 };
    update_html_fetch(&mut h, None, Some(4), None);
    assert!(h.auto_fetch_arxiv_html);
    assert_eq!(h.html_fetch_concurrency, 4);
    assert_eq!(h.html_fetch_delay_secs, 5);
    let mut p = ProxyConfigResponse { enabled: false, url: s(""), no_proxy: s("localhost") };
    update_proxy(&mut p, Some(true), Some(s("http://proxy:8080")), None);
    assert!(p.enabled);
    assert_eq!(p.url, "http://proxy:8080");
    assert_eq!(p.no_proxy, "localhost");
}

#[test]
fn lab_providers_count_their_models() {
    let info = lab_provider_info(s("g"), s("gamma"), s("Gamma"), s("https://sign"), s("gm_"), false, Some(""), &vec![s("g"), s("o"), s("g")]);
    assert_eq!(info.model_count, 2);
    assert!(!info.has_key);
    assert_eq!(info.tier, "secondary");
    let other = lab_provider_info(s("o"), s("o"), s("O"), s(""), s(""), true, Some("key"), &vec![]);
    assert!(other.has_key);
    assert_eq!(other.tier, "primary");
    assert_eq!(other.model_count, 0);
}

#[test]
fn agent_probe_prefers_detection_command() {
    assert_eq!(agent_probe(Some("agent-cli"), "npx"), "agent-cli");
    assert_eq!(agent_probe(None, "npx"), "npx");
}

#[test]
fn terminal_history_keeps_the_newest_bytes() {
    let mut h: Vec<u8> = Vec::new();
    append_history(&mut h, b"hello ");
    append_history(&mut h, b"world");
    assert_eq!(h, b"hello world".to_vec());
    let big = vec![7u8; MAX_HISTORY_BYTES];
    append_history(&mut h, &big);
    assert_eq!(h.len(), MAX_HISTORY_BYTES);
    assert!(h.iter().all(|b| *b == 7));
    append_history(&mut h, b"xy");
    assert_eq!(h.len(), MAX_HISTORY_BYTES);
    assert_eq!(&h[MAX_HISTORY_BYTES - 2..], b"xy");
}

#[test]
fn terminal_shell_choice() {
    assert_eq!(terminal_shell(false, None, Some("/bin/bash".to_string())), "/bin/bash");
    assert_eq!(terminal_shell(false, Some("cmd.exe".to_string()), None), "/bin/zsh");
    assert_eq!(terminal_shell(true, Some("cmd.exe".to_string()), Some("/bin/bash".to_string())), "cmd.exe");
    assert_eq!(terminal_shell(true, None, Some("/bin/bash".to_string())), "powershell.exe");
}

#[test]
fn terminal_reused_for_paper() {
    let sessions = vec![("t1".to_string(), "p1".to_string()), ("t2".to_string(), "p2".to_string())];
    assert_eq!(terminal_for_paper(&sessions, "p2"), Some("t2".to_string()));
    assert_eq!(terminal_for_paper(&sessions, "p3"), None);
    assert_eq!(terminal_for_paper(&Vec::new(), "p1"), None);
    let twice = vec![
        ("t1".to_string(), "p1".to_string()),
        ("t2".to_string(), "p2".to_string()),
        ("t3".to_string(), "p2".to_string()),
    ];
    assert_eq!(terminal_for_paper(&twice, "p2"), Some("t2".to_string()));
}

#[test]
fn lab_proxy_status_parts() {
    assert_eq!(proxy_listen_addr(true), "0.0.0.0");
    assert_eq!(proxy_listen_addr(false), "127.0.0.1");
    assert_eq!(model_total(&vec![3, 0, 4]), 7);
    assert_eq!(model_total(&Vec::new()), 0);
}

#[test]
fn agent_proxy_settings() {
    let s = |x: &str| x.to_string();
    assert_eq!(
        proxy_config_overrides(&s("mode"), &s("plan"), &s("model"), &s("fast")),
        vec![(s("mode"), s("plan")), (s("model"), s("fast"))]
    );
    assert_eq!(proxy_config_overrides(&s("mode"), &s(""), &s("model"), &s("fast")), vec![(s("model"), s("fast"))]);
    assert_eq!(proxy_config_overrides(&s(""), &s("plan"), &s("model"), &s("")), Vec::<(String, String)>::new());
    let agents = vec![s("alpha"), s("beta"), s("beta")];
    assert_eq!(pick_proxy_agent("", &agents), Ok(0));
    assert_eq!(pick_proxy_agent("beta", &agents), Ok(1));
    assert_eq!(pick_proxy_agent("gamma", &agents), Err(s("Agent 'gamma' not found in ACP config")));
    assert_eq!(
        pick_proxy_agent("", &Vec::new()),
        Err(s("No ACP agents available. Please install an ACP agent first."))
    );
}

#[test]
fn batch_html_fetch_selection() {
    let papers = vec![
        (Some("2401.00001".to_string()), false),
        (Some("".to_string()), false),
        (None, false),
        (Some("2401.00002".to_string()), true),
        (Some("2401.00003".to_string()), false),
    ];
    assert_eq!(missing_html_fetches(&papers), vec![0, 4]);
    assert!(missing_html_fetches(&Vec::new()).is_empty());
}

#[test]
fn one_terminal_per_paper() {
    let mut reg = TerminalRegistry::new();
    let a = reg.open("p1", "t-a".to_string());
    assert_eq!(a, "t-a");
    let again = reg.open("p1", "t-b".to_string());
    assert_eq!(again, "t-a");
    let other = reg.open("p2", "t-c".to_string());
    assert_eq!(other, "t-c");
    assert_eq!(reg.sessions(), vec![("t-a".to_string(), "p1".to_string()), ("t-c".to_string(), "p2".to_string())]);
    reg.close("t-a");
    assert_eq!(reg.sessions(), vec![("t-c".to_string(), "p2".to_string())]);
    assert_eq!(reg.open("p1", "t-d".to_string()), "t-d");
}
