use zoro_desktop::ai_settings::{connection_test_check, 
    apply_ai_config_update, build_providers, get_ai_config, resolve_chat_target, resolve_plugin_ai_provider,
    AiProvider, AiSettings, PdfTranslationSettings, TaskModelDefaults, TranslationPrompts, UpdateAiConfigInput,
    UpdateAiProviderInput, UpdatePdfTranslationInput, UpdateTaskModelDefaultsInput, UpdateTranslationPromptsInput,
};

fn s(x: &str) -> String {
    x.to_string()
}

fn settings() -> AiSettings {
    AiSettings {
        provider: s("openai"),
        base_url: s("https://api.example.com/v1"),
        api_key: s("SECRET-REDACTED"),
        model: s("gpt-x"),
        auto_translate: false,
        html_concurrency: 4,
        glossary_enabled: true,
        glossary_threshold: 3,
        translation_prompts: TranslationPrompts {
            title_system: s("ts"),
            title_user: s("tu"),
            abstract_system: s("as"),
            abstract_user: s("au"),
            html_system: s("hs"),
            html_user: s("hu"),
        },
        pdf_translation: PdfTranslationSettings {
            enabled: false,
            babeldoc_command: s("babeldoc"),
            use_ai_config: true,
            custom_api_key: s(""),
            custom_base_url: s(""),
            custom_model: s(""),
            qps: 4,
            extra_args: s(""),
        },
        providers: vec![AiProvider {
            id: s("p1"),
            name: s("Provider One"),
            base_url: s("https://one.example/v1"),
            api_key: s("k1"),
            models: vec![s("m1"), s("m2")],
        }],
        task_model_defaults: TaskModelDefaults {
            quick_translation: s("q"),
            normal_translation: s("n"),
            heavy_translation: s("h"),
            glossary_extraction: s("g"),
        },
    }
}

fn empty_update() -> UpdateAiConfigInput {
    UpdateAiConfigInput {
        provider: None,
        base_url: None,
        api_key: None,
        model: None,
        auto_translate: None,
        native_lang: None,
        translation_prompts: None,
        html_concurrency: None,
        pdf_translation: None,
        glossary_enabled: None,
        glossary_threshold: None,
        providers: None,
        task_model_defaults: None,
    }
}

#[test]
fn empty_update_changes_nothing() {
    let mut ai = settings();
    let mut lang = s("zh");
    apply_ai_config_update(&mut ai, &mut lang, empty_update());
    assert_eq!(lang, "zh");
    assert_eq!(ai.model, "gpt-x");
    assert_eq!(ai.api_key, "SECRET-REDACTED");
    assert_eq!(ai.html_concurrency, 4);
    assert_eq!(ai.providers.len(), 1);
}

#[test]
fn empty_api_key_does_not_replace_the_old_one() {
    let mut ai = settings();
    let mut lang = s("en");
    let mut u = empty_update();
    u.api_key = Some(s(""));
    apply_ai_config_update(&mut ai, &mut lang, u);
    assert_eq!(ai.api_key, "SECRET-REDACTED");
    let mut u = empty_update();
    u.api_key = Some(s("new-key"));
    apply_ai_config_update(&mut ai, &mut lang, u);
    assert_eq!(ai.api_key, "new-key");
}

#[test]
fn numeric_settings_are_clamped() {
    let mut ai = settings();
    let mut lang = s("en");
    let mut u = empty_update();
    u.html_concurrency = Some(100);
    u.glossary_threshold = Some(0);
    u.pdf_translation = Some(UpdatePdfTranslationInput {
        enabled: Some(true),
        babeldoc_command: None,
        use_ai_config: None,
        custom_api_key: Some(s("")),
        custom_base_url: None,
        custom_model: Some(s("cm")),
        qps: Some(0),
        extra_args: None,
    });
    apply_ai_config_update(&mut ai, &mut lang, u);
    assert_eq!(ai.html_concurrency, 32);
    assert_eq!(ai.glossary_threshold, 1);
    assert_eq!(ai.pdf_translation.qps, 1);
    assert!(ai.pdf_translation.enabled);
    assert_eq!(ai.pdf_translation.custom_model, "cm");
    assert_eq!(ai.pdf_translation.custom_api_key, "");
    assert_eq!(ai.pdf_translation.babeldoc_command, "babeldoc");
    let mut u = empty_update();
    u.html_concurrency = Some(0);
    apply_ai_config_update(&mut ai, &mut lang, u);
    assert_eq!(ai.html_concurrency, 1);
}

#[test]
fn prompts_task_models_and_language_update_field_by_field() {
    let mut ai = settings();
    let mut lang = s("en");
    let mut u = empty_update();
    u.native_lang = Some(s("de"));
    u.translation_prompts = Some(UpdateTranslationPromptsInput {
        title_system: Some(s("TS")),
        title_user: None,
        abstract_system: None,
        abstract_user: Some(s("AU")),
        html_system: None,
        html_user: None,
    });
    u.task_model_defaults = Some(UpdateTaskModelDefaultsInput {
        quick_translation: None,
        normal_translation: Some(s("N")),
        heavy_translation: None,
        glossary_extraction: None,
    });
    apply_ai_config_update(&mut ai, &mut lang, u);
    assert_eq!(lang, "de");
    assert_eq!(ai.translation_prompts.title_system, "TS");
    assert_eq!(ai.translation_prompts.title_user, "tu");
    assert_eq!(ai.translation_prompts.abstract_user, "AU");
    assert_eq!(ai.task_model_defaults.normal_translation, "N");
    assert_eq!(ai.task_model_defaults.quick_translation, "q");
}

#[test]
fn provider_list_keeps_existing_keys() {
    let mut ai = settings();
    let mut lang = s("en");
    let mut u = empty_update();
    u.providers = Some(vec![
        UpdateAiProviderInput { id: s("p1"), name: s("One"), base_url: s("u1"), api_key: None, models: vec![s("m9")] },
        UpdateAiProviderInput { id: s("p2"), name: s("Two"), base_url: s("u2"), api_key: Some(s("k2")), models: vec![] },
        UpdateAiProviderInput { id: s("p3"), name: s("Three"), base_url: s("u3"), api_key: Some(s("")), models: vec![] },
    ]);
    apply_ai_config_update(&mut ai, &mut lang, u);
    assert_eq!(ai.providers.len(), 3);
    assert_eq!(ai.providers[0].api_key, "k1");
    assert_eq!(ai.providers[0].name, "One");
    assert_eq!(ai.providers[0].models, vec![s("m9")]);
    assert_eq!(ai.providers[1].api_key, "k2");
    assert_eq!(ai.providers[2].api_key, "");
}

#[test]
fn shown_config_hides_keys() {
    let mut ai = settings();
    ai.providers[0].api_key = s("");
    let r = get_ai_config(&ai, &s("fr"));
    assert!(r.api_key_set);
    assert_eq!(r.native_lang, "fr");
    assert_eq!(r.model, "gpt-x");
    assert!(!r.pdf_translation.custom_api_key_set);
    assert_eq!(r.providers.len(), 1);
    assert!(!r.providers[0].api_key_set);
    assert_eq!(r.providers[0].models, vec![s("m1"), s("m2")]);
    assert_eq!(r.task_model_defaults.heavy_translation, "h");
}

#[test]
fn providers_list_starts_with_default() {
    let ai = settings();
    let ps = build_providers(&ai);
    assert_eq!(ps.len(), 2);
    assert_eq!(ps[0].id, "default");
    assert_eq!(ps[0].name, "openai");
    assert_eq!(ps[0].models, vec![s("gpt-x")]);
    assert_eq!(ps[1].id, "p1");
}

#[test]
fn default_provider_name_and_models_fall_back() {
    let mut ai = settings();
    ai.provider = s("");
    ai.model = s("");
    let ps = build_providers(&ai);
    assert_eq!(ps[0].name, "Default");
    assert!(ps[0].models.is_empty());
    ai.base_url = s("");
    let ps = build_providers(&ai);
    assert_eq!(ps.len(), 1);
    assert_eq!(ps[0].id, "p1");
}

#[test]
fn plugin_provider_resolution() {
    let ai = settings();
    assert_eq!(
        resolve_plugin_ai_provider(&ai, None),
        Ok((s("https://api.example.com/v1"), s("SECRET-REDACTED"), s("gpt-x")))
    );
    assert_eq!(
        resolve_plugin_ai_provider(&ai, Some("default")),
        Ok((s("https://api.example.com/v1"), s("SECRET-REDACTED"), s("gpt-x")))
    );
    assert_eq!(
        resolve_plugin_ai_provider(&ai, Some("p1")),
        Ok((s("https://one.example/v1"), s("k1"), s("m1")))
    );
    assert_eq!(resolve_plugin_ai_provider(&ai, Some("nope")), Err(s("Unknown provider: nope")));
}

#[test]
fn provider_without_key_uses_default_key() {
    let mut ai = settings();
    ai.providers[0].api_key = s("");
    ai.providers[0].models = vec![];
    assert_eq!(
        resolve_plugin_ai_provider(&ai, Some("p1")),
        Ok((s("https://one.example/v1"), s("SECRET-REDACTED"), s("")))
    );
}

#[test]
fn nothing_configured_is_an_error() {
    let mut ai = settings();
    ai.providers = vec![];
    ai.api_key = s("");
    let msg = s("AI not configured. Please set API key and base URL in Settings → AI.");
    assert_eq!(resolve_plugin_ai_provider(&ai, None), Err(msg.clone()));
    assert_eq!(resolve_chat_target(&ai, None, Some(s("m"))), Err(msg));
}

#[test]
fn chat_target_errors_and_model_override() {
    let mut ai = settings();
    assert_eq!(
        resolve_chat_target(&ai, Some("p1"), Some(s("m2"))),
        Ok((s("https://one.example/v1"), s("k1"), s("m2")))
    );
    ai.model = s("");
    assert_eq!(
        resolve_chat_target(&ai, None, None),
        Err(s("No model configured. Please set a model in Settings → AI."))
    );
    ai.providers[0].base_url = s("");
    assert_eq!(
        resolve_chat_target(&ai, Some("p1"), None),
        Err(s("Selected provider has no base URL configured."))
    );
}

#[test]
fn connection_test_needs_model_and_endpoint() {
    assert_eq!(
        connection_test_check("", "https://x", "k"),
        Err("AI not configured. Set a default model first.".to_string())
    );
    assert_eq!(
        connection_test_check("gpt", "", "k"),
        Err("AI not configured. Set base URL, API key, and model first.".to_string())
    );
    assert_eq!(
        connection_test_check("gpt", "https://x", ""),
        Err("AI not configured. Set base URL, API key, and model first.".to_string())
    );
    assert_eq!(connection_test_check("gpt", "https://x", "k"), Ok(()));
}
