//! AI provider settings: what the settings screen shows, how an update from it is
//! applied, and which provider a chat request goes to.
use vstd::prelude::*;
use crate::text::{chars_of, push_all, str_eq, string_from_chars};

verus! {

broadcast use vstd::string::group_string_axioms;

/// The prompts used for translating titles, abstracts and HTML.
pub struct TranslationPrompts {
    pub title_system: String,
    pub title_user: String,
    pub abstract_system: String,
    pub abstract_user: String,
    pub html_system: String,
    pub html_user: String,
}

/// Settings of PDF translation through the external BabelDOC command.
pub struct PdfTranslationSettings {
    pub enabled: bool,
    pub babeldoc_command: String,
    pub use_ai_config: bool,
    pub custom_api_key: String,
    pub custom_base_url: String,
    pub custom_model: String,
    pub qps: u32,
    pub extra_args: String,
}

/// Per-task model choices.
pub struct TaskModelDefaults {
    pub quick_translation: String,
    pub normal_translation: String,
    pub heavy_translation: String,
    pub glossary_extraction: String,
}

/// A configured AI provider.
pub struct AiProvider {
    pub id: String,
    pub name: String,
    pub base_url: String,
    pub api_key: String,
    pub models: Vec<String>,
}

/// The AI section of the application settings.
pub struct AiSettings {
    pub provider: String,
    pub base_url: String,
    pub api_key: String,
    pub model: String,
    pub auto_translate: bool,
    pub html_concurrency: usize,
    pub glossary_enabled: bool,
    pub glossary_threshold: u32,
    pub translation_prompts: TranslationPrompts,
    pub pdf_translation: PdfTranslationSettings,
    pub providers: Vec<AiProvider>,
    pub task_model_defaults: TaskModelDefaults,
}

/// The AI settings as shown to the user; secrets are reduced to whether they are set.
pub struct AiConfigResponse {
    pub provider: String,
    pub base_url: String,
    pub api_key_set: bool,
    pub model: String,
    pub auto_translate: bool,
    pub native_lang: String,
    pub translation_prompts: TranslationPromptsResponse,
    pub html_concurrency: usize,
    pub pdf_translation: PdfTranslationConfigResponse,
    pub glossary_enabled: bool,
    pub glossary_threshold: u32,
    pub providers: Vec<AiProviderResponse>,
    pub task_model_defaults: TaskModelDefaultsResponse,
}

pub struct TaskModelDefaultsResponse {
    pub quick_translation: String,
    pub normal_translation: String,
    pub heavy_translation: String,
    pub glossary_extraction: String,
}

pub struct AiProviderResponse {
    pub id: String,
    pub name: String,
    pub base_url: String,
    pub api_key_set: bool,
    pub models: Vec<String>,
}

pub struct PdfTranslationConfigResponse {
    pub enabled: bool,
    pub babeldoc_command: String,
    pub use_ai_config: bool,
    pub custom_api_key_set: bool,
    pub custom_base_url: String,
    pub custom_model: String,
    pub qps: u32,
    pub extra_args: String,
}

pub struct TranslationPromptsResponse {
    pub title_system: String,
    pub title_user: String,
    pub abstract_system: String,
    pub abstract_user: String,
    pub html_system: String,
    pub html_user: String,
}

/// An update of the AI settings; absent fields are left as they are.
pub struct UpdateAiConfigInput {
    pub provider: Option<String>,
    pub base_url: Option<String>,
    pub api_key: Option<String>,
    pub model: Option<String>,
    pub auto_translate: Option<bool>,
    pub native_lang: Option<String>,
    pub translation_prompts: Option<UpdateTranslationPromptsInput>,
    pub html_concurrency: Option<usize>,
    pub pdf_translation: Option<UpdatePdfTranslationInput>,
    pub glossary_enabled: Option<bool>,
    pub glossary_threshold: Option<u32>,
    pub providers: Option<Vec<UpdateAiProviderInput>>,
    pub task_model_defaults: Option<UpdateTaskModelDefaultsInput>,
}

pub struct UpdateTaskModelDefaultsInput {
    pub quick_translation: Option<String>,
    pub normal_translation: Option<String>,
    pub heavy_translation: Option<String>,
    pub glossary_extraction: Option<String>,
}

/// A provider as the settings screen sends it; its key is kept when none is given.
pub struct UpdateAiProviderInput {
    pub id: String,
    pub name: String,
    pub base_url: String,
    pub api_key: Option<String>,
    pub models: Vec<String>,
}

pub struct UpdatePdfTranslationInput {
    pub enabled: Option<bool>,
    pub babeldoc_command: Option<String>,
    pub use_ai_config: Option<bool>,
    pub custom_api_key: Option<String>,
    pub custom_base_url: Option<String>,
    pub custom_model: Option<String>,
    pub qps: Option<u32>,
    pub extra_args: Option<String>,
}

pub struct UpdateTranslationPromptsInput {
    pub title_system: Option<String>,
    pub title_user: Option<String>,
    pub abstract_system: Option<String>,
    pub abstract_user: Option<String>,
    pub html_system: Option<String>,
    pub html_user: Option<String>,
}

/// The text that an optional update leaves: the new value if given, else the old one.
pub open spec fn updated(new: Option<String>, old: Seq<char>) -> Seq<char> {
    match new {
        Some(v) => v@,
        None => old,
    }
}

/// The flag that an optional update leaves.
pub open spec fn updated_flag(new: Option<bool>, old: bool) -> bool {
    match new {
        Some(v) => v,
        None => old,
    }
}

/// The secret that an optional update leaves: only a non-empty new value replaces it.
pub open spec fn updated_secret(new: Option<String>, old: Seq<char>) -> Seq<char> {
    match new {
        Some(v) => if v@.len() > 0 {
            v@
        } else {
            old
        },
        None => old,
    }
}

/// `v.clamp(lo, hi)`.
pub open spec fn clamped(v: int, lo: int, hi: int) -> int {
    if v < lo {
        lo
    } else if v > hi {
        hi
    } else {
        v
    }
}

/// The key of the first provider in `ps` whose id is `id`, or the empty text.
pub open spec fn existing_key(ps: Seq<AiProvider>, id: Seq<char>) -> Seq<char>
    decreases ps.len(),
{
    if ps.len() == 0 {
        Seq::empty()
    } else if ps[0].id@ == id {
        ps[0].api_key@
    } else {
        existing_key(ps.drop_first(), id)
    }
}

/// The provider that an updated provider entry becomes: its key is the new one when
/// a non-empty one is given, else the key of the same provider before the update.
pub open spec fn provider_after(p: UpdateAiProviderInput, old: Seq<AiProvider>, q: AiProvider) -> bool {
    &&& q.id@ == p.id@
    &&& q.name@ == p.name@
    &&& q.base_url@ == p.base_url@
    &&& q.models@ == p.models@
    &&& q.api_key@ == match p.api_key {
        Some(k) => if k@.len() > 0 {
            k@
        } else {
            existing_key(old, p.id@)
        },
        None => existing_key(old, p.id@),
    }
}

fn take_or(new: Option<String>, field: &mut String)
    ensures
        final(field)@ == updated(new, old(field)@),
{
    if let Some(v) = new {
        *field = v;
    }
}

fn take_secret(new: Option<String>, field: &mut String)
    ensures
        final(field)@ == updated_secret(new, old(field)@),
{
    if let Some(v) = new {
        if !v.as_str().is_empty() {
            *field = v;
        }
    }
}

/// The key of the first provider with id `id`, or the empty text.
fn find_existing_key(ps: &Vec<AiProvider>, id: &String) -> (r: String)
    ensures
        r@ == existing_key(ps@, id@),
{
    let mut i: usize = 0;
    assert(ps@.skip(0) =~= ps@);
    while i < ps.len()
        invariant
            i <= ps.len(),
            existing_key(ps@, id@) == existing_key(ps@.skip(i as int), id@),
        decreases ps.len() - i,
    {
        assert(ps@.skip(i as int).drop_first() =~= ps@.skip(i + 1));
        if ps[i].id == *id {
            return ps[i].api_key.clone();
        }
        i = i + 1;
    }
    String::new()
}

fn update_prompts(ai: &mut AiSettings, update: Option<UpdateTranslationPromptsInput>)
    ensures
        match update {
            Some(tp) => {
                &&& final(ai).translation_prompts.title_system@ == updated(tp.title_system, old(ai).translation_prompts.title_system@)
                &&& final(ai).translation_prompts.title_user@ == updated(tp.title_user, old(ai).translation_prompts.title_user@)
                &&& final(ai).translation_prompts.abstract_system@ == updated(tp.abstract_system, old(ai).translation_prompts.abstract_system@)
                &&& final(ai).translation_prompts.abstract_user@ == updated(tp.abstract_user, old(ai).translation_prompts.abstract_user@)
                &&& final(ai).translation_prompts.html_system@ == updated(tp.html_system, old(ai).translation_prompts.html_system@)
                &&& final(ai).translation_prompts.html_user@ == updated(tp.html_user, old(ai).translation_prompts.html_user@)
            },
            None => final(ai).translation_prompts == old(ai).translation_prompts,
        },
        final(ai).provider == old(ai).provider,
        final(ai).base_url == old(ai).base_url,
        final(ai).api_key == old(ai).api_key,
        final(ai).model == old(ai).model,
        final(ai).auto_translate == old(ai).auto_translate,
        final(ai).html_concurrency == old(ai).html_concurrency,
        final(ai).glossary_enabled == old(ai).glossary_enabled,
        final(ai).glossary_threshold == old(ai).glossary_threshold,
        final(ai).pdf_translation == old(ai).pdf_translation,
        final(ai).task_model_defaults == old(ai).task_model_defaults,
        final(ai).providers@ == old(ai).providers@,
{
    if let Some(tp) = update {
        take_or(tp.title_system, &mut ai.translation_prompts.title_system);
        take_or(tp.title_user, &mut ai.translation_prompts.title_user);
        take_or(tp.abstract_system, &mut ai.translation_prompts.abstract_system);
        take_or(tp.abstract_user, &mut ai.translation_prompts.abstract_user);
        take_or(tp.html_system, &mut ai.translation_prompts.html_system);
        take_or(tp.html_user, &mut ai.translation_prompts.html_user);
    }
}

fn update_pdf_translation(ai: &mut AiSettings, update: Option<UpdatePdfTranslationInput>)
    ensures
        match update {
            Some(pdf) => {
                &&& final(ai).pdf_translation.enabled == updated_flag(pdf.enabled, old(ai).pdf_translation.enabled)
                &&& final(ai).pdf_translation.babeldoc_command@ == updated(pdf.babeldoc_command, old(ai).pdf_translation.babeldoc_command@)
                &&& final(ai).pdf_translation.use_ai_config == updated_flag(pdf.use_ai_config, old(ai).pdf_translation.use_ai_config)
                &&& final(ai).pdf_translation.custom_api_key@ == updated_secret(pdf.custom_api_key, old(ai).pdf_translation.custom_api_key@)
                &&& final(ai).pdf_translation.custom_base_url@ == updated(pdf.custom_base_url, old(ai).pdf_translation.custom_base_url@)
                &&& final(ai).pdf_translation.custom_model@ == updated(pdf.custom_model, old(ai).pdf_translation.custom_model@)
                &&& final(ai).pdf_translation.qps == match pdf.qps {
                    Some(q) => if q < 1 { 1 } else { q },
                    None => old(ai).pdf_translation.qps,
                }
                &&& final(ai).pdf_translation.extra_args@ == updated(pdf.extra_args, old(ai).pdf_translation.extra_args@)
            },
            None => final(ai).pdf_translation == old(ai).pdf_translation,
        },
        final(ai).provider == old(ai).provider,
        final(ai).base_url == old(ai).base_url,
        final(ai).api_key == old(ai).api_key,
        final(ai).model == old(ai).model,
        final(ai).auto_translate == old(ai).auto_translate,
        final(ai).html_concurrency == old(ai).html_concurrency,
        final(ai).glossary_enabled == old(ai).glossary_enabled,
        final(ai).glossary_threshold == old(ai).glossary_threshold,
        final(ai).translation_prompts == old(ai).translation_prompts,
        final(ai).task_model_defaults == old(ai).task_model_defaults,
        final(ai).providers@ == old(ai).providers@,
{
    if let Some(pdf) = update {
        if let Some(v) = pdf.enabled {
            ai.pdf_translation.enabled = v;
        }
        take_or(pdf.babeldoc_command, &mut ai.pdf_translation.babeldoc_command);
        if let Some(v) = pdf.use_ai_config {
            ai.pdf_translation.use_ai_config = v;
        }
        take_secret(pdf.custom_api_key, &mut ai.pdf_translation.custom_api_key);
        take_or(pdf.custom_base_url, &mut ai.pdf_translation.custom_base_url);
        take_or(pdf.custom_model, &mut ai.pdf_translation.custom_model);
        if let Some(q) = pdf.qps {
            ai.pdf_translation.qps = if q < 1 {
                1
            } else {
                q
            };
        }
        take_or(pdf.extra_args, &mut ai.pdf_translation.extra_args);
    }
}

fn update_task_models(ai: &mut AiSettings, update: Option<UpdateTaskModelDefaultsInput>)
    ensures
        match update {
            Some(t) => {
                &&& final(ai).task_model_defaults.quick_translation@ == updated(t.quick_translation, old(ai).task_model_defaults.quick_translation@)
                &&& final(ai).task_model_defaults.normal_translation@ == updated(t.normal_translation, old(ai).task_model_defaults.normal_translation@)
                &&& final(ai).task_model_defaults.heavy_translation@ == updated(t.heavy_translation, old(ai).task_model_defaults.heavy_translation@)
                &&& final(ai).task_model_defaults.glossary_extraction@ == updated(t.glossary_extraction, old(ai).task_model_defaults.glossary_extraction@)
            },
            None => final(ai).task_model_defaults == old(ai).task_model_defaults,
        },
        final(ai).provider == old(ai).provider,
        final(ai).base_url == old(ai).base_url,
        final(ai).api_key == old(ai).api_key,
        final(ai).model == old(ai).model,
        final(ai).auto_translate == old(ai).auto_translate,
        final(ai).html_concurrency == old(ai).html_concurrency,
        final(ai).glossary_enabled == old(ai).glossary_enabled,
        final(ai).glossary_threshold == old(ai).glossary_threshold,
        final(ai).translation_prompts == old(ai).translation_prompts,
        final(ai).pdf_translation == old(ai).pdf_translation,
        final(ai).providers@ == old(ai).providers@,
{
    if let Some(tmd) = update {
        take_or(tmd.quick_translation, &mut ai.task_model_defaults.quick_translation);
        take_or(tmd.normal_translation, &mut ai.task_model_defaults.normal_translation);
        take_or(tmd.heavy_translation, &mut ai.task_model_defaults.heavy_translation);
        take_or(tmd.glossary_extraction, &mut ai.task_model_defaults.glossary_extraction);
    }
}

fn update_providers(ai: &mut AiSettings, update: Option<Vec<UpdateAiProviderInput>>)
    ensures
        match update {
            Some(ps) => {
                &&& final(ai).providers@.len() == ps@.len()
                &&& forall|k: int| 0 <= k < ps@.len() ==> provider_after(#[trigger] ps@[k], old(ai).providers@, final(ai).providers@[k])
            },
            None => final(ai).providers@ == old(ai).providers@,
        },
        final(ai).provider == old(ai).provider,
        final(ai).base_url == old(ai).base_url,
        final(ai).api_key == old(ai).api_key,
        final(ai).model == old(ai).model,
        final(ai).auto_translate == old(ai).auto_translate,
        final(ai).html_concurrency == old(ai).html_concurrency,
        final(ai).glossary_enabled == old(ai).glossary_enabled,
        final(ai).glossary_threshold == old(ai).glossary_threshold,
        final(ai).translation_prompts == old(ai).translation_prompts,
        final(ai).pdf_translation == old(ai).pdf_translation,
        final(ai).task_model_defaults == old(ai).task_model_defaults,
{
    if let Some(new_providers) = update {
        let mut result: Vec<AiProvider> = Vec::new();
        let mut k: usize = 0;
        while k < new_providers.len()
            invariant
                k <= new_providers.len(),
                result@.len() == k,
                forall|j: int| 0 <= j < k ==> provider_after(#[trigger] new_providers@[j], old(ai).providers@, result@[j]),
                ai.providers@ == old(ai).providers@,
            decreases new_providers.len() - k,
        {
            let p = &new_providers[k];
            let existing = find_existing_key(&ai.providers, &p.id);
            let key = match &p.api_key {
                Some(key) => if !key.as_str().is_empty() {
                    key.clone()
                } else {
                    existing
                },
                None => existing,
            };
            result.push(AiProvider {
                id: p.id.clone(),
                name: p.name.clone(),
                base_url: p.base_url.clone(),
                api_key: key,
                models: p.models.clone(),
            });
            k = k + 1;
        }
        ai.providers = result;
    }
}

/// Applies an update from the settings screen to the AI settings (and to the user's
/// native language, which lives in the general settings).
///
/// Absent fields keep their values; an API key is only replaced by a non-empty one;
/// the HTML translation concurrency is clamped to `1..=32`, the glossary threshold and
/// the PDF translation rate to at least 1; a provider list replaces the old one, each
/// provider keeping its previous key when no new one is given.
pub fn apply_ai_config_update(ai: &mut AiSettings, native_lang: &mut String, input: UpdateAiConfigInput)
    ensures
        final(ai).provider@ == updated(input.provider, old(ai).provider@),
        final(ai).base_url@ == updated(input.base_url, old(ai).base_url@),
        final(ai).api_key@ == updated_secret(input.api_key, old(ai).api_key@),
        final(ai).model@ == updated(input.model, old(ai).model@),
        final(ai).auto_translate == updated_flag(input.auto_translate, old(ai).auto_translate),
        final(native_lang)@ == updated(input.native_lang, old(native_lang)@),
        final(ai).html_concurrency == match input.html_concurrency {
            Some(c) => clamped(c as int, 1, 32) as usize,
            None => old(ai).html_concurrency,
        },
        final(ai).glossary_enabled == updated_flag(input.glossary_enabled, old(ai).glossary_enabled),
        final(ai).glossary_threshold == match input.glossary_threshold {
            Some(t) => if t < 1 { 1 } else { t },
            None => old(ai).glossary_threshold,
        },
        match input.translation_prompts {
            Some(tp) => {
                &&& final(ai).translation_prompts.title_system@ == updated(tp.title_system, old(ai).translation_prompts.title_system@)
                &&& final(ai).translation_prompts.title_user@ == updated(tp.title_user, old(ai).translation_prompts.title_user@)
                &&& final(ai).translation_prompts.abstract_system@ == updated(tp.abstract_system, old(ai).translation_prompts.abstract_system@)
                &&& final(ai).translation_prompts.abstract_user@ == updated(tp.abstract_user, old(ai).translation_prompts.abstract_user@)
                &&& final(ai).translation_prompts.html_system@ == updated(tp.html_system, old(ai).translation_prompts.html_system@)
                &&& final(ai).translation_prompts.html_user@ == updated(tp.html_user, old(ai).translation_prompts.html_user@)
            },
            None => final(ai).translation_prompts == old(ai).translation_prompts,
        },
        match input.pdf_translation {
            Some(pdf) => {
                &&& final(ai).pdf_translation.enabled == updated_flag(pdf.enabled, old(ai).pdf_translation.enabled)
                &&& final(ai).pdf_translation.babeldoc_command@ == updated(pdf.babeldoc_command, old(ai).pdf_translation.babeldoc_command@)
                &&& final(ai).pdf_translation.use_ai_config == updated_flag(pdf.use_ai_config, old(ai).pdf_translation.use_ai_config)
                &&& final(ai).pdf_translation.custom_api_key@ == updated_secret(pdf.custom_api_key, old(ai).pdf_translation.custom_api_key@)
                &&& final(ai).pdf_translation.custom_base_url@ == updated(pdf.custom_base_url, old(ai).pdf_translation.custom_base_url@)
                &&& final(ai).pdf_translation.custom_model@ == updated(pdf.custom_model, old(ai).pdf_translation.custom_model@)
                &&& final(ai).pdf_translation.qps == match pdf.qps {
                    Some(q) => if q < 1 { 1 } else { q },
                    None => old(ai).pdf_translation.qps,
                }
                &&& final(ai).pdf_translation.extra_args@ == updated(pdf.extra_args, old(ai).pdf_translation.extra_args@)
            },
            None => final(ai).pdf_translation == old(ai).pdf_translation,
        },
        match input.task_model_defaults {
            Some(t) => {
                &&& final(ai).task_model_defaults.quick_translation@ == updated(t.quick_translation, old(ai).task_model_defaults.quick_translation@)
                &&& final(ai).task_model_defaults.normal_translation@ == updated(t.normal_translation, old(ai).task_model_defaults.normal_translation@)
                &&& final(ai).task_model_defaults.heavy_translation@ == updated(t.heavy_translation, old(ai).task_model_defaults.heavy_translation@)
                &&& final(ai).task_model_defaults.glossary_extraction@ == updated(t.glossary_extraction, old(ai).task_model_defaults.glossary_extraction@)
            },
            None => final(ai).task_model_defaults == old(ai).task_model_defaults,
        },
        match input.providers {
            Some(ps) => {
                &&& final(ai).providers@.len() == ps@.len()
                &&& forall|k: int| 0 <= k < ps@.len() ==> provider_after(#[trigger] ps@[k], old(ai).providers@, final(ai).providers@[k])
            },
            None => final(ai).providers@ == old(ai).providers@,
        },{
    take_or(input.provider, &mut ai.provider);
    take_or(input.base_url, &mut ai.base_url);
    take_secret(input.api_key, &mut ai.api_key);
    take_or(input.model, &mut ai.model);
    if let Some(v) = input.auto_translate {
        ai.auto_translate = v;
    }
    take_or(input.native_lang, native_lang);
    if let Some(c) = input.html_concurrency {
        ai.html_concurrency = if c < 1 {
            1
        } else if c > 32 {
            32
        } else {
            c
        };
    }
    if let Some(v) = input.glossary_enabled {
        ai.glossary_enabled = v;
    }
    if let Some(t) = input.glossary_threshold {
        ai.glossary_threshold = if t < 1 {
            1
        } else {
            t
        };
    }
    update_prompts(ai, input.translation_prompts);
    update_pdf_translation(ai, input.pdf_translation);
    update_task_models(ai, input.task_model_defaults);
    update_providers(ai, input.providers);
}

/// Whether a text is non-empty.
pub open spec fn nonempty(s: Seq<char>) -> bool {
    s.len() > 0
}

/// The provider entry shown for `p`.
pub open spec fn provider_shown(p: AiProvider, r: AiProviderResponse) -> bool {
    &&& r.id@ == p.id@
    &&& r.name@ == p.name@
    &&& r.base_url@ == p.base_url@
    &&& r.api_key_set == nonempty(p.api_key@)
    &&& r.models@ == p.models@
}

pub(crate) fn clone_strings(v: &Vec<String>) -> (r: Vec<String>)
    ensures
        r@ == v@,
{
    let mut out: Vec<String> = Vec::new();
    let mut i: usize = 0;
    while i < v.len()
        invariant
            i <= v.len(),
            out@ == v@.take(i as int),
        decreases v.len() - i,
    {
        out.push(v[i].clone());
        assert(v@.take(i + 1) =~= v@.take(i as int).push(v@[i as int]));
        i = i + 1;
    }
    assert(v@.take(v@.len() as int) =~= v@);
    out
}

/// The AI settings as the settings screen shows them: every value, with the API keys
/// replaced by whether they are set.
pub fn get_ai_config(ai: &AiSettings, native_lang: &String) -> (r: AiConfigResponse)
    ensures
        r.provider@ == ai.provider@,
        r.base_url@ == ai.base_url@,
        r.api_key_set == nonempty(ai.api_key@),
        r.model@ == ai.model@,
        r.auto_translate == ai.auto_translate,
        r.native_lang@ == native_lang@,
        r.translation_prompts.title_system@ == ai.translation_prompts.title_system@,
        r.translation_prompts.title_user@ == ai.translation_prompts.title_user@,
        r.translation_prompts.abstract_system@ == ai.translation_prompts.abstract_system@,
        r.translation_prompts.abstract_user@ == ai.translation_prompts.abstract_user@,
        r.translation_prompts.html_system@ == ai.translation_prompts.html_system@,
        r.translation_prompts.html_user@ == ai.translation_prompts.html_user@,
        r.html_concurrency == ai.html_concurrency,
        r.glossary_enabled == ai.glossary_enabled,
        r.glossary_threshold == ai.glossary_threshold,
        r.pdf_translation.enabled == ai.pdf_translation.enabled,
        r.pdf_translation.babeldoc_command@ == ai.pdf_translation.babeldoc_command@,
        r.pdf_translation.use_ai_config == ai.pdf_translation.use_ai_config,
        r.pdf_translation.custom_api_key_set == nonempty(ai.pdf_translation.custom_api_key@),
        r.pdf_translation.custom_base_url@ == ai.pdf_translation.custom_base_url@,
        r.pdf_translation.custom_model@ == ai.pdf_translation.custom_model@,
        r.pdf_translation.qps == ai.pdf_translation.qps,
        r.pdf_translation.extra_args@ == ai.pdf_translation.extra_args@,
        r.providers@.len() == ai.providers@.len(),
        forall|k: int| 0 <= k < ai.providers@.len() ==> provider_shown(#[trigger] ai.providers@[k], r.providers@[k]),
        r.task_model_defaults.quick_translation@ == ai.task_model_defaults.quick_translation@,
        r.task_model_defaults.normal_translation@ == ai.task_model_defaults.normal_translation@,
        r.task_model_defaults.heavy_translation@ == ai.task_model_defaults.heavy_translation@,
        r.task_model_defaults.glossary_extraction@ == ai.task_model_defaults.glossary_extraction@,
{
    let mut providers: Vec<AiProviderResponse> = Vec::new();
    let mut k: usize = 0;
    while k < ai.providers.len()
        invariant
            k <= ai.providers@.len(),
            providers@.len() == k,
            forall|j: int| 0 <= j < k ==> provider_shown(#[trigger] ai.providers@[j], providers@[j]),
        decreases ai.providers.len() - k,
    {
        let p = &ai.providers[k];
        providers.push(AiProviderResponse {
            id: p.id.clone(),
            name: p.name.clone(),
            base_url: p.base_url.clone(),
            api_key_set: !p.api_key.as_str().is_empty(),
            models: clone_strings(&p.models),
        });
        k = k + 1;
    }
    let tp = &ai.translation_prompts;
    let pdf = &ai.pdf_translation;
    let tmd = &ai.task_model_defaults;
    AiConfigResponse {
        provider: ai.provider.clone(),
        base_url: ai.base_url.clone(),
        api_key_set: !ai.api_key.as_str().is_empty(),
        model: ai.model.clone(),
        auto_translate: ai.auto_translate,
        native_lang: native_lang.clone(),
        translation_prompts: TranslationPromptsResponse {
            title_system: tp.title_system.clone(),
            title_user: tp.title_user.clone(),
            abstract_system: tp.abstract_system.clone(),
            abstract_user: tp.abstract_user.clone(),
            html_system: tp.html_system.clone(),
            html_user: tp.html_user.clone(),
        },
        html_concurrency: ai.html_concurrency,
        pdf_translation: PdfTranslationConfigResponse {
            enabled: pdf.enabled,
            babeldoc_command: pdf.babeldoc_command.clone(),
            use_ai_config: pdf.use_ai_config,
            custom_api_key_set: !pdf.custom_api_key.as_str().is_empty(),
            custom_base_url: pdf.custom_base_url.clone(),
            custom_model: pdf.custom_model.clone(),
            qps: pdf.qps,
            extra_args: pdf.extra_args.clone(),
        },
        glossary_enabled: ai.glossary_enabled,
        glossary_threshold: ai.glossary_threshold,
        providers,
        task_model_defaults: TaskModelDefaultsResponse {
            quick_translation: tmd.quick_translation.clone(),
            normal_translation: tmd.normal_translation.clone(),
            heavy_translation: tmd.heavy_translation.clone(),
            glossary_extraction: tmd.glossary_extraction.clone(),
        },
    }
}

/// A provider that the chat can use.
pub struct ProviderInfo {
    pub id: String,
    pub name: String,
    pub models: Vec<String>,
}

/// The providers offered to the chat: the default provider when it has a base URL
/// (named after the configured provider, else "Default", offering the default model
/// when one is set), then every configured provider.
pub open spec fn providers_offered(ai: AiSettings, r: Seq<ProviderInfo>) -> bool {
    let d: int = if nonempty(ai.base_url@) { 1 } else { 0 };
    &&& r.len() == d + ai.providers@.len()
    &&& d == 1 ==> {
        &&& r[0].id@ == "default"@
        &&& r[0].name@ == (if nonempty(ai.provider@) { ai.provider@ } else { "Default"@ })
        &&& r[0].models@.len() == (if nonempty(ai.model@) { 1int } else { 0int })
        &&& nonempty(ai.model@) ==> r[0].models@[0]@ == ai.model@
    }
    &&& forall|k: int| 0 <= k < ai.providers@.len() ==> {
        &&& #[trigger] r[d + k].id@ == ai.providers@[k].id@
        &&& r[d + k].name@ == ai.providers@[k].name@
        &&& r[d + k].models@ == ai.providers@[k].models@
    }
}

/// Lists the providers the chat can use (see [`providers_offered`]).
pub fn build_providers(ai: &AiSettings) -> (r: Vec<ProviderInfo>)
    ensures
        providers_offered(*ai, r@),
{
    let mut out: Vec<ProviderInfo> = Vec::new();
    let has_default = !ai.base_url.as_str().is_empty();
    if has_default {
        let mut models: Vec<String> = Vec::new();
        if !ai.model.as_str().is_empty() {
            models.push(ai.model.clone());
        }
        let name = if ai.provider.as_str().is_empty() {
            "Default".to_owned()
        } else {
            ai.provider.clone()
        };
        out.push(ProviderInfo { id: "default".to_owned(), name, models });
    }
    let ghost d: int = if has_default { 1 } else { 0 };
    let mut k: usize = 0;
    while k < ai.providers.len()
        invariant
            k <= ai.providers@.len(),
            d == (if nonempty(ai.base_url@) { 1int } else { 0int }),
            out@.len() == d + k,
            d == 1 ==> {
                &&& out@[0].id@ == "default"@
                &&& out@[0].name@ == (if nonempty(ai.provider@) { ai.provider@ } else { "Default"@ })
                &&& out@[0].models@.len() == (if nonempty(ai.model@) { 1int } else { 0int })
                &&& nonempty(ai.model@) ==> out@[0].models@[0]@ == ai.model@
            },
            forall|j: int| 0 <= j < k ==> {
                &&& #[trigger] out@[d + j].id@ == ai.providers@[j].id@
                &&& out@[d + j].name@ == ai.providers@[j].name@
                &&& out@[d + j].models@ == ai.providers@[j].models@
            },
        decreases ai.providers.len() - k,
    {
        let p = &ai.providers[k];
        out.push(ProviderInfo { id: p.id.clone(), name: p.name.clone(), models: clone_strings(&p.models) });
        k = k + 1;
    }
    out
}

/// The index of the first configured provider whose id is `id`.
pub open spec fn provider_index(ps: Seq<AiProvider>, id: Seq<char>, from: int) -> Option<int>
    decreases ps.len() - from,
{
    if from < 0 || from >= ps.len() {
        None
    } else if ps[from].id@ == id {
        Some(from)
    } else {
        provider_index(ps, id, from + 1)
    }
}

/// The error given when no AI endpoint is configured at all.
pub open spec fn not_configured_message() -> Seq<char> {
    "AI not configured. Please set API key and base URL in Settings → AI."@
}

/// The endpoint `(base_url, api_key, default_model)` that a request for provider
/// `provider_id` goes to: an explicit provider other than `default` supplies its URL, its
/// key (the default key when it has none) and its first model; otherwise the default
/// endpoint is used. It is an error when nothing is configured or the provider is unknown.
pub open spec fn resolved_provider(ai: AiSettings, provider_id: Option<Seq<char>>) -> Result<
    (Seq<char>, Seq<char>, Seq<char>),
    Seq<char>,
> {
    if (!nonempty(ai.api_key@) || !nonempty(ai.base_url@)) && ai.providers@.len() == 0 {
        Err(not_configured_message())
    } else {
        let default_endpoint = Ok((ai.base_url@, ai.api_key@, ai.model@));
        match provider_id {
            Some(pid) => if pid == "default"@ {
                default_endpoint
            } else {
                match provider_index(ai.providers@, pid, 0) {
                    None => Err("Unknown provider: "@ + pid),
                    Some(k) => {
                        let p = ai.providers@[k];
                        Ok(
                            (
                                p.base_url@,
                                if nonempty(p.api_key@) { p.api_key@ } else { ai.api_key@ },
                                if p.models@.len() > 0 { p.models@[0]@ } else { Seq::empty() },
                            ),
                        )
                    },
                }
            },
            None => default_endpoint,
        }
    }
}

/// The view of a resolved endpoint.
pub open spec fn endpoint_view(r: Result<(String, String, String), String>) -> Result<
    (Seq<char>, Seq<char>, Seq<char>),
    Seq<char>,
> {
    match r {
        Ok((a, b, c)) => Ok((a@, b@, c@)),
        Err(e) => Err(e@),
    }
}

/// Resolves the AI endpoint for a plugin request (see [`resolved_provider`]).
pub fn resolve_plugin_ai_provider(ai: &AiSettings, provider_id: Option<&str>) -> (r: Result<
    (String, String, String),
    String,
>)
    ensures
        endpoint_view(r) == resolved_provider(
            *ai,
            match provider_id {
                Some(p) => Some(p@),
                None => None,
            },
        ),
{
    if (ai.api_key.as_str().is_empty() || ai.base_url.as_str().is_empty())
        && ai.providers.len() == 0 {
        return Err("AI not configured. Please set API key and base URL in Settings → AI.".to_owned());
    }
    match provider_id {
        Some(pid) => {
            let is_default = str_eq(pid, "default");
            if !is_default {
                let mut k: usize = 0;
                while k < ai.providers.len()
                    invariant
                        k <= ai.providers@.len(),
                        provider_id == Some(pid),
                        pid@ != "default"@,
                        provider_index(ai.providers@, pid@, 0) == provider_index(ai.providers@, pid@, k as int),
                    decreases ai.providers.len() - k,
                {
                    if str_eq(ai.providers[k].id.as_str(), pid) {
                        let p = &ai.providers[k];
                        let key = if p.api_key.as_str().is_empty() {
                            ai.api_key.clone()
                        } else {
                            p.api_key.clone()
                        };
                        let model = if p.models.len() > 0 {
                            p.models[0].clone()
                        } else {
                            String::new()
                        };
                        assert(provider_index(ai.providers@, pid@, k as int) == Some(k as int));
                        return Ok((p.base_url.clone(), key, model));
                    }
                    k = k + 1;
                }
                let mut msg = chars_of("Unknown provider: ");
                push_all(&mut msg, &chars_of(pid));
                return Err(string_from_chars(&msg));
            }
        },
        None => {},
    }
    Ok((ai.base_url.clone(), ai.api_key.clone(), ai.model.clone()))
}

/// The endpoint and model a chat message is sent with: the resolved provider, with the
/// requested model or else the provider's default; a missing base URL or model is an
/// error.
pub open spec fn chat_target(
    ai: AiSettings,
    provider_id: Option<Seq<char>>,
    model: Option<Seq<char>>,
) -> Result<(Seq<char>, Seq<char>, Seq<char>), Seq<char>> {
    match resolved_provider(ai, provider_id) {
        Err(e) => Err(e),
        Ok((base, key, default_model)) => if !nonempty(base) {
            Err("Selected provider has no base URL configured."@)
        } else {
            let m = match model {
                Some(m) => m,
                None => default_model,
            };
            if !nonempty(m) {
                Err("No model configured. Please set a model in Settings → AI."@)
            } else {
                Ok((base, key, m))
            }
        },
    }
}

/// Resolves where a chat message goes (see [`chat_target`]).
pub fn resolve_chat_target(ai: &AiSettings, provider_id: Option<&str>, model: Option<String>) -> (r:
    Result<(String, String, String), String>)
    ensures
        endpoint_view(r) == chat_target(
            *ai,
            match provider_id {
                Some(p) => Some(p@),
                None => None,
            },
            match model {
                Some(m) => Some(m@),
                None => None,
            },
        ),
{
    let (base_url, api_key, default_model) = match resolve_plugin_ai_provider(ai, provider_id) {
        Ok(t) => t,
        Err(e) => {
            return Err(e);
        },
    };
    if base_url.as_str().is_empty() {
        return Err("Selected provider has no base URL configured.".to_owned());
    }
    let m = match model {
        Some(m) => m,
        None => default_model,
    };
    if m.as_str().is_empty() {
        return Err("No model configured. Please set a model in Settings → AI.".to_owned());
    }
    Ok((base_url, api_key, m))
}


/// The check before a connection test: a default model must be set, and the endpoint
/// resolved for it must have a base URL and an API key.
pub fn connection_test_check(model: &str, base_url: &str, api_key: &str) -> (r: Result<(), String>)
    ensures
        model@.len() == 0 ==> (r matches Err(e) && e@ == "AI not configured. Set a default model first."@),
        model@.len() > 0 && (base_url@.len() == 0 || api_key@.len() == 0) ==> (r matches Err(e) && e@
            == "AI not configured. Set base URL, API key, and model first."@),
        model@.len() > 0 && base_url@.len() > 0 && api_key@.len() > 0 ==> r is Ok,
{
    if model.is_empty() {
        return Err("AI not configured. Set a default model first.".to_owned());
    }
    if base_url.is_empty() || api_key.is_empty() {
        return Err("AI not configured. Set base URL, API key, and model first.".to_owned());
    }
    Ok(())
}

} // verus!
