//! The AI access that plugins get: the models they can choose from, the endpoint a
//! request goes to, and how their chat messages become one system and one user prompt.
use vstd::prelude::*;
use crate::ai_settings::{build_providers, providers_offered, AiSettings, ProviderInfo};
use crate::text::{chars_of, push_str, str_eq, string_from_chars};

verus! {

broadcast use vstd::string::group_string_axioms;

/// A message of a plugin's chat request.
pub struct PluginChatMessage {
    pub role: String,
    pub content: String,
}

/// A provider a plugin can use, with its models.
pub struct PluginModelInfo {
    pub id: String,
    pub name: String,
    pub models: Vec<String>,
}

/// Whether the entry `p` describes the provider `q`.
pub open spec fn describes(p: PluginModelInfo, q: ProviderInfo) -> bool {
    p.id@ == q.id@ && p.name@ == q.name@ && p.models@ == q.models@
}

/// The providers a plugin can use: those the chat offers (see [`providers_offered`]).
pub fn plugin_models(ai: &AiSettings) -> (r: Vec<PluginModelInfo>)
    ensures
        exists|q: Seq<ProviderInfo>|
            #[trigger] providers_offered(*ai, q) && r@.len() == q.len() && forall|k: int|
                0 <= k < q.len() ==> describes(#[trigger] r@[k], q[k]),
{
    let ps = build_providers(ai);
    let mut out: Vec<PluginModelInfo> = Vec::new();
    let mut k: usize = 0;
    while k < ps.len()
        invariant
            k <= ps@.len(),
            out@.len() == k,
            forall|j: int| 0 <= j < k ==> describes(#[trigger] out@[j], ps@[j]),
        decreases ps.len() - k,
    {
        let p = &ps[k];
        out.push(
            PluginModelInfo {
                id: p.id.clone(),
                name: p.name.clone(),
                models: crate::ai_settings::clone_strings(&p.models),
            },
        );
        k = k + 1;
    }
    assert(providers_offered(*ai, ps@));
    out
}

/// `xs` joined with `sep` between neighbours.
pub open spec fn joined_seqs(xs: Seq<Seq<char>>, sep: Seq<char>) -> Seq<char>
    decreases xs.len(),
{
    if xs.len() == 0 {
        Seq::empty()
    } else if xs.len() == 1 {
        xs[0]
    } else {
        joined_seqs(xs.drop_last(), sep) + sep + xs.last()
    }
}

/// The texts of the system messages, in order.
pub open spec fn system_texts(ms: Seq<PluginChatMessage>) -> Seq<Seq<char>>
    decreases ms.len(),
{
    if ms.len() == 0 {
        Seq::empty()
    } else {
        let rest = system_texts(ms.drop_last());
        if ms.last().role@ == "system"@ {
            rest.push(ms.last().content@)
        } else {
            rest
        }
    }
}

/// The other messages, each as `[role]: content`, in order.
pub open spec fn labelled_texts(ms: Seq<PluginChatMessage>) -> Seq<Seq<char>>
    decreases ms.len(),
{
    if ms.len() == 0 {
        Seq::empty()
    } else {
        let rest = labelled_texts(ms.drop_last());
        let m = ms.last();
        if m.role@ == "system"@ {
            rest
        } else {
            rest.push("["@ + m.role@ + "]: "@ + m.content@)
        }
    }
}

fn push_part(dst: &mut Vec<char>, count: usize, part: &Vec<char>, ghost_parts: Ghost<Seq<Seq<char>>>)
    requires
        old(dst)@ == joined_seqs(ghost_parts@, "\n\n"@),
        count == ghost_parts@.len(),
    ensures
        final(dst)@ == joined_seqs(ghost_parts@.push(part@), "\n\n"@),
{
    if count > 0 {
        push_str(dst, "\n\n");
    }
    crate::text::push_all(dst, part);
    assert(ghost_parts@.push(part@).drop_last() =~= ghost_parts@);
}

/// The system and user prompts of a plugin's chat request: the system messages joined
/// with blank lines, and the other messages, each labelled with its role, joined the
/// same way.
pub fn plugin_prompts(messages: &Vec<PluginChatMessage>) -> (r: (String, String))
    ensures
        r.0@ == joined_seqs(system_texts(messages@), "\n\n"@),
        r.1@ == joined_seqs(labelled_texts(messages@), "\n\n"@),
{
    let mut sys: Vec<char> = Vec::new();
    let mut usr: Vec<char> = Vec::new();
    let mut ns: usize = 0;
    let mut nu: usize = 0;
    let mut k: usize = 0;
    while k < messages.len()
        invariant
            k <= messages@.len(),
            sys@ == joined_seqs(system_texts(messages@.take(k as int)), "\n\n"@),
            usr@ == joined_seqs(labelled_texts(messages@.take(k as int)), "\n\n"@),
            ns == system_texts(messages@.take(k as int)).len(),
            nu == labelled_texts(messages@.take(k as int)).len(),
            ns <= k,
            nu <= k,
        decreases messages.len() - k,
    {
        let m = &messages[k];
        assert(messages@.take(k + 1).drop_last() =~= messages@.take(k as int));
        assert(messages@.take(k + 1).last() == *m);
        if str_eq(m.role.as_str(), "system") {
            let part = chars_of(m.content.as_str());
            push_part(&mut sys, ns, &part, Ghost(system_texts(messages@.take(k as int))));
            ns = ns + 1;
        } else {
            let mut part = chars_of("[");
            push_str(&mut part, m.role.as_str());
            push_str(&mut part, "]: ");
            push_str(&mut part, m.content.as_str());
            push_part(&mut usr, nu, &part, Ghost(labelled_texts(messages@.take(k as int))));
            nu = nu + 1;
        }
        k = k + 1;
    }
    assert(messages@.take(messages@.len() as int) =~= messages@);
    (string_from_chars(&sys), string_from_chars(&usr))
}

/// The base URL or API key a plugin request uses: the one the chosen model resolves to,
/// when it differs from the configured default and is set; else the provider's.
pub fn endpoint_for_model(chosen: String, resolved: String, configured: &str) -> (r: String)
    ensures
        r@ == if resolved@ != configured@ && resolved@.len() > 0 {
            resolved@
        } else {
            chosen@
        },
{
    if !str_eq(resolved.as_str(), configured) && !resolved.as_str().is_empty() {
        resolved
    } else {
        chosen
    }
}

} // verus!
