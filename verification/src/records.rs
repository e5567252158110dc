//! Records of the side panels and settings screens: notes, annotations and links of a
//! paper, the HTML-fetch and network-proxy settings, the free-model lab, the agent
//! list, and the output history that a terminal keeps.
use std::collections::HashMap;
use vstd::prelude::*;
use crate::text::str_eq;

verus! {

broadcast use vstd::string::group_string_axioms;

/// A note of a paper.
pub struct NoteResponse {
    pub id: String,
    pub paper_id: String,
    pub content: String,
    pub created_date: String,
    pub modified_date: String,
}

/// An annotation of a paper; `position_json` locates it in the PDF or HTML.
pub struct AnnotationResponse {
    pub id: String,
    pub paper_id: String,
    pub annotation_type: String,
    pub color: String,
    pub comment: Option<String>,
    pub selected_text: Option<String>,
    pub image_data: Option<String>,
    pub position_json: String,
    pub page_number: i64,
    pub created_date: String,
    pub modified_date: String,
}

/// A web link kept with a paper.
pub struct PaperLinkResponse {
    pub id: String,
    pub paper_id: String,
    pub url: String,
    pub title: Option<String>,
    pub favicon: Option<String>,
    pub created_date: String,
}

/// The settings of fetching arXiv full-text HTML.
pub struct HtmlFetchConfigResponse {
    pub auto_fetch_arxiv_html: bool,
    pub html_fetch_concurrency: u32,
    pub html_fetch_delay_secs: u32,
}

/// The network proxy settings.
pub struct ProxyConfigResponse {
    pub enabled: bool,
    pub url: String,
    pub no_proxy: String,
}

/// The answer to a request a plugin made through the application.
pub struct ProxyResponse {
    pub status: u16,
    pub headers: HashMap<String, String>,
    pub body: String,
}

/// A provider of free models in the lab.
pub struct LabProviderInfo {
    pub id: String,
    pub name: String,
    pub display_name: String,
    pub sign_up_url: String,
    pub key_prefix: String,
    pub tier: String,
    pub has_key: bool,
    pub model_count: usize,
}

/// A model of the lab.
pub struct LabModelInfo {
    pub id: String,
    pub name: String,
    pub provider_id: String,
    pub disabled: bool,
}

/// The settings of the agent proxy.
pub struct AcpProxyConfigResponse {
    pub enabled: bool,
    pub agent_name: String,
    pub mode_config_id: String,
    pub mode_value: String,
    pub model_config_id: String,
    pub model_value: String,
    pub worker_count: usize,
    pub port: u16,
    pub lan_access: bool,
    pub access_token: String,
}

/// An agent that can be chatted with.
pub struct AgentInfoResponse {
    pub name: String,
    pub title: String,
    pub description: String,
    pub has_session: bool,
}

/// An agent as the settings screen saves it.
pub struct SaveAgentConfigInput {
    pub name: String,
    pub title: String,
    pub command: String,
    pub args: Vec<String>,
}

/// Applies an update of the HTML-fetch settings; absent values are kept.
pub fn update_html_fetch(
    config: &mut HtmlFetchConfigResponse,
    auto_fetch_arxiv_html: Option<bool>,
    html_fetch_concurrency: Option<u32>,
    html_fetch_delay_secs: Option<u32>,
)
    ensures
        final(config).auto_fetch_arxiv_html == match auto_fetch_arxiv_html {
            Some(v) => v,
            None => old(config).auto_fetch_arxiv_html,
        },
        final(config).html_fetch_concurrency == match html_fetch_concurrency {
            Some(v) => v,
            None => old(config).html_fetch_concurrency,
        },
        final(config).html_fetch_delay_secs == match html_fetch_delay_secs {
            Some(v) => v,
            None => old(config).html_fetch_delay_secs,
        },
{
    if let Some(v) = auto_fetch_arxiv_html {
        config.auto_fetch_arxiv_html = v;
    }
    if let Some(v) = html_fetch_concurrency {
        config.html_fetch_concurrency = v;
    }
    if let Some(v) = html_fetch_delay_secs {
        config.html_fetch_delay_secs = v;
    }
}

/// Applies an update of the proxy settings; absent values are kept.
pub fn update_proxy(config: &mut ProxyConfigResponse, enabled: Option<bool>, url: Option<String>, no_proxy: Option<String>)
    ensures
        final(config).enabled == match enabled {
            Some(v) => v,
            None => old(config).enabled,
        },
        final(config).url@ == match url {
            Some(v) => v@,
            None => old(config).url@,
        },
        final(config).no_proxy@ == match no_proxy {
            Some(v) => v@,
            None => old(config).no_proxy@,
        },
{
    if let Some(v) = enabled {
        config.enabled = v;
    }
    if let Some(v) = url {
        config.url = v;
    }
    if let Some(v) = no_proxy {
        config.no_proxy = v;
    }
}

/// How many of `ids` are `id`.
pub open spec fn count_of(ids: Seq<String>, id: Seq<char>) -> nat
    decreases ids.len(),
{
    if ids.len() == 0 {
        0
    } else {
        count_of(ids.drop_last(), id) + if ids.last()@ == id {
            1nat
        } else {
            0nat
        }
    }
}

/// A lab provider as the lab screen lists it: its tier named, whether a non-empty key is
/// stored for it, and how many of the available models (given by their providers' ids)
/// are its.
pub fn lab_provider_info(
    id: String,
    name: String,
    display_name: String,
    sign_up_url: String,
    key_prefix: String,
    primary: bool,
    key: Option<&str>,
    model_providers: &Vec<String>,
) -> (r: LabProviderInfo)
    ensures
        r.id@ == id@,
        r.name@ == name@,
        r.display_name@ == display_name@,
        r.sign_up_url@ == sign_up_url@,
        r.key_prefix@ == key_prefix@,
        r.tier@ == if primary {
            "primary"@
        } else {
            "secondary"@
        },
        r.has_key == match key {
            Some(k) => k@.len() > 0,
            None => false,
        },
        r.model_count == count_of(model_providers@, id@),
{
    let mut count: usize = 0;
    let mut k: usize = 0;
    while k < model_providers.len()
        invariant
            k <= model_providers@.len(),
            count == count_of(model_providers@.take(k as int), id@),
            count <= k,
        decreases model_providers.len() - k,
    {
        assert(model_providers@.take(k + 1).drop_last() =~= model_providers@.take(k as int));
        if str_eq(model_providers[k].as_str(), id.as_str()) {
            count = count + 1;
        }
        k = k + 1;
    }
    assert(model_providers@.take(model_providers@.len() as int) =~= model_providers@);
    let has_key = match key {
        Some(k) => !k.is_empty(),
        None => false,
    };
    LabProviderInfo {
        id,
        name,
        display_name,
        sign_up_url,
        key_prefix,
        tier: if primary {
            "primary".to_owned()
        } else {
            "secondary".to_owned()
        },
        has_key,
        model_count: count,
    }
}

/// The address the lab proxy listens on: every interface when LAN access is on, else
/// only the loopback interface.
pub fn proxy_listen_addr(lan_access: bool) -> (r: String)
    ensures
        r@ == if lan_access {
            "0.0.0.0"@
        } else {
            "127.0.0.1"@
        },
{
    if lan_access {
        "0.0.0.0".to_owned()
    } else {
        "127.0.0.1".to_owned()
    }
}

/// The sum of a sequence of counts.
pub open spec fn total(counts: Seq<usize>) -> int
    decreases counts.len(),
{
    if counts.len() == 0 {
        0
    } else {
        total(counts.drop_last()) + counts.last()
    }
}

/// How many models the lab proxy serves, given how many each of its providers has.
pub fn model_total(counts: &Vec<usize>) -> (r: usize)
    requires
        total(counts@) <= usize::MAX,
    ensures
        r == total(counts@),
{
    let mut sum: usize = 0;
    let mut k: usize = 0;
    while k < counts.len()
        invariant
            k <= counts@.len(),
            sum == total(counts@.take(k as int)),
            total(counts@) <= usize::MAX,
        decreases counts.len() - k,
    {
        assert(counts@.take(k + 1).drop_last() =~= counts@.take(k as int));
        proof {
            lemma_total_prefix(counts@, k + 1);
        }
        sum = sum + counts[k];
        k = k + 1;
    }
    assert(counts@.take(counts@.len() as int) =~= counts@);
    sum
}

/// A prefix of counts sums to no more than all of them.
proof fn lemma_total_prefix(counts: Seq<usize>, n: int)
    requires
        0 <= n <= counts.len(),
    ensures
        total(counts.take(n)) <= total(counts),
    decreases counts.len(),
{
    if n < counts.len() {
        assert(counts.drop_last().take(n) =~= counts.take(n));
        lemma_total_prefix(counts.drop_last(), n);
    } else {
        assert(counts.take(n) =~= counts);
    }
}

/// The command whose presence shows that an agent is installed: its detection command,
/// else the command that runs it.
pub fn agent_probe<'a>(detect_command: Option<&'a str>, command: &'a str) -> (r: &'a str)
    ensures
        r@ == match detect_command {
            Some(d) => d@,
            None => command@,
        },
{
    match detect_command {
        Some(d) => d,
        None => command,
    }
}

/// The most output a terminal keeps, in bytes.
pub const MAX_HISTORY_BYTES: usize = 1048576;

/// The history after `chunk` is appended to `h`: the last `MAX_HISTORY_BYTES` bytes of
/// all output.
pub open spec fn history_after(h: Seq<u8>, chunk: Seq<u8>) -> Seq<u8> {
    let all = h + chunk;
    if all.len() > MAX_HISTORY_BYTES {
        all.skip(all.len() - MAX_HISTORY_BYTES)
    } else {
        all
    }
}

/// Appends a terminal's output to its history, dropping the oldest bytes beyond the
/// limit.
pub fn append_history(history: &mut Vec<u8>, chunk: &[u8])
    ensures
        final(history)@ == history_after(old(history)@, chunk@),
        final(history)@.len() <= MAX_HISTORY_BYTES || final(history)@.len() == old(history)@.len()
            + chunk@.len(),
{
    let ghost all = old(history)@ + chunk@;
    let mut i: usize = 0;
    while i < chunk.len()
        invariant
            i <= chunk@.len(),
            history@ == old(history)@ + chunk@.take(i as int),
        decreases chunk.len() - i,
    {
        history.push(chunk[i]);
        assert(chunk@.take(i + 1) =~= chunk@.take(i as int).push(chunk@[i as int]));
        i = i + 1;
    }
    assert(chunk@.take(chunk@.len() as int) =~= chunk@);
    let n = history.len();
    if n > MAX_HISTORY_BYTES {
        let excess = n - MAX_HISTORY_BYTES;
        let mut kept: Vec<u8> = Vec::new();
        let mut j: usize = excess;
        while j < n
            invariant
                excess <= j <= n,
                n == history@.len(),
                kept@ == history@.subrange(excess as int, j as int),
            decreases n - j,
        {
            kept.push(history[j]);
            assert(history@.subrange(excess as int, j + 1) =~= history@.subrange(excess as int, j as int).push(
                history@[j as int],
            ));
            j = j + 1;
        }
        assert(history@.skip(excess as int) =~= history@.subrange(excess as int, n as int));
        *history = kept;
    }
}


/// The shell a paper's terminal runs: on Windows the command interpreter that `COMSPEC`
/// names, else PowerShell; elsewhere the user's `SHELL`, else zsh.
pub open spec fn terminal_shell_spec(windows: bool, comspec: Option<Seq<char>>, shell: Option<Seq<char>>) -> Seq<char> {
    if windows {
        match comspec {
            Some(c) => c,
            None => "powershell.exe"@,
        }
    } else {
        match shell {
            Some(s) => s,
            None => "/bin/zsh"@,
        }
    }
}

/// The shell a paper's terminal runs (see [`terminal_shell_spec`]); `comspec` and `shell`
/// are the environment variables `COMSPEC` and `SHELL` where they are set.
pub fn terminal_shell(windows: bool, comspec: Option<String>, shell: Option<String>) -> (r: String)
    ensures
        r@ == terminal_shell_spec(windows, crate::text::opt_view(comspec), crate::text::opt_view(shell)),
{
    if windows {
        match comspec {
            Some(c) => c,
            None => "powershell.exe".to_owned(),
        }
    } else {
        match shell {
            Some(s) => s,
            None => "/bin/zsh".to_owned(),
        }
    }
}

/// The open terminal of a paper, so that a second request reuses it: the id of the first
/// session (given as terminal id and paper id) that belongs to the paper, if any does.
pub fn terminal_for_paper(sessions: &Vec<(String, String)>, paper_id: &str) -> (r: Option<String>)
    ensures
        r is None <==> forall|i: int| 0 <= i < sessions@.len() ==> (#[trigger] sessions@[i]).1@ != paper_id@,
        r matches Some(t) ==> exists|i: int|
            0 <= i < sessions@.len() && (#[trigger] sessions@[i]).0@ == t@ && sessions@[i].1@ == paper_id@
                && forall|j: int| 0 <= j < i ==> (#[trigger] sessions@[j]).1@ != paper_id@,
{
    let mut i: usize = 0;
    while i < sessions.len()
        invariant
            i <= sessions@.len(),
            forall|k: int| 0 <= k < i ==> (#[trigger] sessions@[k]).1@ != paper_id@,
        decreases sessions.len() - i,
    {
        if str_eq(sessions[i].1.as_str(), paper_id) {
            let t = sessions[i].0.clone();
            assert(sessions@[i as int].0@ == t@);
            return Some(t);
        }
        i = i + 1;
    }
    None
}


/// The settings that the agent proxy's workers start with: the mode, then the model,
/// each only when both its option id and its value are set.
pub open spec fn proxy_overrides_spec(mode_id: Seq<char>, mode_value: Seq<char>, model_id: Seq<char>, model_value: Seq<char>) -> Seq<(Seq<char>, Seq<char>)> {
    let first: Seq<(Seq<char>, Seq<char>)> = if mode_id.len() > 0 && mode_value.len() > 0 {
        seq![(mode_id, mode_value)]
    } else {
        Seq::empty()
    };
    if model_id.len() > 0 && model_value.len() > 0 {
        first.push((model_id, model_value))
    } else {
        first
    }
}

/// The view of a list of setting overrides.
pub open spec fn pairs_view(v: Seq<(String, String)>) -> Seq<(Seq<char>, Seq<char>)> {
    Seq::new(v.len(), |i: int| (v[i].0@, v[i].1@))
}

/// The settings that the agent proxy's workers start with (see [`proxy_overrides_spec`]).
pub fn proxy_config_overrides(mode_id: &String, mode_value: &String, model_id: &String, model_value: &String) -> (r: Vec<(String, String)>)
    ensures
        pairs_view(r@) == proxy_overrides_spec(mode_id@, mode_value@, model_id@, model_value@),
{
    let mut r: Vec<(String, String)> = Vec::new();
    if !mode_id.as_str().is_empty() && !mode_value.as_str().is_empty() {
        r.push((mode_id.clone(), mode_value.clone()));
    }
    if !model_id.as_str().is_empty() && !model_value.as_str().is_empty() {
        r.push((model_id.clone(), model_value.clone()));
    }
    assert(pairs_view(r@) =~= proxy_overrides_spec(mode_id@, mode_value@, model_id@, model_value@));
    r
}

/// The index of the first name equal to `name`, from position `i` on, or -1.
pub open spec fn first_name_index(names: Seq<String>, name: Seq<char>, i: int) -> int
    decreases names.len() - i,
{
    if i < 0 || i >= names.len() {
        -1
    } else if names[i]@ == name {
        i
    } else {
        first_name_index(names, name, i + 1)
    }
}

/// The agent that the agent proxy runs, as an index into the installed agents' names:
/// the configured one, or the first installed agent when none is configured.
pub fn pick_proxy_agent(configured: &str, agent_names: &Vec<String>) -> (r: Result<usize, String>)
    ensures
        configured@.len() == 0 && agent_names@.len() > 0 ==> r == Ok::<usize, String>(0),
        configured@.len() == 0 && agent_names@.len() == 0 ==> (r matches Err(e) && e@
            == "No ACP agents available. Please install an ACP agent first."@),
        configured@.len() > 0 && first_name_index(agent_names@, configured@, 0) >= 0 ==> (r matches Ok(
            k,
        ) && k == first_name_index(agent_names@, configured@, 0)),
        configured@.len() > 0 && first_name_index(agent_names@, configured@, 0) < 0 ==> (r matches Err(e)
            && e@ == "Agent '"@ + configured@ + "' not found in ACP config"@),
{
    if configured.is_empty() {
        if agent_names.len() > 0 {
            return Ok(0);
        }
        return Err("No ACP agents available. Please install an ACP agent first.".to_owned());
    }
    let mut i: usize = 0;
    while i < agent_names.len()
        invariant
            i <= agent_names@.len(),
            configured@.len() > 0,
            first_name_index(agent_names@, configured@, 0) == first_name_index(agent_names@, configured@, i as int),
        decreases agent_names.len() - i,
    {
        if str_eq(agent_names[i].as_str(), configured) {
            return Ok(i);
        }
        i = i + 1;
    }
    let mut msg: Vec<char> = Vec::new();
    crate::text::push_str(&mut msg, "Agent '");
    crate::text::push_str(&mut msg, configured);
    crate::text::push_str(&mut msg, "' not found in ACP config");
    Err(crate::text::string_from_chars(&msg))
}


/// Whether a paper gets its arXiv HTML fetched by the batch fetch: it has a non-empty
/// arXiv id and no `paper.html` yet.
pub open spec fn wants_html_fetch(arxiv_id: Option<String>, has_html: bool) -> bool {
    match arxiv_id {
        Some(id) => id@.len() > 0 && !has_html,
        None => false,
    }
}

/// The papers whose arXiv HTML the batch fetch enqueues, as indices in the order given;
/// each paper is given as its arXiv id and whether its `paper.html` exists.
pub fn missing_html_fetches(papers: &Vec<(Option<String>, bool)>) -> (r: Vec<usize>)
    ensures
        forall|k: int| 0 <= k < r@.len() ==> (#[trigger] r@[k]) < papers@.len() && wants_html_fetch(
            papers@[r@[k] as int].0,
            papers@[r@[k] as int].1,
        ),
        forall|k: int, l: int| 0 <= k < l < r@.len() ==> r@[k] < r@[l],
        forall|i: int|
            0 <= i < papers@.len() && wants_html_fetch(#[trigger] papers@[i].0, papers@[i].1) ==> r@.contains(
                i as usize,
            ),
{
    let mut r: Vec<usize> = Vec::new();
    let mut i: usize = 0;
    while i < papers.len()
        invariant
            i <= papers@.len(),
            forall|k: int| 0 <= k < r@.len() ==> (#[trigger] r@[k]) < i && wants_html_fetch(
                papers@[r@[k] as int].0,
                papers@[r@[k] as int].1,
            ),
            forall|k: int, l: int| 0 <= k < l < r@.len() ==> r@[k] < r@[l],
            forall|j: int|
                0 <= j < i && wants_html_fetch(#[trigger] papers@[j].0, papers@[j].1) ==> r@.contains(
                    j as usize,
                ),
        decreases papers.len() - i,
    {
        let wanted = match &papers[i].0 {
            Some(id) => !id.as_str().is_empty() && !papers[i].1,
            None => false,
        };
        if wanted {
            let ghost old_r = r@;
            r.push(i);
            assert forall|j: int|
                0 <= j < i + 1 && wants_html_fetch(#[trigger] papers@[j].0, papers@[j].1) implies r@.contains(
                j as usize,
            ) by {
                if j < i {
                    let w = choose|w: int| 0 <= w < old_r.len() && old_r[w] == j as usize;
                    assert(r@[w] == j as usize);
                } else {
                    assert(r@[old_r.len() as int] == i);
                }
            }
        }
        i = i + 1;
    }
    r
}


/// Whether a session is not terminal `id`'s.
pub open spec fn other_terminal(id: Seq<char>) -> spec_fn((Seq<char>, Seq<char>)) -> bool {
    |e: (Seq<char>, Seq<char>)| e.0 != id
}

/// The open terminals, each as its terminal id and the paper it belongs to. A paper has
/// at most one terminal.
///
/// The entries are kept in a `Vec` with an invariant of its own: vstd specifies std's
/// `HashMap`, `HashSet` and `BTreeMap` only for keys with a key model (integers, `bool`,
/// boxes of them), and these keys are strings.
pub struct TerminalRegistry {
    sessions: Vec<(String, String)>,
}

impl TerminalRegistry {
    /// The sessions, as texts.
    pub closed spec fn view(&self) -> Seq<(Seq<char>, Seq<char>)> {
        Seq::new(self.sessions@.len(), |i: int| (self.sessions@[i].0@, self.sessions@[i].1@))
    }

    /// No paper has two terminals.
    pub closed spec fn wf(&self) -> bool {
        forall|i: int, j: int|
            0 <= i < j < self.view().len() ==> (#[trigger] self.view()[i]).1 != (#[trigger] self.view()[j]).1
    }

    /// The terminal of paper `p`, if it has one.
    pub open spec fn terminal_of(&self, p: Seq<char>) -> Option<Seq<char>> {
        if exists|i: int| 0 <= i < self.view().len() && (#[trigger] self.view()[i]).1 == p {
            Some(self.view()[choose|i: int| 0 <= i < self.view().len() && (#[trigger] self.view()[i]).1 == p].0)
        } else {
            None
        }
    }

    /// No terminal is open.
    pub fn new() -> (r: TerminalRegistry)
        ensures
            r.wf(),
            r.view().len() == 0,
    {
        let r = TerminalRegistry { sessions: Vec::new() };
        assert(r.view() =~= Seq::<(Seq<char>, Seq<char>)>::empty());
        r
    }

    /// The terminal for `paper_id`: the paper's open one, so that repeated requests get
    /// the same terminal; else a new one with the id `fresh_id`, which is recorded.
    pub fn open(&mut self, paper_id: &str, fresh_id: String) -> (r: String)
        requires
            old(self).wf(),
        ensures
            final(self).wf(),
            final(self).terminal_of(paper_id@) == Some(r@),
            old(self).terminal_of(paper_id@) matches Some(t) ==> r@ == t && final(self).view() == old(self).view(),
            old(self).terminal_of(paper_id@) is None ==> r == fresh_id && final(self).view() == old(self).view().push(
                (fresh_id@, paper_id@),
            ),
    {
        match terminal_for_paper(&self.sessions, paper_id) {
            Some(t) => {
                proof {
                    let i = choose|i: int|
                        0 <= i < self.sessions@.len() && (#[trigger] self.sessions@[i]).0@ == t@ && self.sessions@[i].1@ == paper_id@
                            && forall|j: int| 0 <= j < i ==> (#[trigger] self.sessions@[j]).1@ != paper_id@;
                    assert(self.view()[i].1 == paper_id@);
                    let c = choose|c: int| 0 <= c < self.view().len() && (#[trigger] self.view()[c]).1 == paper_id@;
                    if c != i {
                        if c < i {
                            assert(self.view()[c].1 != self.view()[i].1);
                        } else {
                            assert(self.view()[i].1 != self.view()[c].1);
                        }
                    }
                }
                t
            },
            None => {
                let ghost before = self.view();
                self.sessions.push((fresh_id.clone(), paper_id.to_owned()));
                proof {
                    assert(self.view() =~= before.push((fresh_id@, paper_id@)));
                    assert forall|i: int| 0 <= i < before.len() implies (#[trigger] before[i]).1 != paper_id@ by {
                        assert(self.sessions@[i].1@ == before[i].1);
                    }
                    let n = before.len() as int;
                    assert(self.view()[n].1 == paper_id@);
                    let c = choose|c: int| 0 <= c < self.view().len() && (#[trigger] self.view()[c]).1 == paper_id@;
                    if c < n {
                        assert(self.view()[c] == before[c]);
                    }
                }
                fresh_id
            },
        }
    }

    /// Closes terminal `terminal_id`: every session with that id is dropped, the others
    /// stay in order.
    pub fn close(&mut self, terminal_id: &str)
        requires
            old(self).wf(),
        ensures
            final(self).wf(),
            final(self).view() == old(self).view().filter(other_terminal(terminal_id@)),
    {
        let ghost old_view = self.view();
        let mut kept: Vec<(String, String)> = Vec::new();
        let ghost mut idx: Seq<int> = Seq::empty();
        let mut k: usize = 0;
        proof {
            reveal(Seq::filter);
            assert(old_view.take(0) =~= Seq::<(Seq<char>, Seq<char>)>::empty());
            assert(Seq::new(kept@.len(), |i: int| (kept@[i].0@, kept@[i].1@)) =~= Seq::<(Seq<char>, Seq<char>)>::empty());
        }
        while k < self.sessions.len()
            invariant
                k <= self.sessions@.len(),
                old_view == Seq::new(self.sessions@.len(), |i: int| (self.sessions@[i].0@, self.sessions@[i].1@)),
                Seq::new(kept@.len(), |i: int| (kept@[i].0@, kept@[i].1@)) == old_view.take(k as int).filter(other_terminal(terminal_id@)),
                idx.len() == kept@.len(),
                forall|j: int| 0 <= j < idx.len() ==> 0 <= #[trigger] idx[j] < k && (kept@[j].0@, kept@[j].1@) == old_view[idx[j]],
                forall|j1: int, j2: int| 0 <= j1 < j2 < idx.len() ==> #[trigger] idx[j1] < #[trigger] idx[j2],
            decreases self.sessions.len() - k,
        {
            let ghost before = Seq::new(kept@.len(), |i: int| (kept@[i].0@, kept@[i].1@));
            assert(old_view.take(k + 1).drop_last() =~= old_view.take(k as int));
            assert(old_view.take(k + 1).last() == old_view[k as int]);
            reveal(Seq::filter);
            assert(old_view.take(k + 1).filter(other_terminal(terminal_id@)) == if other_terminal(terminal_id@)(old_view[k as int]) {
                old_view.take(k as int).filter(other_terminal(terminal_id@)).push(old_view[k as int])
            } else {
                old_view.take(k as int).filter(other_terminal(terminal_id@))
            });
            if !str_eq(self.sessions[k].0.as_str(), terminal_id) {
                kept.push((self.sessions[k].0.clone(), self.sessions[k].1.clone()));
                proof {
                    idx = idx.push(k as int);
                }
                assert(Seq::new(kept@.len(), |i: int| (kept@[i].0@, kept@[i].1@)) =~= before.push(old_view[k as int]));
            } else {
                assert(Seq::new(kept@.len(), |i: int| (kept@[i].0@, kept@[i].1@)) =~= before);
            }
            k = k + 1;
        }
        assert(old_view.take(old_view.len() as int) =~= old_view);
        self.sessions = kept;
        proof {
            assert forall|i: int, j: int| 0 <= i < j < self.view().len() implies (#[trigger] self.view()[i]).1
                != (#[trigger] self.view()[j]).1 by {
                assert(self.view()[i] == old_view[idx[i]]);
                assert(self.view()[j] == old_view[idx[j]]);
                assert(idx[i] < idx[j]);
                assert(old_view[idx[i]] == old(self).view()[idx[i]]);
                assert(old_view[idx[j]] == old(self).view()[idx[j]]);
            }
        }
    }

    /// The open terminals, as terminal id and paper id.
    pub fn sessions(&self) -> (r: Vec<(String, String)>)
        ensures
            Seq::new(r@.len(), |i: int| (r@[i].0@, r@[i].1@)) == self.view(),
    {
        let mut out: Vec<(String, String)> = Vec::new();
        let mut k: usize = 0;
        while k < self.sessions.len()
            invariant
                k <= self.sessions@.len(),
                out@.len() == k,
                forall|j: int| 0 <= j < k ==> (#[trigger] out@[j]).0@ == self.sessions@[j].0@ && out@[j].1@ == self.sessions@[j].1@,
            decreases self.sessions.len() - k,
        {
            out.push((self.sessions[k].0.clone(), self.sessions[k].1.clone()));
            k = k + 1;
        }
        assert(Seq::new(out@.len(), |i: int| (out@[i].0@, out@[i].1@)) =~= self.view());
        out
    }
}

} // verus!
