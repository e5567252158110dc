//! The application's side services and their settings: the MCP server process, the
//! browser connector, the command-line tool, agent chat sessions, the in-app log, the
//! updater and the WebDAV sync scheduler.
use vstd::prelude::*;
use vstd::arithmetic::power2::{lemma_pow2_pos, lemma_pow2_unfold, pow2};
use crate::text::{lemma_text_less_transitive, lemma_text_order_total, text_less, text_less_than, chars_of, concat, decimal, decimal_string, push_str, str_contains, string_from_chars, trim, trim_bounds};

verus! {

broadcast use vstd::string::group_string_axioms;

/// The state of the MCP server as the settings screen shows it.
pub struct McpStatus {
    pub enabled: bool,
    pub running: bool,
    pub transport: String,
    pub port: u16,
    pub pid: Option<u32>,
    pub binary_found: bool,
}

/// An update of the MCP server's settings.
pub struct UpdateMcpConfigInput {
    pub enabled: Option<bool>,
    pub transport: Option<String>,
    pub port: Option<u16>,
}

/// The MCP server's settings.
pub struct McpSettings {
    pub enabled: bool,
    pub transport: String,
    pub port: u16,
}

/// The MCP server's status. `child` is the process the application started (its id),
/// `alive` whether that process still runs; a process that ended is forgotten.
pub fn build_status(config: &McpSettings, child: &mut Option<u32>, alive: bool, binary_found: bool) -> (r: McpStatus)
    ensures
        r.enabled == config.enabled,
        r.transport@ == config.transport@,
        r.port == config.port,
        r.binary_found == binary_found,
        r.running == (*old(child) is Some && alive),
        r.pid == if r.running { *old(child) } else { None },
        *final(child) == if r.running { *old(child) } else { None },
{
    let (running, pid) = match *child {
        Some(id) => if alive {
            (true, Some(id))
        } else {
            *child = None;
            (false, None)
        },
        None => (false, None),
    };
    McpStatus {
        enabled: config.enabled,
        running,
        transport: config.transport.clone(),
        port: config.port,
        pid,
        binary_found,
    }
}

/// Stops the MCP server: the process the application started is handed back to be
/// killed, and none is left.
pub fn stop_mcp_process(child: &mut Option<u32>) -> (r: Option<u32>)
    ensures
        r == *old(child),
        *final(child) is None,
{
    let r = *child;
    *child = None;
    r
}

/// Once the server is stopped, its status says it does not run, whatever the process
/// reported.
pub proof fn lemma_stopped_not_running(child: Option<u32>, alive: bool)
    requires
        child is None,
    ensures
        !(child is Some && alive),
{
}

/// The arguments the MCP server is started with.
pub fn mcp_args(transport: &str, port: u16, data_dir: &str) -> (r: Vec<String>)
    ensures
        r@.len() == 6,
        r@[0]@ == "--transport"@,
        r@[1]@ == transport@,
        r@[2]@ == "--port"@,
        r@[3]@ == decimal(port as nat),
        r@[4]@ == "--data-dir"@,
        r@[5]@ == data_dir@,
{
    let mut r: Vec<String> = Vec::new();
    r.push("--transport".to_owned());
    r.push(transport.to_owned());
    r.push("--port".to_owned());
    r.push(decimal_string(port as u64));
    r.push("--data-dir".to_owned());
    r.push(data_dir.to_owned());
    r
}

/// Applies an update to the MCP server's settings; absent fields are kept.
pub fn update_mcp_settings(config: &mut McpSettings, input: UpdateMcpConfigInput)
    ensures
        final(config).enabled == match input.enabled {
            Some(e) => e,
            None => old(config).enabled,
        },
        final(config).transport@ == match input.transport {
            Some(t) => t@,
            None => old(config).transport@,
        },
        final(config).port == match input.port {
            Some(p) => p,
            None => old(config).port,
        },
{
    if let Some(e) = input.enabled {
        config.enabled = e;
    }
    if let Some(t) = input.transport {
        config.transport = t;
    }
    if let Some(p) = input.port {
        config.port = p;
    }
}

/// The state of the browser connector.
pub struct ConnectorStatus {
    pub enabled: bool,
    pub port: u16,
    pub running: bool,
    pub zotero_compat_enabled: bool,
    pub zotero_compat_port: u16,
    pub zotero_compat_running: bool,
    pub zotero_compat_error: Option<String>,
}

/// The browser connector's settings as the settings screen shows them.
pub struct ConnectorConfigResponse {
    pub port: u16,
    pub enabled: bool,
    pub zotero_compat_enabled: bool,
    pub zotero_compat_port: u16,
}

/// An update of the Zotero-compatible server's settings.
pub struct UpdateConnectorConfigInput {
    pub zotero_compat_enabled: Option<bool>,
    pub zotero_compat_port: Option<u16>,
}

/// The browser connector's settings.
pub struct ConnectorSettings {
    pub enabled: bool,
    pub port: u16,
    pub zotero_compat_enabled: bool,
    pub zotero_compat_port: u16,
}

/// The connector's status: the native connector always runs; the Zotero-compatible
/// server runs when it has a cancel handle.
pub fn connector_status(config: &ConnectorSettings, compat_running: bool, compat_error: Option<String>) -> (r:
    ConnectorStatus)
    ensures
        r.enabled == config.enabled,
        r.port == config.port,
        r.running,
        r.zotero_compat_enabled == config.zotero_compat_enabled,
        r.zotero_compat_port == config.zotero_compat_port,
        r.zotero_compat_running == compat_running,
        r.zotero_compat_error == compat_error,
{
    ConnectorStatus {
        enabled: config.enabled,
        port: config.port,
        running: true,
        zotero_compat_enabled: config.zotero_compat_enabled,
        zotero_compat_port: config.zotero_compat_port,
        zotero_compat_running: compat_running,
        zotero_compat_error: compat_error,
    }
}

/// The connector's settings as the settings screen shows them.
pub fn connector_config(config: &ConnectorSettings) -> (r: ConnectorConfigResponse)
    ensures
        r.port == config.port,
        r.enabled == config.enabled,
        r.zotero_compat_enabled == config.zotero_compat_enabled,
        r.zotero_compat_port == config.zotero_compat_port,
{
    ConnectorConfigResponse {
        port: config.port,
        enabled: config.enabled,
        zotero_compat_enabled: config.zotero_compat_enabled,
        zotero_compat_port: config.zotero_compat_port,
    }
}

/// What happens to the Zotero-compatible server after a settings change.
pub enum CompatServerAction {
    /// Start it on this port.
    Start(u16),
    Stop,
    Keep,
}

/// Applies an update of the Zotero-compatible server's settings. The server is started
/// or stopped only when the update switches it on or off.
pub fn update_connector_settings(config: &mut ConnectorSettings, input: UpdateConnectorConfigInput) -> (r:
    CompatServerAction)
    ensures
        final(config).enabled == old(config).enabled,
        final(config).port == old(config).port,
        final(config).zotero_compat_enabled == match input.zotero_compat_enabled {
            Some(e) => e,
            None => old(config).zotero_compat_enabled,
        },
        final(config).zotero_compat_port == match input.zotero_compat_port {
            Some(p) => p,
            None => old(config).zotero_compat_port,
        },
        old(config).zotero_compat_enabled == final(config).zotero_compat_enabled ==> r is Keep,
        !old(config).zotero_compat_enabled && final(config).zotero_compat_enabled ==> r
            == CompatServerAction::Start(final(config).zotero_compat_port),
        old(config).zotero_compat_enabled && !final(config).zotero_compat_enabled ==> r is Stop,
{
    let old_enabled = config.zotero_compat_enabled;
    if let Some(e) = input.zotero_compat_enabled {
        config.zotero_compat_enabled = e;
    }
    if let Some(p) = input.zotero_compat_port {
        config.zotero_compat_port = p;
    }
    if old_enabled != config.zotero_compat_enabled {
        if config.zotero_compat_enabled {
            CompatServerAction::Start(config.zotero_compat_port)
        } else {
            CompatServerAction::Stop
        }
    } else {
        CompatServerAction::Keep
    }
}

/// Whether the `zoro` command-line tool is installed.
pub struct CliStatus {
    pub installed: bool,
    pub path: Option<String>,
    pub sidecar_found: bool,
}

/// The command-line tool's status from where it was found on the `PATH` and whether the
/// bundled copy exists.
pub fn cli_status(installed_path: Option<String>, sidecar_found: bool) -> (r: CliStatus)
    ensures
        r.installed == (installed_path is Some),
        r.path == installed_path,
        r.sidecar_found == sidecar_found,
{
    CliStatus { installed: installed_path.is_some(), path: installed_path, sidecar_found }
}

/// The error when the bundled tool fails to (un)install itself: the command, then its
/// trimmed output and trimmed error output.
pub fn cli_command_failure(command: &str, stdout: &str, stderr: &str) -> (r: String)
    ensures
        r@ == command@ + " failed: "@ + trim(stdout@) + trim(stderr@),
{
    let mut v = chars_of(command);
    push_str(&mut v, " failed: ");
    let o = chars_of(stdout);
    let (a, b) = trim_bounds(&o, 0, o.len());
    assert(o@.subrange(0, o@.len() as int) =~= o@);
    crate::text::push_range(&mut v, &o, a, b);
    let e = chars_of(stderr);
    let (c, d) = trim_bounds(&e, 0, e.len());
    assert(e@.subrange(0, e@.len() as int) =~= e@);
    crate::text::push_range(&mut v, &e, c, d);
    string_from_chars(&v)
}

/// The directory where agent chat sessions are saved: `agent-sessions` in the data
/// directory.
pub fn sessions_dir(data_dir: &str) -> (r: String)
    ensures
        r@ == crate::feeds::joined_path(data_dir@, "agent-sessions"@),
{
    proof {
        reveal_strlit("/");
    }
    let mut v = chars_of(data_dir);
    if v.len() > 0 && v[v.len() - 1] != '/' {
        v.push('/');
    }
    push_str(&mut v, "agent-sessions");
    assert(v@ =~= crate::feeds::joined_path(data_dir@, "agent-sessions"@));
    string_from_chars(&v)
}

/// The file a saved agent chat session is kept in: `<id>.json` in the sessions directory.
pub fn session_file_path(data_dir: &str, session_id: &str) -> (r: String)
    ensures
        r@ == crate::feeds::joined_path(
            crate::feeds::joined_path(data_dir@, "agent-sessions"@),
            session_id@ + ".json"@,
        ),
{
    let dir = sessions_dir(data_dir);
    let mut name = chars_of(session_id);
    push_str(&mut name, ".json");
    crate::feeds::join_path(dir.as_str(), &name)
}

/// A saved agent chat session as the session list shows it.
pub struct ChatSessionMeta {
    pub id: String,
    pub agent_name: String,
    pub title: String,
    pub message_count: usize,
    pub created_at: String,
    pub updated_at: String,
    pub cwd: Option<String>,
}

/// The update times of a list of sessions, in order.
pub open spec fn update_keys(sessions: Seq<ChatSessionMeta>) -> Seq<Seq<char>> {
    Seq::new(sessions.len(), |i: int| sessions[i].updated_at@)
}

/// Whether `order` lists each index of `keys` once, so that the keys come latest first
/// in `String`'s order and equal keys keep their original order (what a stable sort by
/// descending update time gives).
pub open spec fn latest_first(keys: Seq<Seq<char>>, order: Seq<int>) -> bool {
    &&& order.len() == keys.len()
    &&& forall|i: int| 0 <= i < order.len() ==> 0 <= #[trigger] order[i] < keys.len()
    &&& forall|i: int, j: int| 0 <= i < j < order.len() ==> order[i] != order[j]
    &&& forall|i: int, j: int|
        0 <= i < j < order.len() ==> text_less(keys[order[j]], keys[order[i]]) || (keys[order[i]]
            == keys[order[j]] && order[i] < order[j])
}

/// The session list as it is shown: most recently updated first, sessions updated at the
/// same time in the order they were read.
pub fn sort_latest_first(sessions: Vec<ChatSessionMeta>) -> (r: Vec<ChatSessionMeta>)
    ensures
        r@.len() == sessions@.len(),
        exists|order: Seq<int>|
            #![trigger latest_first(update_keys(sessions@), order)]
            latest_first(update_keys(sessions@), order) && forall|k: int|
                0 <= k < r@.len() ==> r@[k] == sessions@[#[trigger] order[k]],
{
    let ghost orig = sessions@;
    let ghost keys = update_keys(orig);
    let mut rest = sessions;
    let mut out: Vec<ChatSessionMeta> = Vec::new();
    let ghost mut order: Seq<int> = Seq::empty();
    let ghost mut n: int = 0;
    while rest.len() > 0
        invariant
            keys == update_keys(orig),
            0 <= n <= orig.len(),
            rest@ == orig.skip(n),
            out@.len() == n,
            order.len() == n,
            forall|k: int| 0 <= k < n ==> 0 <= #[trigger] order[k] < n,
            forall|k: int| 0 <= k < n ==> out@[k] == orig[#[trigger] order[k]],
            forall|i: int, j: int| 0 <= i < j < n ==> order[i] != order[j],
            forall|i: int, j: int|
                0 <= i < j < n ==> text_less(keys[order[j]], keys[order[i]]) || (keys[order[i]]
                    == keys[order[j]] && order[i] < order[j]),
        decreases rest.len(),
    {
        let s = rest.remove(0);
        assert(s == orig[n]);
        let ghost kn = keys[n];
        assert(kn == s.updated_at@);
        let mut pos: usize = 0;
        while pos < out.len() && !text_less_than(out[pos].updated_at.as_str(), s.updated_at.as_str())
            invariant
                pos <= out@.len(),
                out@.len() == n,
                order.len() == n,
                n < orig.len(),
                keys == update_keys(orig),
                kn == keys[n],
                kn == s.updated_at@,
                forall|k: int| 0 <= k < n ==> 0 <= #[trigger] order[k] < n,
                forall|k: int| 0 <= k < n ==> out@[k] == orig[#[trigger] order[k]],
                forall|i: int| 0 <= i < pos ==> !text_less(keys[#[trigger] order[i]], kn),
            decreases out.len() - pos,
        {
            assert(out@[pos as int] == orig[order[pos as int]]);
            pos = pos + 1;
        }
        let ghost old_order = order;
        let ghost old_out = out@;
        proof {
            if pos < n {
                assert(out@[pos as int] == orig[order[pos as int]]);
                assert(text_less(keys[old_order[pos as int]], kn));
            }
            assert forall|i: int| pos <= i < n implies text_less(keys[#[trigger] old_order[i]], kn) by {
                if i > pos {
                    let p = pos as int;
                    if text_less(keys[old_order[i]], keys[old_order[p]]) {
                        lemma_text_less_transitive(keys[old_order[i]], keys[old_order[p]], kn, 0);
                    }
                }
            }
        }
        out.insert(pos, s);
        proof {
            order = old_order.insert(pos as int, n);
            let p = pos as int;
            assert forall|k: int| 0 <= k < n + 1 implies out@[k] == orig[#[trigger] order[k]] by {
                if k < p {
                    assert(out@[k] == old_out[k] && order[k] == old_order[k]);
                } else if k > p {
                    assert(out@[k] == old_out[k - 1] && order[k] == old_order[k - 1]);
                }
            }
            assert forall|k: int| 0 <= k < n + 1 implies 0 <= #[trigger] order[k] < n + 1 by {
                if k < p {
                    assert(order[k] == old_order[k]);
                } else if k > p {
                    assert(order[k] == old_order[k - 1]);
                }
            }
            assert forall|i: int, j: int| 0 <= i < j < n + 1 implies order[i] != order[j] by {
                if i < p && j < p {
                    assert(order[i] == old_order[i] && order[j] == old_order[j]);
                } else if i < p && j == p {
                    assert(order[i] == old_order[i]);
                } else if i < p {
                    assert(order[i] == old_order[i] && order[j] == old_order[j - 1]);
                } else if i == p {
                    assert(order[j] == old_order[j - 1]);
                } else {
                    assert(order[i] == old_order[i - 1] && order[j] == old_order[j - 1]);
                }
            }
            assert forall|i: int, j: int| 0 <= i < j < n + 1 implies text_less(
                keys[order[j]],
                keys[order[i]],
            ) || (keys[order[i]] == keys[order[j]] && order[i] < order[j]) by {
                if i < p && j < p {
                    assert(order[i] == old_order[i] && order[j] == old_order[j]);
                } else if i < p && j == p {
                    assert(order[i] == old_order[i]);
                    assert(!text_less(keys[old_order[i]], kn));
                    lemma_text_order_total(keys[old_order[i]], kn);
                } else if i < p {
                    assert(order[i] == old_order[i] && order[j] == old_order[j - 1]);
                } else if i == p {
                    assert(order[j] == old_order[j - 1]);
                    assert(text_less(keys[old_order[j - 1]], kn));
                } else {
                    assert(order[i] == old_order[i - 1] && order[j] == old_order[j - 1]);
                }
            }
            n = n + 1;
        }
    }
    proof {
        assert(latest_first(keys, order));
    }
    out
}

/// Whether a file of the sessions directory holds a session: its extension is `json`.
pub fn is_session_file(name: &str) -> (r: bool)
    ensures
        r == (crate::paths::extension_of(name@) == Some("json"@)),
{
    match crate::paths::file_extension(name) {
        Some(e) => str_eq_owned(&e, "json"),
        None => false,
    }
}

fn str_eq_owned(a: &String, b: &str) -> (r: bool)
    ensures
        r == (a@ == b@),
{
    crate::text::str_eq(a.as_str(), b)
}

/// The script that turns the browser's dark mode on.
pub open spec fn dark_mode_on_js() -> Seq<char> {
    DARK_MODE_ON@
}

/// The script that turns the browser's dark mode off.
pub open spec fn dark_mode_off_js() -> Seq<char> {
    DARK_MODE_OFF@
}

/// The script that darkens a web page: light backgrounds are darkened and dark text is
/// lightened, element by element, also for content added later.
pub const DARK_MODE_ON: &'static str = "(function(){
if(window.__zoro_dark__)return;
window.__zoro_dark__=true;
var s=document.createElement('style');s.id='zoro-dark-mode';
s.textContent=':root{color-scheme:dark!important}html{scrollbar-color:#555 #1b1b1f}::-webkit-scrollbar{background:#1b1b1f;width:8px}::-webkit-scrollbar-thumb{background:#555;border-radius:4px}::-webkit-scrollbar-thumb:hover{background:#666}img,video{opacity:.85}input::placeholder,textarea::placeholder{color:#888!important}';
(document.head||document.documentElement).appendChild(s);
var SKIP={IMG:1,VIDEO:1,CANVAS:1,PICTURE:1,SVG:1,IFRAME:1,STYLE:1,SCRIPT:1,LINK:1,NOSCRIPT:1,BR:1};
function lum(r,g,b){return .299*r+.587*g+.114*b}
function pc(v){if(!v||v==='transparent'||v==='rgba(0, 0, 0, 0)')return null;var m=v.match(/rgba?\\((\\d+),\\s*(\\d+),\\s*(\\d+)/);return m?[+m[1],+m[2],+m[3]]:null}
function proc(el){if(!el||el.nodeType!==1||SKIP[el.tagName]||el.id==='zoro-dark-mode')return;
try{var cs=getComputedStyle(el);
var bg=pc(cs.backgroundColor);if(bg){var bl=lum(bg[0],bg[1],bg[2]);
if(bl>150){el.style.setProperty('background-color','#1b1b1f','important');el.setAttribute('data-zd','1')}
else if(bl>100){el.style.setProperty('background-color','#2a2a2e','important');el.setAttribute('data-zd','1')}}
var fg=pc(cs.color);if(fg&&lum(fg[0],fg[1],fg[2])<100){el.style.setProperty('color','#d4d4d8','important');el.setAttribute('data-zd','1')}
var bd=pc(cs.borderTopColor);if(bd&&cs.borderTopStyle!=='none'&&cs.borderTopWidth!=='0px'&&lum(bd[0],bd[1],bd[2])>180){el.style.setProperty('border-color','#3f3f46','important');el.setAttribute('data-zd','1')}}catch(e){}}
function walk(r){proc(r);if(r.querySelectorAll){var a=r.querySelectorAll('*');for(var i=0;i<a.length;i++)proc(a[i])}}
function run(){proc(document.documentElement);walk(document.body||document.documentElement)}
requestAnimationFrame(function(){requestAnimationFrame(run)});
var pend=null;var tgt=document.body||document.documentElement;
var obs=new MutationObserver(function(ms){if(pend)return;var n=[];for(var i=0;i<ms.length;i++){var a=ms[i].addedNodes;for(var j=0;j<a.length;j++)if(a[j].nodeType===1)n.push(a[j])}if(n.length){pend=requestAnimationFrame(function(){for(var i=0;i<n.length;i++)walk(n[i]);pend=null})}});
obs.observe(tgt,{childList:true,subtree:true});window.__zoro_dark_obs__=obs;
})();";

/// The script that undoes [`DARK_MODE_ON`].
pub const DARK_MODE_OFF: &'static str = "(function(){
var s=document.getElementById('zoro-dark-mode');if(s)s.remove();
if(window.__zoro_dark_obs__){window.__zoro_dark_obs__.disconnect();window.__zoro_dark_obs__=null}
var els=document.querySelectorAll('[data-zd]');for(var i=0;i<els.length;i++){els[i].style.removeProperty('background-color');els[i].style.removeProperty('color');els[i].style.removeProperty('border-color');els[i].removeAttribute('data-zd')}
window.__zoro_dark__=false;
})();";

/// The script that switches a web page's dark mode on or off.
pub fn dark_mode_js(dark: bool) -> (r: String)
    ensures
        r@ == if dark {
            dark_mode_on_js()
        } else {
            dark_mode_off_js()
        },
{
    if dark {
        DARK_MODE_ON.to_owned()
    } else {
        DARK_MODE_OFF.to_owned()
    }
}

/// What the embedded browser does with a navigation request. The page scripts report
/// through fake navigations: `zoro-url-change://` carries the new address of a
/// single-page app, `zoro-page-info://` the page's title and icon; those are reported and
/// blocked, every other navigation goes ahead.
pub enum NavigationAction {
    /// The navigation goes ahead.
    Allow,
    /// Blocked; the page's new address is reported when the request carries one.
    ReportUrl(Option<String>),
    /// Blocked; the page's title and icon are reported (empty when missing).
    ReportPageInfo(String, String),
}

/// The value of the first query pair named `key`, from position `i` on.
pub open spec fn first_query_value(pairs: Seq<(String, String)>, key: Seq<char>, i: int) -> Option<
    Seq<char>,
>
    decreases pairs.len() - i,
{
    if i < 0 || i >= pairs.len() {
        None
    } else if pairs[i].0@ == key {
        Some(pairs[i].1@)
    } else {
        first_query_value(pairs, key, i + 1)
    }
}

/// The value of the first query pair named `key` (see [`first_query_value`]).
pub fn query_value(pairs: &Vec<(String, String)>, key: &str) -> (r: Option<String>)
    ensures
        crate::text::opt_view(r) == first_query_value(pairs@, key@, 0),
{
    let mut i: usize = 0;
    while i < pairs.len()
        invariant
            i <= pairs@.len(),
            first_query_value(pairs@, key@, 0) == first_query_value(pairs@, key@, i as int),
        decreases pairs.len() - i,
    {
        if crate::text::str_eq(pairs[i].0.as_str(), key) {
            return Some(pairs[i].1.clone());
        }
        i = i + 1;
    }
    None
}

/// A query value, or the empty text when there is none.
pub open spec fn or_empty(v: Option<Seq<char>>) -> Seq<char> {
    match v {
        Some(t) => t,
        None => Seq::empty(),
    }
}

/// What the embedded browser does with a navigation to an address with scheme `scheme`
/// and the (decoded) query pairs `pairs` (see [`NavigationAction`]).
pub fn navigation_action(scheme: &str, pairs: &Vec<(String, String)>) -> (r: NavigationAction)
    ensures
        scheme@ == "zoro-url-change"@ ==> (r matches NavigationAction::ReportUrl(u)
            && crate::text::opt_view(u) == first_query_value(pairs@, "url"@, 0)),
        scheme@ == "zoro-page-info"@ ==> (r matches NavigationAction::ReportPageInfo(t, f) && t@
            == or_empty(first_query_value(pairs@, "title"@, 0)) && f@ == or_empty(
            first_query_value(pairs@, "favicon"@, 0),
        )),
        scheme@ != "zoro-url-change"@ && scheme@ != "zoro-page-info"@ ==> r is Allow,
{
    proof {
        reveal_strlit("zoro-url-change");
        reveal_strlit("zoro-page-info");
        assert("zoro-url-change"@.len() != "zoro-page-info"@.len());
    }
    if crate::text::str_eq(scheme, "zoro-url-change") {
        NavigationAction::ReportUrl(query_value(pairs, "url"))
    } else if crate::text::str_eq(scheme, "zoro-page-info") {
        let title = match query_value(pairs, "title") {
            Some(t) => t,
            None => String::new(),
        };
        let favicon = match query_value(pairs, "favicon") {
            Some(f) => f,
            None => String::new(),
        };
        NavigationAction::ReportPageInfo(title, favicon)
    } else {
        NavigationAction::Allow
    }
}

/// The log settings.
pub struct LogConfigResponse {
    pub log_to_file: bool,
    pub log_retention_days: u32,
}

/// Applies an update of the log settings: each given value replaces the current one.
pub fn update_log_settings(config: &mut LogConfigResponse, log_to_file: Option<bool>, log_retention_days: Option<u32>)
    ensures
        final(config).log_to_file == match log_to_file {
            Some(v) => v,
            None => old(config).log_to_file,
        },
        final(config).log_retention_days == match log_retention_days {
            Some(v) => v,
            None => old(config).log_retention_days,
        },
{
    if let Some(v) = log_to_file {
        config.log_to_file = v;
    }
    if let Some(v) = log_retention_days {
        config.log_retention_days = v;
    }
}

/// An entry of the in-app log.
pub struct LogEntry {
    pub id: u64,
    pub timestamp: String,
    pub level: String,
    pub target: String,
    pub message: String,
}

/// The most entries the in-app log keeps.
pub const LOG_CAPACITY: usize = 2000;

/// Adds an entry to the in-app log; when the log is full, its oldest entry goes.
pub fn push_log(buf: &mut Vec<LogEntry>, entry: LogEntry)
    requires
        old(buf)@.len() <= LOG_CAPACITY,
    ensures
        final(buf)@.len() <= LOG_CAPACITY,
        final(buf)@.last() == entry,
        old(buf)@.len() < LOG_CAPACITY ==> final(buf)@ == old(buf)@.push(entry),
        old(buf)@.len() == LOG_CAPACITY ==> final(buf)@ == old(buf)@.drop_first().push(entry),
{
    if buf.len() >= LOG_CAPACITY {
        buf.remove(0);
    }
    buf.push(entry);
}

/// The tag of a log entry from the frontend: `frontend::{source}`.
pub fn frontend_log_target(source: &str) -> (r: String)
    ensures
        r@ == "frontend::"@ + source@,
{
    concat("frontend::", source)
}

/// The log entry for a message from the frontend, stamped with the current UTC time.
pub fn frontend_log_entry(id: u64, level: String, source: &str, message: String) -> (r: LogEntry)
    ensures
        r.id == id,
        r.level == level,
        r.target@ == "frontend::"@ + source@,
        r.message == message,
        crate::clock::rfc3339_utc_shaped(r.timestamp@),
{
    LogEntry {
        id,
        timestamp: crate::clock::utc_now_rfc3339(),
        level,
        target: frontend_log_target(source),
        message,
    }
}

/// Whether an entry with id `id` is newer than `since_id` (every entry is, without one).
pub open spec fn newer(since_id: Option<u64>, id: u64) -> bool {
    match since_id {
        Some(s) => id > s,
        None => true,
    }
}

/// The ids of the entries a log request returns: those after `since_id`, or all.
pub fn log_entries_since(ids: &Vec<u64>, since_id: Option<u64>) -> (r: Vec<usize>)
    ensures
        forall|i: int| 0 <= i < r@.len() ==> (#[trigger] r@[i]) < ids@.len(),
        forall|i: int, j: int| 0 <= i < j < r@.len() ==> r@[i] < r@[j],
        forall|k: int|
            0 <= k < ids@.len() ==> (r@.contains(k as usize) <==> newer(since_id, #[trigger] ids@[k])),
{
    let mut out: Vec<usize> = Vec::new();
    let mut k: usize = 0;
    while k < ids.len()
        invariant
            k <= ids@.len(),
            forall|i: int| 0 <= i < out@.len() ==> (#[trigger] out@[i]) < k,
            forall|i: int, j: int| 0 <= i < j < out@.len() ==> out@[i] < out@[j],
            forall|m: int|
                0 <= m < k ==> (out@.contains(m as usize) <==> newer(since_id, #[trigger] ids@[m])),
        decreases ids.len() - k,
    {
        let keep = match since_id {
            Some(s) => ids[k] > s,
            None => true,
        };
        assert(keep == newer(since_id, ids@[k as int]));
        let ghost before = out@;
        if keep {
            out.push(k);
        }
        assert forall|m: int| 0 <= m < k + 1 implies (out@.contains(m as usize) <==> newer(since_id, #[trigger] ids@[m])) by {
            if m < k {
                if out@.contains(m as usize) {
                    let i = choose|i: int| 0 <= i < out@.len() && out@[i] == m as usize;
                    if i < before.len() {
                        assert(before[i] == m as usize);
                    }
                }
                if before.contains(m as usize) {
                    let i = choose|i: int| 0 <= i < before.len() && before[i] == m as usize;
                    assert(out@[i] == m as usize);
                }
            } else {
                if before.contains(m as usize) {
                    let i = choose|i: int| 0 <= i < before.len() && before[i] == m as usize;
                    assert(before[i] < k);
                }
                if keep {
                    assert(out@[before.len() as int] == m as usize);
                }
            }
        }
        k = k + 1;
    }
    out
}

/// The log level named when debug mode is switched.
pub fn log_level_name(debug: bool) -> (r: &'static str)
    ensures
        r@ == if debug {
            "DEBUG"@
        } else {
            "INFO"@
        },
{
    if debug {
        "DEBUG"
    } else {
        "INFO"
    }
}

/// The result of a check for updates.
pub struct UpdateCheckResponse {
    pub available: bool,
    pub version: String,
    pub body: String,
    pub current_version: String,
}

/// The updater's settings.
pub struct UpdaterConfigResponse {
    pub auto_check: bool,
    pub skipped_version: String,
}

/// Applies an update of the updater's settings: each given value replaces the current
/// one.
pub fn update_updater_settings(config: &mut UpdaterConfigResponse, auto_check: Option<bool>, skipped_version: Option<String>)
    ensures
        final(config).auto_check == match auto_check {
            Some(v) => v,
            None => old(config).auto_check,
        },
        final(config).skipped_version@ == match skipped_version {
            Some(v) => v@,
            None => old(config).skipped_version@,
        },
{
    if let Some(v) = auto_check {
        config.auto_check = v;
    }
    if let Some(v) = skipped_version {
        config.skipped_version = v;
    }
}

/// The result of a check for updates: the new version and its notes when there is
/// one, else empty texts.
pub fn update_check_response(found: Option<(String, Option<String>)>, current_version: String) -> (r:
    UpdateCheckResponse)
    ensures
        r.available == (found is Some),
        r.current_version@ == current_version@,
        match found {
            Some((v, b)) => r.version@ == v@ && r.body@ == match b {
                Some(t) => t@,
                None => Seq::<char>::empty(),
            },
            None => r.version@ == Seq::<char>::empty() && r.body@ == Seq::<char>::empty(),
        },
{
    match found {
        Some((version, body)) => UpdateCheckResponse {
            available: true,
            version,
            body: match body {
                Some(t) => t,
                None => String::new(),
            },
            current_version,
        },
        None => UpdateCheckResponse {
            available: false,
            version: String::new(),
            body: String::new(),
            current_version,
        },
    }
}

/// The sync settings as the settings screen shows them; the password is reduced to
/// whether it is set.
pub struct SyncConfigResponse {
    pub enabled: bool,
    pub url: String,
    pub username: String,
    pub password_set: bool,
    pub remote_path: String,
    pub interval_minutes: i32,
    pub device_id: String,
    pub device_name: String,
    pub sync_collections: bool,
    pub sync_tags: bool,
    pub sync_annotations: bool,
    pub sync_reader_state: bool,
    pub sync_notes: bool,
    pub sync_attachments: bool,
    pub max_file_size_mb: u32,
    pub pdf_download_mode: String,
    pub conflict_strategy: String,
}

/// Whether a WebDAV server is rate limited as Jianguoyun (Nutstore) is.
pub fn needs_jianguoyun_limits(url: &str) -> (r: bool)
    ensures
        r == (crate::text::contains_seq(url@, "jianguoyun"@) || crate::text::contains_seq(
            url@,
            "nutstore"@,
        )),
{
    str_contains(url, "jianguoyun") || str_contains(url, "nutstore")
}

/// The WebDAV password used: the one given, or the saved one when none is given.
pub fn effective_password(given: String, saved: &String) -> (r: String)
    ensures
        r@ == if given@.len() == 0 {
            saved@
        } else {
            given@
        },
{
    if given.as_str().is_empty() {
        saved.clone()
    } else {
        given
    }
}

/// The largest file that file sync transfers, in bytes (0 for no limit).
pub fn max_file_size_bytes(max_file_size_mb: u32) -> (r: u64)
    ensures
        r == max_file_size_mb as int * 1048576,
{
    max_file_size_mb as u64 * 1048576
}

/// The background sync scheduler: how long it waits before the next attempt.
pub struct SyncScheduler {
    pub backoff_secs: u64,
}

/// The back-off after failures: none, or between one minute and half an hour.
pub open spec fn backoff_ok(b: u64) -> bool {
    b == 0 || 60 <= b <= 1800
}

impl SyncScheduler {
    /// A scheduler that has not failed.
    pub fn new() -> (r: SyncScheduler)
        ensures
            r.backoff_secs == 0,
    {
        SyncScheduler { backoff_secs: 0 }
    }

    /// How long to wait before the next attempt: half a minute while sync is off; else
    /// the back-off after a failure, or the sync interval (at least one minute).
    pub fn wait_secs(&self, enabled: bool, interval_minutes: i32) -> (r: u64)
        ensures
            !enabled ==> r == 30,
            enabled && self.backoff_secs > 0 ==> r == self.backoff_secs,
            enabled && self.backoff_secs == 0 ==> r == (if interval_minutes < 1 {
                1
            } else {
                interval_minutes as int
            }) * 60,
    {
        if !enabled {
            return 30;
        }
        if self.backoff_secs > 0 {
            self.backoff_secs
        } else {
            let m: u64 = if interval_minutes < 1 {
                1
            } else {
                interval_minutes as u64
            };
            m * 60
        }
    }

    /// Records the outcome of a sync: success clears the back-off; a failure starts it
    /// at a minute or doubles it, up to half an hour.
    pub fn record(&mut self, ok: bool)
        requires
            backoff_ok(old(self).backoff_secs),
        ensures
            backoff_ok(final(self).backoff_secs),
            final(self).backoff_secs == backoff_after(old(self).backoff_secs, ok),
            ok ==> final(self).backoff_secs == 0,
            !ok && old(self).backoff_secs == 0 ==> final(self).backoff_secs == 60,
            !ok && old(self).backoff_secs > 0 ==> final(self).backoff_secs == if old(self).backoff_secs
                * 2 < 1800 {
                old(self).backoff_secs * 2
            } else {
                1800
            },
    {
        if ok {
            self.backoff_secs = 0;
        } else if self.backoff_secs == 0 {
            self.backoff_secs = 60;
        } else {
            let d = self.backoff_secs * 2;
            self.backoff_secs = if d < 1800 {
                d
            } else {
                1800
            };
        }
    }
}

/// The back-off after a sync with outcome `ok`, from back-off `b` (see
/// [`SyncScheduler::record`]).
pub open spec fn backoff_after(b: u64, ok: bool) -> u64 {
    if ok {
        0
    } else if b == 0 {
        60
    } else if b * 2 < 1800 {
        (b * 2) as u64
    } else {
        1800
    }
}

/// The back-off after `k` failures in a row, from a scheduler that had none.
pub open spec fn backoff_after_failures(k: nat) -> u64
    decreases k,
{
    if k == 0 {
        0
    } else {
        backoff_after(backoff_after_failures((k - 1) as nat), false)
    }
}

/// After `k >= 1` failures in a row the scheduler waits `min(60 * 2^(k-1), 1800)` seconds
/// before the next attempt; a success then brings back the sync interval.
pub proof fn lemma_backoff_doubles(k: nat, interval_minutes: i32)
    requires
        k >= 1,
    ensures
        backoff_after_failures(k) == if 60 * pow2((k - 1) as nat) < 1800 {
            60 * pow2((k - 1) as nat)
        } else {
            1800
        },
        wait_for(backoff_after_failures(k), true, interval_minutes) == backoff_after_failures(k),
        wait_for(backoff_after(backoff_after_failures(k), true), true, interval_minutes) == (if interval_minutes < 1 {
            1
        } else {
            interval_minutes as int
        }) * 60,
    decreases k,
{
    if k == 1 {
        reveal(vstd::arithmetic::power::pow);
        assert(pow2(0) == 1);
        assert(backoff_after_failures(0) == 0);
        assert(backoff_after_failures(1) == 60);
    } else {
        lemma_backoff_doubles((k - 1) as nat, interval_minutes);
        lemma_pow2_unfold((k - 1) as nat);
        lemma_pow2_pos((k - 2) as nat);
        let p = pow2((k - 2) as nat);
        let prev = backoff_after_failures((k - 1) as nat);
        assert(pow2((k - 1) as nat) == 2 * p);
        assert(backoff_after_failures(k) == backoff_after(prev, false));
        if 60 * p < 1800 {
            assert(prev == 60 * p);
            assert(backoff_after_failures(k) == (if 120 * p < 1800 { 120 * p } else { 1800 }));
        } else {
            assert(prev == 1800);
            assert(backoff_after_failures(k) == 1800);
        }
    }
}

/// How long the scheduler waits with back-off `b` (see [`SyncScheduler::wait_secs`]).
pub open spec fn wait_for(b: u64, enabled: bool, interval_minutes: i32) -> int {
    if !enabled {
        30
    } else if b > 0 {
        b as int
    } else {
        (if interval_minutes < 1 {
            1
        } else {
            interval_minutes as int
        }) * 60
    }
}

/// However syncs succeed or fail, the back-off stays within one minute and half an
/// hour, and a success always clears it.
pub proof fn lemma_backoff_bounded(b: u64, ok: bool, next: u64)
    requires
        backoff_ok(b),
        ok ==> next == 0,
        !ok && b == 0 ==> next == 60,
        !ok && b > 0 ==> next == if b * 2 < 1800 {
            b * 2
        } else {
            1800
        },
    ensures
        backoff_ok(next),
        next <= 1800,
{
}

/// Manual syncs: whether one is running, and the error of the last one.
pub struct SyncRun {
    pub syncing: bool,
    pub last_error: Option<String>,
}

impl SyncRun {
    /// No sync has run.
    pub fn new() -> (r: SyncRun)
        ensures
            !r.syncing,
            r.last_error is None,
    {
        SyncRun { syncing: false, last_error: None }
    }

    /// Starts a sync: refused while one is running, or when sync has not been set up
    /// (`engine_ready` false); a started sync clears the last error.
    pub fn begin(&mut self, engine_ready: bool) -> (r: Result<(), String>)
        ensures
            old(self).syncing ==> (r matches Err(e) && e@ == "Sync is already in progress"@)
                && *final(self) == *old(self),
            !old(self).syncing && !engine_ready ==> (r matches Err(e) && e@
                == "Sync engine not initialized. Please configure WebDAV sync first."@) && *final(self)
                == *old(self),
            !old(self).syncing && engine_ready ==> r is Ok && final(self).syncing && final(self).last_error is None,
    {
        if self.syncing {
            return Err("Sync is already in progress".to_owned());
        }
        if !engine_ready {
            return Err("Sync engine not initialized. Please configure WebDAV sync first.".to_owned());
        }
        self.syncing = true;
        self.last_error = None;
        Ok(())
    }

    /// Ends the running sync with its outcome, which is returned; a failure is kept as
    /// the last error.
    pub fn finish(&mut self, outcome: Result<(), String>) -> (r: Result<(), String>)
        ensures
            !final(self).syncing,
            r == outcome,
            outcome is Ok ==> final(self).last_error == old(self).last_error,
            outcome matches Err(e) ==> (final(self).last_error matches Some(x) && x@ == e@),
    {
        self.syncing = false;
        if let Err(e) = &outcome {
            self.last_error = Some(e.clone());
        }
        outcome
    }
}

/// Whether this device runs the initial full sync: it has never synced.
pub fn needs_initial_sync(last_sync_time: &Option<String>) -> (r: bool)
    ensures
        r == (last_sync_time is None),
{
    last_sync_time.is_none()
}


/// The file of a paper that an on-demand download fetches, by file type: `paper.pdf` or
/// `paper.html`; any other type is refused.
pub fn download_file_name(file_type: &str) -> (r: Result<String, String>)
    ensures
        file_type@ == "pdf"@ ==> (r matches Ok(n) && n@ == "paper.pdf"@),
        file_type@ == "html"@ ==> (r matches Ok(n) && n@ == "paper.html"@),
        file_type@ != "pdf"@ && file_type@ != "html"@ ==> (r matches Err(e) && e@
            == "Unknown file type: "@ + file_type@),
{
    proof {
        reveal_strlit("pdf");
        reveal_strlit("html");
        assert("pdf"@.len() != "html"@.len());
    }
    if crate::text::str_eq(file_type, "pdf") {
        Ok("paper.pdf".to_owned())
    } else if crate::text::str_eq(file_type, "html") {
        Ok("paper.html".to_owned())
    } else {
        Err(concat("Unknown file type: ", file_type))
    }
}

/// `s` without its trailing slashes (`str::trim_end_matches('/')`).
pub open spec fn without_trailing_slashes(s: Seq<char>) -> Seq<char>
    decreases s.len(),
{
    if s.len() > 0 && s.last() == '/' {
        without_trailing_slashes(s.drop_last())
    } else {
        s
    }
}

/// Where a paper's file lies on the WebDAV server: under `zoro/library/papers/<slug>/`
/// in the sync root.
pub open spec fn remote_paper_file_spec(root: Seq<char>, slug: Seq<char>, file: Seq<char>) -> Seq<
    char,
> {
    without_trailing_slashes(root) + "/zoro/library/papers/"@ + slug + "/"@ + file
}

/// Where a paper's file lies on the WebDAV server (see [`remote_paper_file_spec`]).
pub fn remote_paper_file(root: &str, slug: &str, file: &str) -> (r: String)
    ensures
        r@ == remote_paper_file_spec(root@, slug@, file@),
{
    let v = chars_of(root);
    let mut n: usize = v.len();
    assert(v@.take(n as int) =~= v@);
    while n > 0 && v[n - 1] == '/'
        invariant
            n <= v@.len(),
            without_trailing_slashes(v@) == without_trailing_slashes(v@.take(n as int)),
        decreases n,
    {
        assert(v@.take(n as int).drop_last() =~= v@.take(n - 1));
        n = n - 1;
    }
    let mut out = crate::text::copy_range(&v, 0, n);
    assert(out@ =~= v@.take(n as int));
    push_str(&mut out, "/zoro/library/papers/");
    push_str(&mut out, slug);
    push_str(&mut out, "/");
    push_str(&mut out, file);
    string_from_chars(&out)
}

/// The local directory of a paper: `library/papers/<slug>` in the data directory.
pub fn local_paper_dir(data_dir: &str, slug: &str) -> (r: String)
    ensures
        r@ == crate::feeds::joined_path(crate::feeds::joined_path(data_dir@, "library/papers"@), slug@),
{
    let base = crate::feeds::join_path(data_dir, &chars_of("library/papers"));
    crate::feeds::join_path(base.as_str(), &chars_of(slug))
}

/// Whether saving the sync settings turns on change tracking in the database: sync is
/// enabled and the device has an id.
pub fn tracks_sync_changes(enabled: bool, device_id: &str) -> (r: bool)
    ensures
        r == (enabled && device_id@.len() > 0),
{
    enabled && !device_id.is_empty()
}

/// Whether the background scheduler sets up the sync engine from the settings: sync is
/// enabled and a server URL is set.
pub fn can_start_engine(enabled: bool, url: &str) -> (r: bool)
    ensures
        r == (enabled && url@.len() > 0),
{
    enabled && !url.is_empty()
}

} // verus!
