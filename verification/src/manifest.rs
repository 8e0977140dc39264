//! The PSP service manifest of the adapter, built once from the settings.

use vstd::prelude::*;

use crate::config::{opt_view, AppConfig};
use crate::text::{
    char_index_from, has_at, lemma_char_index_from_hit, char_index_from_exec, chars_of, index_of_from, index_of_from_exec,
    lemma_char_index_from_bounds,
};

verus! {

broadcast use vstd::string::group_string_axioms;

#[derive(Debug)]
pub enum NativeActionKind {
    ThirdPartyApp,
}

#[derive(Debug)]
pub enum CategoryHint {
    Game,
}

#[derive(Debug)]
pub enum EventType {
    StatusChanged,
    Notification,
}

#[derive(Debug)]
pub struct ManifestEndpoints {
    pub status: String,
    pub events: Option<String>,
}

/// The Prism Launcher instance settings handed to the client.
#[derive(Debug)]
pub struct PrismConfig {
    pub host: String,
    pub port: u16,
    pub version: String,
    pub loader: String,
    pub loader_version: Option<String>,
    pub packwiz_url: Option<String>,
    pub java_major: Option<u32>,
    pub display_name: String,
}

#[derive(Debug)]
pub struct InstallHint {
    pub name: String,
    pub homepage: String,
}

/// The arguments of the play action.
#[derive(Debug)]
pub struct PlayArgs {
    pub app: String,
    pub config: PrismConfig,
    pub install_hint: InstallHint,
}

#[derive(Debug)]
pub struct ServiceAction {
    pub id: String,
    pub label: String,
    pub primary: bool,
    pub kind: NativeActionKind,
    pub args: PlayArgs,
}

#[derive(Debug)]
pub struct Permissions {
    pub native_actions: Vec<NativeActionKind>,
    pub external_urls: Vec<String>,
    pub events: Vec<EventType>,
}

#[derive(Debug)]
pub struct ServiceManifest {
    pub schema_version: u32,
    pub psp_version: u32,
    pub id: String,
    pub name: String,
    pub description: Option<String>,
    pub icon_url: Option<String>,
    pub category_hint: Option<CategoryHint>,
    pub endpoints: ManifestEndpoints,
    pub actions: Vec<ServiceAction>,
    pub permissions: Permissions,
}

pub open spec fn scheme_separator() -> Seq<char> {
    "://"@
}

/// The origin `scheme://host[:port]` of `url`: everything before the first `/` that
/// follows the first `://`; none when there is no `://` or the host part is empty.
pub open spec fn url_origin(url: Seq<char>) -> Option<Seq<char>> {
    match index_of_from(url, scheme_separator(), 0) {
        None => None,
        Some(i) => {
            let after = i + scheme_separator().len();
            let host_end = char_index_from(url, '/', after);
            if host_end == after {
                None
            } else {
                Some(url.take(host_end))
            }
        },
    }
}

/// `s` without its trailing `/` characters (`str::trim_end_matches('/')`).
pub open spec fn without_trailing_slashes(s: Seq<char>) -> Seq<char>
    decreases s.len(),
{
    if s.len() > 0 && s.last() == '/' {
        without_trailing_slashes(s.drop_last())
    } else {
        s
    }
}

/// The origin of `url`, as `url_origin` says.
pub fn origin_of(url: &str) -> (r: Option<String>)
    ensures
        opt_view(r) == url_origin(url@),
{
    let v = chars_of(url);
    let sep = chars_of("://");
    match index_of_from_exec(&v, &sep, 0) {
        None => None,
        Some(i) => {
            assert(i + sep@.len() <= v.len());
            assert(index_of_from(url@, scheme_separator(), 0) == Some(i as int));
            let after = i + sep.len();
            let host_end = char_index_from_exec(&v, '/', after);
            if host_end == after {
                None
            } else {
                let o = url.substring_char(0, host_end);
                assert(o@ =~= url@.take(host_end as int));
                Some(String::from_str(o))
            }
        },
    }
}

/// `base` without its trailing slashes, followed by `path`.
pub fn endpoint_url(base: &str, path: &str) -> (r: String)
    ensures
        r@ == without_trailing_slashes(base@) + path@,
{
    let v = chars_of(base);
    let mut n = v.len();
    assert(v@.take(v@.len() as int) =~= v@);
    while n > 0 && v[n - 1] == '/'
        invariant
            n <= v@.len(),
            without_trailing_slashes(base@) == without_trailing_slashes(v@.take(n as int)),
        decreases n,
    {
        assert(v@.take(n as int).drop_last() =~= v@.take(n - 1));
        n = n - 1;
    }
    let kept = base.substring_char(0, n);
    assert(kept@ =~= v@.take(n as int));
    String::from_str(kept).concat(path)
}

pub fn clone_opt(o: &Option<String>) -> (r: Option<String>)
    ensures
        opt_view(r) == opt_view(*o),
{
    match o {
        Some(s) => Some(s.clone()),
        None => None,
    }
}

pub open spec fn pattern_of_origin(o: Seq<char>) -> Seq<char> {
    o + "/*"@
}

/// `urls` lists the pattern of the origin of the modpack URL, when there is one.
pub open spec fn external_urls_for(urls: Seq<String>, packwiz_url: Option<String>) -> bool {
    match packwiz_url {
        Some(u) => match url_origin(u@) {
            Some(o) => urls.len() == 1 && urls[0]@ == pattern_of_origin(o),
            None => urls.len() == 0,
        },
        None => urls.len() == 0,
    }
}

/// `m` is the manifest of the settings `cfg` served under `base_url`.
pub open spec fn manifest_for(m: ServiceManifest, cfg: AppConfig, base_url: Seq<char>) -> bool {
    let base = without_trailing_slashes(base_url);
    let a = m.actions@[0];
    &&& m.schema_version == 1
    &&& m.psp_version == 1
    &&& m.id@ == cfg.mc_id@
    &&& m.name@ == cfg.mc_name@
    &&& opt_view(m.description) == opt_view(cfg.mc_description)
    &&& opt_view(m.icon_url) == opt_view(cfg.mc_icon_url)
    &&& m.category_hint == Some(CategoryHint::Game)
    &&& m.endpoints.status@ == base + "/pengport/status"@
    &&& opt_view(m.endpoints.events) == Some(base + "/pengport/events"@)
    &&& m.actions@.len() == 1
    &&& a.id@ == "play"@
    &&& a.label@ == "시작"@
    &&& a.primary
    &&& a.kind is ThirdPartyApp
    &&& a.args.app@ == "prism-launcher"@
    &&& a.args.install_hint.name@ == "Prism Launcher"@
    &&& a.args.install_hint.homepage@ == "https://prismlauncher.org/"@
    &&& a.args.config.host@ == cfg.mc_host@
    &&& a.args.config.port == cfg.mc_port
    &&& a.args.config.version@ == cfg.mc_version@
    &&& a.args.config.loader@ == cfg.mc_loader@
    &&& opt_view(a.args.config.loader_version) == opt_view(cfg.mc_loader_version)
    &&& opt_view(a.args.config.packwiz_url) == opt_view(cfg.packwiz_url)
    &&& a.args.config.java_major == cfg.mc_java_major
    &&& a.args.config.display_name@ == (match cfg.mc_display_name {
        Some(d) => d@,
        None => cfg.mc_name@,
    })
    &&& m.permissions.native_actions@.len() == 1
    &&& m.permissions.native_actions@[0] is ThirdPartyApp
    &&& external_urls_for(m.permissions.external_urls@, cfg.packwiz_url)
    &&& m.permissions.events@.len() == 2
    &&& m.permissions.events@[0] is StatusChanged
    &&& m.permissions.events@[1] is Notification
}

/// The manifest of the settings `cfg`, with its endpoints under `base_url`.
pub fn build_manifest(cfg: &AppConfig, base_url: &str) -> (m: ServiceManifest)
    ensures
        manifest_for(m, *cfg, base_url@),
{
    let display_name = match &cfg.mc_display_name {
        Some(d) => d.clone(),
        None => cfg.mc_name.clone(),
    };
    let config = PrismConfig {
        host: cfg.mc_host.clone(),
        port: cfg.mc_port,
        version: cfg.mc_version.clone(),
        loader: cfg.mc_loader.clone(),
        loader_version: clone_opt(&cfg.mc_loader_version),
        packwiz_url: clone_opt(&cfg.packwiz_url),
        java_major: cfg.mc_java_major,
        display_name,
    };
    let args = PlayArgs {
        app: String::from_str("prism-launcher"),
        config,
        install_hint: InstallHint {
            name: String::from_str("Prism Launcher"),
            homepage: String::from_str("https://prismlauncher.org/"),
        },
    };
    let mut actions: Vec<ServiceAction> = Vec::new();
    actions.push(
        ServiceAction {
            id: String::from_str("play"),
            label: String::from_str("시작"),
            primary: true,
            kind: NativeActionKind::ThirdPartyApp,
            args,
        },
    );
    let mut external_urls: Vec<String> = Vec::new();
    if let Some(url) = &cfg.packwiz_url {
        if let Some(origin) = origin_of(url.as_str()) {
            external_urls.push(origin.concat("/*"));
        }
    }
    let mut native_actions: Vec<NativeActionKind> = Vec::new();
    native_actions.push(NativeActionKind::ThirdPartyApp);
    let mut events: Vec<EventType> = Vec::new();
    events.push(EventType::StatusChanged);
    events.push(EventType::Notification);
    ServiceManifest {
        schema_version: 1,
        psp_version: 1,
        id: cfg.mc_id.clone(),
        name: cfg.mc_name.clone(),
        description: clone_opt(&cfg.mc_description),
        icon_url: clone_opt(&cfg.mc_icon_url),
        category_hint: Some(CategoryHint::Game),
        endpoints: ManifestEndpoints {
            status: endpoint_url(base_url, "/pengport/status"),
            events: Some(endpoint_url(base_url, "/pengport/events")),
        },
        actions,
        permissions: Permissions { native_actions, external_urls, events },
    }
}

/// The URL prefix of the endpoints: the public base URL when one is set, else the
/// bind address over plain HTTP.
pub fn resolve_base_url(public_base_url: Option<String>, bind: &str) -> (r: String)
    ensures
        r@ == (match public_base_url {
            Some(u) => u@,
            None => "http://"@ + bind@,
        }),
{
    match public_base_url {
        Some(u) => u,
        None => String::from_str("http://").concat(bind),
    }
}

proof fn lemma_index_of_from_found(s: Seq<char>, lit: Seq<char>, i: int)
    requires
        index_of_from(s, lit, i) is Some,
    ensures
        i <= index_of_from(s, lit, i)->0,
        has_at(s, index_of_from(s, lit, i)->0, lit),
    decreases s.len() + 1 - i,
{
    if 0 <= i <= s.len() && !has_at(s, i, lit) {
        lemma_index_of_from_found(s, lit, i + 1);
    }
}

/// The origin of a URL is the beginning of the URL, holds its `://`, and ends before
/// the path.
pub proof fn law_origin_is_prefix(url: Seq<char>)
    ensures
        url_origin(url) matches Some(o) ==> {
            &&& o.len() <= url.len()
            &&& url.take(o.len() as int) == o
            &&& exists|i: int| #![trigger has_at(o, i, scheme_separator())] has_at(o, i, scheme_separator())
            &&& o.len() == url.len() || url[o.len() as int] == '/'
        },
{
    if let Some(i) = index_of_from(url, scheme_separator(), 0) {
        lemma_index_of_from_found(url, scheme_separator(), 0);
        let after = i + scheme_separator().len();
        lemma_char_index_from_bounds(url, '/', after);
        lemma_char_index_from_hit(url, '/', after);
        let h = char_index_from(url, '/', after);
        if h != after {
            let o = url.take(h);
            assert(o.subrange(i, after) =~= url.subrange(i, after));
            assert(has_at(o, i, scheme_separator()));
        }
    }
}

/// The play action hands the client every Prism setting as configured: host, port,
/// version, loader, loader version, modpack URL and Java major, and a display name that
/// is the configured one or else the service name.
pub proof fn law_play_action_carries_the_settings(m: ServiceManifest, cfg: AppConfig, base_url: Seq<char>)
    requires
        manifest_for(m, cfg, base_url),
    ensures
        ({
            let pc = m.actions@[0].args.config;
            &&& pc.host@ == cfg.mc_host@
            &&& pc.port == cfg.mc_port
            &&& pc.version@ == cfg.mc_version@
            &&& pc.loader@ == cfg.mc_loader@
            &&& (cfg.mc_loader_version matches Some(v) ==> pc.loader_version matches Some(w) && w@ == v@)
            &&& (cfg.mc_loader_version is None ==> pc.loader_version is None)
            &&& (cfg.packwiz_url matches Some(v) ==> pc.packwiz_url matches Some(w) && w@ == v@)
            &&& (cfg.packwiz_url is None ==> pc.packwiz_url is None)
            &&& pc.java_major == cfg.mc_java_major
            &&& (cfg.mc_display_name matches Some(d) ==> pc.display_name@ == d@)
            &&& (cfg.mc_display_name is None ==> pc.display_name@ == cfg.mc_name@)
        }),
        m.id@ == cfg.mc_id@,
        m.name@ == cfg.mc_name@,
        (cfg.mc_description matches Some(d) ==> m.description matches Some(e) && e@ == d@),
        (cfg.mc_description is None ==> m.description is None),
        (cfg.mc_icon_url matches Some(d) ==> m.icon_url matches Some(e) && e@ == d@),
        (cfg.mc_icon_url is None ==> m.icon_url is None),
{
}
} // verus!
