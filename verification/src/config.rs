//! Which language servers there are, and which one handles a filetype.

use vstd::prelude::*;
use vstd::string::*;
use vstd::utf8::*;

use crate::byte_path;
use crate::json;
use crate::json::{object1, Fields, Json, JsonView};
use crate::strmap::StrMap;
use crate::text;

verus! {

/// How one language server is started and set up.
pub struct ServerConfig {
    pub command: String,
    pub args: Vec<String>,
    pub filetypes: Vec<String>,
    pub root_patterns: Vec<String>,
    pub initialization_options: Option<Json>,
    /// Values for `workspace/configuration` requests. Nested objects and exact
    /// dotted keys are both supported.
    pub settings: Option<Json>,
    /// Higher values win when more than one server handles the same filetype.
    /// The server name is used as a stable tie breaker.
    pub priority: i32,
}

/// The model of [`ServerConfig`].
#[verifier::ext_equal]
pub struct ServerConfigView {
    pub command: Seq<char>,
    pub args: Seq<Seq<char>>,
    pub filetypes: Seq<Seq<char>>,
    pub root_patterns: Seq<Seq<char>>,
    pub initialization_options: Option<JsonView>,
    pub settings: Option<JsonView>,
    pub priority: i32,
}

impl DeepView for ServerConfig {
    type V = ServerConfigView;

    open spec fn deep_view(&self) -> ServerConfigView {
        ServerConfigView {
            command: self.command@,
            args: self.args.deep_view(),
            filetypes: self.filetypes.deep_view(),
            root_patterns: self.root_patterns.deep_view(),
            initialization_options: self.initialization_options.deep_view(),
            settings: self.settings.deep_view(),
            priority: self.priority,
        }
    }
}

/// The language servers, by name.
pub struct Config {
    pub language_servers: StrMap<ServerConfig>,
}

impl Config {
    /// The language servers, by name.
    pub open spec fn view(&self) -> Map<Seq<char>, ServerConfigView> {
        self.language_servers@
    }
}

/// A copy of a list of strings.
pub fn copy_strings(list: &Vec<String>) -> (r: Vec<String>)
    ensures
        r.deep_view() == list.deep_view(),
{
    let mut out: Vec<String> = Vec::new();
    let mut i: usize = 0;
    while i < list.len()
        invariant
            i <= list@.len(),
            out@.len() == i,
            forall|k: int| 0 <= k < i ==> (#[trigger] out@[k])@ == list@[k]@,
        decreases list@.len() - i,
    {
        out.push(list[i].clone());
        i = i + 1;
    }
    assert(out.deep_view() =~= list.deep_view());
    out
}

/// A copy of an optional value.
pub fn copy_option(value: &Option<Json>) -> (r: Option<Json>)
    ensures
        r.deep_view() == value.deep_view(),
{
    match value {
        Some(j) => Some(j.copy()),
        None => None,
    }
}

impl ServerConfig {
    /// A configuration that is the same as this one.
    pub fn copy(&self) -> (r: ServerConfig)
        ensures
            r.deep_view() == self.deep_view(),
    {
        ServerConfig {
            command: self.command.clone(),
            args: copy_strings(&self.args),
            filetypes: copy_strings(&self.filetypes),
            root_patterns: copy_strings(&self.root_patterns),
            initialization_options: copy_option(&self.initialization_options),
            settings: copy_option(&self.settings),
            priority: self.priority,
        }
    }
}

// ---------------------------------------------------------------------------
// Defaults with overrides
// ---------------------------------------------------------------------------

/// Defaults with overrides laid over them: nothing where there are neither.
pub open spec fn with_overrides(defaults: JsonView, overrides: Option<JsonView>) -> Option<
    JsonView,
> {
    match overrides {
        Some(o) => Some(json::merged(defaults, o)),
        None => if defaults is Null {
            None
        } else {
            Some(defaults)
        },
    }
}

/// Lays overrides over defaults.
pub fn merge_json(defaults: Json, overrides: &Option<Json>) -> (r: Option<Json>)
    ensures
        r.deep_view() == with_overrides(defaults@, overrides.deep_view()),
{
    match overrides {
        Some(o) => Some(defaults.merge(o)),
        None => if defaults.is_null() {
            None
        } else {
            Some(defaults)
        },
    }
}

/// The initialization options of the Julia server.
pub open spec fn julia_options_view() -> JsonView {
    JsonView::Object(map!["useFormatterConfigDefaults"@ => JsonView::Bool(true)])
}

fn julia_options() -> (r: Json)
    ensures
        r@ == julia_options_view(),
{
    object1("useFormatterConfigDefaults", Json::Bool(true))
}

/// What the Julia server reports as suspicious.
pub open spec fn julia_lint_view() -> JsonView {
    JsonView::Object(
        map![
            "call"@ => JsonView::Bool(true),
            "iter"@ => JsonView::Bool(true),
            "nothingcomp"@ => JsonView::Bool(true),
            "constif"@ => JsonView::Bool(true),
            "lazy"@ => JsonView::Bool(true),
            "datadecl"@ => JsonView::Bool(true),
            "typeparam"@ => JsonView::Bool(true),
            "modname"@ => JsonView::Bool(true),
            "pirates"@ => JsonView::Bool(true),
            "useoffuncargs"@ => JsonView::Bool(true),
            "run"@ => JsonView::Bool(true),
            "missingrefs"@ => JsonView::Str("none"@),
            "disabledDirs"@ => json::strings_view(seq!["docs"@, "test"@]),
        ],
    )
}

/// The hints that the Julia server gives. They stay enabled there because the
/// editor decides whether to show them.
pub open spec fn julia_hints_view() -> JsonView {
    JsonView::Object(
        map![
            "static"@ => JsonView::Object(
                map![
                    "enabled"@ => JsonView::Bool(true),
                    "variableTypes"@ => JsonView::Object(map!["enabled"@ => JsonView::Bool(true)]),
                    "parameterNames"@ => JsonView::Object(
                        map!["enabled"@ => JsonView::Str("literals"@)],
                    ),
                ],
            ),
        ],
    )
}

/// The settings of the Julia server.
pub open spec fn julia_settings_view() -> JsonView {
    JsonView::Object(
        map![
            "julia"@ => JsonView::Object(
                map![
                    "lint"@ => julia_lint_view(),
                    "completionmode"@ => JsonView::Str("qualify"@),
                    "inlayHints"@ => julia_hints_view(),
                ],
            ),
        ],
    )
}

fn julia_lint() -> (r: Json)
    ensures
        r@ == julia_lint_view(),
{
    let mut dirs: Vec<String> = Vec::new();
    dirs.push("docs".to_string());
    dirs.push("test".to_string());
    assert(dirs.deep_view() =~= seq!["docs"@, "test"@]);
    let mut f = Fields::new();
    f.put_bool("call", true);
    f.put_bool("iter", true);
    f.put_bool("nothingcomp", true);
    f.put_bool("constif", true);
    f.put_bool("lazy", true);
    f.put_bool("datadecl", true);
    f.put_bool("typeparam", true);
    f.put_bool("modname", true);
    f.put_bool("pirates", true);
    f.put_bool("useoffuncargs", true);
    f.put_bool("run", true);
    f.put_str("missingrefs", "none");
    f.put("disabledDirs", Json::string_array(&dirs));
    f.done()
}

fn julia_hints() -> (r: Json)
    ensures
        r@ == julia_hints_view(),
{
    let mut hints = Fields::new();
    hints.put_bool("enabled", true);
    hints.put("variableTypes", object1("enabled", Json::Bool(true)));
    hints.put("parameterNames", object1("enabled", Json::string("literals")));
    object1("static", hints.done())
}

fn julia_settings() -> (r: Json)
    ensures
        r@ == julia_settings_view(),
{
    let mut f = Fields::new();
    f.put("lint", julia_lint());
    f.put_str("completionmode", "qualify");
    f.put("inlayHints", julia_hints());
    object1("julia", f.done())
}

/// The initialization options that a server has of itself.
pub open spec fn default_options(server_name: Seq<char>) -> JsonView {
    if server_name == "julia-lsp"@ {
        julia_options_view()
    } else {
        JsonView::Null
    }
}

/// The settings that a server has of itself.
pub open spec fn default_settings(server_name: Seq<char>) -> JsonView {
    if server_name == "julia-lsp"@ {
        julia_settings_view()
    } else {
        JsonView::Null
    }
}

impl ServerConfig {
    /// The initialization options of a server: its own with the configured
    /// ones laid over them.
    pub fn effective_initialization_options(&self, server_name: &str) -> (r: Option<Json>)
        ensures
            r.deep_view() == with_overrides(
                default_options(server_name@),
                self.deep_view().initialization_options,
            ),
    {
        let defaults = if text::str_eq(server_name, "julia-lsp") {
            julia_options()
        } else {
            Json::Null
        };
        merge_json(defaults, &self.initialization_options)
    }

    /// The settings of a server: its own with the configured ones laid over
    /// them.
    pub fn effective_settings(&self, server_name: &str) -> (r: Option<Json>)
        ensures
            r.deep_view() == with_overrides(
                default_settings(server_name@),
                self.deep_view().settings,
            ),
    {
        let defaults = if text::str_eq(server_name, "julia-lsp") {
            julia_settings()
        } else {
            Json::Null
        };
        merge_json(defaults, &self.settings)
    }
}

// ---------------------------------------------------------------------------
// The built-in servers
// ---------------------------------------------------------------------------

/// Starts the Julia language server. It is loaded from the shared `@simplecc`
/// environment, so that it never conflicts with the project being edited, and
/// then pointed at the user's own project.
pub const JULIA_LSP_SCRIPT: &'static str = "ls_env = joinpath(get(DEPOT_PATH, 1, joinpath(homedir(), \".julia\")), \"environments\", \"simplecc\"); pushfirst!(LOAD_PATH, ls_env); using LanguageServer; popfirst!(LOAD_PATH); depot = get(ENV, \"JULIA_DEPOT_PATH\", \"\"); project = dirname(something(Base.current_project(pwd()), get(Base.load_path(), 1, nothing), Base.active_project())); server = LanguageServer.LanguageServerInstance(stdin, stdout, project, depot); run(server)";

/// A built-in server: it has no settings and no priority.
pub open spec fn builtin(
    command: Seq<char>,
    args: Seq<Seq<char>>,
    filetypes: Seq<Seq<char>>,
    root_patterns: Seq<Seq<char>>,
    initialization_options: Option<JsonView>,
) -> ServerConfigView {
    ServerConfigView {
        command,
        args,
        filetypes,
        root_patterns,
        initialization_options,
        settings: None,
        priority: 0,
    }
}

/// The built-in `rust-analyzer` server.
pub open spec fn rust_analyzer_view() -> ServerConfigView {
    builtin(
        "rust-analyzer"@,
        Seq::empty(),
        seq!["rust"@],
        seq!["Cargo.toml"@],
        None,
    )
}

/// The built-in `clangd` server.
pub open spec fn clangd_view() -> ServerConfigView {
    builtin(
        "clangd"@,
        Seq::empty(),
        seq!["c"@, "cpp"@],
        seq!["compile_commands.json"@, ".clangd"@],
        None,
    )
}

/// The built-in `pyright` server.
pub open spec fn pyright_view() -> ServerConfigView {
    builtin(
        "pyright-langserver"@,
        seq!["--stdio"@],
        seq!["python"@],
        seq!["pyproject.toml"@, "setup.py"@],
        None,
    )
}

/// The built-in `typescript-language-server` server.
pub open spec fn typescript_language_server_view() -> ServerConfigView {
    builtin(
        "typescript-language-server"@,
        seq!["--stdio"@],
        seq!["typescript"@, "javascript"@, "typescriptreact"@, "javascriptreact"@],
        seq!["package.json"@, "tsconfig.json"@],
        None,
    )
}

/// The built-in `lua-language-server` server.
pub open spec fn lua_language_server_view() -> ServerConfigView {
    builtin(
        "lua-language-server"@,
        Seq::empty(),
        seq!["lua"@],
        seq![".luarc.json"@],
        None,
    )
}

/// The built-in `gopls` server.
pub open spec fn gopls_view() -> ServerConfigView {
    builtin(
        "gopls"@,
        Seq::empty(),
        seq!["go"@, "gomod"@],
        seq!["go.mod"@],
        None,
    )
}

/// The built-in `julia-lsp` server.
pub open spec fn julia_lsp_view() -> ServerConfigView {
    builtin(
        "julia"@,
        seq!["--startup-file=no"@, "--history-file=no"@, "-e"@, JULIA_LSP_SCRIPT@],
        seq!["julia"@],
        seq!["Project.toml"@, "JuliaProject.toml"@],
        Some(julia_options_view()),
    )
}

/// The built-in servers.
pub open spec fn default_servers() -> Map<Seq<char>, ServerConfigView> {
    map![
        "rust-analyzer"@ => rust_analyzer_view(),
        "clangd"@ => clangd_view(),
        "pyright"@ => pyright_view(),
        "typescript-language-server"@ => typescript_language_server_view(),
        "lua-language-server"@ => lua_language_server_view(),
        "gopls"@ => gopls_view(),
        "julia-lsp"@ => julia_lsp_view(),
    ]
}

fn rust_analyzer() -> (r: ServerConfig)
    ensures
        r.deep_view() == rust_analyzer_view(),
{
    let mut args: Vec<String> = Vec::new();
    assert(args.deep_view() =~= Seq::<Seq<char>>::empty());
    let mut filetypes: Vec<String> = Vec::new();
    filetypes.push("rust".to_string());
    assert(filetypes.deep_view() =~= seq!["rust"@]);
    let mut root_patterns: Vec<String> = Vec::new();
    root_patterns.push("Cargo.toml".to_string());
    assert(root_patterns.deep_view() =~= seq!["Cargo.toml"@]);
    ServerConfig {
        command: "rust-analyzer".to_string(),
        args,
        filetypes,
        root_patterns,
        initialization_options: None,
        settings: None,
        priority: 0,
    }
}

fn clangd() -> (r: ServerConfig)
    ensures
        r.deep_view() == clangd_view(),
{
    let mut args: Vec<String> = Vec::new();
    assert(args.deep_view() =~= Seq::<Seq<char>>::empty());
    let mut filetypes: Vec<String> = Vec::new();
    filetypes.push("c".to_string());
    filetypes.push("cpp".to_string());
    assert(filetypes.deep_view() =~= seq!["c"@, "cpp"@]);
    let mut root_patterns: Vec<String> = Vec::new();
    root_patterns.push("compile_commands.json".to_string());
    root_patterns.push(".clangd".to_string());
    assert(root_patterns.deep_view() =~= seq!["compile_commands.json"@, ".clangd"@]);
    ServerConfig {
        command: "clangd".to_string(),
        args,
        filetypes,
        root_patterns,
        initialization_options: None,
        settings: None,
        priority: 0,
    }
}

fn pyright() -> (r: ServerConfig)
    ensures
        r.deep_view() == pyright_view(),
{
    let mut args: Vec<String> = Vec::new();
    args.push("--stdio".to_string());
    assert(args.deep_view() =~= seq!["--stdio"@]);
    let mut filetypes: Vec<String> = Vec::new();
    filetypes.push("python".to_string());
    assert(filetypes.deep_view() =~= seq!["python"@]);
    let mut root_patterns: Vec<String> = Vec::new();
    root_patterns.push("pyproject.toml".to_string());
    root_patterns.push("setup.py".to_string());
    assert(root_patterns.deep_view() =~= seq!["pyproject.toml"@, "setup.py"@]);
    ServerConfig {
        command: "pyright-langserver".to_string(),
        args,
        filetypes,
        root_patterns,
        initialization_options: None,
        settings: None,
        priority: 0,
    }
}

fn typescript_language_server() -> (r: ServerConfig)
    ensures
        r.deep_view() == typescript_language_server_view(),
{
    let mut args: Vec<String> = Vec::new();
    args.push("--stdio".to_string());
    assert(args.deep_view() =~= seq!["--stdio"@]);
    let mut filetypes: Vec<String> = Vec::new();
    filetypes.push("typescript".to_string());
    filetypes.push("javascript".to_string());
    filetypes.push("typescriptreact".to_string());
    filetypes.push("javascriptreact".to_string());
    assert(filetypes.deep_view() =~= seq![
        "typescript"@,
        "javascript"@,
        "typescriptreact"@,
        "javascriptreact"@,
    ]);
    let mut root_patterns: Vec<String> = Vec::new();
    root_patterns.push("package.json".to_string());
    root_patterns.push("tsconfig.json".to_string());
    assert(root_patterns.deep_view() =~= seq!["package.json"@, "tsconfig.json"@]);
    ServerConfig {
        command: "typescript-language-server".to_string(),
        args,
        filetypes,
        root_patterns,
        initialization_options: None,
        settings: None,
        priority: 0,
    }
}

fn lua_language_server() -> (r: ServerConfig)
    ensures
        r.deep_view() == lua_language_server_view(),
{
    let mut args: Vec<String> = Vec::new();
    assert(args.deep_view() =~= Seq::<Seq<char>>::empty());
    let mut filetypes: Vec<String> = Vec::new();
    filetypes.push("lua".to_string());
    assert(filetypes.deep_view() =~= seq!["lua"@]);
    let mut root_patterns: Vec<String> = Vec::new();
    root_patterns.push(".luarc.json".to_string());
    assert(root_patterns.deep_view() =~= seq![".luarc.json"@]);
    ServerConfig {
        command: "lua-language-server".to_string(),
        args,
        filetypes,
        root_patterns,
        initialization_options: None,
        settings: None,
        priority: 0,
    }
}

fn gopls() -> (r: ServerConfig)
    ensures
        r.deep_view() == gopls_view(),
{
    let mut args: Vec<String> = Vec::new();
    assert(args.deep_view() =~= Seq::<Seq<char>>::empty());
    let mut filetypes: Vec<String> = Vec::new();
    filetypes.push("go".to_string());
    filetypes.push("gomod".to_string());
    assert(filetypes.deep_view() =~= seq!["go"@, "gomod"@]);
    let mut root_patterns: Vec<String> = Vec::new();
    root_patterns.push("go.mod".to_string());
    assert(root_patterns.deep_view() =~= seq!["go.mod"@]);
    ServerConfig {
        command: "gopls".to_string(),
        args,
        filetypes,
        root_patterns,
        initialization_options: None,
        settings: None,
        priority: 0,
    }
}

fn julia_lsp() -> (r: ServerConfig)
    ensures
        r.deep_view() == julia_lsp_view(),
{
    let mut args: Vec<String> = Vec::new();
    args.push("--startup-file=no".to_string());
    args.push("--history-file=no".to_string());
    args.push("-e".to_string());
    args.push(JULIA_LSP_SCRIPT.to_string());
    assert(args.deep_view() =~= seq![
        "--startup-file=no"@,
        "--history-file=no"@,
        "-e"@,
        JULIA_LSP_SCRIPT@,
    ]);
    let mut filetypes: Vec<String> = Vec::new();
    filetypes.push("julia".to_string());
    assert(filetypes.deep_view() =~= seq!["julia"@]);
    let mut root_patterns: Vec<String> = Vec::new();
    root_patterns.push("Project.toml".to_string());
    root_patterns.push("JuliaProject.toml".to_string());
    assert(root_patterns.deep_view() =~= seq!["Project.toml"@, "JuliaProject.toml"@]);
    ServerConfig {
        command: "julia".to_string(),
        args,
        filetypes,
        root_patterns,
        initialization_options: Some(julia_options()),
        settings: None,
        priority: 0,
    }
}

impl Default for Config {
    fn default() -> (r: Config)
        ensures
            r@ == default_servers(),
    {
        let mut language_servers = StrMap::new();
        language_servers.insert("rust-analyzer", rust_analyzer());
        language_servers.insert("clangd", clangd());
        language_servers.insert("pyright", pyright());
        language_servers.insert("typescript-language-server", typescript_language_server());
        language_servers.insert("lua-language-server", lua_language_server());
        language_servers.insert("gopls", gopls());
        language_servers.insert("julia-lsp", julia_lsp());
        Config { language_servers }
    }
}

// ---------------------------------------------------------------------------
// Choosing a server
// ---------------------------------------------------------------------------

/// Whether a server handles a filetype.
pub open spec fn handles(server: ServerConfigView, filetype: Seq<char>) -> bool {
    server.filetypes.contains(filetype)
}

/// Whether one server is chosen before another: by priority, then by name.
pub open spec fn server_before(
    a: (Seq<char>, ServerConfigView),
    b: (Seq<char>, ServerConfigView),
) -> bool {
    if a.1.priority != b.1.priority {
        a.1.priority > b.1.priority
    } else {
        text::text_less(a.0, b.0)
    }
}

/// Whether a list holds the servers that handle a filetype, each once, in the
/// order in which they are chosen.
pub open spec fn is_server_order(
    list: Seq<(Seq<char>, ServerConfigView)>,
    servers: Map<Seq<char>, ServerConfigView>,
    filetype: Seq<char>,
) -> bool {
    &&& forall|i: int, j: int|
        0 <= i < j < list.len() ==> server_before(#[trigger] list[i], #[trigger] list[j])
    &&& forall|i: int|
        0 <= i < list.len() ==> servers.contains_key((#[trigger] list[i]).0)
            && servers[list[i].0] == list[i].1 && handles(list[i].1, filetype)
    &&& forall|name: Seq<char>| #[trigger]
        servers.contains_key(name) && handles(servers[name], filetype) ==> list.contains(
            (name, servers[name]),
        )
}

/// Whether a server is the one that is chosen for a filetype.
pub open spec fn is_chosen(
    chosen: (Seq<char>, ServerConfigView),
    servers: Map<Seq<char>, ServerConfigView>,
    filetype: Seq<char>,
) -> bool {
    &&& servers.contains_key(chosen.0)
    &&& servers[chosen.0] == chosen.1
    &&& handles(chosen.1, filetype)
    &&& forall|name: Seq<char>| #[trigger]
        servers.contains_key(name) && handles(servers[name], filetype) && name != chosen.0
            ==> server_before(chosen, (name, servers[name]))
}

fn before(left_name: &str, left: &ServerConfig, right_name: &str, right: &ServerConfig) -> (r: bool)
    ensures
        r == server_before(
            (left_name@, left.deep_view()),
            (right_name@, right.deep_view()),
        ),
{
    if left.priority != right.priority {
        left.priority > right.priority
    } else {
        text::str_less(left_name, right_name)
    }
}

impl Config {
    /// All servers that handle a filetype, in the order in which they are
    /// chosen.
    pub fn servers_for_filetype(&self, filetype: &str) -> (r: Vec<(&str, &ServerConfig)>)
        ensures
            is_server_order(r.deep_view(), self@, filetype@),
    {
        let entries = &self.language_servers.entries;
        let mut order: Vec<(&str, &ServerConfig)> = Vec::new();
        let mut i: usize = 0;
        while i < entries.len()
            invariant
                i <= entries@.len(),
                *entries == self.language_servers.entries,
                forall|a: int, b: int|
                    0 <= a < b < order.deep_view().len() ==> server_before(
                        #[trigger] order.deep_view()[a],
                        #[trigger] order.deep_view()[b],
                    ),
                forall|a: int|
                    0 <= a < order.deep_view().len() ==> self@.contains_key(
                        (#[trigger] order.deep_view()[a]).0,
                    ) && self@[order.deep_view()[a].0] == order.deep_view()[a].1 && handles(
                        order.deep_view()[a].1,
                        filetype@,
                    ) && exists|k: int| 0 <= k < i && (#[trigger] entries@[k]).0@
                        == order.deep_view()[a].0,
                forall|k: int|
                    0 <= k < i && handles(self@[(#[trigger] entries@[k]).0@], filetype@)
                        ==> order.deep_view().contains(
                        (entries@[k].0@, self@[entries@[k].0@]),
                    ),
            decreases entries@.len() - i,
        {
            let name = entries[i].0.as_str();
            let server = &entries[i].1;
            let first: usize = self.language_servers.position(name);
            let ghost prior = order.deep_view();
            if first == i && text::list_contains(&server.filetypes, filetype) {
                let ghost x = (name@, server.deep_view());
                let mut at: usize = order.len();
                while at > 0 && before(name, server, order[at - 1].0, order[at - 1].1)
                    invariant
                        at <= order@.len(),
                        prior == order.deep_view(),
                        x == (name@, server.deep_view()),
                        forall|k: int|
                            at <= k < prior.len() ==> server_before(x, #[trigger] prior[k]),
                    decreases at,
                {
                    assert(prior[at - 1] == (order@[at - 1].0@, order@[at - 1].1.deep_view()));
                    at = at - 1;
                }
                order.insert(at, (name, server));
                let ghost now = order.deep_view();
                proof {
                    assert(now =~= prior.insert(at as int, x));
                    assert(forall|k: int| 0 <= k < at ==> now[k] == prior[k]);
                    assert(forall|k: int| at < k < now.len() ==> now[k] == prior[k - 1]);
                    assert(now[at as int] == x);
                    if at > 0 {
                        assert(prior[at - 1] == (order@[at - 1].0@, order@[at - 1].1.deep_view()));
                        // A name that was placed before is a different one.
                        let k = choose|k: int|
                            0 <= k < i && (#[trigger] entries@[k]).0@ == prior[at - 1].0;
                        assert(entries@[k].0@ != name@);
                        text::lemma_text_less_total(name@, prior[at - 1].0);
                        assert(server_before(prior[at - 1], x));
                    }
                    assert forall|a: int, b: int| 0 <= a < b < now.len() implies server_before(
                        #[trigger] now[a],
                        #[trigger] now[b],
                    ) by {
                        if b < at {
                            assert(server_before(prior[a], prior[b]));
                        } else if b == at {
                            assert(now[a] == prior[a]);
                            if a < at - 1 {
                                assert(server_before(prior[a], prior[at - 1]));
                                lemma_before_transitive(prior[a], prior[at - 1], x);
                            }
                        } else if a == at {
                            assert(now[b] == prior[b - 1]);
                        } else if a < at {
                            assert(server_before(prior[a], prior[b - 1]));
                        } else {
                            assert(server_before(prior[a - 1], prior[b - 1]));
                        }
                    }
                    assert forall|a: int| 0 <= a < now.len() implies self@.contains_key(
                        (#[trigger] now[a]).0,
                    ) && self@[now[a].0] == now[a].1 && handles(now[a].1, filetype@) && exists|
                        k: int,
                    |
                        0 <= k < i + 1 && (#[trigger] entries@[k]).0@ == now[a].0 by {
                        if a == at {
                            assert(entries@[i as int].0@ == now[a].0);
                        } else {
                            let p = if a < at {
                                a
                            } else {
                                a - 1
                            };
                            assert(now[a] == prior[p]);
                            let k = choose|k: int|
                                0 <= k < i && (#[trigger] entries@[k]).0@ == prior[p].0;
                            assert(entries@[k].0@ == now[a].0);
                        }
                    }
                    assert forall|k: int|
                        0 <= k < i + 1 && handles(
                            self@[(#[trigger] entries@[k]).0@],
                            filetype@,
                        ) implies now.contains((entries@[k].0@, self@[entries@[k].0@])) by {
                        let y = (entries@[k].0@, self@[entries@[k].0@]);
                        if k < i {
                            assert(prior.contains(y));
                            let p = choose|p: int| 0 <= p < prior.len() && prior[p] == y;
                            if p < at {
                                assert(now[p] == y);
                            } else {
                                assert(now[p + 1] == y);
                            }
                        } else {
                            assert(now[at as int] == y);
                        }
                    }
                }
            } else {
                proof {
                    assert forall|a: int| 0 <= a < prior.len() implies exists|k: int|
                        0 <= k < i + 1 && (#[trigger] entries@[k]).0@ == (#[trigger] prior[a]).0 by {
                        let k = choose|k: int|
                            0 <= k < i && (#[trigger] entries@[k]).0@ == prior[a].0;
                        assert(0 <= k < i + 1 && entries@[k].0@ == prior[a].0);
                    }
                    if handles(self@[entries@[i as int].0@], filetype@) {
                        // The entry that counts for this name came before.
                        assert(first < i);
                        assert(entries@[first as int].0@ == name@);
                    }
                }
            }
            i = i + 1;
        }
        proof {
            assert forall|name: Seq<char>| #[trigger]
                self@.contains_key(name) && handles(
                    self@[name],
                    filetype@,
                ) implies order.deep_view().contains((name, self@[name])) by {
                self.language_servers.lemma_entry_of(name);
                let j = choose|j: int|
                    0 <= j < entries@.len() && (#[trigger] entries@[j]).0@ == name;
                assert(entries@[j].0@ == name);
            }
        }
        order
    }

    /// The server that is chosen for a filetype: the one of the highest
    /// priority, and of those the one whose name comes first.
    pub fn server_for_filetype(&self, filetype: &str) -> (r: Option<(&str, &ServerConfig)>)
        ensures
            match r {
                Some(chosen) => is_chosen(chosen.deep_view(), self@, filetype@),
                None => forall|name: Seq<char>| #[trigger]
                    self@.contains_key(name) ==> !handles(self@[name], filetype@),
            },
    {
        let order = self.servers_for_filetype(filetype);
        let ghost list = order.deep_view();
        if order.len() == 0 {
            assert forall|name: Seq<char>| #[trigger] self@.contains_key(name) implies !handles(
                self@[name],
                filetype@,
            ) by {
                if handles(self@[name], filetype@) {
                    assert(list.contains((name, self@[name])));
                }
            }
            return None;
        }
        let chosen = order[0];
        proof {
            assert(chosen.deep_view() == list[0]);
            assert forall|name: Seq<char>| #[trigger]
                self@.contains_key(name) && handles(self@[name], filetype@) && name
                    != chosen.deep_view().0 implies server_before(
                chosen.deep_view(),
                (name, self@[name]),
            ) by {
                let i = choose|i: int| 0 <= i < list.len() && list[i] == (name, self@[name]);
                assert(i > 0);
                assert(server_before(list[0], list[i]));
            }
        }
        Some(chosen)
    }
}

proof fn lemma_before_transitive(
    a: (Seq<char>, ServerConfigView),
    b: (Seq<char>, ServerConfigView),
    c: (Seq<char>, ServerConfigView),
)
    requires
        server_before(a, b),
        server_before(b, c),
    ensures
        server_before(a, c),
{
    if a.1.priority == b.1.priority && b.1.priority == c.1.priority {
        text::lemma_text_less_transitive(a.0, b.0, c.0);
    }
}

/// The order in which servers are chosen is fixed by the configuration alone,
/// not by how it is stored: there is only one.
pub proof fn law_server_order_is_unique(
    a: Seq<(Seq<char>, ServerConfigView)>,
    b: Seq<(Seq<char>, ServerConfigView)>,
    servers: Map<Seq<char>, ServerConfigView>,
    filetype: Seq<char>,
)
    requires
        is_server_order(a, servers, filetype),
        is_server_order(b, servers, filetype),
    ensures
        a == b,
{
    assert forall|x: (Seq<char>, ServerConfigView)| a.contains(x) <==> b.contains(x) by {
        if a.contains(x) {
            let i = choose|i: int| 0 <= i < a.len() && a[i] == x;
            assert(servers.contains_key(a[i].0));
        }
        if b.contains(x) {
            let i = choose|i: int| 0 <= i < b.len() && b[i] == x;
            assert(servers.contains_key(b[i].0));
        }
    }
    lemma_sorted_unique(a, b);
}

proof fn lemma_sorted_unique(
    a: Seq<(Seq<char>, ServerConfigView)>,
    b: Seq<(Seq<char>, ServerConfigView)>,
)
    requires
        forall|i: int, j: int|
            0 <= i < j < a.len() ==> server_before(#[trigger] a[i], #[trigger] a[j]),
        forall|i: int, j: int|
            0 <= i < j < b.len() ==> server_before(#[trigger] b[i], #[trigger] b[j]),
        forall|x: (Seq<char>, ServerConfigView)| a.contains(x) <==> b.contains(x),
    ensures
        a == b,
    decreases a.len(),
{
    if a.len() == 0 {
        if b.len() > 0 {
            assert(b.contains(b[0]));
        }
        assert(a =~= b);
    } else {
        assert(a.contains(a[0]));
        let j = choose|j: int| 0 <= j < b.len() && b[j] == a[0];
        assert(b.contains(b[0]));
        let k = choose|k: int| 0 <= k < a.len() && a[k] == b[0];
        text::lemma_text_less_total(a[0].0, b[0].0);
        if j > 0 {
            assert(server_before(b[0], b[j]));
            if k > 0 {
                assert(server_before(a[0], a[k]));
            }
        }
        assert(a[0] == b[0]);
        let x = a.drop_first();
        let y = b.drop_first();
        assert forall|z: (Seq<char>, ServerConfigView)| x.contains(z) <==> y.contains(z) by {
            text::lemma_text_less_total(a[0].0, a[0].0);
            if x.contains(z) {
                let i = choose|i: int| 0 <= i < x.len() && x[i] == z;
                assert(a[i + 1] == z);
                assert(server_before(a[0], a[i + 1]));
                assert(a.contains(z));
                let m = choose|m: int| 0 <= m < b.len() && b[m] == z;
                assert(m > 0);
                assert(y[m - 1] == z);
            }
            if y.contains(z) {
                let i = choose|i: int| 0 <= i < y.len() && y[i] == z;
                assert(b[i + 1] == z);
                assert(server_before(b[0], b[i + 1]));
                assert(b.contains(z));
                let m = choose|m: int| 0 <= m < a.len() && a[m] == z;
                assert(m > 0);
                assert(x[m - 1] == z);
            }
        }
        lemma_sorted_unique(x, y);
        assert(a =~= seq![a[0]] + x);
        assert(b =~= seq![b[0]] + y);
    }
}

/// Every filetype that some server names leads back to a server.
pub proof fn law_named_filetypes_resolve(
    servers: Map<Seq<char>, ServerConfigView>,
    list: Seq<(Seq<char>, ServerConfigView)>,
    name: Seq<char>,
    filetype: Seq<char>,
)
    requires
        is_server_order(list, servers, filetype),
        servers.contains_key(name),
        servers[name].filetypes.contains(filetype),
    ensures
        list.len() > 0,
        is_chosen(list[0], servers, filetype),
{
    assert(list.contains((name, servers[name])));
    assert forall|other: Seq<char>| #[trigger]
        servers.contains_key(other) && handles(servers[other], filetype) && other
            != list[0].0 implies server_before(list[0], (other, servers[other])) by {
        let i = choose|i: int| 0 <= i < list.len() && list[i] == (other, servers[other]);
        assert(i > 0);
        assert(server_before(list[0], list[i]));
    }
}

// ---------------------------------------------------------------------------
// Checking a configuration
// ---------------------------------------------------------------------------

/// Whether a list of filetypes holds one that is blank.
pub open spec fn has_blank(list: Seq<Seq<char>>) -> bool {
    exists|i: int| 0 <= i < list.len() && text::trimmed(#[trigger] list[i]).len() == 0
}

/// What is wrong with a server's configuration, if anything is.
pub open spec fn server_problem(name: Seq<char>, server: ServerConfigView) -> Option<Seq<char>> {
    if text::trimmed(name).len() == 0 {
        Some("language server names must not be empty"@)
    } else if text::trimmed(server.command).len() == 0 {
        Some("language server '"@ + name + "' has an empty command"@)
    } else if has_blank(server.filetypes) {
        Some("language server '"@ + name + "' contains an empty filetype"@)
    } else {
        None
    }
}

fn any_blank(list: &Vec<String>) -> (r: bool)
    ensures
        r == has_blank(list.deep_view()),
{
    let mut i: usize = 0;
    while i < list.len()
        invariant
            i <= list@.len(),
            forall|k: int| 0 <= k < i ==> text::trimmed((#[trigger] list@[k])@).len() != 0,
        decreases list@.len() - i,
    {
        if text::is_blank(list[i].as_str()) {
            assert(text::trimmed(list.deep_view()[i as int]).len() == 0);
            return true;
        }
        i = i + 1;
    }
    assert forall|k: int| 0 <= k < list.deep_view().len() implies text::trimmed(
        #[trigger] list.deep_view()[k],
    ).len() != 0 by {
        assert(list.deep_view()[k] == list@[k]@);
    }
    false
}

fn problem(name: &str, server: &ServerConfig) -> (r: Option<String>)
    ensures
        r.deep_view() == server_problem(name@, server.deep_view()),
{
    if text::is_blank(name) {
        Some("language server names must not be empty".to_string())
    } else if text::is_blank(server.command.as_str()) {
        Some(
            "language server '".to_string().concat(name).concat("' has an empty command"),
        )
    } else if any_blank(&server.filetypes) {
        Some(
            "language server '".to_string().concat(name).concat("' contains an empty filetype"),
        )
    } else {
        None
    }
}

impl Config {
    /// Checks a configuration. Where several servers have a problem, the error
    /// names one of them.
    pub fn validate(&self) -> (r: Result<(), String>)
        ensures
            match r {
                Ok(_) => is_valid(self@),
                Err(e) => is_problem(e@, self@),
            },
    {
        let entries = &self.language_servers.entries;
        let mut i: usize = 0;
        while i < entries.len()
            invariant
                i <= entries@.len(),
                *entries == self.language_servers.entries,
                forall|k: int|
                    0 <= k < i ==> server_problem(
                        (#[trigger] entries@[k]).0@,
                        self@[entries@[k].0@],
                    ) is None,
            decreases entries@.len() - i,
        {
            let name = entries[i].0.as_str();
            match self.language_servers.get(name) {
                Some(server) => {
                    if let Some(e) = problem(name, server) {
                        assert(self@.contains_key(name@));
                        return Err(e);
                    }
                },
                None => {
                    let at: usize = self.language_servers.position(name);
                    assert(entries@[i as int].0@ == name@);
                },
            }
            i = i + 1;
        }
        assert forall|name: Seq<char>| #[trigger] self@.contains_key(name) implies server_problem(
            name,
            self@[name],
        ) is None by {
            self.language_servers.lemma_entry_of(name);
            let j = choose|j: int| 0 <= j < entries@.len() && (#[trigger] entries@[j]).0@ == name;
            assert(entries@[j].0@ == name);
        }
        Ok(())
    }
}

// ---------------------------------------------------------------------------
// Where a configuration comes from
// ---------------------------------------------------------------------------

/// What a configuration file holds.
pub enum FileContent {
    /// It could not be read.
    Unreadable,
    /// It holds something else.
    Invalid,
    /// It holds a configuration.
    Parsed(Config),
}

/// Whether a configuration has no problem.
pub open spec fn is_valid(servers: Map<Seq<char>, ServerConfigView>) -> bool {
    forall|name: Seq<char>| #[trigger]
        servers.contains_key(name) ==> server_problem(name, servers[name]) is None
}

/// Whether an error names a problem of a configuration.
pub open spec fn is_problem(e: Seq<char>, servers: Map<Seq<char>, ServerConfigView>) -> bool {
    exists|name: Seq<char>| #[trigger]
        servers.contains_key(name) && server_problem(name, servers[name]) == Some(e)
}

impl Config {
    /// Takes the configuration of a file, or says what is wrong with it.
    pub fn load(path: &[u8], content: FileContent) -> (r: Result<Config, String>)
        ensures
            match content {
                FileContent::Unreadable => r matches Err(e) && e@
                    == "failed to read configuration "@ + byte_path::shown_text(path@),
                FileContent::Invalid => r matches Err(e) && e@
                    == "invalid JSON in configuration "@ + byte_path::shown_text(path@),
                FileContent::Parsed(c) => match r {
                    Ok(taken) => taken == c && is_valid(c@),
                    Err(e) => is_problem(e@, c@),
                },
            },
    {
        match content {
            FileContent::Unreadable => Err(
                "failed to read configuration ".to_string().concat(byte_path::shown(path).as_str()),
            ),
            FileContent::Invalid => Err(
                "invalid JSON in configuration ".to_string().concat(byte_path::shown(path).as_str()),
            ),
            FileContent::Parsed(c) => match c.validate() {
                Ok(_) => Ok(c),
                Err(e) => Err(e),
            },
        }
    }
}

/// Where a configuration comes from.
pub enum ConfigSource {
    /// A file, by the bytes of its path. Its errors are reported.
    File(Vec<u8>),
    /// The built-in servers.
    BuiltIn,
}

/// The files that may hold a configuration, the first that exists counts: two
/// in the project, then one in the home directory.
pub open spec fn candidate_paths(project_root: Seq<u8>, home: Option<Seq<u8>>) -> Seq<Seq<u8>> {
    let local = seq![
        byte_path::joined_text(project_root, "simplecc.json"@),
        byte_path::joined_text(project_root, ".simplecc.json"@),
    ];
    match home {
        Some(h) => local.push(byte_path::joined_text(h, ".config/simplecc/simplecc.json"@)),
        None => local,
    }
}

/// The files that may hold a configuration.
pub fn config_candidates(project_root: &str, home: Option<&[u8]>) -> (r: Vec<Vec<u8>>)
    ensures
        r.deep_view() == candidate_paths(encode_utf8(project_root@), byte_path::bytes_in(home)),
{
    let root = project_root.as_bytes();
    let mut out: Vec<Vec<u8>> = Vec::new();
    out.push(byte_path::join_text(root, "simplecc.json"));
    out.push(byte_path::join_text(root, ".simplecc.json"));
    if let Some(h) = home {
        out.push(byte_path::join_text(h, ".config/simplecc/simplecc.json"));
    }
    proof {
        let expected = candidate_paths(encode_utf8(project_root@), byte_path::bytes_in(home));
        assert forall|i: int| 0 <= i < expected.len() implies #[trigger] out.deep_view()[i]
            == expected[i] by {
            assert(out.deep_view()[i] =~= out@[i]@);
        }
        assert(out.deep_view() =~= expected);
    }
    out
}

/// The bytes of an explicit path.
pub open spec fn explicit_bytes(explicit_path: Option<&str>) -> Option<Seq<u8>> {
    match explicit_path {
        Some(p) => Some(encode_utf8(p@)),
        None => None,
    }
}

/// The file that holds the configuration: an explicit path where one is given,
/// and otherwise the first candidate that exists.
pub open spec fn selected_path(
    explicit: Option<Seq<u8>>,
    candidates: Seq<Seq<u8>>,
    exists_at: Seq<bool>,
) -> Option<Seq<u8>> {
    if explicit matches Some(p) && p.len() > 0 {
        explicit
    } else {
        first_existing(candidates, exists_at)
    }
}

/// The first candidate that exists.
pub open spec fn first_existing(candidates: Seq<Seq<u8>>, exists_at: Seq<bool>) -> Option<
    Seq<u8>,
>
    decreases candidates.len(),
{
    if candidates.len() == 0 || exists_at.len() == 0 {
        None
    } else if exists_at[0] {
        Some(candidates[0])
    } else {
        first_existing(candidates.drop_first(), exists_at.drop_first())
    }
}

impl Config {
    /// Finds the file that may hold the configuration of a project, given which
    /// of the candidates exist.
    pub fn find_path(candidates: &Vec<Vec<u8>>, exists_at: &Vec<bool>) -> (r: Option<Vec<u8>>)
        ensures
            r.deep_view() == first_existing(candidates.deep_view(), exists_at@),
    {
        let ghost cs = candidates.deep_view();
        let mut i: usize = 0;
        assert(cs.skip(0) =~= cs);
        assert(exists_at@.skip(0) =~= exists_at@);
        while i < candidates.len() && i < exists_at.len()
            invariant
                i <= candidates@.len(),
                i <= exists_at@.len(),
                cs == candidates.deep_view(),
                first_existing(cs, exists_at@) == first_existing(
                    cs.skip(i as int),
                    exists_at@.skip(i as int),
                ),
            decreases candidates@.len() - i,
        {
            assert(cs.skip(i as int)[0] =~= candidates@[i as int]@);
            assert(cs.skip(i as int).drop_first() =~= cs.skip(i + 1));
            assert(exists_at@.skip(i as int).drop_first() =~= exists_at@.skip(i + 1));
            if exists_at[i] {
                let found = byte_path::copy(candidates[i].as_slice());
                assert(found.deep_view() =~= found@);
                return Some(found);
            }
            i = i + 1;
        }
        None
    }

    /// Selects where the configuration comes from. An explicit path is taken
    /// even where there is no such file: its error must not be hidden by the
    /// built-in servers.
    pub fn load_selected(
        explicit_path: Option<&str>,
        candidates: &Vec<Vec<u8>>,
        exists_at: &Vec<bool>,
    ) -> (r: ConfigSource)
        ensures
            match selected_path(explicit_bytes(explicit_path), candidates.deep_view(), exists_at@) {
                Some(p) => r matches ConfigSource::File(f) && f@ == p,
                None => r is BuiltIn,
            },
    {
        if let Some(p) = explicit_path {
            let bytes = p.as_bytes();
            if bytes.len() > 0 {
                return ConfigSource::File(byte_path::copy(bytes));
            }
        }
        match Config::find_path(candidates, exists_at) {
            Some(p) => {
                assert(p.deep_view() =~= p@);
                ConfigSource::File(p)
            },
            None => ConfigSource::BuiltIn,
        }
    }
}

impl Config {
    /// Takes the configuration from where it comes from: the built-in servers, or
    /// what the selected file holds. The content of a file is not looked at where
    /// none was selected.
    pub fn from_source(source: ConfigSource, content: FileContent) -> (r: Result<Config, String>)
        ensures
            match source {
                ConfigSource::BuiltIn => r matches Ok(c) && c@ == default_servers(),
                ConfigSource::File(path) => match content {
                    FileContent::Unreadable => r matches Err(e) && e@
                        == "failed to read configuration "@ + byte_path::shown_text(path@),
                    FileContent::Invalid => r matches Err(e) && e@
                        == "invalid JSON in configuration "@ + byte_path::shown_text(path@),
                    FileContent::Parsed(c) => match r {
                        Ok(taken) => taken == c && is_valid(c@),
                        Err(e) => is_problem(e@, c@),
                    },
                },
            },
    {
        match source {
            ConfigSource::BuiltIn => Ok(Config::default()),
            ConfigSource::File(path) => Config::load(path.as_slice(), content),
        }
    }
}

// ---------------------------------------------------------------------------
// Whether a configuration is consistent
// ---------------------------------------------------------------------------

/// Whether some server handles a filetype.
pub open spec fn is_served(servers: Map<Seq<char>, ServerConfigView>, filetype: Seq<char>) -> bool {
    exists|name: Seq<char>| #[trigger]
        servers.contains_key(name) && handles(servers[name], filetype)
}

/// Whether every filetype that a server lists has a server.
pub open spec fn filetypes_are_served(servers: Map<Seq<char>, ServerConfigView>) -> bool {
    forall|name: Seq<char>, filetype: Seq<char>|
        servers.contains_key(name) && #[trigger] servers[name].filetypes.contains(filetype)
            ==> is_served(servers, filetype)
}

/// Whether an error names a filetype without a server.
pub open spec fn is_unserved(e: Seq<char>, servers: Map<Seq<char>, ServerConfigView>) -> bool {
    exists|name: Seq<char>, filetype: Seq<char>|
        servers.contains_key(name) && #[trigger] servers[name].filetypes.contains(filetype)
            && !is_served(servers, filetype) && e == "no server for filetype "@ + filetype
            + " of "@ + name
}

impl Config {
    /// Checks that a configuration has no problem and that every filetype in it
    /// has a server.
    pub fn self_test(&self) -> (r: Result<(), String>)
        ensures
            r is Ok <==> is_valid(self@) && filetypes_are_served(self@),
            r matches Err(e) ==> is_problem(e@, self@) || is_unserved(e@, self@),
    {
        if let Err(e) = self.validate() {
            return Err(e);
        }
        let entries = &self.language_servers.entries;
        let mut i: usize = 0;
        while i < entries.len()
            invariant
                i <= entries@.len(),
                *entries == self.language_servers.entries,
                is_valid(self@),
                forall|k: int, filetype: Seq<char>|
                    0 <= k < i && #[trigger] self@[entries@[k].0@].filetypes.contains(filetype)
                        ==> is_served(self@, filetype),
            decreases entries@.len() - i,
        {
            let name = entries[i].0.as_str();
            if let Some(server) = self.language_servers.get(name) {
                let ghost listed = server.deep_view().filetypes;
                let mut j: usize = 0;
                while j < server.filetypes.len()
                    invariant
                        j <= server.filetypes@.len(),
                        listed == server.filetypes.deep_view(),
                        self@.contains_key(name@),
                        self@[name@].filetypes == listed,
                        forall|k: int| 0 <= k < j ==> is_served(self@, #[trigger] listed[k]),
                    decreases server.filetypes@.len() - j,
                {
                    let filetype = server.filetypes[j].as_str();
                    assert(listed[j as int] == filetype@);
                    if self.server_for_filetype(filetype).is_none() {
                        assert(self@[name@].filetypes.contains(filetype@));
                        return Err(
                            "no server for filetype ".to_string().concat(filetype).concat(
                                " of ",
                            ).concat(name),
                        );
                    }
                    j = j + 1;
                }
            } else {
                let at: usize = self.language_servers.position(name);
                assert(entries@[i as int].0@ == name@);
            }
            i = i + 1;
        }
        proof {
            assert forall|name: Seq<char>, filetype: Seq<char>|
                self@.contains_key(name) && #[trigger] self@[name].filetypes.contains(
                    filetype,
                ) implies is_served(self@, filetype) by {
                self.language_servers.lemma_entry_of(name);
                let k = choose|k: int| 0 <= k < entries@.len() && (#[trigger] entries@[k]).0@ == name;
                assert(self@[entries@[k].0@].filetypes.contains(filetype));
            }
        }
        Ok(())
    }
}

/// Every filetype that a server lists has a server, so that a configuration
/// fails its self-test only for a problem.
pub proof fn law_listed_filetypes_are_served(servers: Map<Seq<char>, ServerConfigView>)
    ensures
        filetypes_are_served(servers),
{
    assert forall|name: Seq<char>, filetype: Seq<char>|
        servers.contains_key(name) && #[trigger] servers[name].filetypes.contains(
            filetype,
        ) implies is_served(servers, filetype) by {
        assert(handles(servers[name], filetype));
    }
}

proof fn lemma_not_blank(s: Seq<char>)
    requires
        s.len() > 0,
        !text::whitespace(s[0]),
    ensures
        text::trimmed(s).len() > 0,
{
    lemma_end_kept(s);
}

proof fn lemma_end_kept(s: Seq<char>)
    requires
        s.len() > 0,
        !text::whitespace(s[0]),
    ensures
        text::trim_end(s).len() > 0,
    decreases s.len(),
{
    if text::whitespace(s.last()) {
        lemma_end_kept(s.drop_last());
    }
}

/// The built-in servers pass the self-test.
pub proof fn law_builtin_servers_are_consistent()
    ensures
        is_valid(default_servers()),
        filetypes_are_served(default_servers()),
{
    assert(server_problem("rust-analyzer"@, rust_analyzer_view()) is None) by {
        reveal_strlit("rust-analyzer");
        lemma_not_blank("rust-analyzer"@);
        reveal_strlit("rust");
        lemma_not_blank("rust"@);
        let list = rust_analyzer_view().filetypes;
        assert forall|i: int| 0 <= i < list.len() implies text::trimmed(#[trigger] list[i]).len() != 0 by {}
    }
    assert(server_problem("clangd"@, clangd_view()) is None) by {
        reveal_strlit("clangd");
        lemma_not_blank("clangd"@);
        reveal_strlit("c");
        lemma_not_blank("c"@);
        reveal_strlit("cpp");
        lemma_not_blank("cpp"@);
        let list = clangd_view().filetypes;
        assert forall|i: int| 0 <= i < list.len() implies text::trimmed(#[trigger] list[i]).len() != 0 by {}
    }
    assert(server_problem("pyright"@, pyright_view()) is None) by {
        reveal_strlit("pyright");
        lemma_not_blank("pyright"@);
        reveal_strlit("pyright-langserver");
        lemma_not_blank("pyright-langserver"@);
        reveal_strlit("python");
        lemma_not_blank("python"@);
        let list = pyright_view().filetypes;
        assert forall|i: int| 0 <= i < list.len() implies text::trimmed(#[trigger] list[i]).len() != 0 by {}
    }
    assert(server_problem("typescript-language-server"@, typescript_language_server_view()) is None) by {
        reveal_strlit("typescript-language-server");
        lemma_not_blank("typescript-language-server"@);
        reveal_strlit("typescript");
        lemma_not_blank("typescript"@);
        reveal_strlit("javascript");
        lemma_not_blank("javascript"@);
        reveal_strlit("typescriptreact");
        lemma_not_blank("typescriptreact"@);
        reveal_strlit("javascriptreact");
        lemma_not_blank("javascriptreact"@);
        let list = typescript_language_server_view().filetypes;
        assert forall|i: int| 0 <= i < list.len() implies text::trimmed(#[trigger] list[i]).len() != 0 by {}
    }
    assert(server_problem("lua-language-server"@, lua_language_server_view()) is None) by {
        reveal_strlit("lua-language-server");
        lemma_not_blank("lua-language-server"@);
        reveal_strlit("lua");
        lemma_not_blank("lua"@);
        let list = lua_language_server_view().filetypes;
        assert forall|i: int| 0 <= i < list.len() implies text::trimmed(#[trigger] list[i]).len() != 0 by {}
    }
    assert(server_problem("gopls"@, gopls_view()) is None) by {
        reveal_strlit("gopls");
        lemma_not_blank("gopls"@);
        reveal_strlit("go");
        lemma_not_blank("go"@);
        reveal_strlit("gomod");
        lemma_not_blank("gomod"@);
        let list = gopls_view().filetypes;
        assert forall|i: int| 0 <= i < list.len() implies text::trimmed(#[trigger] list[i]).len() != 0 by {}
    }
    assert(server_problem("julia-lsp"@, julia_lsp_view()) is None) by {
        reveal_strlit("julia-lsp");
        lemma_not_blank("julia-lsp"@);
        reveal_strlit("julia");
        lemma_not_blank("julia"@);
        let list = julia_lsp_view().filetypes;
        assert forall|i: int| 0 <= i < list.len() implies text::trimmed(#[trigger] list[i]).len() != 0 by {}
    }
    law_listed_filetypes_are_served(default_servers());
}

/// An explicit path is never passed over for another file or for the built-in
/// servers.
pub proof fn law_explicit_path_is_taken(
    explicit: Seq<u8>,
    candidates: Seq<Seq<u8>>,
    exists_at: Seq<bool>,
)
    requires
        explicit.len() > 0,
    ensures
        selected_path(Some(explicit), candidates, exists_at) == Some(explicit),
{
}

/// Without an explicit path, a project's own files win over the one in the home
/// directory, and that one over the built-in servers.
pub proof fn law_project_file_wins(project_root: Seq<u8>, home: Seq<u8>, exists_at: Seq<bool>)
    requires
        exists_at.len() == 3,
    ensures
        selected_path(None, candidate_paths(project_root, Some(home)), exists_at) == if exists_at[0] {
            Some(byte_path::joined_text(project_root, "simplecc.json"@))
        } else if exists_at[1] {
            Some(byte_path::joined_text(project_root, ".simplecc.json"@))
        } else if exists_at[2] {
            Some(byte_path::joined_text(home, ".config/simplecc/simplecc.json"@))
        } else {
            None
        },
{
    let cs = candidate_paths(project_root, Some(home));
    reveal_with_fuel(first_existing, 4);
    assert(cs.drop_first()[0] == cs[1]);
    assert(cs.drop_first().drop_first()[0] == cs[2]);
    assert(cs.drop_first().drop_first().drop_first().len() == 0);
}

} // verus!
