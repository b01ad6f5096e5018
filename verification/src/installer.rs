//! Managed installations of language servers: where they are, what is
//! downloaded, and how a new one takes the place of an old one.

use vstd::prelude::*;
use vstd::string::*;
use vstd::utf8::*;

use crate::byte_path;
use crate::json::{Fields, Json, JsonView};
use crate::path;
use crate::text;

verus! {

/// The largest download, in bytes.
pub const MAX_DOWNLOAD_BYTES: u64 = 536870912;

/// The most bytes that an archive may expand to.
pub const MAX_EXTRACTED_BYTES: u64 = 1073741824;

// ---------------------------------------------------------------------------
// Platform
// ---------------------------------------------------------------------------

/// The operating system and the processor.
#[derive(Clone, Copy)]
pub struct Platform {
    pub os: &'static str,
    pub arch: &'static str,
}

/// Why servers cannot be installed on a platform, if they cannot.
pub open spec fn platform_error(os: Seq<char>, arch: Seq<char>) -> Option<Seq<char>> {
    if os != "linux"@ && os != "macos"@ {
        Some("managed server installation is not supported on "@ + os)
    } else if arch != "x86_64"@ && arch != "aarch64"@ {
        Some("managed server installation is not supported on "@ + arch + " architecture"@)
    } else {
        None
    }
}

impl Platform {
    /// Checks that servers can be installed on this platform.
    pub fn ensure_supported(&self) -> (r: Result<(), String>)
        ensures
            match r {
                Ok(_) => platform_error(self.os@, self.arch@) is None,
                Err(e) => platform_error(self.os@, self.arch@) == Some(e@),
            },
    {
        if !text::str_eq(self.os, "linux") && !text::str_eq(self.os, "macos") {
            return Err(
                "managed server installation is not supported on ".to_string().concat(self.os),
            );
        }
        if !text::str_eq(self.arch, "x86_64") && !text::str_eq(self.arch, "aarch64") {
            return Err(
                "managed server installation is not supported on ".to_string().concat(
                    self.arch,
                ).concat(" architecture"),
            );
        }
        Ok(())
    }
}

/// A name if it is one of two, and `unknown` otherwise.
pub open spec fn one_of(name: Seq<char>, a: Seq<char>, b: Seq<char>) -> Seq<char> {
    if name == a || name == b {
        name
    } else {
        "unknown"@
    }
}

/// The platform with the given names, as far as they are known.
pub fn current_platform(os: &str, arch: &str) -> (r: Platform)
    ensures
        r.os@ == one_of(os@, "linux"@, "macos"@),
        r.arch@ == one_of(arch@, "x86_64"@, "aarch64"@),
{
    Platform {
        os: if text::str_eq(os, "linux") {
            "linux"
        } else if text::str_eq(os, "macos") {
            "macos"
        } else {
            "unknown"
        },
        arch: if text::str_eq(arch, "x86_64") {
            "x86_64"
        } else if text::str_eq(arch, "aarch64") {
            "aarch64"
        } else {
            "unknown"
        },
    }
}

// ---------------------------------------------------------------------------
// Known servers
// ---------------------------------------------------------------------------

/// How a server is packed.
#[derive(Clone, Copy)]
pub enum ArchiveKind {
    Gz,
    TarGz,
    Zip,
    /// It is installed by a command.
    Command,
}

/// What is known of a server that can be installed.
#[derive(Clone, Copy)]
pub struct ServerMeta {
    pub name: &'static str,
    /// Owner and repository of its releases.
    pub github_repo: Option<&'static str>,
    pub archive_kind: ArchiveKind,
    /// Where its binary lies in an installation.
    pub binary_rel_path: &'static str,
}

/// The model of [`ServerMeta`].
#[verifier::ext_equal]
pub struct ServerMetaView {
    pub name: Seq<char>,
    pub github_repo: Option<Seq<char>>,
    pub archive_kind: ArchiveKind,
    pub binary_rel_path: Seq<char>,
}

impl DeepView for ServerMeta {
    type V = ServerMetaView;

    open spec fn deep_view(&self) -> ServerMetaView {
        ServerMetaView {
            name: self.name@,
            github_repo: match self.github_repo {
                Some(s) => Some(s@),
                None => None,
            },
            archive_kind: self.archive_kind,
            binary_rel_path: self.binary_rel_path@,
        }
    }
}

/// A server that is downloaded from its releases.
pub open spec fn released(
    name: Seq<char>,
    repo: Seq<char>,
    kind: ArchiveKind,
    binary: Seq<char>,
) -> ServerMetaView {
    ServerMetaView {
        name,
        github_repo: Some(repo),
        archive_kind: kind,
        binary_rel_path: binary,
    }
}

/// A server that is installed by a command.
pub open spec fn by_command(name: Seq<char>, binary: Seq<char>) -> ServerMetaView {
    ServerMetaView {
        name,
        github_repo: None,
        archive_kind: ArchiveKind::Command,
        binary_rel_path: binary,
    }
}

/// The servers that can be installed.
pub open spec fn known_servers_view() -> Seq<ServerMetaView> {
    seq![
        released(
            "rust-analyzer"@,
            "rust-lang/rust-analyzer"@,
            ArchiveKind::Gz,
            "rust-analyzer"@,
        ),
        released("clangd"@, "clangd/clangd"@, ArchiveKind::Zip, "bin/clangd"@),
        released(
            "lua-language-server"@,
            "LuaLS/lua-language-server"@,
            ArchiveKind::TarGz,
            "bin/lua-language-server"@,
        ),
        by_command("gopls"@, "gopls"@),
        by_command("pyright"@, "node_modules/.bin/pyright-langserver"@),
        by_command(
            "typescript-language-server"@,
            "node_modules/.bin/typescript-language-server"@,
        ),
        by_command("julia-lsp"@, "julia"@),
    ]
}

/// The servers that can be installed.
pub fn known_servers() -> (r: Vec<ServerMeta>)
    ensures
        r.deep_view() == known_servers_view(),
{
    let mut out: Vec<ServerMeta> = Vec::new();
    out.push(
        ServerMeta {
            name: "rust-analyzer",
            github_repo: Some("rust-lang/rust-analyzer"),
            archive_kind: ArchiveKind::Gz,
            binary_rel_path: "rust-analyzer",
        },
    );
    out.push(
        ServerMeta {
            name: "clangd",
            github_repo: Some("clangd/clangd"),
            archive_kind: ArchiveKind::Zip,
            binary_rel_path: "bin/clangd",
        },
    );
    out.push(
        ServerMeta {
            name: "lua-language-server",
            github_repo: Some("LuaLS/lua-language-server"),
            archive_kind: ArchiveKind::TarGz,
            binary_rel_path: "bin/lua-language-server",
        },
    );
    out.push(
        ServerMeta {
            name: "gopls",
            github_repo: None,
            archive_kind: ArchiveKind::Command,
            binary_rel_path: "gopls",
        },
    );
    out.push(
        ServerMeta {
            name: "pyright",
            github_repo: None,
            archive_kind: ArchiveKind::Command,
            binary_rel_path: "node_modules/.bin/pyright-langserver",
        },
    );
    out.push(
        ServerMeta {
            name: "typescript-language-server",
            github_repo: None,
            archive_kind: ArchiveKind::Command,
            binary_rel_path: "node_modules/.bin/typescript-language-server",
        },
    );
    // The Julia server is a package in a shared environment, not a binary.
    out.push(
        ServerMeta {
            name: "julia-lsp",
            github_repo: None,
            archive_kind: ArchiveKind::Command,
            binary_rel_path: "julia",
        },
    );
    assert(out.deep_view() =~= known_servers_view());
    out
}

/// Where a server stands among the known ones, if it does.
pub open spec fn server_index(servers: Seq<ServerMetaView>, name: Seq<char>) -> Option<int>
    decreases servers.len(),
{
    if servers.len() == 0 {
        None
    } else if servers[0].name == name {
        Some(0)
    } else {
        match server_index(servers.drop_first(), name) {
            Some(i) => Some(i + 1),
            None => None,
        }
    }
}

/// What is known of a server, if anything is.
pub open spec fn server_meta(name: Seq<char>) -> Option<ServerMetaView> {
    match server_index(known_servers_view(), name) {
        Some(i) => Some(known_servers_view()[i]),
        None => None,
    }
}

proof fn lemma_server_index(servers: Seq<ServerMetaView>, name: Seq<char>, i: int)
    requires
        0 <= i <= servers.len(),
        i < servers.len() ==> servers[i].name == name,
        forall|k: int| 0 <= k < i ==> (#[trigger] servers[k]).name != name,
    ensures
        server_index(servers, name) == if i < servers.len() {
            Some(i)
        } else {
            None
        },
    decreases servers.len(),
{
    if i > 0 {
        let rest = servers.drop_first();
        assert(servers[0].name != name);
        assert forall|k: int| 0 <= k < i - 1 implies (#[trigger] rest[k]).name != name by {
            assert(rest[k] == servers[k + 1]);
        }
        lemma_server_index(rest, name, i - 1);
    }
}

/// Finds what is known of a server.
pub fn find_server_meta(name: &str) -> (r: Option<ServerMeta>)
    ensures
        r.deep_view() == server_meta(name@),
{
    let servers = known_servers();
    let ghost all = servers.deep_view();
    let mut i: usize = 0;
    while i < servers.len()
        invariant
            i <= servers@.len(),
            all == servers.deep_view(),
            all == known_servers_view(),
            forall|k: int| 0 <= k < i ==> (#[trigger] all[k]).name != name@,
        decreases servers@.len() - i,
    {
        assert(all[i as int] == servers@[i as int].deep_view());
        if text::str_eq(servers[i].name, name) {
            proof {
                lemma_server_index(all, name@, i as int);
            }
            return Some(servers[i]);
        }
        i = i + 1;
    }
    proof {
        lemma_server_index(all, name@, i as int);
    }
    None
}

/// Whether a server can be installed.
pub fn is_known_server(name: &str) -> (r: bool)
    ensures
        r == (server_meta(name@) is Some),
{
    match find_server_meta(name) {
        Some(_) => true,
        None => false,
    }
}

// ---------------------------------------------------------------------------
// Downloads
// ---------------------------------------------------------------------------

/// The build of rust-analyzer for a platform.
pub open spec fn rust_target(os: Seq<char>, arch: Seq<char>) -> Seq<char> {
    if os == "linux"@ && arch == "aarch64"@ {
        "aarch64-unknown-linux-gnu"@
    } else if os == "macos"@ && arch == "x86_64"@ {
        "x86_64-apple-darwin"@
    } else if os == "macos"@ && arch == "aarch64"@ {
        "aarch64-apple-darwin"@
    } else {
        "x86_64-unknown-linux-gnu"@
    }
}

/// The build of clangd for a platform.
pub open spec fn clangd_os(os: Seq<char>) -> Seq<char> {
    if os == "macos"@ {
        "mac"@
    } else {
        "linux"@
    }
}

/// The build of the Lua server for a platform.
pub open spec fn lua_target(os: Seq<char>, arch: Seq<char>) -> Seq<char> {
    if os == "linux"@ && arch == "aarch64"@ {
        "linux-arm64"@
    } else if os == "macos"@ && arch == "x86_64"@ {
        "darwin-x64"@
    } else if os == "macos"@ && arch == "aarch64"@ {
        "darwin-arm64"@
    } else {
        "linux-x64"@
    }
}

/// Where a version of a server is downloaded from. A server that is installed
/// by a command has no such place.
pub open spec fn server_url(
    name: Seq<char>,
    os: Seq<char>,
    arch: Seq<char>,
    version: Seq<char>,
) -> Seq<char> {
    if name == "rust-analyzer"@ {
        "https://github.com/rust-lang/rust-analyzer/releases/download/"@ + version
            + "/rust-analyzer-"@ + rust_target(os, arch) + ".gz"@
    } else if name == "clangd"@ {
        "https://github.com/clangd/clangd/releases/download/"@ + version + "/clangd-"@ + clangd_os(
            os,
        ) + "-"@ + version + ".zip"@
    } else if name == "lua-language-server"@ {
        "https://github.com/LuaLS/lua-language-server/releases/download/"@ + version
            + "/lua-language-server-"@ + version + "-"@ + lua_target(os, arch) + ".tar.gz"@
    } else {
        Seq::empty()
    }
}

fn is_platform(plat: &Platform, os: &str, arch: &str) -> (r: bool)
    ensures
        r == (plat.os@ == os@ && plat.arch@ == arch@),
{
    text::str_eq(plat.os, os) && text::str_eq(plat.arch, arch)
}

/// A command that installs a server.
pub struct InstallCommand {
    pub program: String,
    pub args: Vec<String>,
    pub env: Vec<(String, String)>,
}

/// The model of [`InstallCommand`].
#[verifier::ext_equal]
pub struct InstallCommandView {
    pub program: Seq<char>,
    pub args: Seq<Seq<char>>,
    pub env: Seq<(Seq<char>, Seq<char>)>,
}

impl DeepView for InstallCommand {
    type V = InstallCommandView;

    open spec fn deep_view(&self) -> InstallCommandView {
        InstallCommandView {
            program: self.program@,
            args: self.args.deep_view(),
            env: self.env.deep_view(),
        }
    }
}

/// A command that installs npm packages below a directory, never globally.
pub open spec fn npm_command(
    install_dir: Seq<char>,
    packages: Seq<Seq<char>>,
) -> InstallCommandView {
    InstallCommandView {
        program: "npm"@,
        args: seq![
            "install"@,
            "--no-audit"@,
            "--no-fund"@,
            "--prefix"@,
            install_dir,
        ] + packages,
        env: Seq::empty(),
    }
}

/// The command that installs a server into a directory, where there is one.
pub open spec fn server_command(name: Seq<char>, install_dir: Seq<char>) -> Option<
    InstallCommandView,
> {
    if name == "gopls"@ {
        Some(
            InstallCommandView {
                program: "go"@,
                args: seq!["install"@, "golang.org/x/tools/gopls@latest"@],
                env: seq![("GOBIN"@, install_dir)],
            },
        )
    } else if name == "pyright"@ {
        Some(npm_command(install_dir, seq!["pyright"@]))
    } else if name == "typescript-language-server"@ {
        Some(npm_command(install_dir, seq!["typescript"@, "typescript-language-server"@]))
    } else {
        None
    }
}

fn npm_args(install_dir: &str) -> (r: Vec<String>)
    ensures
        r.deep_view() == seq![
            "install"@,
            "--no-audit"@,
            "--no-fund"@,
            "--prefix"@,
            install_dir@,
        ],
{
    let mut args: Vec<String> = Vec::new();
    args.push("install".to_string());
    args.push("--no-audit".to_string());
    args.push("--no-fund".to_string());
    args.push("--prefix".to_string());
    args.push(install_dir.to_string());
    assert(args.deep_view() =~= seq![
        "install"@,
        "--no-audit"@,
        "--no-fund"@,
        "--prefix"@,
        install_dir@,
    ]);
    args
}

/// The ending of an archive's file name.
pub open spec fn archive_ending(kind: ArchiveKind) -> Option<Seq<char>> {
    match kind {
        ArchiveKind::Gz => Some(".gz"@),
        ArchiveKind::TarGz => Some(".tar.gz"@),
        ArchiveKind::Zip => Some(".zip"@),
        ArchiveKind::Command => None,
    }
}

impl ServerMeta {
    /// Where a version of the server is downloaded from.
    pub fn download_url(&self, plat: &Platform, version: &str) -> (r: String)
        ensures
            r@ == server_url(self.name@, plat.os@, plat.arch@, version@),
    {
        if text::str_eq(self.name, "rust-analyzer") {
            let target = if is_platform(plat, "linux", "aarch64") {
                "aarch64-unknown-linux-gnu"
            } else if is_platform(plat, "macos", "x86_64") {
                "x86_64-apple-darwin"
            } else if is_platform(plat, "macos", "aarch64") {
                "aarch64-apple-darwin"
            } else {
                "x86_64-unknown-linux-gnu"
            };
            "https://github.com/rust-lang/rust-analyzer/releases/download/".to_string().concat(
                version,
            ).concat("/rust-analyzer-").concat(target).concat(".gz")
        } else if text::str_eq(self.name, "clangd") {
            let os = if text::str_eq(plat.os, "macos") {
                "mac"
            } else {
                "linux"
            };
            "https://github.com/clangd/clangd/releases/download/".to_string().concat(
                version,
            ).concat("/clangd-").concat(os).concat("-").concat(version).concat(".zip")
        } else if text::str_eq(self.name, "lua-language-server") {
            let target = if is_platform(plat, "linux", "aarch64") {
                "linux-arm64"
            } else if is_platform(plat, "macos", "x86_64") {
                "darwin-x64"
            } else if is_platform(plat, "macos", "aarch64") {
                "darwin-arm64"
            } else {
                "linux-x64"
            };
            "https://github.com/LuaLS/lua-language-server/releases/download/".to_string().concat(
                version,
            ).concat("/lua-language-server-").concat(version).concat("-").concat(target).concat(
                ".tar.gz",
            )
        } else {
            String::new()
        }
    }

    /// The command that installs the server into a directory.
    pub fn install_command(&self, install_dir: &[u8]) -> (r: Option<InstallCommand>)
        ensures
            r.deep_view() == server_command(self.name@, byte_path::shown_text(install_dir@)),
    {
        let shown = byte_path::shown(install_dir);
        let install_dir = shown.as_str();
        if text::str_eq(self.name, "gopls") {
            let mut args: Vec<String> = Vec::new();
            args.push("install".to_string());
            args.push("golang.org/x/tools/gopls@latest".to_string());
            assert(args.deep_view() =~= seq!["install"@, "golang.org/x/tools/gopls@latest"@]);
            let mut env: Vec<(String, String)> = Vec::new();
            env.push(("GOBIN".to_string(), install_dir.to_string()));
            assert(env.deep_view() =~= seq![("GOBIN"@, install_dir@)]);
            Some(InstallCommand { program: "go".to_string(), args, env })
        } else if text::str_eq(self.name, "pyright") {
            let mut args = npm_args(install_dir);
            let ghost common = args.deep_view();
            args.push("pyright".to_string());
            assert(args.deep_view() =~= common + seq!["pyright"@]);
            let env: Vec<(String, String)> = Vec::new();
            assert(env.deep_view() =~= Seq::empty());
            Some(InstallCommand { program: "npm".to_string(), args, env })
        } else if text::str_eq(self.name, "typescript-language-server") {
            let mut args = npm_args(install_dir);
            let ghost common = args.deep_view();
            args.push("typescript".to_string());
            args.push("typescript-language-server".to_string());
            assert(args.deep_view() =~= common + seq![
                "typescript"@,
                "typescript-language-server"@,
            ]);
            let env: Vec<(String, String)> = Vec::new();
            assert(env.deep_view() =~= Seq::empty());
            Some(InstallCommand { program: "npm".to_string(), args, env })
        } else {
            None
        }
    }

    /// The file that the server's archive is downloaded to, where it has one.
    pub fn archive_file(&self, install_dir: &[u8]) -> (r: Option<Vec<u8>>)
        ensures
            r.deep_view() == match archive_ending(self.archive_kind) {
                Some(ending) => Some(
                    byte_path::joined_text(install_dir@, "download"@ + ending),
                ),
                None => None,
            },
    {
        let ending = match self.archive_kind {
            ArchiveKind::Gz => ".gz",
            ArchiveKind::TarGz => ".tar.gz",
            ArchiveKind::Zip => ".zip",
            ArchiveKind::Command => {
                return None;
            },
        };
        let file = byte_path::join_text(
            install_dir,
            "download".to_string().concat(ending).as_str(),
        );
        assert(file.deep_view() =~= file@);
        Some(file)
    }
}

/// Where the newest release of a repository is described.
pub fn latest_release_url(repo: &str) -> (r: String)
    ensures
        r@ == "https://api.github.com/repos/"@ + repo@ + "/releases/latest"@,
{
    "https://api.github.com/repos/".to_string().concat(repo).concat("/releases/latest")
}

// ---------------------------------------------------------------------------
// Where installations are
// ---------------------------------------------------------------------------

/// What the environment says of directories.
pub struct InstallEnv {
    /// The bytes of the user's data directory.
    pub data_dir: Option<Vec<u8>>,
    /// The value of `HOME`, where it is text.
    pub home: Option<String>,
    /// The value of `JULIA_DEPOT_PATH`, as text.
    pub julia_depot_path: Option<String>,
}

/// The model of [`InstallEnv`].
#[verifier::ext_equal]
pub struct InstallEnvView {
    pub data_dir: Option<Seq<u8>>,
    pub home: Option<Seq<char>>,
    pub julia_depot_path: Option<Seq<char>>,
}

impl DeepView for InstallEnv {
    type V = InstallEnvView;

    open spec fn deep_view(&self) -> InstallEnvView {
        InstallEnvView {
            data_dir: self.data_dir.deep_view(),
            home: self.home.deep_view(),
            julia_depot_path: self.julia_depot_path.deep_view(),
        }
    }
}

/// The home directory, or `/tmp` where there is none.
pub open spec fn home_or_tmp(env: InstallEnvView) -> Seq<char> {
    match env.home {
        Some(h) => h,
        None => "/tmp"@,
    }
}

/// The directory that holds the installations.
pub open spec fn base_dir(env: InstallEnvView) -> Seq<u8> {
    byte_path::joined_text(
        match env.data_dir {
            Some(d) => d,
            None => byte_path::joined_text(encode_utf8(home_or_tmp(env)), ".local/share"@),
        },
        "simplecc/servers"@,
    )
}

/// The directory of a server's installation.
pub open spec fn install_dir_of(env: InstallEnvView, name: Seq<char>) -> Seq<u8> {
    byte_path::joined_text(base_dir(env), name)
}

/// The first piece of a list that is not empty.
pub open spec fn first_nonempty(pieces: Seq<Seq<char>>) -> Option<Seq<char>>
    decreases pieces.len(),
{
    if pieces.len() == 0 {
        None
    } else if pieces[0].len() > 0 {
        Some(pieces[0])
    } else {
        first_nonempty(pieces.drop_first())
    }
}

/// The first Julia depot: the one that the environment names, or `~/.julia`.
pub open spec fn depot_of(env: InstallEnvView) -> Seq<char> {
    let named = match env.julia_depot_path {
        Some(p) => first_nonempty(text::split(p, ':')),
        None => None,
    };
    match named {
        Some(d) => d,
        None => path::joined_path(home_or_tmp(env), ".julia"@),
    }
}

/// The project file of the environment that holds the Julia server.
pub open spec fn julia_project_of(env: InstallEnvView) -> Seq<char> {
    path::joined_path(
        path::joined_path(path::joined_path(depot_of(env), "environments"@), "simplecc"@),
        "Project.toml"@,
    )
}

/// The file that shows that a server is installed, where the server is known.
pub open spec fn marker_of(env: InstallEnvView, name: Seq<char>) -> Option<Seq<u8>> {
    if name == "julia-lsp"@ {
        Some(encode_utf8(julia_project_of(env)))
    } else {
        match server_meta(name) {
            Some(meta) => Some(
                byte_path::joined_text(install_dir_of(env, name), meta.binary_rel_path),
            ),
            None => None,
        }
    }
}

fn home_dir(env: &InstallEnv) -> (r: String)
    ensures
        r@ == home_or_tmp(env.deep_view()),
{
    match &env.home {
        Some(h) => h.clone(),
        None => "/tmp".to_string(),
    }
}

/// The directory that holds the installations.
pub fn base_install_dir(env: &InstallEnv) -> (r: Vec<u8>)
    ensures
        r@ == base_dir(env.deep_view()),
{
    let data = match &env.data_dir {
        Some(d) => {
            assert(d.deep_view() =~= d@);
            byte_path::copy(d.as_slice())
        },
        None => byte_path::join_text(home_dir(env).as_str().as_bytes(), ".local/share"),
    };
    byte_path::join_text(data.as_slice(), "simplecc/servers")
}

/// The directory of a server's installation.
pub fn server_install_dir(env: &InstallEnv, name: &str) -> (r: Vec<u8>)
    ensures
        r@ == install_dir_of(env.deep_view(), name@),
{
    byte_path::join_text(base_install_dir(env).as_slice(), name)
}

/// The first Julia depot.
pub fn julia_depot(env: &InstallEnv) -> (r: String)
    ensures
        r@ == depot_of(env.deep_view()),
{
    if let Some(p) = &env.julia_depot_path {
        let pieces = text::split_text(p.as_str(), ':');
        let ghost all = pieces.deep_view();
        let mut i: usize = 0;
        assert(all.skip(0) =~= all);
        while i < pieces.len()
            invariant
                i <= pieces@.len(),
                all == pieces.deep_view(),
                all == text::split(p@, ':'),
                env.julia_depot_path == Some(*p),
                first_nonempty(all) == first_nonempty(all.skip(i as int)),
            decreases pieces@.len() - i,
        {
            assert(all.skip(i as int)[0] == pieces@[i as int]@);
            assert(all.skip(i as int).drop_first() =~= all.skip(i + 1));
            if pieces[i].as_str().unicode_len() > 0 {
                return pieces[i].clone();
            }
            i = i + 1;
        }
        assert(all.skip(i as int) =~= Seq::<Seq<char>>::empty());
    }
    path::join(home_dir(env).as_str(), ".julia")
}

/// The project file of the environment that holds the Julia server.
pub fn julia_lsp_env_project(env: &InstallEnv) -> (r: String)
    ensures
        r@ == julia_project_of(env.deep_view()),
{
    let environments = path::join(julia_depot(env).as_str(), "environments");
    let own = path::join(environments.as_str(), "simplecc");
    path::join(own.as_str(), "Project.toml")
}

/// The file that shows that a server is installed.
pub fn installed_binary_path(env: &InstallEnv, name: &str) -> (r: Option<Vec<u8>>)
    ensures
        r.deep_view() == marker_of(env.deep_view(), name@),
{
    let marker = if text::str_eq(name, "julia-lsp") {
        byte_path::copy(julia_lsp_env_project(env).as_str().as_bytes())
    } else {
        match find_server_meta(name) {
            Some(meta) => {
                let dir = server_install_dir(env, name);
                byte_path::join_text(dir.as_slice(), meta.binary_rel_path)
            },
            None => {
                return None;
            },
        }
    };
    assert(marker.deep_view() =~= marker@);
    Some(marker)
}

// ---------------------------------------------------------------------------
// What is installed
// ---------------------------------------------------------------------------

/// What the file system says of a file.
#[derive(Clone, Copy)]
pub struct FileMeta {
    pub is_file: bool,
    pub len: u64,
    /// Its permissions, where the platform has them.
    pub mode: Option<u32>,
}

/// Whether a file can be run: it is not empty, and someone may execute it.
pub open spec fn usable(meta: Option<FileMeta>) -> bool {
    match meta {
        Some(m) => m.is_file && m.len > 0 && match m.mode {
            Some(mode) => mode & 0o111 != 0,
            None => true,
        },
        None => false,
    }
}

/// Whether a file can be run. Files that an interrupted installation left empty
/// or not executable cannot.
pub fn is_usable_executable(meta: Option<FileMeta>) -> (r: bool)
    ensures
        r == usable(meta),
{
    match meta {
        Some(m) => {
            if !m.is_file || m.len == 0 {
                return false;
            }
            match m.mode {
                Some(mode) => mode & 0o111 != 0,
                None => true,
            }
        },
        None => false,
    }
}

/// What was found of the file that shows that a server is installed.
pub struct Marker {
    pub meta: Option<FileMeta>,
    /// Its text, where it could be read.
    pub content: Option<String>,
}

/// Whether the text of a project file shows the Julia server.
pub open spec fn julia_installed(content: Option<Seq<char>>) -> bool {
    match content {
        Some(c) => text::has_infix(c, "LanguageServer"@),
        None => false,
    }
}

/// Whether a server is installed, given what was found of its marker.
pub open spec fn installed(
    name: Seq<char>,
    meta: Option<FileMeta>,
    content: Option<Seq<char>>,
) -> bool {
    if name == "julia-lsp"@ {
        julia_installed(content)
    } else {
        server_meta(name) is Some && usable(meta)
    }
}

/// Whether the text of a project file shows the Julia server.
pub fn is_julia_lsp_installed(content: Option<&str>) -> (r: bool)
    ensures
        r == julia_installed(text::text_of(content)),
{
    match content {
        Some(c) => text::contains_text(c, "LanguageServer"),
        None => false,
    }
}

/// Whether a server is installed, given what was found of its marker.
pub fn is_server_installed(name: &str, marker: &Marker) -> (r: bool)
    ensures
        r == installed(name@, marker.meta, marker.content.deep_view()),
{
    if text::str_eq(name, "julia-lsp") {
        return match &marker.content {
            Some(c) => is_julia_lsp_installed(Some(c.as_str())),
            None => is_julia_lsp_installed(None),
        };
    }
    is_known_server(name) && is_usable_executable(marker.meta)
}

/// A server that can be installed.
pub struct ServerInfo {
    pub name: String,
    pub installed: bool,
    pub path: Option<String>,
}

/// The model of [`ServerInfo`].
#[verifier::ext_equal]
pub struct ServerInfoView {
    pub name: Seq<char>,
    pub installed: bool,
    pub path: Option<Seq<char>>,
}

impl DeepView for ServerInfo {
    type V = ServerInfoView;

    open spec fn deep_view(&self) -> ServerInfoView {
        ServerInfoView {
            name: self.name@,
            installed: self.installed,
            path: self.path.deep_view(),
        }
    }
}

/// The JSON form of a server that can be installed.
pub open spec fn info_wire(v: ServerInfoView) -> JsonView {
    JsonView::Object(
        map![
            "name"@ => JsonView::Str(v.name),
            "installed"@ => JsonView::Bool(v.installed),
            "path"@ => crate::json::opt_str_view(v.path),
        ],
    )
}

impl ServerInfo {
    /// Writes the server as JSON.
    pub fn to_json(&self) -> (r: Json)
        ensures
            r@ == info_wire(self.deep_view()),
    {
        let mut f = Fields::new();
        f.put_str("name", self.name.as_str());
        f.put_bool("installed", self.installed);
        f.put("path", Json::of_option(&self.path));
        f.done()
    }
}

/// The file that shows that a server is installed, where it is, given what was
/// found of it.
pub open spec fn managed_path(env: InstallEnvView, name: Seq<char>, marker: Marker) -> Option<
    Seq<u8>,
> {
    if installed(name, marker.meta, marker.content.deep_view()) {
        marker_of(env, name)
    } else {
        None
    }
}

/// What a server looks like in the list, given what was found of its marker.
pub open spec fn info_of(env: InstallEnvView, name: Seq<char>, marker: Marker) -> ServerInfoView {
    ServerInfoView {
        name,
        installed: installed(name, marker.meta, marker.content.deep_view()),
        path: match managed_path(env, name, marker) {
            Some(bytes) => Some(byte_path::shown_text(bytes)),
            None => None,
        },
    }
}

/// The binary of a managed installation that is complete.
pub fn managed_binary(env: &InstallEnv, name: &str, marker: &Marker) -> (r: Option<Vec<u8>>)
    ensures
        r.deep_view() == managed_path(env.deep_view(), name@, *marker),
{
    if is_server_installed(name, marker) {
        installed_binary_path(env, name)
    } else {
        None
    }
}

/// The servers that can be installed, in order, and which of them are. The
/// markers are those of the known servers, in the same order.
pub fn list_installable(env: &InstallEnv, markers: &Vec<Marker>) -> (r: Vec<ServerInfo>)
    requires
        markers@.len() == known_servers_view().len(),
    ensures
        r.deep_view() == Seq::new(
            known_servers_view().len(),
            |i: int| info_of(env.deep_view(), known_servers_view()[i].name, markers@[i]),
        ),
{
    let servers = known_servers();
    let ghost all = known_servers_view();
    let mut out: Vec<ServerInfo> = Vec::new();
    let mut i: usize = 0;
    while i < servers.len()
        invariant
            i <= servers@.len(),
            all == servers.deep_view(),
            all == known_servers_view(),
            markers@.len() == all.len(),
            out@.len() == i,
            forall|k: int|
                0 <= k < i ==> (#[trigger] out@[k]).deep_view() == info_of(
                    env.deep_view(),
                    all[k].name,
                    markers@[k],
                ),
        decreases servers@.len() - i,
    {
        let name = servers[i].name;
        assert(all[i as int].name == name@);
        let is_installed = is_server_installed(name, &markers[i]);
        let path = match managed_binary(env, name, &markers[i]) {
            Some(bytes) => {
                assert(bytes.deep_view() =~= bytes@);
                Some(byte_path::shown(bytes.as_slice()))
            },
            None => None,
        };
        out.push(ServerInfo { name: name.to_string(), installed: is_installed, path });
        i = i + 1;
    }
    assert(out.deep_view() =~= Seq::new(
        known_servers_view().len(),
        |i: int| info_of(env.deep_view(), known_servers_view()[i].name, markers@[i]),
    ));
    out
}

// ---------------------------------------------------------------------------
// One installation at a time
// ---------------------------------------------------------------------------

/// The servers that are being installed.
pub struct InstallGuard {
    pub installing: Vec<String>,
}

/// Why an installation cannot begin, if it cannot.
pub open spec fn install_error(name: Seq<char>, installing: Set<Seq<char>>) -> Option<Seq<char>> {
    if server_meta(name) is None {
        Some("unknown server: "@ + name)
    } else if installing.contains(name) {
        Some(name + " is already being installed"@)
    } else {
        None
    }
}

impl InstallGuard {
    /// The servers that are being installed.
    pub open spec fn view(&self) -> Set<Seq<char>> {
        self.installing.deep_view().to_set()
    }

    /// No installation.
    pub fn new() -> (r: InstallGuard)
        ensures
            r@ == Set::<Seq<char>>::empty(),
    {
        let r = InstallGuard { installing: Vec::new() };
        assert(r@ =~= Set::<Seq<char>>::empty());
        r
    }

    /// Begins to install a server.
    pub fn begin_install(&mut self, name: &str) -> (r: Result<ServerMeta, String>)
        ensures
            match install_error(name@, old(self)@) {
                Some(e) => r matches Err(x) && x@ == e && final(self)@ == old(self)@,
                None => r matches Ok(meta) && Some(meta.deep_view()) == server_meta(name@)
                    && final(self)@ == old(self)@.insert(name@),
            },
    {
        let meta = match find_server_meta(name) {
            Some(m) => m,
            None => {
                return Err("unknown server: ".to_string().concat(name));
            },
        };
        if text::list_contains(&self.installing, name) {
            return Err(name.to_string().concat(" is already being installed"));
        }
        let ghost before = self.installing.deep_view();
        self.installing.push(name.to_string());
        proof {
            let now = self.installing.deep_view();
            assert(now =~= before.push(name@));
            assert forall|x: Seq<char>| now.contains(x) <==> before.contains(x) || x == name@ by {
                if before.contains(x) {
                    let k = choose|k: int| 0 <= k < before.len() && before[k] == x;
                    assert(now[k] == x);
                }
                if x == name@ {
                    assert(now[before.len() as int] == x);
                }
            }
            assert(now.to_set() =~= before.to_set().insert(name@));
        }
        Ok(meta)
    }

    /// Takes note that an installation has ended, well or not.
    pub fn end_install(&mut self, name: &str)
        ensures
            final(self)@ == old(self)@.remove(name@),
    {
        let ghost before = self.installing.deep_view();
        let mut rest: Vec<String> = Vec::new();
        let mut i: usize = 0;
        while i < self.installing.len()
            invariant
                i <= self.installing@.len(),
                before == self.installing.deep_view(),
                forall|x: Seq<char>|
                    #[trigger] rest.deep_view().contains(x) <==> x != name@ && exists|k: int|
                        0 <= k < i && #[trigger] before[k] == x,
            decreases self.installing@.len() - i,
        {
            let ghost prior = rest.deep_view();
            if !text::str_eq(self.installing[i].as_str(), name) {
                rest.push(self.installing[i].clone());
                assert(rest.deep_view() =~= prior.push(before[i as int]));
            }
            assert forall|x: Seq<char>|
                #[trigger] rest.deep_view().contains(x) <==> x != name@ && exists|k: int|
                    0 <= k < i + 1 && #[trigger] before[k] == x by {
                let now = rest.deep_view();
                if now.contains(x) {
                    let n = choose|n: int| 0 <= n < now.len() && now[n] == x;
                    if n < prior.len() {
                        assert(prior[n] == x);
                        assert(prior.contains(x));
                        let k = choose|k: int| 0 <= k < i && #[trigger] before[k] == x;
                        assert(0 <= k < i + 1 && before[k] == x);
                    } else {
                        assert(before[i as int] == x);
                    }
                }
                if x != name@ && exists|k: int| 0 <= k < i + 1 && #[trigger] before[k] == x {
                    let k = choose|k: int| 0 <= k < i + 1 && #[trigger] before[k] == x;
                    if k < i {
                        assert(prior.contains(x));
                        let n = choose|n: int| 0 <= n < prior.len() && prior[n] == x;
                        assert(now[n] == x);
                    } else {
                        assert(now[prior.len() as int] == x);
                    }
                }
            }
            i = i + 1;
        }
        assert(rest.deep_view().to_set() =~= before.to_set().remove(name@));
        self.installing = rest;
    }
}

/// While a server is being installed, it cannot be installed a second time;
/// once that has ended, it can.
pub proof fn law_one_installation_at_a_time(name: Seq<char>, installing: Set<Seq<char>>)
    requires
        install_error(name, installing) is None,
    ensures
        install_error(name, installing.insert(name)) is Some,
        install_error(name, installing.insert(name).remove(name)) is None,
{
}

// ---------------------------------------------------------------------------
// Progress
// ---------------------------------------------------------------------------

/// The event that reports how far an installation is.
pub open spec fn progress_event_view(
    server: Seq<char>,
    stage: Seq<char>,
    percent: u64,
) -> JsonView {
    JsonView::Object(
        map![
            "type"@ => JsonView::Str("installProgress"@),
            "server"@ => JsonView::Str(server),
            "stage"@ => JsonView::Str(stage),
            "percent"@ => JsonView::Int(percent as int),
        ],
    )
}

/// The event that reports how far an installation is.
pub fn progress_event(server: &str, stage: &str, percent: u64) -> (r: Json)
    ensures
        r@ == progress_event_view(server@, stage@, percent),
{
    let mut f = Fields::new();
    f.put_str("type", "installProgress");
    f.put_str("server", server);
    f.put_str("stage", stage);
    f.put_u64("percent", percent);
    f.done()
}

/// How far a download is.
pub struct Download {
    pub total: u64,
    pub downloaded: u64,
    pub last_percent: u64,
}

/// How much of a total a part is, in percent.
pub open spec fn percent_of(part: u64, total: u64) -> int {
    (part * 100) / (total as int)
}

impl Download {
    /// Whether the download is within its limits.
    pub open spec fn wf(&self) -> bool {
        &&& self.total <= MAX_DOWNLOAD_BYTES
        &&& self.downloaded <= MAX_DOWNLOAD_BYTES
        &&& self.last_percent <= MAX_DOWNLOAD_BYTES * 100
    }

    /// Begins a download of a size that is known, or not.
    pub fn start(content_length: Option<u64>) -> (r: Result<Download, String>)
        ensures
            match r {
                Ok(d) => d.wf() && d.downloaded == 0 && d.last_percent == 0 && d.total == (
                match content_length {
                    Some(n) => n,
                    None => 0,
                }),
                Err(e) => content_length matches Some(n) && n > MAX_DOWNLOAD_BYTES && e@
                    == "download is too large: "@ + text::decimal(n as nat) + " bytes (limit: "@
                    + text::decimal(MAX_DOWNLOAD_BYTES as nat) + " bytes)"@,
            },
            content_length matches Some(n) && n > MAX_DOWNLOAD_BYTES ==> r is Err,
    {
        let total: u64 = match content_length {
            Some(n) => n,
            None => 0,
        };
        if total > MAX_DOWNLOAD_BYTES {
            return Err(
                "download is too large: ".to_string().concat(
                    text::decimal_text(total).as_str(),
                ).concat(" bytes (limit: ").concat(
                    text::decimal_text(MAX_DOWNLOAD_BYTES).as_str(),
                ).concat(" bytes)"),
            );
        }
        Ok(Download { total, downloaded: 0, last_percent: 0 })
    }

    /// Takes note of a chunk. Gives the percentage to report, which is one in
    /// steps of at least five, or the error that the download is too large.
    pub fn chunk(&mut self, len: u64) -> (r: Result<Option<u64>, String>)
        requires
            old(self).wf(),
        ensures
            final(self).total == old(self).total,
            if old(self).downloaded + len > u64::MAX {
                &&& r matches Err(e) && e@ == "download size overflow"@
                &&& *final(self) == *old(self)
            } else if old(self).downloaded + len > MAX_DOWNLOAD_BYTES {
                &&& r matches Err(e) && e@ == "download exceeded the "@ + text::decimal(
                    MAX_DOWNLOAD_BYTES as nat,
                ) + " byte safety limit"@
                &&& final(self).downloaded == old(self).downloaded + len
                &&& final(self).last_percent == old(self).last_percent
            } else {
                let percent = percent_of(final(self).downloaded, old(self).total);
                &&& final(self).wf()
                &&& final(self).downloaded == old(self).downloaded + len
                &&& if old(self).total > 0 && percent >= old(self).last_percent + 5 {
                    &&& r matches Ok(Some(p)) && p == percent
                    &&& final(self).last_percent == percent
                } else {
                    &&& r matches Ok(None)
                    &&& final(self).last_percent == old(self).last_percent
                }
            },
    {
        let downloaded: u64 = match self.downloaded.checked_add(len) {
            Some(n) => n,
            None => {
                return Err("download size overflow".to_string());
            },
        };
        if downloaded > MAX_DOWNLOAD_BYTES {
            self.downloaded = downloaded;
            return Err(
                "download exceeded the ".to_string().concat(
                    text::decimal_text(MAX_DOWNLOAD_BYTES).as_str(),
                ).concat(" byte safety limit"),
            );
        }
        self.downloaded = downloaded;
        if self.total == 0 {
            return Ok(None);
        }
        let scaled: u64 = downloaded * 100;
        let percent: u64 = scaled / self.total;
        assert(percent <= scaled) by (nonlinear_arith)
            requires
                percent == scaled / self.total,
                self.total > 0,
        ;
        if percent >= self.last_percent + 5 {
            self.last_percent = percent;
            return Ok(Some(percent));
        }
        Ok(None)
    }
}

// ---------------------------------------------------------------------------
// Archives
// ---------------------------------------------------------------------------

/// The bytes that an archive has expanded to so far.
pub struct Extraction {
    pub extracted: u64,
}

/// What to do with an entry of a zip archive.
pub enum ZipAction {
    /// It is the top-level directory itself.
    Skip,
    /// It is a directory, at a place below the destination.
    MakeDir(Vec<u8>),
    /// It is a file, at a place below the destination.
    WriteFile(Vec<u8>),
}

/// Why an archive cannot expand by some more bytes, if it cannot.
pub open spec fn size_error(extracted: u64, size: u64, what: Seq<char>) -> Option<Seq<char>> {
    if extracted + size > u64::MAX {
        Some("expanded archive size overflow"@)
    } else if extracted + size > MAX_EXTRACTED_BYTES {
        Some("expanded "@ + what + " archive exceeds the safety limit"@)
    } else {
        None
    }
}

/// The bytes that an archive has expanded to with some more, as far as they can
/// be counted.
pub open spec fn grown(extracted: u64, size: u64) -> u64 {
    if extracted + size > u64::MAX {
        extracted
    } else {
        (extracted + size) as u64
    }
}

impl Extraction {
    /// Nothing has been expanded yet.
    pub fn new() -> (r: Extraction)
        ensures
            r.extracted == 0,
    {
        Extraction { extracted: 0 }
    }

    fn grow(&mut self, size: u64, what: &str) -> (r: Result<(), String>)
        ensures
            final(self).extracted == grown(old(self).extracted, size),
            match size_error(old(self).extracted, size, what@) {
                Some(e) => r matches Err(x) && x@ == e,
                None => r is Ok,
            },
    {
        match self.extracted.checked_add(size) {
            Some(n) => {
                self.extracted = n;
                if n > MAX_EXTRACTED_BYTES {
                    return Err(
                        "expanded ".to_string().concat(what).concat(
                            " archive exceeds the safety limit",
                        ),
                    );
                }
                Ok(())
            },
            None => Err("expanded archive size overflow".to_string()),
        }
    }

    /// Checks an entry of a tar archive before it is unpacked: only files and
    /// directories are, and only up to a limit.
    pub fn tar_entry(&mut self, file_or_dir: bool, size: u64) -> (r: Result<(), String>)
        ensures
            if !file_or_dir {
                r matches Err(e) && e@ == "archive contains unsupported link or special-file entry"@
                    && final(self).extracted == old(self).extracted
            } else {
                final(self).extracted == grown(old(self).extracted, size) && match size_error(
                    old(self).extracted,
                    size,
                    "tar"@,
                ) {
                    Some(e) => r matches Err(x) && x@ == e,
                    None => r is Ok,
                }
            },
    {
        if !file_or_dir {
            return Err("archive contains unsupported link or special-file entry".to_string());
        }
        self.grow(size, "tar")
    }

    /// Decides what to do with an entry of a zip archive, given its path where
    /// that stays inside the archive.
    pub fn zip_entry(
        &mut self,
        name: &str,
        enclosed: Option<&str>,
        is_dir: bool,
        size: u64,
        dest_dir: &[u8],
    ) -> (r: Result<ZipAction, String>)
        ensures
            match text::text_of(enclosed) {
                None => r matches Err(e) && e@ == "unsafe zip entry path: "@ + name@
                    && final(self).extracted == old(self).extracted,
                Some(p) => match path::below_top(p) {
                    None => r matches Ok(ZipAction::Skip) && final(self).extracted == old(
                        self,
                    ).extracted,
                    Some(rel) => if is_dir {
                        r matches Ok(ZipAction::MakeDir(d)) && d@ == byte_path::joined_text(
                            dest_dir@,
                            rel,
                        ) && final(self).extracted == old(self).extracted
                    } else {
                        final(self).extracted == grown(old(self).extracted, size)
                            && match size_error(old(self).extracted, size, "zip"@) {
                            Some(e) => r matches Err(x) && x@ == e,
                            None => r matches Ok(ZipAction::WriteFile(f)) && f@
                                == byte_path::joined_text(dest_dir@, rel),
                        }
                    },
                },
            },
    {
        let inside = match enclosed {
            Some(p) => p,
            None => {
                return Err("unsafe zip entry path: ".to_string().concat(name));
            },
        };
        let rel = match path::strip_top_dir(inside) {
            Some(rel) => rel,
            None => {
                return Ok(ZipAction::Skip);
            },
        };
        let out = byte_path::join_text(dest_dir, rel.as_str());
        if is_dir {
            return Ok(ZipAction::MakeDir(out));
        }
        match self.grow(size, "zip") {
            Ok(_) => Ok(ZipAction::WriteFile(out)),
            Err(e) => Err(e),
        }
    }
}

/// Checks how much a gzip file has expanded to.
pub fn check_gzip_size(written: u64) -> (r: Result<(), String>)
    ensures
        match r {
            Ok(_) => written <= MAX_EXTRACTED_BYTES,
            Err(e) => written > MAX_EXTRACTED_BYTES && e@
                == "expanded gzip exceeds the safety limit"@,
        },
{
    if written > MAX_EXTRACTED_BYTES {
        return Err("expanded gzip exceeds the safety limit".to_string());
    }
    Ok(())
}

/// Whether every entry of an archive is accepted, given the bytes that each
/// expands to.
pub open spec fn accepts(extracted: u64, sizes: Seq<u64>, what: Seq<char>) -> bool
    decreases sizes.len(),
{
    sizes.len() == 0 || (size_error(extracted, sizes[0], what) is None && accepts(
        grown(extracted, sizes[0]),
        sizes.drop_first(),
        what,
    ))
}

/// The bytes that some entries expand to together.
pub open spec fn total_size(sizes: Seq<u64>) -> int
    decreases sizes.len(),
{
    if sizes.len() == 0 {
        0
    } else {
        sizes[0] + total_size(sizes.drop_first())
    }
}

/// An archive that is accepted entry by entry never expands beyond the limit.
pub proof fn law_extraction_is_bounded(extracted: u64, sizes: Seq<u64>, what: Seq<char>)
    requires
        extracted <= MAX_EXTRACTED_BYTES,
        accepts(extracted, sizes, what),
    ensures
        extracted + total_size(sizes) <= MAX_EXTRACTED_BYTES,
    decreases sizes.len(),
{
    if sizes.len() > 0 {
        law_extraction_is_bounded(grown(extracted, sizes[0]), sizes.drop_first(), what);
    }
}

// ---------------------------------------------------------------------------
// Taking the place of an old installation
// ---------------------------------------------------------------------------

/// The name of a path beside another.
pub open spec fn sibling_name(
    path: Seq<u8>,
    label: Seq<char>,
    process_id: u32,
    unique: Seq<char>,
) -> Seq<char> {
    let name = match path::name_of(byte_path::byte_text(path)) {
        Some(n) => byte_path::shown_text(byte_path::text_bytes(n)),
        None => Seq::empty(),
    };
    "."@ + name + "."@ + label + "-"@ + text::decimal(process_id as nat) + "-"@ + unique
}

/// A path beside another that nothing else uses, given something unique.
pub fn unique_sibling_path(path: &[u8], label: &str, process_id: u32, unique: &str) -> (r: Vec<u8>)
    ensures
        r@ == byte_path::renamed(
            path@,
            encode_utf8(sibling_name(path@, label@, process_id, unique@)),
        ),
{
    let name = match path::file_name(byte_path::text_of_bytes(path).as_str()) {
        Some(n) => byte_path::shown(byte_path::bytes_of_text(n.as_str()).as_slice()),
        None => String::new(),
    };
    let sibling = ".".to_string().concat(name.as_str()).concat(".").concat(label).concat(
        "-",
    ).concat(text::decimal_text(process_id as u64).as_str()).concat("-").concat(unique);
    byte_path::with_file_name(path, sibling.as_str().as_bytes())
}

/// The next thing to do to put a new installation in place.
#[derive(Clone, Copy)]
pub enum PromoteAction {
    /// Rename the old installation to the backup.
    SetAside,
    /// Rename the new installation to its destination.
    Activate { had_destination: bool },
    /// Rename the backup back to the destination.
    Restore,
    /// Remove the backup.
    RemoveBackup,
}

/// What comes of a step.
pub enum PromoteStep {
    /// Something else is to be done.
    Do(PromoteAction),
    /// The new installation is in place.
    Done,
    /// It is not.
    Failed(String),
}

/// The first thing to do.
pub open spec fn first_action(had_destination: bool) -> PromoteAction {
    if had_destination {
        PromoteAction::SetAside
    } else {
        PromoteAction::Activate { had_destination: false }
    }
}

/// What follows an action, if anything does.
pub open spec fn next_action(action: PromoteAction, failed: bool) -> Option<PromoteAction> {
    match action {
        PromoteAction::SetAside => if failed {
            None
        } else {
            Some(PromoteAction::Activate { had_destination: true })
        },
        PromoteAction::Activate { had_destination } => if !had_destination {
            None
        } else if failed {
            Some(PromoteAction::Restore)
        } else {
            Some(PromoteAction::RemoveBackup)
        },
        PromoteAction::Restore => None,
        PromoteAction::RemoveBackup => None,
    }
}

/// Whether the new installation is in place after a last action.
pub open spec fn succeeds(action: PromoteAction, failed: bool) -> bool {
    action is RemoveBackup || (action is Activate && !failed)
}

/// The error after a last action: `error` is why it failed, if it did, and
/// `first` why the new installation could not be put in place.
pub open spec fn promote_error(
    action: PromoteAction,
    error: Option<Seq<char>>,
    first: Seq<char>,
) -> Seq<char> {
    match (action, error) {
        (PromoteAction::SetAside, _) => "failed to stage the previous managed installation"@,
        (PromoteAction::Restore, Some(x)) => "failed to activate managed installation ("@ + first
            + "); also failed to restore the previous installation ("@ + x + ")"@,
        _ => "failed to activate managed installation"@,
    }
}

/// The most actions that are done from one on.
pub open spec fn actions_left(action: PromoteAction) -> nat {
    match action {
        PromoteAction::SetAside => 3,
        PromoteAction::Activate { .. } => 2,
        PromoteAction::Restore => 1,
        PromoteAction::RemoveBackup => 1,
    }
}

/// The first thing to do.
pub fn promote_start(had_destination: bool) -> (r: PromoteAction)
    ensures
        r == first_action(had_destination),
{
    if had_destination {
        PromoteAction::SetAside
    } else {
        PromoteAction::Activate { had_destination: false }
    }
}

/// What follows an action: `error` is why it failed, if it did, and `first` why
/// the new installation could not be put in place.
pub fn promote_next(action: PromoteAction, error: Option<&str>, first: &str) -> (r: PromoteStep)
    ensures
        match next_action(action, error is Some) {
            Some(next) => r == PromoteStep::Do(next),
            None => if succeeds(action, error is Some) {
                r is Done
            } else {
                r matches PromoteStep::Failed(e) && e@ == promote_error(
                    action,
                    text::text_of(error),
                    first@,
                )
            },
        },
{
    match action {
        PromoteAction::SetAside => match error {
            None => PromoteStep::Do(PromoteAction::Activate { had_destination: true }),
            Some(_) => PromoteStep::Failed(
                "failed to stage the previous managed installation".to_string(),
            ),
        },
        PromoteAction::Activate { had_destination } => match error {
            None => if had_destination {
                PromoteStep::Do(PromoteAction::RemoveBackup)
            } else {
                PromoteStep::Done
            },
            Some(_) => if had_destination {
                PromoteStep::Do(PromoteAction::Restore)
            } else {
                PromoteStep::Failed("failed to activate managed installation".to_string())
            },
        },
        PromoteAction::Restore => match error {
            None => PromoteStep::Failed("failed to activate managed installation".to_string()),
            Some(x) => PromoteStep::Failed(
                "failed to activate managed installation (".to_string().concat(first).concat(
                    "); also failed to restore the previous installation (",
                ).concat(x).concat(")"),
            ),
        },
        PromoteAction::RemoveBackup => PromoteStep::Done,
    }
}

/// What lies at the three places that an installation moves between.
#[verifier::ext_equal]
pub struct Places<T> {
    pub destination: Option<T>,
    pub staged: Option<T>,
    pub backup: Option<T>,
}

/// The places after an action has been done.
pub open spec fn done<T>(p: Places<T>, action: PromoteAction) -> Places<T> {
    match action {
        PromoteAction::SetAside => Places { destination: None, backup: p.destination, ..p },
        PromoteAction::Activate { .. } => Places { destination: p.staged, staged: None, ..p },
        PromoteAction::Restore => Places { destination: p.backup, backup: None, ..p },
        PromoteAction::RemoveBackup => Places { backup: None, ..p },
    }
}

/// The places at the end, and whether the new installation is in place, given
/// which of the actions that are still to be done fail.
pub open spec fn promoted<T>(
    p: Places<T>,
    action: PromoteAction,
    fails: spec_fn(PromoteAction) -> bool,
) -> (Places<T>, bool)
    decreases actions_left(action),
{
    let after = if fails(action) {
        p
    } else {
        done(p, action)
    };
    match next_action(action, fails(action)) {
        Some(next) => promoted(after, next, fails),
        None => (after, succeeds(action, fails(action))),
    }
}

/// However the actions turn out, a new installation that is put in place is what
/// lies at the destination. One that is not leaves the old one there, unless that
/// could not even be put back, and then it still lies in the backup.
pub proof fn law_promotion_replaces_or_restores<T>(
    old_tree: Option<T>,
    new_tree: T,
    fails: spec_fn(PromoteAction) -> bool,
)
    ensures
        ({
            let start = Places { destination: old_tree, staged: Some(new_tree), backup: None };
            let (end, success) = promoted(start, first_action(old_tree is Some), fails);
            &&& success ==> end.destination == Some(new_tree) && end.staged is None
            &&& success && !fails(PromoteAction::RemoveBackup) ==> end.backup is None
            &&& !success && !fails(PromoteAction::Restore) ==> end == start
            &&& !success ==> end.destination == old_tree || end.backup == old_tree
        }),
{
    reveal_with_fuel(promoted, 4);
}

/// Where the binary of a finished installation is, given where it was while it
/// was being made.
pub open spec fn final_binary(
    staging: Seq<u8>,
    staged_binary: Seq<u8>,
    install_dir: Seq<u8>,
) -> Option<Seq<u8>> {
    let from = byte_path::byte_text(staging);
    let binary = byte_path::byte_text(staged_binary);
    if path::within(binary, from) {
        let rest = path::components_of(binary).skip(path::components_of(from).len() as int);
        Some(
            byte_path::joined(install_dir, byte_path::text_bytes(text::joined(rest, "/"@))),
        )
    } else {
        None
    }
}

/// Where the binary of a finished installation is.
pub fn relocate_binary(staging: &[u8], staged_binary: &[u8], install_dir: &[u8]) -> (r: Result<
    Vec<u8>,
    String,
>)
    ensures
        match final_binary(staging@, staged_binary@, install_dir@) {
            Some(p) => r matches Ok(b) && b@ == p,
            None => r matches Err(e) && e@
                == "staged binary escaped its installation directory"@,
        },
{
    let from = byte_path::text_of_bytes(staging);
    let binary = byte_path::text_of_bytes(staged_binary);
    if !path::is_within(binary.as_str(), from.as_str()) {
        return Err("staged binary escaped its installation directory".to_string());
    }
    let parts = path::components(binary.as_str());
    let base = path::components(from.as_str());
    let ghost all = parts.deep_view();
    let n: usize = base.len();
    let mut rest: Vec<String> = Vec::new();
    let mut i: usize = n;
    assert(n <= parts@.len()) by {
        assert(base.deep_view().is_prefix_of(all));
    }
    while i < parts.len()
        invariant
            n <= i <= parts@.len(),
            all == parts.deep_view(),
            rest@.len() == i - n,
            forall|k: int| 0 <= k < i - n ==> (#[trigger] rest@[k])@ == all[n + k],
        decreases parts@.len() - i,
    {
        rest.push(parts[i].clone());
        i = i + 1;
    }
    assert(rest.deep_view() =~= all.skip(n as int));
    let below = byte_path::bytes_of_text(text::join(&rest, "/").as_str());
    Ok(byte_path::join(install_dir, below.as_slice()))
}

/// How a command that installs a server ended.
pub enum CommandEnd {
    /// There is no such program.
    NotFound,
    /// It could not be run.
    NotRun,
    /// It took too long.
    TimedOut,
    /// It ended, with what it wrote to its error output.
    Ended { success: bool, stderr: String },
}

/// Why a command has not installed a server, if it has not.
pub open spec fn command_error(program: Seq<char>, end: CommandEnd) -> Option<Seq<char>> {
    match end {
        CommandEnd::NotFound => Some(
            "'"@ + program + "' not found in PATH. Please install it first."@,
        ),
        CommandEnd::NotRun => Some("failed to run managed installer "@ + program),
        CommandEnd::TimedOut => Some("managed installer "@ + program + " timed out"@),
        CommandEnd::Ended { success, stderr } => if success {
            None
        } else {
            Some(program + " failed: "@ + text::trimmed(stderr@))
        },
    }
}

/// The outcome of a command that installs a server.
pub fn command_outcome(program: &str, end: &CommandEnd) -> (r: Result<(), String>)
    ensures
        match r {
            Ok(_) => command_error(program@, *end) is None,
            Err(e) => command_error(program@, *end) == Some(e@),
        },
{
    match end {
        CommandEnd::NotFound => Err(
            "'".to_string().concat(program).concat(
                "' not found in PATH. Please install it first.",
            ),
        ),
        CommandEnd::NotRun => Err("failed to run managed installer ".to_string().concat(program)),
        CommandEnd::TimedOut => Err(
            "managed installer ".to_string().concat(program).concat(" timed out"),
        ),
        CommandEnd::Ended { success, stderr } => if *success {
            Ok(())
        } else {
            Err(
                program.to_string().concat(" failed: ").concat(text::trim(stderr.as_str())),
            )
        },
    }
}

// ---------------------------------------------------------------------------
// The course of an installation
// ---------------------------------------------------------------------------

/// How a server is installed.
pub enum InstallPlan {
    /// As a package of Julia's shared environment, by a command.
    Julia(InstallCommand),
    /// By a command.
    Command(InstallCommand),
    /// By a download from the newest release of a repository.
    Download(String),
}

/// The model of [`InstallPlan`].
#[verifier::ext_equal]
pub enum InstallPlanView {
    Julia(InstallCommandView),
    Command(InstallCommandView),
    Download(Seq<char>),
}

impl DeepView for InstallPlan {
    type V = InstallPlanView;

    open spec fn deep_view(&self) -> InstallPlanView {
        match *self {
            InstallPlan::Julia(c) => InstallPlanView::Julia(c.deep_view()),
            InstallPlan::Command(c) => InstallPlanView::Command(c.deep_view()),
            InstallPlan::Download(repo) => InstallPlanView::Download(repo@),
        }
    }
}

/// What Julia runs to add its server to the shared environment.
pub const JULIA_INSTALL_SCRIPT: &'static str = "using Pkg; Pkg.activate(\"simplecc\"; shared=true); Pkg.add(\"LanguageServer\"); Pkg.instantiate()";

/// The command that installs the Julia server.
pub open spec fn julia_command() -> InstallCommandView {
    InstallCommandView {
        program: "julia"@,
        args: seq!["--startup-file=no"@, "--history-file=no"@, "-e"@, JULIA_INSTALL_SCRIPT@],
        env: Seq::empty(),
    }
}

fn julia_install_command() -> (r: InstallCommand)
    ensures
        r.deep_view() == julia_command(),
{
    let mut args: Vec<String> = Vec::new();
    args.push("--startup-file=no".to_string());
    args.push("--history-file=no".to_string());
    args.push("-e".to_string());
    args.push(JULIA_INSTALL_SCRIPT.to_string());
    assert(args.deep_view() =~= julia_command().args);
    let env: Vec<(String, String)> = Vec::new();
    assert(env.deep_view() =~= Seq::empty());
    InstallCommand { program: "julia".to_string(), args, env }
}

/// How a server is installed into a directory, or why it cannot be. The Julia
/// server is a package, and can be installed wherever Julia runs.
pub open spec fn install_plan(
    meta: ServerMetaView,
    os: Seq<char>,
    arch: Seq<char>,
    staging: Seq<u8>,
) -> Result<InstallPlanView, Seq<char>> {
    if meta.name == "julia-lsp"@ {
        Ok(InstallPlanView::Julia(julia_command()))
    } else if platform_error(os, arch) is Some {
        Err(platform_error(os, arch)->0)
    } else if meta.archive_kind is Command {
        match server_command(meta.name, byte_path::shown_text(staging)) {
            Some(c) => Ok(InstallPlanView::Command(c)),
            None => Err("no install command for "@ + meta.name),
        }
    } else {
        match meta.github_repo {
            Some(repo) => Ok(InstallPlanView::Download(repo)),
            None => Err("no github repo for "@ + meta.name),
        }
    }
}

/// Finds how a server is installed into a directory.
pub fn plan_install(meta: &ServerMeta, plat: &Platform, staging: &[u8]) -> (r: Result<
    InstallPlan,
    String,
>)
    ensures
        match r {
            Ok(p) => install_plan(meta.deep_view(), plat.os@, plat.arch@, staging@) == Ok::<
                InstallPlanView,
                Seq<char>,
            >(p.deep_view()),
            Err(e) => install_plan(meta.deep_view(), plat.os@, plat.arch@, staging@) == Err::<
                InstallPlanView,
                Seq<char>,
            >(e@),
        },
{
    if text::str_eq(meta.name, "julia-lsp") {
        return Ok(InstallPlan::Julia(julia_install_command()));
    }
    if let Err(e) = plat.ensure_supported() {
        return Err(e);
    }
    match meta.archive_kind {
        ArchiveKind::Command => match meta.install_command(staging) {
            Some(c) => Ok(InstallPlan::Command(c)),
            None => Err("no install command for ".to_string().concat(meta.name)),
        },
        _ => match meta.github_repo {
            Some(repo) => Ok(InstallPlan::Download(repo.to_string())),
            None => Err("no github repo for ".to_string().concat(meta.name)),
        },
    }
}

/// Every server that is offered can be installed on every platform that is
/// supported.
pub proof fn law_offered_servers_can_be_installed(
    i: int,
    os: Seq<char>,
    arch: Seq<char>,
    staging: Seq<u8>,
)
    requires
        0 <= i < known_servers_view().len(),
        platform_error(os, arch) is None,
    ensures
        install_plan(known_servers_view()[i], os, arch, staging) is Ok,
{
    let all = known_servers_view();
    assert(i == 0 || i == 1 || i == 2 || i == 3 || i == 4 || i == 5 || i == 6);
}

/// The binary of an installation: where it is expected, or where it was found.
/// Some archives add a directory of their own.
pub fn staged_binary(expected: &[u8], expected_exists: bool, found: Option<&[u8]>) -> (r: Result<
    Vec<u8>,
    String,
>)
    ensures
        match r {
            Ok(p) => if expected_exists {
                p@ == expected@
            } else {
                found matches Some(f) && p@ == f@
            },
            Err(e) => !expected_exists && found is None && e@
                == "binary not found after installation: "@ + byte_path::shown_text(expected@),
        },
{
    if expected_exists {
        return Ok(byte_path::copy(expected));
    }
    match found {
        Some(f) => Ok(byte_path::copy(f)),
        None => Err(
            "binary not found after installation: ".to_string().concat(
                byte_path::shown(expected).as_str(),
            ),
        ),
    }
}

/// Why the Julia server has not been installed, if it has not. A package manager
/// that reports success without an environment has not installed anything.
pub open spec fn julia_error(
    end: CommandEnd,
    project: Seq<char>,
    project_exists: bool,
) -> Option<Seq<char>> {
    match end {
        CommandEnd::NotFound => Some(
            "'julia' not found in PATH. Please install Julia first."@,
        ),
        CommandEnd::NotRun => Some("failed to run julia"@),
        CommandEnd::TimedOut => Some("Julia language-server install timed out"@),
        CommandEnd::Ended { success, stderr } => if !success {
            Some("julia LanguageServer install failed: "@ + stderr@)
        } else if !project_exists {
            Some("install reported success but "@ + project + " was not created"@)
        } else {
            None
        },
    }
}

/// The outcome of the installation of the Julia server.
pub fn julia_outcome(end: &CommandEnd, project: &str, project_exists: bool) -> (r: Result<
    (),
    String,
>)
    ensures
        match r {
            Ok(_) => julia_error(*end, project@, project_exists) is None,
            Err(e) => julia_error(*end, project@, project_exists) == Some(e@),
        },
{
    match end {
        CommandEnd::NotFound => Err(
            "'julia' not found in PATH. Please install Julia first.".to_string(),
        ),
        CommandEnd::NotRun => Err("failed to run julia".to_string()),
        CommandEnd::TimedOut => Err("Julia language-server install timed out".to_string()),
        CommandEnd::Ended { success, stderr } => {
            if !*success {
                return Err(
                    "julia LanguageServer install failed: ".to_string().concat(stderr.as_str()),
                );
            }
            if !project_exists {
                return Err(
                    "install reported success but ".to_string().concat(project).concat(
                        " was not created",
                    ),
                );
            }
            Ok(())
        },
    }
}

/// The percentage of a download never falls as more of it comes.
pub proof fn law_progress_never_falls(total: u64, downloaded: u64, more: u64)
    requires
        total > 0,
        downloaded + more <= MAX_DOWNLOAD_BYTES,
    ensures
        percent_of(downloaded, total) <= percent_of((downloaded + more) as u64, total),
{
    assert((downloaded * 100) / (total as int) <= ((downloaded + more) * 100) / (total as int))
        by (nonlinear_arith)
        requires
            total > 0,
            more >= 0,
    ;
}

} // verus!
