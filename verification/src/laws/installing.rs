//! What is installed, from where, and how its end is told.

use vstd::prelude::*;
use vstd::string::*;
use vstd::utf8::*;

use crate::byte_path;
use crate::installer;
use crate::installer::{CommandEnd, FileMeta, InstallEnvView, Marker};
use crate::json::JsonView;
use crate::laws::shapes;
use crate::path;
use crate::text;

verus! {

/// Servers are installed on two systems and two architectures, and on no others.
pub proof fn law_platforms_are_four(os: Seq<char>, arch: Seq<char>)
    ensures
        installer::platform_error(os, arch) is None <==> (os == "linux"@ || os == "macos"@) && (arch
            == "x86_64"@ || arch == "aarch64"@),
        os != "linux"@ && os != "macos"@ ==> installer::platform_error(os, arch) == Some(
            "managed server installation is not supported on "@ + os,
        ),
{
}

proof fn lemma_names()
    ensures
        "rust-analyzer"@.len() == 13,
        "clangd"@.len() == 6,
        "lua-language-server"@.len() == 19,
        "gopls"@.len() == 5,
        "pyright"@.len() == 7,
        "typescript-language-server"@.len() == 26,
        "julia-lsp"@.len() == 9,
{
    reveal_strlit("rust-analyzer");
    reveal_strlit("clangd");
    reveal_strlit("lua-language-server");
    reveal_strlit("gopls");
    reveal_strlit("pyright");
    reveal_strlit("typescript-language-server");
    reveal_strlit("julia-lsp");
}

/// Every server that is offered is found under its own name, and what is found
/// under a name has it.
pub proof fn law_offered_servers_are_found(i: int, name: Seq<char>)
    requires
        0 <= i < installer::known_servers_view().len(),
    ensures
        installer::server_meta(installer::known_servers_view()[i].name) == Some(
            installer::known_servers_view()[i],
        ),
        installer::server_meta(name) matches Some(meta) ==> meta.name == name,
        installer::server_meta(name) is Some <==> exists|k: int|
            0 <= k < installer::known_servers_view().len()
                && (#[trigger] installer::known_servers_view()[k]).name == name,
{
    lemma_names();
    let all = installer::known_servers_view();
    assert forall|a: int, b: int| 0 <= a < b < all.len() implies (#[trigger] all[a]).name
        != (#[trigger] all[b]).name by {
        assert(a == 0 || a == 1 || a == 2 || a == 3 || a == 4 || a == 5);
        assert(b == 1 || b == 2 || b == 3 || b == 4 || b == 5 || b == 6);
    }
    lemma_index(all, all[i].name);
    lemma_index(all, name);
}

proof fn lemma_index(all: Seq<installer::ServerMetaView>, name: Seq<char>)
    ensures
        match installer::server_index(all, name) {
            Some(k) => 0 <= k < all.len() && all[k].name == name,
            None => forall|k: int| 0 <= k < all.len() ==> (#[trigger] all[k]).name != name,
        },
    decreases all.len(),
{
    if all.len() > 0 && all[0].name != name {
        lemma_index(all.drop_first(), name);
        if installer::server_index(all, name) is None {
            assert forall|k: int| 0 <= k < all.len() implies (#[trigger] all[k]).name != name by {
                if k > 0 {
                    assert(all.drop_first()[k - 1] == all[k]);
                }
            }
        }
    }
}

/// Whether an address is a file of a release of a project.
pub open spec fn is_release_of(url: Seq<char>, repo: Seq<char>, version: Seq<char>) -> bool {
    ("https://github.com/"@ + repo + "/releases/download/"@ + version + "/"@).is_prefix_of(url)
}

/// What is downloaded of a server is a file of its own project's release, in the
/// version that is wanted and of the kind that is unpacked.
pub proof fn law_downloads_are_of_the_release(
    i: int,
    os: Seq<char>,
    arch: Seq<char>,
    version: Seq<char>,
)
    requires
        0 <= i < installer::known_servers_view().len(),
        installer::known_servers_view()[i].github_repo is Some,
    ensures
        ({
            let meta = installer::known_servers_view()[i];
            let url = installer::server_url(meta.name, os, arch, version);
            &&& is_release_of(url, meta.github_repo->0, version)
            &&& installer::archive_ending(meta.archive_kind) is Some
            &&& installer::archive_ending(meta.archive_kind)->0.is_suffix_of(url)
        }),
{
    lemma_names();
    reveal_strlit("https://github.com/");
    reveal_strlit("/releases/download/");
    reveal_strlit("/");
    let meta = installer::known_servers_view()[i];
    let url = installer::server_url(meta.name, os, arch, version);
    let start = "https://github.com/"@ + meta.github_repo->0 + "/releases/download/"@ + version
        + "/"@;
    assert(i == 0 || i == 1 || i == 2);
    if i == 0 {
        reveal_strlit("rust-lang/rust-analyzer");
        reveal_strlit("https://github.com/rust-lang/rust-analyzer/releases/download/");
        reveal_strlit("/rust-analyzer-");
        reveal_strlit(".gz");
        assert("https://github.com/"@ + "rust-lang/rust-analyzer"@ + "/releases/download/"@
            =~= "https://github.com/rust-lang/rust-analyzer/releases/download/"@);
        assert(start =~= url.take(start.len() as int));
        assert(url.skip(url.len() - 3) =~= ".gz"@);
    } else if i == 1 {
        reveal_strlit("clangd/clangd");
        reveal_strlit("https://github.com/clangd/clangd/releases/download/");
        reveal_strlit("/clangd-");
        reveal_strlit(".zip");
        assert("https://github.com/"@ + "clangd/clangd"@ + "/releases/download/"@
            =~= "https://github.com/clangd/clangd/releases/download/"@);
        assert(start =~= url.take(start.len() as int));
        assert(url.skip(url.len() - 4) =~= ".zip"@);
    } else {
        reveal_strlit("LuaLS/lua-language-server");
        reveal_strlit("https://github.com/LuaLS/lua-language-server/releases/download/");
        reveal_strlit("/lua-language-server-");
        reveal_strlit(".tar.gz");
        assert("https://github.com/"@ + "LuaLS/lua-language-server"@ + "/releases/download/"@
            =~= "https://github.com/LuaLS/lua-language-server/releases/download/"@);
        assert(start =~= url.take(start.len() as int));
        assert(url.skip(url.len() - 7) =~= ".tar.gz"@);
    }
}

/// What a command installs goes to the directory that it is given: by an argument
/// or by a variable.
pub proof fn law_commands_install_where_they_are_told(name: Seq<char>, dir: Seq<char>)
    ensures
        installer::server_command(name, dir) matches Some(c) ==> (exists|k: int|
            0 <= k < c.args.len() && #[trigger] c.args[k] == dir) || (exists|k: int|
            0 <= k < c.env.len() && (#[trigger] c.env[k]).1 == dir),
        installer::server_command(name, dir) is Some <==> name == "gopls"@ || name == "pyright"@
            || name == "typescript-language-server"@,
{
    lemma_names();
    if let Some(c) = installer::server_command(name, dir) {
        if name == "gopls"@ {
            assert(c.env[0].1 == dir);
        } else {
            assert(c.args[4] == dir);
        }
    }
}

/// A server is downloaded, installed by a command, or installed by Julia, as its
/// kind says, where the platform is known.
pub proof fn law_plans_follow_the_kind(
    i: int,
    os: Seq<char>,
    arch: Seq<char>,
    staging: Seq<u8>,
)
    requires
        0 <= i < installer::known_servers_view().len(),
    ensures
        ({
            let meta = installer::known_servers_view()[i];
            let plan = installer::install_plan(meta, os, arch, staging);
            &&& meta.name == "julia-lsp"@ ==> plan is Ok && plan->Ok_0 is Julia
            &&& meta.name != "julia-lsp"@ && installer::platform_error(os, arch) is Some
                ==> plan is Err && Some(plan->Err_0) == installer::platform_error(os, arch)
            &&& meta.name != "julia-lsp"@ && installer::platform_error(os, arch) is None
                && meta.archive_kind is Command ==> plan is Ok && plan->Ok_0 is Command
                && plan->Ok_0->Command_0 == installer::server_command(
                meta.name,
                byte_path::shown_text(staging),
            )->0
            &&& meta.name != "julia-lsp"@ && installer::platform_error(os, arch) is None
                && !(meta.archive_kind is Command) ==> plan is Ok && plan->Ok_0 is Download
                && Some(plan->Ok_0->Download_0) == meta.github_repo
        }),
{
    lemma_names();
    let all = installer::known_servers_view();
    assert(i == 0 || i == 1 || i == 2 || i == 3 || i == 4 || i == 5 || i == 6);
}

proof fn lemma_first_byte(s: Seq<char>)
    requires
        s.len() > 0,
        s[0] != '/',
    ensures
        encode_utf8(s).len() > 0,
        encode_utf8(s)[0] != 0x2f,
{
    encode_utf8_first_scalar(s);
    let b = encode_utf8(s)[0];
    if b == 0x2f {
        assert(leading_bits_width_1(b) == 0x2f) by (bit_vector)
            requires
                b == 0x2f,
        ;
        assert(decode_first_codepoint(encode_utf8(s)) == 0x2f);
        char_u32_cast(s[0], 0x2f);
        char_u32_cast('/', 0x2f);
    }
}

proof fn lemma_plain_bytes(s: Seq<char>)
    requires
        s.len() > 0,
        is_ascii_chars(s),
        s[0] != '/',
        s.last() != '/',
    ensures
        encode_utf8(s).len() == s.len(),
        encode_utf8(s)[0] != 0x2f,
        encode_utf8(s).last() != 0x2f,
{
    is_ascii_chars_encode_utf8(s);
}

/// Servers are installed each in a directory of its own, below the data directory
/// of the user, or below the home directory where that is not given.
pub proof fn law_servers_have_a_directory_each(
    env: InstallEnvView,
    data: Seq<u8>,
    home: Seq<char>,
    name: Seq<char>,
)
    requires
        name.len() > 0,
        name[0] != '/',
    ensures
        env.data_dir == Some(data) && data.len() > 0 && data.last() != 0x2f
            ==> installer::install_dir_of(env, name) == data + seq![0x2fu8] + encode_utf8(
            "simplecc/servers"@,
        ) + seq![0x2fu8] + encode_utf8(name),
        env.data_dir is None && env.home == Some(home) && encode_utf8(home).len() > 0
            && encode_utf8(home).last() != 0x2f ==> installer::install_dir_of(env, name)
            == encode_utf8(home) + seq![0x2fu8] + encode_utf8(".local/share"@) + seq![0x2fu8]
            + encode_utf8("simplecc/servers"@) + seq![0x2fu8] + encode_utf8(name),
{
    reveal_strlit("simplecc/servers");
    reveal_strlit(".local/share");
    lemma_plain_bytes("simplecc/servers"@);
    lemma_plain_bytes(".local/share"@);
    lemma_first_byte(name);
}

/// An installation is known by its binary in the directory of the server, that of
/// Julia by its project.
pub proof fn law_binaries_are_where_they_were_installed(env: InstallEnvView, i: int)
    requires
        0 <= i < installer::known_servers_view().len(),
        installer::known_servers_view()[i].name != "julia-lsp"@,
        installer::install_dir_of(env, installer::known_servers_view()[i].name).len() > 0,
        installer::install_dir_of(env, installer::known_servers_view()[i].name).last() != 0x2f,
    ensures
        ({
            let meta = installer::known_servers_view()[i];
            installer::marker_of(env, meta.name) == Some(
                installer::install_dir_of(env, meta.name) + seq![0x2fu8] + encode_utf8(
                    meta.binary_rel_path,
                ),
            )
        }),
{
    law_offered_servers_are_found(i, installer::known_servers_view()[i].name);
    lemma_names();
    assert(i == 0 || i == 1 || i == 2 || i == 3 || i == 4 || i == 5 || i == 6);
    reveal_strlit("bin/clangd");
    reveal_strlit("bin/lua-language-server");
    reveal_strlit("node_modules/.bin/pyright-langserver");
    reveal_strlit("node_modules/.bin/typescript-language-server");
    reveal_strlit("rust-analyzer");
    reveal_strlit("gopls");
    lemma_first_byte(installer::known_servers_view()[i].binary_rel_path);
}

/// A file can be run where it is a file, is not empty, and its owner, its group or
/// anyone may execute it.
pub proof fn law_usable_files_can_be_run(meta: FileMeta, mode: u32)
    ensures
        installer::usable(None) == false,
        meta.mode == Some(mode) ==> (installer::usable(Some(meta)) <==> meta.is_file && meta.len > 0
            && (mode & 0o100 != 0 || mode & 0o010 != 0 || mode & 0o001 != 0)),
        meta.mode is None ==> (installer::usable(Some(meta)) <==> meta.is_file && meta.len > 0),
{
    assert(mode & 0o111 != 0 <==> mode & 0o100 != 0 || mode & 0o010 != 0 || mode & 0o001 != 0)
        by (bit_vector);
}

/// A server counts as installed where its binary can be run, the Julia server
/// where its project names it. What is installed is listed with its path, and
/// what is not without one.
pub proof fn law_installed_servers_are_listed(
    env: InstallEnvView,
    name: Seq<char>,
    marker: Marker,
)
    ensures
        ({
            let info = installer::info_of(env, name, marker);
            &&& info.name == name
            &&& name == "julia-lsp"@ ==> (info.installed <==> marker.content is Some
                && text::has_infix(marker.content->0@, "LanguageServer"@))
            &&& name != "julia-lsp"@ ==> (info.installed <==> installer::server_meta(name) is Some
                && installer::usable(marker.meta))
            &&& info.path is Some ==> info.installed
            &&& info.installed && installer::marker_of(env, name) is Some ==> info.path == Some(
                byte_path::shown_text(installer::marker_of(env, name)->0),
            )
            &&& !info.installed ==> info.path is None
            &&& shapes::has_text(installer::info_wire(info), "name"@, name)
            &&& shapes::has(
                installer::info_wire(info),
                "installed"@,
                JsonView::Bool(info.installed),
            )
            &&& info.path is Some ==> shapes::has_text(
                installer::info_wire(info),
                "path"@,
                info.path->0,
            )
            &&& info.path is None ==> shapes::has(
                installer::info_wire(info),
                "path"@,
                JsonView::Null,
            )
        }),
{
    reveal_strlit("name");
    reveal_strlit("installed");
    reveal_strlit("path");
    assert("name"@.len() == 4 && "installed"@.len() == 9 && "path"@.len() == 4);
    assert("name"@[0] != "path"@[0]);
}

/// An installation begins for a server that is known and not being installed, and
/// for no other.
pub proof fn law_installations_begin_once(name: Seq<char>, installing: Set<Seq<char>>)
    ensures
        installer::install_error(name, installing) is None <==> installer::server_meta(name) is Some
            && !installing.contains(name),
        installer::server_meta(name) is None ==> installer::install_error(name, installing) == Some(
            "unknown server: "@ + name,
        ),
{
}

/// Progress is told with its server, its stage and its percentage.
pub proof fn law_progress_is_told(server: Seq<char>, stage: Seq<char>, percent: u64)
    ensures
        ({
            let e = installer::progress_event_view(server, stage, percent);
            &&& shapes::has_text(e, "type"@, "installProgress"@)
            &&& shapes::has_text(e, "server"@, server)
            &&& shapes::has_text(e, "stage"@, stage)
            &&& shapes::has_number(e, "percent"@, percent as int)
        }),
{
    reveal_strlit("type");
    reveal_strlit("server");
    reveal_strlit("stage");
    reveal_strlit("percent");
    assert("type"@.len() == 4 && "server"@.len() == 6 && "stage"@.len() == 5 && "percent"@.len()
        == 7);
}

/// A percentage is rounded down: the whole is a hundred, nothing is none, and in
/// between it is the largest that the part has reached.
pub proof fn law_percentages_are_rounded_down(part: u64, total: u64)
    requires
        total > 0,
    ensures
        installer::percent_of(part, total) * total <= part * 100,
        part * 100 < (installer::percent_of(part, total) + 1) * total,
        installer::percent_of(total, total) == 100,
        installer::percent_of(0, total) == 0,
{
    let n = part * 100;
    let d = total as int;
    assert((n / d) * d <= n && n < (n / d + 1) * d) by (nonlinear_arith)
        requires
            d > 0,
            n >= 0,
    ;
    assert((d * 100) / d == 100) by (nonlinear_arith)
        requires
            d > 0,
    ;
    assert(0int / d == 0) by (nonlinear_arith)
        requires
            d > 0,
    ;
}

/// The files of an archive are accepted exactly where all of them together, with
/// what was unpacked before, stay within one gibibyte.
pub proof fn law_archives_are_accepted_up_to_the_limit(
    extracted: u64,
    sizes: Seq<u64>,
    what: Seq<char>,
)
    requires
        extracted <= 1_073_741_824,
    ensures
        installer::accepts(extracted, sizes, what) <==> extracted + installer::total_size(sizes)
            <= 1_073_741_824,
    decreases sizes.len(),
{
    if sizes.len() > 0 {
        lemma_sizes(sizes.drop_first());
        if extracted + sizes[0] <= 1_073_741_824 {
            law_archives_are_accepted_up_to_the_limit(
                (extracted + sizes[0]) as u64,
                sizes.drop_first(),
                what,
            );
        }
    }
}

proof fn lemma_sizes(sizes: Seq<u64>)
    ensures
        installer::total_size(sizes) >= 0,
    decreases sizes.len(),
{
    if sizes.len() > 0 {
        lemma_sizes(sizes.drop_first());
    }
}

/// A path beside another has a hidden name that ends in its unique part.
pub proof fn law_siblings_are_hidden(
    path: Seq<u8>,
    label: Seq<char>,
    process_id: u32,
    unique: Seq<char>,
)
    ensures
        ({
            let name = installer::sibling_name(path, label, process_id, unique);
            &&& "."@.is_prefix_of(name)
            &&& path::name_of(byte_path::byte_text(path)) matches Some(n) ==> ("."@
                + byte_path::shown_text(byte_path::text_bytes(n)) + "."@).is_prefix_of(name)
            &&& (label + "-"@ + text::decimal(process_id as nat) + "-"@ + unique).is_suffix_of(name)
        }),
{
    let name = installer::sibling_name(path, label, process_id, unique);
    let end = label + "-"@ + text::decimal(process_id as nat) + "-"@ + unique;
    assert(name.take("."@.len() as int) =~= "."@);
    if let Some(n) = path::name_of(byte_path::byte_text(path)) {
        let start = "."@ + byte_path::shown_text(byte_path::text_bytes(n)) + "."@;
        assert(name.take(start.len() as int) =~= start);
    }
    assert(name.skip(name.len() - end.len()) =~= end);
}

/// A command that ends well is no error, and any other end is one.
pub proof fn law_failed_commands_are_errors(
    program: Seq<char>,
    end: CommandEnd,
    project: Seq<char>,
    exists_at: bool,
)
    ensures
        installer::command_error(program, end) is None <==> (end is Ended && end->success),
        installer::julia_error(end, project, exists_at) is None <==> (end is Ended && end->success
            && exists_at),
        end is Ended && !end->success ==> installer::command_error(program, end) == Some(
            program + " failed: "@ + text::trimmed(end->stderr@),
        ),
{
}

/// What is downloaded is built for the platform: its address names the system and
/// the architecture as the project writes them.
pub proof fn law_downloads_are_for_the_platform(version: Seq<char>)
    ensures
        text::has_infix(
            installer::server_url("rust-analyzer"@, "linux"@, "x86_64"@, version),
            "x86_64-unknown-linux-gnu"@,
        ),
        text::has_infix(
            installer::server_url("rust-analyzer"@, "linux"@, "aarch64"@, version),
            "aarch64-unknown-linux-gnu"@,
        ),
        text::has_infix(
            installer::server_url("rust-analyzer"@, "macos"@, "x86_64"@, version),
            "x86_64-apple-darwin"@,
        ),
        text::has_infix(
            installer::server_url("rust-analyzer"@, "macos"@, "aarch64"@, version),
            "aarch64-apple-darwin"@,
        ),
        text::has_infix(
            installer::server_url("lua-language-server"@, "linux"@, "x86_64"@, version),
            "linux-x64"@,
        ),
        text::has_infix(
            installer::server_url("lua-language-server"@, "linux"@, "aarch64"@, version),
            "linux-arm64"@,
        ),
        text::has_infix(
            installer::server_url("lua-language-server"@, "macos"@, "x86_64"@, version),
            "darwin-x64"@,
        ),
        text::has_infix(
            installer::server_url("lua-language-server"@, "macos"@, "aarch64"@, version),
            "darwin-arm64"@,
        ),
        text::has_infix(
            installer::server_url("clangd"@, "linux"@, "x86_64"@, version),
            "clangd-linux-"@,
        ),
        text::has_infix(
            installer::server_url("clangd"@, "macos"@, "x86_64"@, version),
            "clangd-mac-"@,
        ),
{
    lemma_names();
    reveal_strlit("linux");
    reveal_strlit("macos");
    reveal_strlit("x86_64");
    reveal_strlit("aarch64");
    assert("linux"@[0] != "macos"@[0]);
    assert("x86_64"@.len() == 6 && "aarch64"@.len() == 7);
    let rust = "https://github.com/rust-lang/rust-analyzer/releases/download/"@ + version
        + "/rust-analyzer-"@;
    lemma_between(rust, "x86_64-unknown-linux-gnu"@, ".gz"@);
    lemma_between(rust, "aarch64-unknown-linux-gnu"@, ".gz"@);
    lemma_between(rust, "x86_64-apple-darwin"@, ".gz"@);
    lemma_between(rust, "aarch64-apple-darwin"@, ".gz"@);
    let lua = "https://github.com/LuaLS/lua-language-server/releases/download/"@ + version
        + "/lua-language-server-"@ + version + "-"@;
    lemma_between(lua, "linux-x64"@, ".tar.gz"@);
    lemma_between(lua, "linux-arm64"@, ".tar.gz"@);
    lemma_between(lua, "darwin-x64"@, ".tar.gz"@);
    lemma_between(lua, "darwin-arm64"@, ".tar.gz"@);
    reveal_strlit("/clangd-");
    reveal_strlit("-");
    reveal_strlit("mac");
    reveal_strlit("clangd-linux-");
    reveal_strlit("clangd-mac-");
    let clangd = "https://github.com/clangd/clangd/releases/download/"@ + version + "/"@;
    reveal_strlit("/");
    lemma_between(clangd, "clangd-linux-"@, version + ".zip"@);
    assert(clangd + "clangd-linux-"@ + (version + ".zip"@) =~= installer::server_url(
        "clangd"@,
        "linux"@,
        "x86_64"@,
        version,
    ));
    lemma_between(clangd, "clangd-mac-"@, version + ".zip"@);
    assert(clangd + "clangd-mac-"@ + (version + ".zip"@) =~= installer::server_url(
        "clangd"@,
        "macos"@,
        "x86_64"@,
        version,
    ));
}

proof fn lemma_between(before: Seq<char>, part: Seq<char>, after: Seq<char>)
    ensures
        text::has_infix(before + part + after, part),
{
    let s = before + part + after;
    let i: int = before.len() as int;
    assert(s.subrange(i, i + part.len()) =~= part);
}

/// Servers that are installed by a command are installed by the package manager of
/// their language.
pub proof fn law_package_managers_install(dir: Seq<char>)
    ensures
        installer::server_command("gopls"@, dir) is Some,
        installer::server_command("gopls"@, dir)->0.program == "go"@,
        installer::server_command("gopls"@, dir)->0.args[0] == "install"@,
        installer::server_command("pyright"@, dir) is Some,
        installer::server_command("pyright"@, dir)->0.program == "npm"@,
        installer::server_command("pyright"@, dir)->0.args[0] == "install"@,
        installer::server_command("pyright"@, dir)->0.args.contains("pyright"@),
        installer::server_command("pyright"@, dir)->0.args[3] == "--prefix"@,
        installer::server_command("pyright"@, dir)->0.args[4] == dir,
        installer::server_command("typescript-language-server"@, dir)->0.args[3] == "--prefix"@,
        installer::server_command("typescript-language-server"@, dir)->0.args[4] == dir,
        installer::server_command("gopls"@, dir)->0.env == seq![("GOBIN"@, dir)],
        installer::server_command("typescript-language-server"@, dir) is Some,
        installer::server_command("typescript-language-server"@, dir)->0.program == "npm"@,
        installer::server_command("typescript-language-server"@, dir)->0.args[0] == "install"@,
        installer::server_command("typescript-language-server"@, dir)->0.args.contains(
            "typescript-language-server"@,
        ),
        installer::server_command("typescript-language-server"@, dir)->0.args.contains(
            "typescript"@,
        ),
{
    lemma_names();
    assert(installer::server_command("pyright"@, dir)->0.args[5] == "pyright"@);
    assert(installer::server_command("typescript-language-server"@, dir)->0.args[5]
        == "typescript"@);
    assert(installer::server_command("typescript-language-server"@, dir)->0.args[6]
        == "typescript-language-server"@);
}

/// The depot of Julia is the first directory of the list that names it, and is below
/// the home directory without one.
pub proof fn law_depots_are_the_first_named(
    env: InstallEnvView,
    first: Seq<char>,
    rest: Seq<char>,
    home: Seq<char>,
)
    requires
        first.len() > 0,
        !first.contains(':'),
    ensures
        env.julia_depot_path == Some(first) ==> installer::depot_of(env) == first,
        env.julia_depot_path == Some(first + seq![':'] + rest) ==> installer::depot_of(env)
            == first,
        env.julia_depot_path is None && env.home == Some(home) && home.len() > 0 && home.last()
            != '/' ==> installer::depot_of(env) == home + seq!['/'] + ".julia"@,
{
    reveal_strlit("/");
    reveal_strlit(".julia");
    assert("/"@ =~= seq!['/']);
    assert forall|k: int| 0 <= k < first.len() implies first[k] != ':' by {
        assert(first.contains(first[k]));
    }
    lemma_not_found(first, ':', 0);
    let s = first + seq![':'] + rest;
    text::lemma_find_from(s, ':', 0, first.len() as int);
    assert(s.take(first.len() as int) =~= first);
    assert(text::split(s, ':')[0] == first);
    assert(text::split(first, ':') =~= seq![first]);
}

proof fn lemma_not_found(s: Seq<char>, c: char, from: int)
    requires
        0 <= from <= s.len(),
        forall|k: int| from <= k < s.len() ==> s[k] != c,
    ensures
        text::find_from(s, c, from) == s.len(),
    decreases s.len() - from,
{
    if from < s.len() {
        lemma_not_found(s, c, from + 1);
    }
}


} // verus!
