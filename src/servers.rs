use vstd::prelude::*;

use crate::text::{push_str, str_eq};

verus! {

/// The operating systems that server downloads distinguish.
#[derive(Clone, Copy, Debug, PartialEq, Eq, Structural)]
pub enum Os {
    MacOs,
    Linux,
    Windows,
    Other,
}

/// The processor architectures that server downloads distinguish.
#[derive(Clone, Copy, Debug, PartialEq, Eq, Structural)]
pub enum Arch {
    Aarch64,
    X86_64,
    Other,
}

/// The machine a server is provisioned for.
#[derive(Clone, Copy, Debug, PartialEq, Eq, Structural)]
pub struct Platform {
    pub os: Os,
    pub arch: Arch,
}

/// How an archive is packed.
#[derive(Clone, Copy, Debug, PartialEq, Eq, Structural)]
pub enum ArchiveKind {
    Zip,
    TarGz,
}

/// The ways a language server is provisioned.
#[derive(Clone, Copy, Debug, PartialEq, Eq, Structural)]
pub enum StrategyKind {
    NodePackage,
    GoInstall,
    BinaryDownload,
    ArchiveDownload,
    JarDownload,
    SystemTool,
    GemInstall,
}

/// How to provision one language server, with its pinned parameters.
pub enum Strategy {
    /// Install an npm package into the managed Node runtime and run its binary
    /// with Node; `companion` is a package installed first.
    NodePackage { package: String, version: String, bin_name: String, args: Vec<String>, companion: Option<(String, String)> },
    /// `go install` a module at a pinned version into the tool directory.
    GoInstall { module: String, binary: String, args: Vec<String> },
    /// Download a single binary, gunzipping it where `gzip` is set.
    BinaryDownload { url: String, binary: String, gzip: bool, args: Vec<String> },
    /// Download an archive, unpack it and take the named binary out of it.
    ArchiveDownload { url: String, archive: ArchiveKind, version: String, binary: String, args: Vec<String> },
    /// Download a jar and run it with the system's Java.
    JarDownload { url: String, jar: String, version: String },
    /// Ask the system toolchain (`xcrun -f`) where the tool is.
    SystemTool { tool: String },
    /// `gem install` a pinned version into a private gem directory.
    GemInstall { gem: String, version: String, binary: String },
}

/// The texts of a list of strings.
pub open spec fn strings(v: Seq<String>) -> Seq<Seq<char>> {
    v.map_values(|s: String| s@)
}

/// What a provisioning plan says, as plain values: the server's name, the
/// strategy, what it fetches or runs (package, module, URL, tool or gem),
/// the pinned version, the binary, the arguments, whether the download is
/// gzip-compressed, and the package installed first, if any.
pub struct PlanSpec {
    pub server: Seq<char>,
    pub kind: StrategyKind,
    pub source: Seq<char>,
    pub version: Seq<char>,
    pub binary: Seq<char>,
    pub args: Seq<Seq<char>>,
    pub gzip: bool,
    pub companion: Option<(Seq<char>, Seq<char>)>,
}

impl Strategy {
    pub open spec fn spec_of(&self, server: Seq<char>) -> PlanSpec {
        match self {
            Strategy::NodePackage { package, version, bin_name, args, companion } => PlanSpec {
                server,
                kind: StrategyKind::NodePackage,
                source: package@,
                version: version@,
                binary: bin_name@,
                args: strings(args@),
                gzip: false,
                companion: match companion {
                    Some(c) => Some((c.0@, c.1@)),
                    None => None,
                },
            },
            Strategy::GoInstall { module, binary, args } => PlanSpec {
                server,
                kind: StrategyKind::GoInstall,
                source: module@,
                version: Seq::empty(),
                binary: binary@,
                args: strings(args@),
                gzip: false,
                companion: None,
            },
            Strategy::BinaryDownload { url, binary, gzip, args } => PlanSpec {
                server,
                kind: StrategyKind::BinaryDownload,
                source: url@,
                version: Seq::empty(),
                binary: binary@,
                args: strings(args@),
                gzip: *gzip,
                companion: None,
            },
            Strategy::ArchiveDownload { url, archive, version, binary, args } => PlanSpec {
                server,
                kind: StrategyKind::ArchiveDownload,
                source: url@,
                version: version@,
                binary: binary@,
                args: strings(args@),
                gzip: *archive == ArchiveKind::TarGz,
                companion: None,
            },
            Strategy::JarDownload { url, jar, version } => PlanSpec {
                server,
                kind: StrategyKind::JarDownload,
                source: url@,
                version: version@,
                binary: jar@,
                args: Seq::empty(),
                gzip: false,
                companion: None,
            },
            Strategy::SystemTool { tool } => PlanSpec {
                server,
                kind: StrategyKind::SystemTool,
                source: tool@,
                version: Seq::empty(),
                binary: Seq::empty(),
                args: Seq::empty(),
                gzip: false,
                companion: None,
            },
            Strategy::GemInstall { gem, version, binary } => PlanSpec {
                server,
                kind: StrategyKind::GemInstall,
                source: gem@,
                version: version@,
                binary: binary@,
                args: Seq::empty(),
                gzip: false,
                companion: None,
            },
        }
    }
}

/// A server to provision: its name, reported in progress events, and how.
pub struct ServerPlan {
    pub server_name: String,
    pub strategy: Strategy,
}

impl ServerPlan {
    pub open spec fn view(&self) -> PlanSpec {
        self.strategy.spec_of(self.server_name@)
    }
}

pub open spec fn has_arch(p: Platform) -> bool {
    p.arch != Arch::Other
}

/// A server installed as an npm package, run with the managed Node.
pub open spec fn node_spec(package: Seq<char>, version: Seq<char>, bin: Seq<char>, arg: Seq<char>) -> PlanSpec {
    PlanSpec {
        server: package,
        kind: StrategyKind::NodePackage,
        source: package,
        version,
        binary: bin,
        args: seq![arg],
        gzip: false,
        companion: None,
    }
}

pub open spec fn other_spec(
    server: Seq<char>,
    kind: StrategyKind,
    source: Seq<char>,
    version: Seq<char>,
    binary: Seq<char>,
    args: Seq<Seq<char>>,
    gzip: bool,
) -> PlanSpec {
    PlanSpec { server, kind, source, version, binary, args, gzip, companion: None }
}

/// The name of the per-architecture asset of a download.
pub open spec fn by_arch(p: Platform, arm: Seq<char>, x64: Seq<char>) -> Seq<char> {
    if p.arch == Arch::Aarch64 { arm } else { x64 }
}

/// The server for each language and how it is provisioned; `None` where
/// the language has no server on this platform.
pub open spec fn plan_spec(lang: Seq<char>, p: Platform) -> Option<PlanSpec> {
    if lang == "typescript"@ || lang == "javascript"@ {
        Some(PlanSpec {
            companion: Some(("typescript"@, "5.9.3"@)),
            ..node_spec("typescript-language-server"@, "5.1.3"@, "typescript-language-server"@, "--stdio"@)
        })
    } else if lang == "json"@ {
        Some(node_spec("vscode-json-languageserver-bin"@, "1.0.1"@, "vscode-json-language-server"@, "--stdio"@))
    } else if lang == "css"@ || lang == "scss"@ || lang == "less"@ {
        Some(node_spec("vscode-css-languageserver-bin"@, "1.4.0"@, "vscode-css-language-server"@, "--stdio"@))
    } else if lang == "html"@ {
        Some(node_spec("vscode-html-languageserver-bin"@, "1.4.0"@, "vscode-html-language-server"@, "--stdio"@))
    } else if lang == "dockerfile"@ {
        Some(node_spec("dockerfile-language-server-nodejs"@, "0.15.0"@, "docker-langserver"@, "--stdio"@))
    } else if lang == "markdown"@ {
        if p.os == Os::MacOs {
            Some(other_spec("marksman"@, StrategyKind::BinaryDownload,
                "https://github.com/artempyanykh/marksman/releases/latest/download/marksman-macos"@, Seq::empty(),
                "marksman"@, seq!["server"@], false))
        } else {
            None
        }
    } else if lang == "rust"@ {
        if p.os == Os::MacOs && has_arch(p) {
            Some(other_spec("rust-analyzer"@, StrategyKind::BinaryDownload,
                "https://github.com/rust-lang/rust-analyzer/releases/latest/download/"@ + by_arch(p,
                "rust-analyzer-aarch64-apple-darwin.gz"@, "rust-analyzer-x86_64-apple-darwin.gz"@), Seq::empty(),
                "rust-analyzer"@, Seq::empty(), true))
        } else {
            None
        }
    } else if lang == "python"@ {
        Some(node_spec("pyright"@, "1.1.408"@, "pyright-langserver"@, "--stdio"@))
    } else if lang == "go"@ {
        Some(other_spec("gopls"@, StrategyKind::GoInstall, "golang.org/x/tools/gopls@v0.21.0"@, Seq::empty(),
            "gopls"@, Seq::empty(), false))
    } else if lang == "terraform"@ {
        Some(other_spec("terraform-ls"@, StrategyKind::GoInstall, "github.com/hashicorp/terraform-ls@v0.38.3"@,
            Seq::empty(), "terraform-ls"@, seq!["serve"@], false))
    } else if lang == "sql"@ {
        Some(other_spec("sqls"@, StrategyKind::ArchiveDownload,
            "https://github.com/lighttiger2505/sqls/releases/download/v0.2.45/sqls-darwin-0.2.45.zip"@, "0.2.45"@,
            "sqls"@, seq!["-stdio"@], false))
    } else if lang == "yaml"@ {
        Some(node_spec("yaml-language-server"@, "1.19.2"@, "yaml-language-server"@, "--stdio"@))
    } else if lang == "toml"@ {
        if p.os == Os::MacOs && has_arch(p) {
            Some(other_spec("taplo"@, StrategyKind::BinaryDownload,
                "https://github.com/tamasfe/taplo/releases/latest/download/"@ + by_arch(p, "taplo-darwin-aarch64.gz"@,
                "taplo-darwin-x86_64.gz"@), Seq::empty(), "taplo"@, seq!["lsp"@, "stdio"@], true))
        } else {
            None
        }
    } else if lang == "xml"@ {
        Some(other_spec("lemminx"@, StrategyKind::JarDownload,
            "https://github.com/eclipse/lemminx/releases/download/0.3.0/org.eclipse.lsp4xml-0.3.0-uber.jar"@, "0.3.0"@,
            "lemminx.jar"@, Seq::empty(), false))
    } else if lang == "lua"@ {
        if has_arch(p) {
            Some(other_spec("lua-language-server"@, StrategyKind::ArchiveDownload,
                "https://github.com/LuaLS/lua-language-server/releases/download/3.17.1/"@ + by_arch(p,
                "lua-language-server-3.17.1-darwin-arm64.tar.gz"@, "lua-language-server-3.17.1-darwin-x64.tar.gz"@),
                "3.17.1"@, "lua-language-server"@, Seq::empty(), true))
        } else {
            None
        }
    } else if lang == "graphql"@ {
        Some(node_spec("graphql-language-service-cli"@, "3.5.0"@, "graphql-lsp"@, "--stdio"@))
    } else if lang == "prisma"@ {
        Some(node_spec("@prisma/language-server"@, "31.4.0"@, "prisma-language-server"@, "--stdio"@))
    } else if lang == "ruby"@ {
        Some(other_spec("ruby-lsp"@, StrategyKind::GemInstall, "ruby-lsp"@, "0.26.5"@, "ruby-lsp"@, Seq::empty(), false))
    } else if lang == "c"@ || lang == "cpp"@ {
        if p.os == Os::MacOs {
            Some(other_spec("clangd"@, StrategyKind::SystemTool, "clangd"@, Seq::empty(), Seq::empty(), Seq::empty(), false))
        } else {
            None
        }
    } else if lang == "shell"@ {
        Some(node_spec("bash-language-server"@, "5.6.0"@, "bash-language-server"@, "start"@))
    } else if lang == "php"@ {
        Some(node_spec("intelephense"@, "1.16.4"@, "intelephense"@, "--stdio"@))
    } else if lang == "swift"@ {
        Some(other_spec("sourcekit-lsp"@, StrategyKind::SystemTool, "sourcekit-lsp"@, Seq::empty(), Seq::empty(),
            Seq::empty(), false))
    } else {
        None
    }
}

fn s(text: &str) -> (r: String)
    ensures
        r@ == text@,
{
    String::from_str(text)
}

fn no_args() -> (r: Vec<String>)
    ensures
        strings(r@) == Seq::<Seq<char>>::empty(),
{
    let v: Vec<String> = Vec::new();
    assert(strings(v@) =~= Seq::<Seq<char>>::empty());
    v
}

fn one_arg(a: &str) -> (r: Vec<String>)
    ensures
        strings(r@) == seq![a@],
{
    let mut v: Vec<String> = Vec::new();
    v.push(s(a));
    assert(strings(v@) =~= seq![a@]);
    v
}

fn node(package: &str, version: &str, bin_name: &str, arg: &str) -> (r: ServerPlan)
    ensures
        r.view() == node_spec(package@, version@, bin_name@, arg@),
{
    ServerPlan {
        server_name: s(package),
        strategy: Strategy::NodePackage {
            package: s(package),
            version: s(version),
            bin_name: s(bin_name),
            args: one_arg(arg),
            companion: None,
        },
    }
}

fn concat(a: &str, b: &str) -> (r: String)
    ensures
        r@ == a@ + b@,
{
    let mut out = s(a);
    push_str(&mut out, b);
    out
}

/// The server for `language_id` on `platform` and how to provision it;
/// `None` where there is none.
pub fn server_plan(language_id: &str, platform: Platform) -> (r: Option<ServerPlan>)
    ensures
        match plan_spec(language_id@, platform) {
            Some(p) => r matches Some(plan) && plan.view() == p,
            None => r is None,
        },
{
    let lang = language_id;
    let mac = platform.os == Os::MacOs;
    let arch_ok = platform.arch != Arch::Other;
    if str_eq(lang, "typescript") || str_eq(lang, "javascript") {
        Some(ServerPlan {
            server_name: s("typescript-language-server"),
            strategy: Strategy::NodePackage {
                package: s("typescript-language-server"),
                version: s("5.1.3"),
                bin_name: s("typescript-language-server"),
                args: one_arg("--stdio"),
                companion: Some((s("typescript"), s("5.9.3"))),
            },
        })
    } else if str_eq(lang, "json") {
        Some(node("vscode-json-languageserver-bin", "1.0.1", "vscode-json-language-server", "--stdio"))
    } else if str_eq(lang, "css") || str_eq(lang, "scss") || str_eq(lang, "less") {
        Some(node("vscode-css-languageserver-bin", "1.4.0", "vscode-css-language-server", "--stdio"))
    } else if str_eq(lang, "html") {
        Some(node("vscode-html-languageserver-bin", "1.4.0", "vscode-html-language-server", "--stdio"))
    } else if str_eq(lang, "dockerfile") {
        Some(node("dockerfile-language-server-nodejs", "0.15.0", "docker-langserver", "--stdio"))
    } else if str_eq(lang, "markdown") {
        if !mac {
            return None;
        }
        Some(ServerPlan {
            server_name: s("marksman"),
            strategy: Strategy::BinaryDownload {
                url: s("https://github.com/artempyanykh/marksman/releases/latest/download/marksman-macos"),
                binary: s("marksman"),
                gzip: false,
                args: one_arg("server"),
            },
        })
    } else if str_eq(lang, "rust") {
        if !mac || !arch_ok {
            return None;
        }
        let asset = if platform.arch == Arch::Aarch64 {
            "rust-analyzer-aarch64-apple-darwin.gz"
        } else {
            "rust-analyzer-x86_64-apple-darwin.gz"
        };
        Some(ServerPlan {
            server_name: s("rust-analyzer"),
            strategy: Strategy::BinaryDownload {
                url: concat("https://github.com/rust-lang/rust-analyzer/releases/latest/download/", asset),
                binary: s("rust-analyzer"),
                gzip: true,
                args: no_args(),
            },
        })
    } else if str_eq(lang, "python") {
        Some(node("pyright", "1.1.408", "pyright-langserver", "--stdio"))
    } else if str_eq(lang, "go") {
        Some(ServerPlan {
            server_name: s("gopls"),
            strategy: Strategy::GoInstall {
                module: s("golang.org/x/tools/gopls@v0.21.0"),
                binary: s("gopls"),
                args: no_args(),
            },
        })
    } else if str_eq(lang, "terraform") {
        Some(ServerPlan {
            server_name: s("terraform-ls"),
            strategy: Strategy::GoInstall {
                module: s("github.com/hashicorp/terraform-ls@v0.38.3"),
                binary: s("terraform-ls"),
                args: one_arg("serve"),
            },
        })
    } else if str_eq(lang, "sql") {
        Some(ServerPlan {
            server_name: s("sqls"),
            strategy: Strategy::ArchiveDownload {
                url: s("https://github.com/lighttiger2505/sqls/releases/download/v0.2.45/sqls-darwin-0.2.45.zip"),
                archive: ArchiveKind::Zip,
                version: s("0.2.45"),
                binary: s("sqls"),
                args: one_arg("-stdio"),
            },
        })
    } else if str_eq(lang, "yaml") {
        Some(node("yaml-language-server", "1.19.2", "yaml-language-server", "--stdio"))
    } else if str_eq(lang, "toml") {
        if !mac || !arch_ok {
            return None;
        }
        let asset = if platform.arch == Arch::Aarch64 {
            "taplo-darwin-aarch64.gz"
        } else {
            "taplo-darwin-x86_64.gz"
        };
        let mut args: Vec<String> = Vec::new();
        args.push(s("lsp"));
        args.push(s("stdio"));
        assert(strings(args@) =~= seq!["lsp"@, "stdio"@]);
        Some(ServerPlan {
            server_name: s("taplo"),
            strategy: Strategy::BinaryDownload {
                url: concat("https://github.com/tamasfe/taplo/releases/latest/download/", asset),
                binary: s("taplo"),
                gzip: true,
                args,
            },
        })
    } else if str_eq(lang, "xml") {
        Some(ServerPlan {
            server_name: s("lemminx"),
            strategy: Strategy::JarDownload {
                url: s("https://github.com/eclipse/lemminx/releases/download/0.3.0/org.eclipse.lsp4xml-0.3.0-uber.jar"),
                jar: s("lemminx.jar"),
                version: s("0.3.0"),
            },
        })
    } else if str_eq(lang, "lua") {
        if !arch_ok {
            return None;
        }
        let asset = if platform.arch == Arch::Aarch64 {
            "lua-language-server-3.17.1-darwin-arm64.tar.gz"
        } else {
            "lua-language-server-3.17.1-darwin-x64.tar.gz"
        };
        Some(ServerPlan {
            server_name: s("lua-language-server"),
            strategy: Strategy::ArchiveDownload {
                url: concat("https://github.com/LuaLS/lua-language-server/releases/download/3.17.1/", asset),
                archive: ArchiveKind::TarGz,
                version: s("3.17.1"),
                binary: s("lua-language-server"),
                args: no_args(),
            },
        })
    } else if str_eq(lang, "graphql") {
        Some(node("graphql-language-service-cli", "3.5.0", "graphql-lsp", "--stdio"))
    } else if str_eq(lang, "prisma") {
        Some(node("@prisma/language-server", "31.4.0", "prisma-language-server", "--stdio"))
    } else if str_eq(lang, "ruby") {
        Some(ServerPlan {
            server_name: s("ruby-lsp"),
            strategy: Strategy::GemInstall { gem: s("ruby-lsp"), version: s("0.26.5"), binary: s("ruby-lsp") },
        })
    } else if str_eq(lang, "c") || str_eq(lang, "cpp") {
        if !mac {
            return None;
        }
        Some(ServerPlan { server_name: s("clangd"), strategy: Strategy::SystemTool { tool: s("clangd") } })
    } else if str_eq(lang, "shell") {
        Some(node("bash-language-server", "5.6.0", "bash-language-server", "start"))
    } else if str_eq(lang, "php") {
        Some(node("intelephense", "1.16.4", "intelephense", "--stdio"))
    } else if str_eq(lang, "swift") {
        Some(ServerPlan { server_name: s("sourcekit-lsp"), strategy: Strategy::SystemTool { tool: s("sourcekit-lsp") } })
    } else {
        None
    }
}

/// The pinned version of the managed Node runtime.
pub fn node_version() -> (r: String)
    ensures
        r@ == "20.11.1"@,
{
    s("20.11.1")
}

/// The name of the Node release archive for a platform; only macOS on both
/// architectures and Linux on x86-64 have one.
pub fn node_archive_name(version: &str, platform: Platform) -> (r: Option<String>)
    ensures
        r is Some <==> (platform.os == Os::MacOs && has_arch(platform)) || (platform.os == Os::Linux
            && platform.arch == Arch::X86_64),
        r matches Some(name) ==> name@ == "node-v"@ + version@ + (if platform.os == Os::Linux {
            "-linux-x64.tar.gz"@
        } else if platform.arch == Arch::Aarch64 {
            "-darwin-arm64.tar.gz"@
        } else {
            "-darwin-x64.tar.gz"@
        }),
{
    let suffix = if platform.os == Os::MacOs && platform.arch == Arch::Aarch64 {
        "-darwin-arm64.tar.gz"
    } else if platform.os == Os::MacOs && platform.arch == Arch::X86_64 {
        "-darwin-x64.tar.gz"
    } else if platform.os == Os::Linux && platform.arch == Arch::X86_64 {
        "-linux-x64.tar.gz"
    } else {
        return None;
    };
    let mut out = concat("node-v", version);
    push_str(&mut out, suffix);
    Some(out)
}

} // verus!

verus! {

/// The states a provisioning step reports, in the order they are reached.
#[derive(Clone, Copy, Debug, PartialEq, Eq, Structural)]
pub enum InstallState {
    Checking,
    Starting,
    Downloading,
    Verifying,
    Extracting,
    Installing,
    Installed,
}

/// Where a state stands in the progression; extracting and installing are
/// alternatives at the same stage.
pub open spec fn stage(s: InstallState) -> int {
    match s {
        InstallState::Checking => 0,
        InstallState::Starting => 1,
        InstallState::Downloading => 2,
        InstallState::Verifying => 3,
        InstallState::Extracting => 4,
        InstallState::Installing => 4,
        InstallState::Installed => 5,
    }
}

impl InstallState {
    /// The name of the state in progress events.
    pub fn name(&self) -> (r: String)
        ensures
            *self == InstallState::Checking ==> r@ == "checking"@,
            *self == InstallState::Starting ==> r@ == "starting"@,
            *self == InstallState::Downloading ==> r@ == "downloading"@,
            *self == InstallState::Verifying ==> r@ == "verifying"@,
            *self == InstallState::Extracting ==> r@ == "extracting"@,
            *self == InstallState::Installing ==> r@ == "installing"@,
            *self == InstallState::Installed ==> r@ == "installed"@,
    {
        match self {
            InstallState::Checking => String::from_str("checking"),
            InstallState::Starting => String::from_str("starting"),
            InstallState::Downloading => String::from_str("downloading"),
            InstallState::Verifying => String::from_str("verifying"),
            InstallState::Extracting => String::from_str("extracting"),
            InstallState::Installing => String::from_str("installing"),
            InstallState::Installed => String::from_str("installed"),
        }
    }

    /// Whether `next` may be reported after `self`: progress never goes
    /// back, and a download reports repeatedly as bytes arrive.
    pub fn may_precede(&self, next: InstallState) -> (r: bool)
        ensures
            r == (stage(*self) < stage(next) || (*self == InstallState::Downloading && next == InstallState::Downloading)),
    {
        let a: u8 = match self {
            InstallState::Checking => 0,
            InstallState::Starting => 1,
            InstallState::Downloading => 2,
            InstallState::Verifying => 3,
            InstallState::Extracting => 4,
            InstallState::Installing => 4,
            InstallState::Installed => 5,
        };
        let b: u8 = match next {
            InstallState::Checking => 0,
            InstallState::Starting => 1,
            InstallState::Downloading => 2,
            InstallState::Verifying => 3,
            InstallState::Extracting => 4,
            InstallState::Installing => 4,
            InstallState::Installed => 5,
        };
        a < b || (a == 2 && b == 2)
    }
}

} // verus!
