//! Directives for linking a program with SPDK.
use vstd::prelude::*;
use vstd::string::*;
use crate::error::prefixed;
use crate::text::{
    ends_with, Separator, split, split_text, split_words, strip_prefix, texts, words,
};

verus! {

/// A pkg-config package of SPDK that a program is not linked with by name: the system libraries,
/// which follow later, and what is not C.
pub open spec fn excluded_meta(name: Seq<char>) -> bool {
    ||| name == "spdk_syslibs"@
    ||| name == "spdk_trace"@
    ||| name == "spdk_trace_parser"@
    ||| name == "spdk_ut"@
    ||| name == "spdk_ut_mock"@
}

fn is_excluded_meta(name: &String) -> (res: bool)
    ensures
        res == excluded_meta(name@),
{
    *name == "spdk_syslibs".to_owned() || *name == "spdk_trace".to_owned() || *name
        == "spdk_trace_parser".to_owned() || *name == "spdk_ut".to_owned() || *name
        == "spdk_ut_mock".to_owned()
}

/// Selects the packages to link with among the names of the pkg-config files.
pub fn get_spdk_pkgcfg_metas(file_names: &Vec<String>) -> (metas: Vec<String>)
    ensures
        metas@ == file_names@.filter(|name: String| !excluded_meta(name@)),
{
    let ghost wanted = |name: String| !excluded_meta(name@);
    let mut metas: Vec<String> = Vec::new();
    let mut i: usize = 0;
    proof {
        reveal(Seq::filter);
        assert(metas@ =~= file_names@.take(0).filter(wanted));
    }
    while i < file_names.len()
        invariant
            i <= file_names@.len(),
            wanted == (|name: String| !excluded_meta(name@)),
            metas@ == file_names@.take(i as int).filter(wanted),
        decreases file_names@.len() - i,
    {
        proof {
            reveal(Seq::filter);
            assert(file_names@.take(i + 1).drop_last() =~= file_names@.take(i as int));
            assert(file_names@.take(i + 1).last() == file_names@[i as int]);
        }
        if !is_excluded_meta(&file_names[i]) {
            metas.push(file_names[i].clone());
        }
        i = i + 1;
    }
    assert(file_names@.take(i as int) =~= file_names@);
    metas
}

/// The directive that a token of pkg-config's output stands for, if it stands for any: search
/// paths, libraries to link with, and paths of headers.
pub open spec fn token_directive(token: Seq<char>) -> Option<Seq<char>> {
    if "-L"@.is_prefix_of(token) {
        Some("cargo:rustc-link-search=native="@ + token.skip("-L"@.len() as int))
    } else if "-l"@.is_prefix_of(token) || ".a"@.is_suffix_of(token) {
        Some("cargo:rustc-link-arg="@ + token)
    } else if "-I"@.is_prefix_of(token) {
        Some("cargo:include="@ + token.skip("-I"@.len() as int))
    } else {
        None
    }
}

/// The directives that the tokens stand for, in order.
pub open spec fn token_directives(tokens: Seq<Seq<char>>) -> Seq<Seq<char>>
    decreases tokens.len(),
{
    if tokens.len() == 0 {
        Seq::empty()
    } else {
        match token_directive(tokens.last()) {
            Some(directive) => token_directives(tokens.drop_last()).push(directive),
            None => token_directives(tokens.drop_last()),
        }
    }
}

fn parse_pkgcfg_token(token: &String) -> (res: Option<String>)
    ensures
        match res {
            Some(directive) => token_directive(token@) == Some(directive@),
            None => token_directive(token@) is None,
        },
{
    if let Some(lib_path) = strip_prefix(token.as_str(), "-L") {
        return Some(prefixed("cargo:rustc-link-search=native=", lib_path.as_str()));
    }
    if strip_prefix(token.as_str(), "-l").is_some() || ends_with(token.as_str(), ".a") {
        return Some(prefixed("cargo:rustc-link-arg=", token.as_str()));
    }
    match strip_prefix(token.as_str(), "-I") {
        Some(inc_path) => Some(prefixed("cargo:include=", inc_path.as_str())),
        None => None,
    }
}

/// Returns the directives that the tokens stand for, in order.
pub fn parse_pkgcfg_tokens(tokens: &Vec<String>) -> (directives: Vec<String>)
    ensures
        texts(directives@) == token_directives(texts(tokens@)),
{
    let mut directives: Vec<String> = Vec::new();
    let ghost all = texts(tokens@);
    let mut i: usize = 0;
    assert(texts(directives@) =~= token_directives(all.take(0)));
    while i < tokens.len()
        invariant
            i <= tokens@.len(),
            all == texts(tokens@),
            texts(directives@) == token_directives(all.take(i as int)),
        decreases tokens@.len() - i,
    {
        let ghost before = directives@;
        assert(all.take(i + 1).drop_last() =~= all.take(i as int));
        assert(all.take(i + 1).last() == tokens@[i as int]@);
        if let Some(directive) = parse_pkgcfg_token(&tokens[i]) {
            directives.push(directive);
            assert(texts(directives@) =~= texts(before).push(directive@));
        }
        i = i + 1;
    }
    assert(all.take(i as int) =~= all);
    directives
}

/// Splits the output of pkg-config into its tokens, which single spaces separate.
pub fn pkgcfg_tokens(output: &str) -> (tokens: Vec<String>)
    ensures
        texts(tokens@) == split(output@, Separator::Char(' ')),
{
    split_text(output, Separator::Char(' '))
}

/// The arguments with which pkg-config lists the libraries of the packages.
pub fn pkgcfg_libs_args(metas: &Vec<String>) -> (args: Vec<String>)
    ensures
        texts(args@) == seq!["--libs"@] + texts(metas@),
{
    let mut args: Vec<String> = Vec::new();
    args.push("--libs".to_owned());
    let mut i: usize = 0;
    assert(texts(args@) =~= seq!["--libs"@] + texts(metas@).take(0));
    while i < metas.len()
        invariant
            i <= metas@.len(),
            texts(args@) == seq!["--libs"@] + texts(metas@).take(i as int),
        decreases metas@.len() - i,
    {
        let ghost before = args@;
        args.push(metas[i].clone());
        assert(texts(args@) =~= texts(before).push(metas@[i as int]@));
        assert(texts(args@) =~= seq!["--libs"@] + texts(metas@).take(i + 1));
        i = i + 1;
    }
    assert(texts(metas@).take(i as int) =~= texts(metas@));
    args
}

/// The arguments with which pkg-config lists the system libraries that SPDK needs.
pub fn pkgcfg_syslibs_args() -> (args: Vec<String>)
    ensures
        texts(args@) == seq!["--libs"@, "--static"@, "spdk_syslibs"@],
{
    let mut args: Vec<String> = Vec::new();
    args.push("--libs".to_owned());
    args.push("--static".to_owned());
    args.push("spdk_syslibs".to_owned());
    assert(texts(args@) =~= seq!["--libs"@, "--static"@, "spdk_syslibs"@]);
    args
}

/// The directives for linking with SPDK: its libraries statically, then, dynamically, the system
/// libraries and liburing.
pub open spec fn link_directives(
    spdk_tokens: Seq<Seq<char>>,
    sys_tokens: Seq<Seq<char>>,
) -> Seq<Seq<char>> {
    token_directives(spdk_tokens) + seq![
        "cargo:rustc-link-arg=-Wl,-Bdynamic"@,
        "cargo:rustc-link-arg=-Wl,--no-whole-archive"@,
    ] + token_directives(sys_tokens) + seq!["cargo:rustc-link-arg=-luring"@]
}

/// Returns the directives for linking with SPDK, from the tokens that pkg-config gave for SPDK's
/// libraries and for the system libraries.
pub fn emit_link_spdk(spdk_tokens: &Vec<String>, sys_tokens: &Vec<String>) -> (directives: Vec<
    String,
>)
    ensures
        texts(directives@) == link_directives(texts(spdk_tokens@), texts(sys_tokens@)),
{
    let mut directives = parse_pkgcfg_tokens(spdk_tokens);
    let ghost spdk = directives@;
    directives.push("cargo:rustc-link-arg=-Wl,-Bdynamic".to_owned());
    directives.push("cargo:rustc-link-arg=-Wl,--no-whole-archive".to_owned());
    let mut sys = parse_pkgcfg_tokens(sys_tokens);
    let ghost sys_directives = sys@;
    directives.append(&mut sys);
    directives.push("cargo:rustc-link-arg=-luring".to_owned());
    assert(texts(directives@) =~= texts(spdk) + seq![
        "cargo:rustc-link-arg=-Wl,-Bdynamic"@,
        "cargo:rustc-link-arg=-Wl,--no-whole-archive"@,
    ] + texts(sys_directives) + seq!["cargo:rustc-link-arg=-luring"@]);
    directives
}

/// Returns the directives that come before all others: everything is linked in, statically, and
/// first of all the C shim in `out_dir`.
pub fn emit_preamble(out_dir: &str) -> (directives: Vec<String>)
    ensures
        texts(directives@) == seq![
            "cargo:rustc-link-arg=-Wl,--no-as-needed"@,
            "cargo:rustc-link-arg=-Wl,-Bstatic"@,
            "cargo:rustc-link-arg=-Wl,--whole-archive"@,
            "cargo:rustc-link-search=native="@ + out_dir@,
            "cargo:rustc-link-arg=-lironspdkshim"@,
        ],
{
    let mut directives: Vec<String> = Vec::new();
    directives.push("cargo:rustc-link-arg=-Wl,--no-as-needed".to_owned());
    directives.push("cargo:rustc-link-arg=-Wl,-Bstatic".to_owned());
    directives.push("cargo:rustc-link-arg=-Wl,--whole-archive".to_owned());
    directives.push(prefixed("cargo:rustc-link-search=native=", out_dir));
    directives.push("cargo:rustc-link-arg=-lironspdkshim".to_owned());
    assert(texts(directives@) =~= seq![
        "cargo:rustc-link-arg=-Wl,--no-as-needed"@,
        "cargo:rustc-link-arg=-Wl,-Bstatic"@,
        "cargo:rustc-link-arg=-Wl,--whole-archive"@,
        "cargo:rustc-link-search=native="@ + out_dir@,
        "cargo:rustc-link-arg=-lironspdkshim"@,
    ]);
    directives
}

/// The `include` directory below the one that the environment names for SPDK, and whether it
/// exists.
#[derive(Debug)]
pub struct EnvInclude {
    pub path: String,
    pub exists: bool,
}

/// What pkg-config says of SPDK: whether it succeeded, and its output.
#[derive(Debug)]
pub struct PkgConfigOutput {
    pub success: bool,
    pub stdout: String,
}

/// Where the headers of SPDK are.
#[derive(Debug)]
pub enum IncludeDir {
    /// In a directory that the environment names; a change of the environment matters.
    FromEnv(String),
    /// In a directory that pkg-config names.
    FromPkgConfig(String),
}

/// Why the headers of SPDK were not found.
#[derive(Debug, Clone, Copy, PartialEq, Eq, Structural)]
pub enum IncludeError {
    /// The directory that the environment names for SPDK has no headers.
    MissingInEnv,
    /// Neither the environment nor pkg-config names a directory.
    NotFound,
}

/// The path of the first word of the form `-Ipath`.
pub open spec fn first_include(tokens: Seq<Seq<char>>) -> Option<Seq<char>>
    decreases tokens.len(),
{
    if tokens.len() == 0 {
        None
    } else if "-I"@.is_prefix_of(tokens[0]) {
        Some(tokens[0].skip("-I"@.len() as int))
    } else {
        first_include(tokens.skip(1))
    }
}

/// Returns the path of the first word of the form `-Ipath`.
fn first_include_path(output: &str) -> (res: Option<String>)
    ensures
        match res {
            Some(path) => first_include(words(output@)) == Some(path@),
            None => first_include(words(output@)) is None,
        },
{
    let tokens = split_words(output);
    let ghost all = texts(tokens@);
    let mut i: usize = 0;
    assert(all.skip(0) =~= all);
    while i < tokens.len()
        invariant
            i <= tokens@.len(),
            all == texts(tokens@),
            all == words(output@),
            first_include(all) == first_include(all.skip(i as int)),
        decreases tokens@.len() - i,
    {
        assert(all.skip(i as int)[0] == tokens@[i as int]@);
        assert(all.skip(i as int).skip(1) =~= all.skip(i + 1));
        if let Some(path) = strip_prefix(tokens[i].as_str(), "-I") {
            return Some(path);
        }
        i = i + 1;
    }
    assert(all.skip(i as int) =~= Seq::<Seq<char>>::empty());
    None
}

/// Decides where the headers of SPDK are. What the environment names comes first; `pkg_config` is
/// only looked at where it names nothing.
pub fn resolve_spdk_include(env: Option<EnvInclude>, pkg_config: Option<PkgConfigOutput>) -> (res:
    Result<IncludeDir, IncludeError>)
    ensures
        match env {
            Some(dir) => if dir.exists {
                res == Ok::<IncludeDir, IncludeError>(IncludeDir::FromEnv(dir.path))
            } else {
                res == Err::<IncludeDir, IncludeError>(IncludeError::MissingInEnv)
            },
            None => match pkg_config {
                Some(out) => match (out.success, first_include(words(out.stdout@))) {
                    (true, Some(path)) => res matches Ok(IncludeDir::FromPkgConfig(found))
                        && found@ == path,
                    _ => res == Err::<IncludeDir, IncludeError>(IncludeError::NotFound),
                },
                None => res == Err::<IncludeDir, IncludeError>(IncludeError::NotFound),
            },
        },
{
    if let Some(dir) = env {
        if dir.exists {
            return Ok(IncludeDir::FromEnv(dir.path));
        }
        return Err(IncludeError::MissingInEnv);
    }
    if let Some(out) = pkg_config {
        if out.success {
            if let Some(path) = first_include_path(out.stdout.as_str()) {
                return Ok(IncludeDir::FromPkgConfig(path));
            }
        }
    }
    Err(IncludeError::NotFound)
}

} // verus!
