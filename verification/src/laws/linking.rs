//! Laws of the directives for linking.
use vstd::prelude::*;
use crate::laws::texts::{interleaved, lemma_pieces_make_up, written};
use crate::link::{
    emit_link_spdk, emit_preamble, excluded_meta, first_include, get_spdk_pkgcfg_metas,
    parse_pkgcfg_tokens, pkgcfg_libs_args, pkgcfg_syslibs_args, pkgcfg_tokens,
    resolve_spdk_include, token_directive, token_directives, EnvInclude, IncludeDir, IncludeError,
    PkgConfigOutput,
};
use crate::text::{split_words, texts};

verus! {

proof fn lemma_written(strings: Seq<String>)
    ensures
        texts(strings) == written(strings),
{
    assert(texts(strings) =~= written(strings));
}

/// Every package is linked with, in the order of the names, but for the system libraries, what
/// traces and what serves unit tests.
pub proof fn law_packages_are_kept(file_names: &Vec<String>, metas: Vec<String>)
    requires
        call_ensures(get_spdk_pkgcfg_metas, (file_names,), metas),
    ensures
        metas@ == file_names@.filter(
            |name: String|
                name@ != "spdk_syslibs"@ && name@ != "spdk_trace"@ && name@
                    != "spdk_trace_parser"@ && name@ != "spdk_ut"@ && name@ != "spdk_ut_mock"@,
        ),
{
    let wanted = |name: String| !excluded_meta(name@);
    let kept = |name: String|
        name@ != "spdk_syslibs"@ && name@ != "spdk_trace"@ && name@ != "spdk_trace_parser"@
            && name@ != "spdk_ut"@ && name@ != "spdk_ut_mock"@;
    assert(wanted =~= kept);
}

/// What one token stands for: `-L` before a path is a path to search, `-l` before a name and a
/// name that ends in `.a` are libraries to link with, `-I` before a path is a path of headers, and
/// all else stands for nothing.
pub proof fn law_token_stands_for_its_directive(
    tokens: &Vec<String>,
    directives: Vec<String>,
    rest: Seq<char>,
)
    requires
        call_ensures(parse_pkgcfg_tokens, (tokens,), directives),
        tokens@.len() == 1,
    ensures
        tokens@[0]@ == "-L"@ + rest ==> written(directives@) == seq![
            "cargo:rustc-link-search=native="@ + rest,
        ],
        tokens@[0]@ == "-l"@ + rest ==> written(directives@) == seq![
            "cargo:rustc-link-arg="@ + tokens@[0]@,
        ],
        tokens@[0]@ == rest + ".a"@ && !"-L"@.is_prefix_of(tokens@[0]@) ==> written(directives@)
            == seq!["cargo:rustc-link-arg="@ + tokens@[0]@],
        tokens@[0]@ == "-I"@ + rest && !".a"@.is_suffix_of(tokens@[0]@) ==> written(directives@)
            == seq!["cargo:include="@ + rest],
        !"-L"@.is_prefix_of(tokens@[0]@) && !"-l"@.is_prefix_of(tokens@[0]@)
            && !"-I"@.is_prefix_of(tokens@[0]@) && !".a"@.is_suffix_of(tokens@[0]@)
            ==> directives@.len() == 0,
{
    let token = tokens@[0]@;
    reveal_strlit("-L");
    reveal_strlit("-l");
    reveal_strlit("-I");
    reveal_strlit(".a");
    lemma_written(directives@);
    let all = texts(tokens@);
    assert(all.last() == token);
    assert(all.drop_last() =~= Seq::empty());
    assert(token_directives(all.drop_last()) =~= Seq::empty());
    if token == "-L"@ + rest {
        assert(token.skip(2) =~= rest);
        assert("-L"@.is_prefix_of(token));
    }
    if token == "-l"@ + rest {
        assert(token[1] == 'l');
        assert("-l"@.is_prefix_of(token));
    }
    if token == rest + ".a"@ {
        assert(".a"@ =~= token.subrange(token.len() - 2, token.len() as int));
        assert(".a"@.is_suffix_of(token));
    }
    if token == "-I"@ + rest {
        assert(token[1] == 'I');
        assert(token.skip(2) =~= rest);
        assert("-I"@.is_prefix_of(token));
    }
    match token_directive(token) {
        Some(directive) => {
            assert(token_directives(all) =~= seq![directive]);
        },
        None => {
            assert(token_directives(all) =~= Seq::empty());
            assert(texts(directives@).len() == directives@.len());
        },
    }
}

proof fn lemma_directives_of_both(a: Seq<Seq<char>>, b: Seq<Seq<char>>)
    ensures
        token_directives(a + b) == token_directives(a) + token_directives(b),
    decreases b.len(),
{
    if b.len() == 0 {
        assert(a + b =~= a);
        assert(token_directives(a) + token_directives(b) =~= token_directives(a));
    } else {
        lemma_directives_of_both(a, b.drop_last());
        assert((a + b).drop_last() =~= a + b.drop_last());
        assert((a + b).last() == b.last());
        assert(token_directives(a + b) =~= token_directives(a) + token_directives(b));
    }
}

/// The directives of tokens behind one another are the directives of the first tokens, then those
/// of the others. No tokens, no directives.
pub proof fn law_directives_follow_the_tokens(
    first: &Vec<String>,
    second: &Vec<String>,
    both: &Vec<String>,
    of_first: Vec<String>,
    of_second: Vec<String>,
    of_both: Vec<String>,
)
    requires
        call_ensures(parse_pkgcfg_tokens, (first,), of_first),
        call_ensures(parse_pkgcfg_tokens, (second,), of_second),
        call_ensures(parse_pkgcfg_tokens, (both,), of_both),
        written(both@) == written(first@) + written(second@),
    ensures
        written(of_both@) == written(of_first@) + written(of_second@),
        first@.len() == 0 ==> of_first@.len() == 0,
{
    lemma_written(first@);
    lemma_written(second@);
    lemma_written(both@);
    lemma_written(of_first@);
    lemma_written(of_second@);
    lemma_written(of_both@);
    lemma_directives_of_both(texts(first@), texts(second@));
    if first@.len() == 0 {
        assert(texts(of_first@).len() == of_first@.len());
    }
}

/// A program is linked with SPDK's libraries first; then, no longer statically, with the system
/// libraries, and with liburing last.
pub proof fn law_system_libraries_come_last(
    spdk_tokens: &Vec<String>,
    sys_tokens: &Vec<String>,
    spdk: Vec<String>,
    sys: Vec<String>,
    all: Vec<String>,
)
    requires
        call_ensures(parse_pkgcfg_tokens, (spdk_tokens,), spdk),
        call_ensures(parse_pkgcfg_tokens, (sys_tokens,), sys),
        call_ensures(emit_link_spdk, (spdk_tokens, sys_tokens), all),
    ensures
        written(all@) == written(spdk@) + seq![
            "cargo:rustc-link-arg=-Wl,-Bdynamic"@,
            "cargo:rustc-link-arg=-Wl,--no-whole-archive"@,
        ] + written(sys@) + seq!["cargo:rustc-link-arg=-luring"@],
{
    lemma_written(spdk@);
    lemma_written(sys@);
    lemma_written(all@);
}

/// The C shim is linked with first, whole and statically, from the directory where it was built.
pub proof fn law_shim_comes_first(out_dir: &str, directives: Vec<String>)
    requires
        call_ensures(emit_preamble, (out_dir,), directives),
    ensures
        written(directives@) == seq![
            "cargo:rustc-link-arg=-Wl,--no-as-needed"@,
            "cargo:rustc-link-arg=-Wl,-Bstatic"@,
            "cargo:rustc-link-arg=-Wl,--whole-archive"@,
            "cargo:rustc-link-search=native="@ + out_dir@,
            "cargo:rustc-link-arg=-lironspdkshim"@,
        ],
{
    lemma_written(directives@);
}

/// pkg-config is asked for the libraries of the packages by their names, and for the static system
/// libraries.
pub proof fn law_pkg_config_is_asked_for_libraries(
    metas: &Vec<String>,
    args: Vec<String>,
    sys_args: Vec<String>,
)
    requires
        call_ensures(pkgcfg_libs_args, (metas,), args),
        call_ensures(pkgcfg_syslibs_args, (), sys_args),
    ensures
        written(args@) == seq!["--libs"@] + written(metas@),
        written(sys_args@) == seq!["--libs"@, "--static"@, "spdk_syslibs"@],
{
    lemma_written(metas@);
    lemma_written(args@);
    lemma_written(sys_args@);
}

/// The tokens of pkg-config's output hold no space, and with single spaces between them they are
/// the output.
pub proof fn law_tokens_are_between_spaces(output: &str, tokens: Vec<String>)
    requires
        call_ensures(pkgcfg_tokens, (output,), tokens),
    ensures
        tokens@.len() > 0,
        forall|i: int, k: int|
            0 <= i < tokens@.len() && 0 <= k < tokens@[i]@.len() ==> #[trigger] tokens@[i]@[k]
                != ' ',
        interleaved(written(tokens@), Seq::new((tokens@.len() - 1) as nat, |i: int| ' '))
            == output@,
{
    lemma_pieces_make_up(output@, ' ', tokens@);
}

proof fn lemma_first_include(tokens: Seq<Seq<char>>, k: int)
    requires
        0 <= k <= tokens.len(),
        forall|j: int| 0 <= j < k ==> !"-I"@.is_prefix_of(#[trigger] tokens[j]),
    ensures
        k == tokens.len() ==> first_include(tokens) is None,
        k < tokens.len() && "-I"@.is_prefix_of(tokens[k]) ==> first_include(tokens) == Some(
            tokens[k].skip("-I"@.len() as int),
        ),
    decreases tokens.len(),
{
    if tokens.len() > 0 && k > 0 {
        assert forall|j: int| 0 <= j < k - 1 implies !"-I"@.is_prefix_of(
            #[trigger] tokens.skip(1)[j],
        ) by {
            assert(tokens.skip(1)[j] == tokens[j + 1]);
        }
        lemma_first_include(tokens.skip(1), k - 1);
    }
}

/// A directory of headers that the environment names is taken where it exists, and its lack is an
/// error, whatever pkg-config says. Otherwise the first word of pkg-config's output that begins
/// with `-I` names the directory, where pkg-config succeeded and there is such a word.
pub proof fn law_headers_are_where_they_are_named(
    env: Option<EnvInclude>,
    pkg_config: Option<PkgConfigOutput>,
    res: Result<IncludeDir, IncludeError>,
    stdout: &str,
    words: Vec<String>,
    k: int,
)
    requires
        call_ensures(resolve_spdk_include, (env, pkg_config), res),
        call_ensures(split_words, (stdout,), words),
        pkg_config is Some ==> pkg_config->0.stdout@ == stdout@,
        0 <= k <= words@.len(),
        forall|j: int| 0 <= j < k ==> !"-I"@.is_prefix_of((#[trigger] words@[j])@),
    ensures
        env is Some && env->0.exists ==> res == Ok::<IncludeDir, IncludeError>(
            IncludeDir::FromEnv(env->0.path),
        ),
        env is Some && !env->0.exists ==> res == Err::<IncludeDir, IncludeError>(
            IncludeError::MissingInEnv,
        ),
        env is None && (pkg_config is None || !pkg_config->0.success || k == words@.len()) ==> res
            == Err::<IncludeDir, IncludeError>(IncludeError::NotFound),
        env is None && pkg_config is Some && pkg_config->0.success && k < words@.len()
            && "-I"@.is_prefix_of(words@[k]@) ==> (res matches Ok(IncludeDir::FromPkgConfig(path))
            && "-I"@ + path@ == words@[k]@),
{
    let all = texts(words@);
    assert forall|j: int| 0 <= j < k implies !"-I"@.is_prefix_of(#[trigger] all[j]) by {
        assert(all[j] == words@[j]@);
    }
    lemma_first_include(all, k);
    if k < words@.len() && "-I"@.is_prefix_of(words@[k]@) {
        assert(all[k] == words@[k]@);
        assert("-I"@ + words@[k]@.skip("-I"@.len() as int) =~= words@[k]@);
    }
}

} // verus!
