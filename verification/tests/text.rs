use ironspdk::link::{
    emit_link_spdk, emit_preamble, get_spdk_pkgcfg_metas, parse_pkgcfg_tokens, pkgcfg_libs_args,
    pkgcfg_syslibs_args, pkgcfg_tokens, resolve_spdk_include, EnvInclude, IncludeDir, IncludeError,
    PkgConfigOutput,
};
use ironspdk::text::{
    ends_with, parse_bool, parse_unsigned, split_text, split_words, strip_prefix, Separator,
};

fn strings(texts: &[&str]) -> Vec<String> {
    texts.iter().map(|t| t.to_string()).collect()
}

#[test]
fn white_space_is_that_of_the_standard_library() {
    for code in 0..0x11_0000u32 {
        if let Some(c) = char::from_u32(code) {
            assert_eq!(Separator::WhiteSpace.separates(c), c.is_whitespace(), "{:x}", code);
        }
    }
}

#[test]
fn texts_are_split_at_every_separator() {
    for text in ["", ",", "a", "a,b", ",a,,b,", "\u{e9},\u{fffd}"] {
        let expected: Vec<String> = text.split(',').map(|s| s.to_string()).collect();
        assert_eq!(split_text(text, Separator::Char(',')), expected);
        assert_eq!(split_text(text, Separator::Char(',')).join(","), text);
    }
}

#[test]
fn words_are_split_at_white_space() {
    for text in ["", " ", "a", "  a\tb\n c ", "\u{3000}x\u{a0}y\u{85}"] {
        let expected: Vec<String> = text.split_whitespace().map(|s| s.to_string()).collect();
        assert_eq!(split_words(text), expected);
    }
}

#[test]
fn prefixes_and_suffixes_are_found() {
    assert_eq!(strip_prefix("-L/lib", "-L"), Some("/lib".to_string()));
    assert_eq!(strip_prefix("-L", "-L"), Some("".to_string()));
    assert_eq!(strip_prefix("-", "-L"), None);
    assert_eq!(strip_prefix("x-L", "-L"), None);
    assert_eq!(strip_prefix("abc", ""), Some("abc".to_string()));
    assert!(ends_with("libx.a", ".a"));
    assert!(ends_with(".a", ".a"));
    assert!(!ends_with("a", ".a"));
    assert!(!ends_with("libx.so", ".a"));
}

#[test]
fn numbers_are_read_as_the_standard_library_does() {
    let texts = [
        "", "+", "-", "0", "-0", "+0", "00", "7", "+7", "-7", "++7", "12 ", " 12", "1_0", "0x10",
        "4294967295", "4294967296", "+4294967295", "00000000000000000004294967295",
        "18446744073709551615", "18446744073709551616", "99999999999999999999999999999", "\u{0661}",
    ];
    for text in texts {
        assert_eq!(
            parse_unsigned(text, u32::MAX as u64),
            text.parse::<u32>().ok().map(|v| v as u64),
            "{}",
            text
        );
        assert_eq!(parse_unsigned(text, u64::MAX), text.parse::<u64>().ok(), "{}", text);
    }
}

#[test]
fn truth_values_are_read_as_the_standard_library_does() {
    for text in ["true", "false", "True", "", "1", "true ", "tru", "falsee"] {
        assert_eq!(parse_bool(text), text.parse::<bool>().ok());
    }
}

#[test]
fn packages_that_are_no_libraries_of_spdk_are_left_out() {
    let names = strings(&[
        "spdk_bdev", "spdk_syslibs", "spdk_trace", "spdk_trace_parser", "spdk_ut", "spdk_ut_mock",
        "spdk_util", "spdk_traces",
    ]);
    assert_eq!(get_spdk_pkgcfg_metas(&names), strings(&["spdk_bdev", "spdk_util", "spdk_traces"]));
}

#[test]
fn tokens_become_directives() {
    let tokens = strings(&["-L/opt/lib", "-lspdk", "/x/liby.a", "-I/inc", "-pthread", "", "-L"]);
    assert_eq!(
        parse_pkgcfg_tokens(&tokens),
        strings(&[
            "cargo:rustc-link-search=native=/opt/lib",
            "cargo:rustc-link-arg=-lspdk",
            "cargo:rustc-link-arg=/x/liby.a",
            "cargo:include=/inc",
            "cargo:rustc-link-search=native=",
        ])
    );
}

#[test]
fn a_search_path_comes_before_an_archive() {
    let tokens = strings(&["-Lx.a", "-Ix.a"]);
    assert_eq!(
        parse_pkgcfg_tokens(&tokens),
        strings(&["cargo:rustc-link-search=native=x.a", "cargo:rustc-link-arg=-Ix.a"])
    );
}

#[test]
fn the_output_of_pkg_config_is_split_at_spaces() {
    assert_eq!(pkgcfg_tokens("-L/a -lb \n"), strings(&["-L/a", "-lb", "\n"]));
    assert_eq!(pkgcfg_tokens(""), strings(&[""]));
}

#[test]
fn pkg_config_is_asked_for_libraries() {
    let metas = strings(&["spdk_bdev", "spdk_util"]);
    assert_eq!(pkgcfg_libs_args(&metas), strings(&["--libs", "spdk_bdev", "spdk_util"]));
    assert_eq!(pkgcfg_syslibs_args(), strings(&["--libs", "--static", "spdk_syslibs"]));
}

#[test]
fn system_libraries_are_linked_dynamically() {
    assert_eq!(
        emit_link_spdk(&strings(&["-lspdk"]), &strings(&["-lrt", "x"])),
        strings(&[
            "cargo:rustc-link-arg=-lspdk",
            "cargo:rustc-link-arg=-Wl,-Bdynamic",
            "cargo:rustc-link-arg=-Wl,--no-whole-archive",
            "cargo:rustc-link-arg=-lrt",
            "cargo:rustc-link-arg=-luring",
        ])
    );
}

#[test]
fn the_preamble_links_the_shim_statically() {
    assert_eq!(
        emit_preamble("/out"),
        strings(&[
            "cargo:rustc-link-arg=-Wl,--no-as-needed",
            "cargo:rustc-link-arg=-Wl,-Bstatic",
            "cargo:rustc-link-arg=-Wl,--whole-archive",
            "cargo:rustc-link-search=native=/out",
            "cargo:rustc-link-arg=-lironspdkshim",
        ])
    );
}

fn said(success: bool, stdout: &str) -> Option<PkgConfigOutput> {
    Some(PkgConfigOutput { success, stdout: stdout.to_string() })
}

#[test]
fn headers_come_from_the_environment_first() {
    let env = EnvInclude { path: "/spdk/include".to_string(), exists: true };
    match resolve_spdk_include(Some(env), said(true, "-I/usr")) {
        Ok(IncludeDir::FromEnv(path)) => assert_eq!(path, "/spdk/include"),
        _ => panic!("expected the environment's directory"),
    }
    let env = EnvInclude { path: "/spdk/include".to_string(), exists: false };
    assert_eq!(
        resolve_spdk_include(Some(env), said(true, "-I/usr")).unwrap_err(),
        IncludeError::MissingInEnv
    );
}

#[test]
fn headers_come_from_pkg_config_next() {
    match resolve_spdk_include(None, said(true, " -DX -I/a\n-I/b ")) {
        Ok(IncludeDir::FromPkgConfig(path)) => assert_eq!(path, "/a"),
        _ => panic!("expected pkg-config's directory"),
    }
    for out in [said(false, "-I/a"), said(true, "-DX"), said(true, ""), None] {
        assert_eq!(resolve_spdk_include(None, out).unwrap_err(), IncludeError::NotFound);
    }
}
