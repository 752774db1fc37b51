use bintui::configuration::{
    config_path, expand_path, gitignore_pattern, load, normalize, ConfigFile, Configuration,
    ConfigurationError, NamedRoot, RootEntry,
};
use bintui::environment::{Environment, Variable};
use bintui::host::{FileRead, IoError, IoErrorKind};
use bintui::model::{
    canonicalize_for_display, display_attempt, display_path, display_path_with_roots, DisplayRoot,
};
use bintui::path::PathBuf;

const HOME: &str = "/base";

fn path(text: &str) -> PathBuf {
    PathBuf::from_text(text)
}

fn env(variables: &[(&str, &str)]) -> Environment {
    Environment::from_values(
        path(HOME),
        path(HOME),
        variables
            .iter()
            .map(|(name, value)| Variable {
                name: (*name).to_owned(),
                value: value.as_bytes().to_vec(),
            })
            .collect(),
    )
}

fn parse(contents: &str) -> FileRead<ConfigFile> {
    let table = match contents.parse::<toml::Table>() {
        Ok(table) => table,
        Err(error) => return FileRead::Malformed(error.to_string()),
    };
    let text = |value: &toml::Value| value.as_str().unwrap().to_owned();
    FileRead::Parsed(ConfigFile {
        version: table["version"].as_integer().unwrap() as u32,
        bin_dir: table.get("bin_dir").map(text),
        ignore: match table.get("ignore").and_then(|value| value.as_array()) {
            Some(values) => values.iter().map(text).collect(),
            None => Vec::new(),
        },
        roots: match table.get("roots").and_then(|value| value.as_table()) {
            Some(roots) => roots
                .iter()
                .map(|(name, value)| RootEntry {
                    name: name.clone(),
                    value: text(value),
                })
                .collect(),
            None => Vec::new(),
        },
    })
}

fn load_from(environment: &Environment, files: &[(&str, &str)]) -> Result<Configuration, ConfigurationError> {
    let wanted = config_path(environment);
    let read = match files.iter().find(|(name, _)| path(name) == wanted) {
        Some((_, contents)) => parse(contents),
        None => FileRead::Missing,
    };
    load(environment, read)
}

#[test]
fn missing_configuration_uses_xdg_bin_then_documented_default() {
    let configured = load_from(&env(&[("XDG_BIN_HOME", "/base/commands")]), &[]).unwrap();
    assert_eq!(configured.bin_dir, path("/base/commands"));

    let defaulted = load_from(&env(&[]), &[]).unwrap();
    assert_eq!(defaulted.bin_dir, path("/base/.local/bin"));
}

#[test]
fn xdg_config_home_takes_precedence_and_configured_path_expands_home_and_variables() {
    let files = [
        (
            "/base/xdg/bintui/config.toml",
            "version = 1\nbin_dir = \"$TOOLS/bin\"\n",
        ),
        (
            "/base/.config/bintui/config.toml",
            "version = 1\nbin_dir = \"~/wrong\"\n",
        ),
    ];
    let environment = env(&[("XDG_CONFIG_HOME", "/base/xdg"), ("TOOLS", "/base/tools")]);

    assert_eq!(
        load_from(&environment, &files).unwrap().bin_dir,
        path("/base/tools/bin")
    );

    let files = [(
        "/base/.config/bintui/config.toml",
        "version = 1\nbin_dir = \"~/commands\"\n",
    )];
    assert_eq!(
        load_from(&env(&[]), &files).unwrap().bin_dir,
        path("/base/commands")
    );
}

#[test]
fn roots_expand_and_normalize_for_path_reporting() {
    let configuration = load_from(
        &env(&[]),
        &[(
            "/base/.config/bintui/config.toml",
            "version = 1\n[roots]\nproject = \"~/workspace/./project\"\n",
        )],
    )
    .unwrap();
    assert_eq!(
        configuration.roots,
        vec![NamedRoot {
            name: "project".to_owned(),
            root: path("/base/workspace/project"),
        }]
    );
    let roots = configuration
        .roots
        .into_iter()
        .map(|named| DisplayRoot {
            canonical: named.root.clone(),
            named,
        })
        .collect();
    let target = path("/base/workspace/project/tools/bin");
    assert_eq!(
        display_path_with_roots(&target, &target, &path(HOME), &roots),
        "[project]/tools/bin"
    );
}

#[test]
fn invalid_configuration_is_actionable_and_is_not_rewritten() {
    for (contents, expected) in [
        ("version = 9\n", "unsupported configuration version 9"),
        ("version = nope\n", "invalid configuration"),
        (
            "version = 1\nbin_dir = \"relative/bin\"\n",
            "bin_dir must resolve to an absolute path",
        ),
        (
            "version = 1\nbin_dir = \"$MISSING/bin\"\n",
            "missing environment variable MISSING",
        ),
        (
            "version = 1\nignore = [\"\"]\n",
            "must be a non-empty gitignore pattern",
        ),
        (
            "version = 1\n[roots]\nproject = \"relative/project\"\n",
            "roots.project must resolve to an absolute path",
        ),
    ] {
        let error =
            load_from(&env(&[]), &[("/base/.config/bintui/config.toml", contents)]).unwrap_err();
        assert!(
            error.message().contains(expected),
            "unexpected error: {}",
            error.message()
        );
    }
}

#[test]
fn relative_xdg_paths_are_rejected() {
    let environment = Environment::from_values(
        path("/home/person"),
        path("/work"),
        vec![Variable {
            name: "XDG_CONFIG_HOME".to_owned(),
            value: b"relative".to_vec(),
        }],
    );
    assert!(matches!(
        load(&environment, FileRead::Missing),
        Err(ConfigurationError::RelativePath {
            field,
            ..
        }) if field == "XDG_CONFIG_HOME"
    ));
}

#[test]
fn an_unreadable_configuration_is_reported() {
    let error = load(
        &env(&[]),
        FileRead::Unreadable(IoError::new(IoErrorKind::Other, "permission denied")),
    )
    .unwrap_err();
    assert!(error.message().contains("permission denied"));
}

#[test]
fn references_are_expanded_once_and_braces_bound_a_name() {
    let environment = env(&[
        ("TOOLS", "/opt/tools"),
        ("NESTED", "$TOOLS"),
        ("A", "one"),
        ("AB", "two"),
    ]);
    let expanded = |value: &str| expand_path(value, &environment).unwrap();
    assert_eq!(expanded("~"), path("/base"));
    assert_eq!(expanded("~/bin"), path("/base/bin"));
    assert_eq!(expanded("${TOOLS}/bin"), path("/opt/tools/bin"));
    assert_eq!(expanded("/x/$AB"), path("/x/two"));
    assert_eq!(expanded("/x/${A}B"), path("/x/oneB"));
    assert_eq!(expanded("/x/$NESTED"), path("/x/$TOOLS"));
    assert_eq!(expanded("/plain/text"), path("/plain/text"));
}

#[test]
fn a_pattern_with_a_slash_matches_at_any_depth() {
    assert_eq!(
        gitignore_pattern("target/release/build/"),
        "**/target/release/build/"
    );
    assert_eq!(gitignore_pattern("node_modules"), "node_modules");
}

#[test]
fn normalizing_resolves_dots_and_is_stable() {
    let once = normalize(&path("/a/./b/../c"));
    assert_eq!(once, path("/a/c"));
    assert_eq!(normalize(&once), once);
}

#[test]
fn paths_below_home_are_abbreviated() {
    assert_eq!(display_path(&path("/base"), &path(HOME)), "~");
    assert_eq!(display_path(&path("/base/a/b"), &path(HOME)), "~/a/b");
    assert_eq!(display_path(&path("/based/a"), &path(HOME)), "/based/a");
}

#[test]
fn the_deepest_root_is_shown() {
    let root = |name: &str, at: &str| DisplayRoot {
        named: NamedRoot {
            name: name.to_owned(),
            root: path(at),
        },
        canonical: path(at),
    };
    let roots = vec![root("outer", "/w"), root("inner", "/w/deep")];
    let shown = |text: &str| {
        let target = path(text);
        display_path_with_roots(&target, &target, &path(HOME), &roots)
    };
    assert_eq!(shown("/w/deep/tool"), "[inner]/tool");
    assert_eq!(shown("/w/tool"), "[outer]/tool");
    assert_eq!(shown("/w/deep"), "[inner]");
}

#[test]
fn a_path_that_resolves_below_a_root_is_shown_there() {
    let roots = vec![DisplayRoot {
        named: NamedRoot {
            name: "work".to_owned(),
            root: path("/link"),
        },
        canonical: path("/real"),
    }];
    assert_eq!(
        display_path_with_roots(&path("/other/tool"), &path("/real/tool"), &path(HOME), &roots),
        "[work]/tool"
    );
}

#[test]
fn what_resolves_of_a_path_stands_before_the_rest() {
    let target = path("/link/missing/tool");
    assert_eq!(display_attempt(&target, 0), Some(path("/link/missing/tool")));
    assert_eq!(display_attempt(&target, 1), Some(path("/link/missing")));
    assert_eq!(display_attempt(&target, 2), Some(path("/link")));
    assert_eq!(
        canonicalize_for_display(&target, Some((2, path("/real")))),
        path("/real/missing/tool")
    );
    assert_eq!(canonicalize_for_display(&target, None), target);
}

#[test]
fn a_configured_directory_wins_over_the_environment() {
    let files = [(
        "/base/.config/bintui/config.toml",
        "version = 1\nbin_dir = \"~/commands\"\n",
    )];
    let named = load_from(&env(&[("XDG_BIN_HOME", "/elsewhere")]), &files).unwrap();
    let unnamed = load_from(&env(&[]), &files).unwrap();
    assert_eq!(named.bin_dir, path("/base/commands"));
    assert_eq!(unnamed.bin_dir, named.bin_dir);

    let files = [(
        "/base/.config/bintui/config.toml",
        "version = 1\nbin_dir = \"$XDG_BIN_HOME/own\"\n",
    )];
    let referring = load_from(&env(&[("XDG_BIN_HOME", "/elsewhere")]), &files).unwrap();
    assert_eq!(referring.bin_dir, path("/elsewhere/own"));
    assert!(load_from(&env(&[]), &files).is_err());
}
