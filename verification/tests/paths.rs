use alchemist::effects::Effect;
use alchemist::os_path::{path_of_text, text_of_path, OsPath};
use alchemist::paths::{
    absolute_path_string, child, default_installed_home, generation_dir, home_in, installed_home,
    pixi_python, repository_root, scheduler_home, selected_structures, Ancestor, CacheEnvironment,
    HomeProbe, PathProbe,
};

fn text(s: &str) -> String {
    s.to_string()
}

fn ancestor(path: &str, has_manifest: bool, has_python: bool, has_pixi: bool) -> Ancestor {
    Ancestor { path: text(path), has_manifest, has_python, has_pixi }
}

#[test]
fn parts_lie_below_their_base() {
    assert_eq!(child("a", "b"), "a/b");
    assert_eq!(child("a/", "b"), "a/b");
    assert_eq!(child("", "b"), "b");
    assert_eq!(child("a", "/b"), "/b");
    for (base, part) in [("a", "b"), ("a/", "b"), ("", "b"), ("a", "/b"), ("/", "b"), ("a", "")] {
        let expected = std::path::Path::new(base).join(part);
        assert_eq!(child(base, part), expected.to_str().unwrap());
    }
    assert_eq!(generation_dir("p", "vasp_runs", 12), "p/vasp_runs/generation_12");
    assert_eq!(selected_structures("p", 3), "p/selected_structures/generation_3.xyz");
}

#[test]
fn the_repository_is_the_nearest_root() {
    assert_eq!(
        repository_root(&vec![
            ancestor("/r/target/debug", false, false, false),
            ancestor("/r/target", true, true, false),
            ancestor("/r", true, true, true),
            ancestor("/", true, true, true),
        ]),
        Ok(text("/r"))
    );
    assert_eq!(
        repository_root(&vec![ancestor("/", true, false, true)]),
        Err(text("Could not locate the ALCHEMIST repository."))
    );
}

#[test]
fn an_installation_lies_where_the_environment_says() {
    assert_eq!(
        home_in(&Some(text("/data/alchemist")), &Some(text("/home/u/.local/share"))),
        Ok(text("/data/alchemist"))
    );
    assert_eq!(
        home_in(&None, &Some(text("/home/u/.local/share"))),
        Ok(text("/home/u/.local/share/alchemist"))
    );
    assert_eq!(home_in(&None, &None), Err(text("Could not determine local data directory")));
    assert_eq!(default_installed_home(&Some(text("/h"))), Ok(text("/h")));
    match dirs::data_local_dir() {
        Some(base) => match path_of_text(&default_installed_home(&None).unwrap()) {
            OsPath::Unicode(home) => {
                assert_eq!(home, base.join("alchemist").to_str().unwrap());
            }
            OsPath::Raw(bytes) => {
                assert_eq!(bytes, base.join("alchemist").into_os_string().into_encoded_bytes());
            }
        },
        None => assert_eq!(
            default_installed_home(&None),
            Err(text("Could not determine local data directory"))
        ),
    }
}

#[test]
fn an_installation_has_to_exist() {
    assert_eq!(installed_home(Ok(text("/h")), true), Ok(text("/h")));
    assert_eq!(
        installed_home(Ok(text("/h")), false),
        Err(text("ALCHEMIST is not initialized.\nRun `cargo run -- --init` first."))
    );
    assert_eq!(installed_home(Err(text("why")), true), Err(text("why")));
}

#[test]
fn a_development_build_uses_its_repository() {
    let probe = |components: &[&str]| HomeProbe {
        exe_components: components.iter().map(|c| text(c)).collect(),
        ancestors: vec![ancestor("/r", true, true, true)],
        home: Ok(text("/h")),
        home_exists: true,
    };
    assert_eq!(scheduler_home(&probe(&["/", "r", "target", "debug", "x"])), Ok(text("/r")));
    assert_eq!(scheduler_home(&probe(&["/", "usr", "bin", "x"])), Ok(text("/h")));
    assert_eq!(scheduler_home(&probe(&["/", "targets", "x"])), Ok(text("/h")));
}

#[test]
fn caches_get_defaults_only_where_the_environment_sets_none() {
    let command = pixi_python("/h", "upet", CacheEnvironment { pixi: false, uv: true, xdg: false });
    assert_eq!(command.program, "pixi");
    assert_eq!(command.failure, "");
    assert_eq!(command.current_dir, "/h");
    assert_eq!(
        command.arguments,
        vec!["run", "-e", "upet", "--manifest-path", "/h/pixi.toml", "python"]
    );
    let variables: Vec<(&str, &str)> =
        command.variables.iter().map(|v| (v.key.as_str(), v.value.as_str())).collect();
    assert_eq!(
        variables,
        vec![("PIXI_CACHE_DIR", "/h/cache/pixi"), ("XDG_CACHE_HOME", "/h/cache/xdg")]
    );
    let made: Vec<String> = command
        .effects
        .into_iter()
        .map(|e| match e {
            Effect::CreateDir { path, failure } => {
                assert_eq!(failure, "");
                path
            }
            other => panic!("{:?}", other),
        })
        .collect();
    assert_eq!(made, vec!["/h/cache/pixi", "/h/cache/xdg"]);
    let all_set = pixi_python("/h", "n2p2", CacheEnvironment { pixi: true, uv: true, xdg: true });
    assert!(all_set.variables.is_empty() && all_set.effects.is_empty());
    let none_set = pixi_python("/h", "n2p2", CacheEnvironment { pixi: false, uv: false, xdg: false });
    assert_eq!(none_set.variables[1].key, "UV_CACHE_DIR");
    assert_eq!(none_set.variables[1].value, "/h/cache/uv");
}

#[test]
fn paths_are_made_absolute() {
    let probe = |exists: bool, canonical: Result<&str, &str>, parent: Option<&str>| PathProbe {
        path: text("a/b"),
        exists,
        canonical: canonical.map(text).map_err(text),
        parent: parent.map(text),
        canonical_parent: Ok(text("/w/a")),
        file_name: Some(text("b")),
    };
    assert_eq!(absolute_path_string(&probe(true, Ok("/w/a/b"), None)), Ok(text("/w/a/b")));
    assert_eq!(
        absolute_path_string(&probe(true, Err("loop"), None)),
        Err(text("Failed to resolve a/b: loop"))
    );
    assert_eq!(absolute_path_string(&probe(false, Err(""), Some("a"))), Ok(text("/w/a/b")));
    assert_eq!(
        absolute_path_string(&probe(false, Err(""), None)),
        Err(text("Path has no parent: a/b"))
    );
    let mut nameless = probe(false, Err(""), Some("a"));
    nameless.file_name = None;
    assert_eq!(absolute_path_string(&nameless), Err(text("Path has no file name: a/b")));
    let mut orphan = probe(false, Err(""), Some("a"));
    orphan.canonical_parent = Err(text("gone"));
    assert_eq!(absolute_path_string(&orphan), Err(text("Failed to resolve a: gone")));
}

fn bytes_of(path: OsPath) -> Vec<u8> {
    match path {
        OsPath::Unicode(text) => text.into_bytes(),
        OsPath::Raw(bytes) => bytes,
    }
}

#[test]
fn paths_that_are_text_stand_for_themselves() {
    for path in ["", "/home/u/.local/share", "/home/\u{e9}t\u{e9}/\u{1F600}", "C:\\x"] {
        assert_eq!(text_of_path(&OsPath::Unicode(text(path))), path);
        assert!(matches!(path_of_text(path), OsPath::Unicode(s) if s == path));
    }
}

#[test]
fn paths_that_are_not_text_are_kept() {
    let raw: Vec<u8> = (0..=255).collect();
    for bytes in [raw, b"/data/\xff\xfe/x\x80".to_vec(), b"\xc3\xa9".to_vec(), b"\0\0".to_vec()] {
        let shown = text_of_path(&OsPath::Raw(bytes.clone()));
        assert_eq!(bytes_of(path_of_text(&shown)), bytes);
    }
    assert_eq!(text_of_path(&OsPath::Raw(b"a\xff".to_vec())), "a\0\u{ff}");
    let nul = "a\0b\0";
    assert_eq!(text_of_path(&OsPath::Unicode(text(nul))), "a\0\0b\0\0");
    assert_eq!(bytes_of(path_of_text("a\0\0b\0\0")), nul.as_bytes());
    assert_eq!(bytes_of(path_of_text("\u{e9}\0")), b"\xc3\xa9\0");
}

#[test]
fn parts_lie_below_a_path_that_is_not_text() {
    for (base, joined) in [
        (&b"/data/\xff"[..], &b"/data/\xff/alchemist"[..]),
        (&b"/data/\xff/"[..], &b"/data/\xff/alchemist"[..]),
        (&b"\xaf"[..], &b"\xaf/alchemist"[..]),
    ] {
        let shown = text_of_path(&OsPath::Raw(base.to_vec()));
        let home = home_in(&None, &Some(shown)).unwrap();
        assert_eq!(bytes_of(path_of_text(&home)), joined);
    }
}
