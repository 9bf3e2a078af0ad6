//! Configurations and why they are rejected.

use std::path::{Path, PathBuf};

use accordo::config::{enabled, Config, Directory, Layout, Service};

fn service(name: &str, cmd: &str, cwd: &str) -> Service {
    Service {
        name: name.into(),
        cmd: cmd.into(),
        cwd: cwd.into(),
        autostart: enabled(),
        hide_stderr: false,
    }
}

fn probe(directory: &Path) -> Directory {
    match directory.canonicalize() {
        Ok(path) if path.is_dir() => Directory::Found(path),
        Ok(_) => Directory::NotDirectory,
        Err(error) => Directory::Invalid {
            directory: directory.display().to_string(),
            error: error.to_string(),
        },
    }
}

fn parse(services: Vec<Service>, base: &Path) -> Result<Config, String> {
    let config = Config {
        services,
        layout: Layout::default(),
    };
    let found: Vec<Directory> = config
        .directories(&base.to_path_buf())
        .iter()
        .map(|directory| probe(directory))
        .collect();
    config.parse(&found)
}

#[test]
fn defaults_and_relative_paths() {
    let directory = tempfile::tempdir().unwrap();
    let inside = tempfile::Builder::new()
        .prefix("app")
        .tempdir_in(directory.path())
        .unwrap();
    let name = inside.path().file_name().unwrap().to_str().unwrap();
    let mut second = service("b", "echo b", name);
    second.autostart = false;
    let config = parse(vec![service("a", "echo a", ""), second], directory.path()).unwrap();
    assert_eq!(config.layout, Layout::Tabbed);
    assert!(config.services[0].autostart);
    assert!(!config.services[0].hide_stderr);
    assert_eq!(
        config.services[0].cwd,
        directory.path().canonicalize().unwrap()
    );
    assert!(!config.services[1].autostart);
    assert_eq!(
        config.services[1].cwd,
        inside.path().canonicalize().unwrap()
    );
}

#[test]
fn stderr_visibility_is_configured_per_service() {
    let directory = tempfile::tempdir().unwrap();
    let mut hidden = service("hidden", "echo", "");
    hidden.hide_stderr = true;
    let config = parse(
        vec![hidden, service("visible", "echo", "")],
        directory.path(),
    )
    .unwrap();
    assert!(config.services[0].hide_stderr);
    assert!(!config.services[1].hide_stderr);
}

#[test]
fn invalid_configurations_are_rejected() {
    let directory = tempfile::tempdir().unwrap();
    for services in [
        vec![],
        vec![service("", "echo", "")],
        vec![service("a", " ", "")],
        vec![service("a", "echo", ""), service("a", "echo", "")],
        vec![service("a", "echo", "missing")],
    ] {
        let shown = format!("{services:?}");
        assert!(parse(services, directory.path()).is_err(), "{shown}");
    }
}

#[test]
fn every_rejection_says_why() {
    let directory = tempfile::tempdir().unwrap();
    let base = directory.path();
    let error = |services| parse(services, base).unwrap_err();
    assert_eq!(error(vec![]), "services must contain at least one service");
    let names = "service names must be nonempty and contain no control characters";
    assert_eq!(error(vec![service(" \u{a0}\t", "echo", "")]), names);
    assert_eq!(error(vec![service("a\u{7}", "echo", "")]), names);
    assert_eq!(
        error(vec![service("a", "echo", ""), service("a", " ", "gone")]),
        "duplicate service name: a"
    );
    let commands = "a: cmd must be nonempty and contain no NUL bytes";
    assert_eq!(error(vec![service("a", "\n", "gone")]), commands);
    assert_eq!(error(vec![service("a", "echo \0", "")]), commands);
    let missing = error(vec![service("a", "echo", "gone")]);
    let start = format!("a: invalid cwd {}: ", base.join("gone").display());
    assert!(missing.starts_with(&start), "{missing}");
    assert!(missing.len() > start.len());
    let file = tempfile::NamedTempFile::new_in(base).unwrap();
    let name = file.path().file_name().unwrap().to_str().unwrap();
    assert_eq!(
        error(vec![service("a", "echo", name)]),
        "a: cwd is not a directory"
    );
    assert_eq!(
        error(vec![service("a", "echo", ""), service("b", "", ""), service("", "", "")]),
        "b: cmd must be nonempty and contain no NUL bytes"
    );
}

#[test]
fn directories_are_seen_from_the_base() {
    let config = Config {
        services: vec![
            service("a", "echo", ""),
            service("b", "echo", "apps/b"),
            service("c", "echo", "/srv/c"),
        ],
        layout: Layout::Linear,
    };
    let directories = config.directories(&PathBuf::from("/base"));
    assert_eq!(
        directories,
        [
            PathBuf::from("/base"),
            PathBuf::from("/base/apps/b"),
            PathBuf::from("/srv/c")
        ]
    );
    let bytes = |base: &str| -> Vec<Vec<u8>> {
        config
            .directories(&PathBuf::from(base))
            .iter()
            .map(|directory| directory.as_os_str().as_encoded_bytes().to_vec())
            .collect()
    };
    assert_eq!(
        bytes("/base"),
        [b"/base/".to_vec(), b"/base/apps/b".to_vec(), b"/srv/c".to_vec()]
    );
    assert_eq!(
        bytes("/base/"),
        [b"/base/".to_vec(), b"/base/apps/b".to_vec(), b"/srv/c".to_vec()]
    );
    assert_eq!(bytes(""), [b"".to_vec(), b"apps/b".to_vec(), b"/srv/c".to_vec()]);
    assert_eq!(
        bytes("here"),
        [b"here/".to_vec(), b"here/apps/b".to_vec(), b"/srv/c".to_vec()]
    );
}

#[test]
fn accepted_services_run_where_they_were_found() {
    let config = Config {
        services: vec![service("a", "echo", "x"), service("A", "echo", "y")],
        layout: Layout::Linear,
    };
    let found = [
        Directory::Found(PathBuf::from("/one")),
        Directory::Found(PathBuf::from("/two")),
    ];
    let config = config.parse(&found).unwrap();
    assert_eq!(config.layout, Layout::Linear);
    assert_eq!(config.services[0].cwd, PathBuf::from("/one"));
    assert_eq!(config.services[1].cwd, PathBuf::from("/two"));
    assert_eq!(config.services[1].name, "A");
    assert_eq!(config.services[1].cmd, "echo");
    let copy = config.services[1].clone();
    assert_eq!(copy.cwd, PathBuf::from("/two"));
    assert_eq!(copy.name, "A");
    assert!(copy.autostart);
}

#[test]
fn every_character_is_judged_as_std_judges_it() {
    let found = [Directory::Found(PathBuf::from("/"))];
    for c in '\0'..=char::MAX {
        let named = |name: String, cmd: String| {
            Config {
                services: vec![Service {
                    name,
                    cmd,
                    cwd: PathBuf::new(),
                    autostart: true,
                    hide_stderr: false,
                }],
                layout: Layout::Linear,
            }
            .parse(&found)
            .is_ok()
        };
        assert_eq!(
            named(c.to_string(), "x".into()),
            !c.is_whitespace() && !c.is_control(),
            "{c:?}"
        );
        assert_eq!(
            named("x".into(), c.to_string()),
            !c.is_whitespace() && c != '\0',
            "{c:?}"
        );
    }
}
