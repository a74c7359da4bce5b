use pika_backup::backup::{
    fake_repo_id, ArchivePrefix, Backup, Backups, ConfigId, LookupConfigId, Pattern, RepoId,
    Repository, REPO_MOUNT_DIR, VERSION,
};
use pika_backup::error::BackupPrefix;
use pika_backup::prune::Prune;
use pika_backup::schedule::Schedule;
use std::collections::BTreeSet;
use std::path::PathBuf;

fn mock(id: &str, repo_id: &str, prefix: &str) -> Backup {
    let mut b = Backup::new(
        Repository { location: String::from("/tmp/INVALID") },
        RepoId::new(String::from(repo_id)),
        String::from("none"),
        false,
        String::from(id),
        "0123456789",
    );
    b.archive_prefix = ArchivePrefix(String::from(prefix));
    b
}

#[test]
fn archive_prefix_new_examples() {
    assert_eq!(ArchivePrefix::new("x").to_string(), String::from("x-"));
    assert_eq!(ArchivePrefix::new(" x-").to_string(), String::from("x-"));
    assert_eq!(ArchivePrefix::new("").to_string(), String::from(""));
}

#[test]
fn archive_prefix_new_trims_unicode_whitespace() {
    assert_eq!(ArchivePrefix::new("\u{3000}my host\t\n").to_string(), String::from("my host-"));
    assert_eq!(ArchivePrefix::new(" \u{a0} ").to_string(), String::from(""));
    assert_eq!(ArchivePrefix::new("a--").to_string(), String::from("a--"));
    assert_eq!(ArchivePrefix::new("-").to_string(), String::from("-"));
}

#[test]
fn archive_prefix_new_is_idempotent() {
    for raw in ["x", " x-", "", " héllo wörld ", "\tz\u{2003}"] {
        let once = ArchivePrefix::new(raw);
        let twice = ArchivePrefix::new(&once.to_string());
        assert_eq!(once, twice);
    }
}

#[test]
fn archive_prefix_generate_takes_six_characters() {
    assert_eq!(ArchivePrefix::generate("abcdef12-3456").to_string(), String::from("abcdef-"));
    assert_eq!(ArchivePrefix::generate("äbc").to_string(), String::from("äbc-"));
    assert_eq!(ArchivePrefix::generate("").to_string(), String::from("-"));
}

#[test]
fn archive_prefix_is_empty() {
    assert!(ArchivePrefix::new("  ").is_empty());
    assert!(!ArchivePrefix::new("a").is_empty());
}

#[test]
fn config_id_round_trip() {
    let id = ConfigId::new(String::from("abc"));
    assert_eq!(id.as_str(), "abc");
    assert_eq!(id.to_string(), String::from("abc"));
    assert_eq!(id, ConfigId::new(String::from("abc")));
    assert_ne!(id, ConfigId::new(String::from("abd")));
}

#[test]
fn fake_repo_id_is_marked() {
    assert_eq!(fake_repo_id("1234").as_str(), "-randomid-1234");
}

#[test]
fn new_backup_defaults() {
    let b = Backup::new(
        Repository { location: String::from("/srv/repo") },
        RepoId::new(String::from("r1")),
        String::from("repokey"),
        true,
        String::from("uuid-1"),
        "abcdefghij",
    );
    assert_eq!(b.config_version, VERSION);
    assert_eq!(b.id.as_str(), "uuid-1");
    assert_eq!(b.archive_prefix.to_string(), String::from("abcdef-"));
    assert_eq!(b.repo_id.as_str(), "r1");
    assert_eq!(b.repo.location, String::from("/srv/repo"));
    assert!(b.encrypted);
    assert_eq!(b.encryption_mode, String::from("repokey"));
    assert_eq!(b.included, vec![String::new()]);
    assert_eq!(b.exclude, vec![Pattern::cache(), Pattern::flatpak_app_cache()]);
    assert_eq!(Pattern::cache(), Pattern::PathPrefix(String::from(".cache")));
    assert_eq!(b.schedule, Schedule::default());
    assert!(!b.schedule.enabled);
    assert_eq!(b.prune, Prune::default());
    assert!(!b.prune.enabled);
    assert_eq!(
        Pattern::flatpak_app_cache(),
        Pattern::PathFnMatch(String::from(".var/app/*/cache"))
    );
}

#[test]
fn prefix_ok_when_alone() {
    let me = mock("a", "r", "a-");
    let others = vec![mock("a", "r", "a-"), mock("b", "other-repo", "a-")];
    assert_eq!(me.is_archive_prefix_ok(&ArchivePrefix::new("a"), &others), Ok(()));
    assert_eq!(me.is_archive_prefix_ok(&ArchivePrefix::new(""), &others), Ok(()));
}

#[test]
fn prefix_taken() {
    let me = mock("a", "r", "a-");
    let others = vec![mock("b", "r", "x-")];
    assert_eq!(
        me.is_archive_prefix_ok(&ArchivePrefix::new("x"), &others),
        Err(BackupPrefix::Taken)
    );
    assert_eq!(me.is_archive_prefix_ok(&ArchivePrefix::new("y"), &others), Ok(()));
}

#[test]
fn prefix_other_empty_exists() {
    let me = mock("a", "r", "a-");
    let others = vec![mock("b", "r", "")];
    assert_eq!(
        me.is_archive_prefix_ok(&ArchivePrefix::new("y"), &others),
        Err(BackupPrefix::OtherEmptyExists)
    );
    // Taken is reported before an empty prefix elsewhere.
    assert_eq!(
        me.is_archive_prefix_ok(&ArchivePrefix::new(""), &others),
        Err(BackupPrefix::Taken)
    );
}

#[test]
fn prefix_empty_but_other_exists() {
    let me = mock("a", "r", "a-");
    let others = vec![mock("b", "r", "b-")];
    assert_eq!(
        me.is_archive_prefix_ok(&ArchivePrefix::new(""), &others),
        Err(BackupPrefix::EmptyButOtherExists)
    );
}

#[test]
fn set_archive_prefix_applies_only_when_accepted() {
    let mut me = mock("a", "r", "a-");
    let others = vec![mock("b", "r", "b-")];
    assert_eq!(me.set_archive_prefix(ArchivePrefix::new("b"), &others), Err(BackupPrefix::Taken));
    assert_eq!(me.archive_prefix.to_string(), String::from("a-"));
    assert_eq!(me.set_archive_prefix(ArchivePrefix::new("c"), &others), Ok(()));
    assert_eq!(me.archive_prefix.to_string(), String::from("c-"));
}

#[test]
fn include_dirs_are_read_from_home() {
    let mut b = mock("a", "r", "a-");
    b.included = vec![
        String::new(),
        String::from("Documents"),
        String::from("/etc"),
        String::from("/home/u/Documents"),
    ];
    let dirs = b.include_dirs("/home/u");
    assert_eq!(
        dirs,
        vec![String::from("/home/u/"), String::from("/home/u/Documents"), String::from("/etc")]
    );
    let dirs = b.include_dirs("/home/u/");
    assert_eq!(dirs[1], String::from("/home/u/Documents"));
}

#[test]
fn exclude_dirs_internal_adds_mount_dir() {
    let mut b = mock("a", "r", "a-");
    b.exclude = vec![
        Pattern::PathPrefix(String::from(".cache")),
        Pattern::RegularExpression(String::from("^x")),
        Pattern::PathPrefix(String::from("/home/u/.cache")),
    ];
    let out = b.exclude_dirs_internal("/home/u", false, "org.example.App");
    assert_eq!(
        out,
        vec![
            Pattern::PathPrefix(String::from("/home/u/.cache")),
            Pattern::RegularExpression(String::from("^x")),
            Pattern::PathPrefix(format!("/home/u/{}", REPO_MOUNT_DIR)),
        ]
    );
    let out = b.exclude_dirs_internal("/home/u", true, "org.example.App");
    assert_eq!(out.len(), 4);
    assert_eq!(
        out[3],
        Pattern::PathPrefix(String::from("/home/u/.var/app/org.example.App/data/flatpak/"))
    );
}

#[test]
fn backups_insert_and_lookup() {
    let mut all = Backups::default();
    assert_eq!(all.insert(mock("a", "r", "a-")), Ok(()));
    assert_eq!(all.insert(mock("b", "r", "b-")), Ok(()));
    let dup = all.insert(mock("a", "s", "z-"));
    assert_eq!(dup.unwrap_err().id.as_str(), "a");
    assert_eq!(all.len(), 2);
    assert!(all.exists_id(&ConfigId::new(String::from("b"))));
    assert!(!all.exists_id(&ConfigId::new(String::from("c"))));
    let found = all.get_result(&ConfigId::new(String::from("b"))).unwrap();
    assert_eq!(found.archive_prefix.to_string(), String::from("b-"));
    let missing = all.get_result(&ConfigId::new(String::from("c"))).unwrap_err();
    assert_eq!(missing.id.as_str(), "c");
    all.get_result_mut(&ConfigId::new(String::from("a"))).unwrap().encrypted = true;
    assert!(all.iter().next().unwrap().encrypted);
    assert!(all.get_result_mut(&ConfigId::new(String::from("c"))).is_err());
    let ids: Vec<&str> = all.iter().map(|b| b.id.as_str()).collect();
    assert_eq!(ids, vec!["a", "b"]);
    for b in all.iter_mut() {
        b.encryption_mode = String::from("keyfile");
    }
    assert_eq!(all.iter().nth(1).unwrap().encryption_mode, String::from("keyfile"));
}

#[test]
fn backups_remove() {
    let mut all = Backups::from_vec(vec![mock("a", "r", "a-"), mock("b", "r", "b-"), mock("a", "r", "c-")]);
    let err = all.remove(&ConfigId::new(String::from("x"))).unwrap_err();
    assert_eq!(err.id.as_str(), "x");
    assert_eq!(all.len(), 3);
    assert_eq!(all.remove(&ConfigId::new(String::from("a"))), Ok(()));
    assert_eq!(all.len(), 1);
    assert_eq!(all.iter().next().unwrap().id.as_str(), "b");
    assert!(!all.exists_id(&ConfigId::new(String::from("a"))));
}

#[test]
fn insert_then_remove_restores() {
    let mut all = Backups::from_vec(vec![mock("a", "r", "a-"), mock("b", "r", "b-")]);
    let before = all.clone();
    assert_eq!(all.insert(mock("c", "r", "c-")), Ok(()));
    assert_eq!(all.remove(&ConfigId::new(String::from("c"))), Ok(()));
    assert_eq!(all, before);
}

#[test]
fn insert_then_lookup_finds_it() {
    let mut all = Backups::from_vec(vec![mock("a", "r", "a-")]);
    assert_eq!(all.insert(mock("n", "r", "n-")), Ok(()));
    let found = all.get_result(&ConfigId::new(String::from("n"))).unwrap();
    assert_eq!(found.archive_prefix.to_string(), String::from("n-"));
}

#[test]
fn accepted_prefix_keeps_prefixes_apart() {
    let mut configs = vec![mock("a", "r", "a-"), mock("b", "r", "b-"), mock("c", "s", "")];
    let accepted = configs[0].clone();
    let others = configs.clone();
    let mut changed = accepted;
    assert_eq!(changed.set_archive_prefix(ArchivePrefix::new("z"), &others), Ok(()));
    configs[0] = changed;
    for i in 0..configs.len() {
        for j in 0..configs.len() {
            let (x, y) = (&configs[i], &configs[j]);
            if x.repo_id == y.repo_id && x.id != y.id {
                assert_ne!(x.archive_prefix, y.archive_prefix);
                assert!(!x.archive_prefix.is_empty());
            }
        }
    }
}

#[test]
fn include_dirs_are_a_set_of_paths() {
    let mut b = mock("a", "r", "a-");
    b.included = vec![
        String::new(),
        String::from("/home/u"),
        String::from("./x"),
        String::from("x/."),
        String::from("x"),
        String::from("/home/u//x/"),
    ];
    let dirs = b.include_dirs("/home/u");
    assert_eq!(dirs, vec![String::from("/home/u/"), String::from("/home/u/./x")]);
    let expected: BTreeSet<PathBuf> = b
        .included
        .iter()
        .map(|p| std::path::Path::new("/home/u").join(p))
        .collect();
    let got: BTreeSet<PathBuf> = dirs.iter().map(PathBuf::from).collect();
    assert_eq!(got, expected);
    assert_eq!(dirs.len(), expected.len());
}

#[test]
fn exclude_dirs_are_a_set_of_patterns() {
    let mut b = mock("a", "r", "a-");
    b.exclude = vec![
        Pattern::PathPrefix(String::from(".cache/")),
        Pattern::PathPrefix(String::from("/home/u/.cache")),
        Pattern::PathFnMatch(String::from(".cache")),
        Pattern::RegularExpression(String::from("a")),
        Pattern::RegularExpression(String::from("a")),
        Pattern::PathPrefix(format!("{}/", REPO_MOUNT_DIR)),
    ];
    let out = b.exclude_dirs_internal("/home/u", false, "org.example.App");
    assert_eq!(
        out,
        vec![
            Pattern::PathPrefix(String::from("/home/u/.cache/")),
            Pattern::PathFnMatch(String::from(".cache")),
            Pattern::RegularExpression(String::from("a")),
            Pattern::PathPrefix(format!("/home/u/{}/", REPO_MOUNT_DIR)),
        ]
    );
}
