use dotsetup::paths::{join_path, Prefix};
use dotsetup::ssh::{
    contains_line, include_line, include_text, Platform, SshAction, SshConfig, SshConfigError,
    SshEvent,
};

const ROOT: &str = "/home/user/.setup";

fn prefix() -> Prefix {
    Prefix::new(ROOT.to_string())
}

fn include_dir_line() -> String {
    format!("Include {}/ssh/config.d/*", ROOT)
}

fn entry(key: &str, hostname: &str) -> SshConfig {
    SshConfig::new(
        key.to_string(),
        hostname.to_string(),
        None,
        vec![("snake_case".to_owned(), "yes".to_owned())],
    )
}

fn after_include(content: &str) -> String {
    let append = SshConfig::include_ssh_config_dir(&prefix(), content);
    format!("{}{}", content, append)
}

fn written(config: &SshConfig, platform: Platform) -> (String, String) {
    let event = SshEvent::KeyFilesChecked { public_exists: true, private_exists: true };
    match config.generate(&prefix(), platform, event) {
        SshAction::WriteConfig { path, content } => (path, content),
        _ => panic!("expected a config write"),
    }
}

#[test]
fn test_include_ssh_config_dir_non_existent() {
    assert_eq!(after_include(""), format!("{}\n", include_dir_line()));
}

#[test]
fn test_include_ssh_config_dir_missing() {
    assert_eq!(
        after_include("test content\ntest config\n"),
        format!("test content\ntest config\n{}\n", include_dir_line())
    );
}

#[test]
fn test_include_ssh_config_dir_non_missing() {
    let content = format!("test content\ntest config\n{}\n", include_dir_line());
    assert_eq!(after_include(&content), format!("test content\ntest config\n{}\n", include_dir_line()));
}

#[test]
fn test_generate_config() {
    let (path, content) = written(&entry("key", "host"), Platform::Other);
    assert_eq!(path, format!("{}/ssh/config.d/key", ROOT));
    let mut ssh_content = "# AUTO GENERATED FILE. DO NOT EDIT\n\nHost key\n\tHostname \
                           host\n\tAddKeysToAgent yes\n\tIdentitiesOnly yes\n\tIdentityFile "
        .to_string()
        + &format!("{}/skm/key/id_ed25519", ROOT)
        + "\n";
    ssh_content += "\tSnakeCase yes\n";
    assert_eq!(content, ssh_content);
}

#[test]
fn generate_config_on_macos_ends_with_keychain() {
    let (_, content) = written(&entry("key", "host"), Platform::MacOs);
    assert!(content.ends_with("\tSnakeCase yes\n\tUseKeychain yes\n"));
}

#[test]
fn include_is_idempotent_over_repeated_runs() {
    for start in ["", "Host a\n", "Host a", "Host a\nUser b\n"] {
        let once = after_include(start);
        let twice = after_include(&once);
        let thrice = after_include(&twice);
        assert_eq!(once, twice);
        assert_eq!(twice, thrice);
        assert!(once.starts_with(start));
        assert_eq!(once.lines().filter(|l| *l == include_dir_line()).count(), 1);
    }
}

#[test]
fn include_kept_with_trailing_content() {
    let content = format!("{}\nHost other\n", include_dir_line());
    assert_eq!(after_include(&content), content);
}

#[test]
fn include_after_content_without_final_newline() {
    assert_eq!(after_include("Host a"), format!("Host a\n{}\n", include_dir_line()));
}

#[test]
fn include_line_must_match_whole_line() {
    let content = format!("# {}\n{} \n", include_dir_line(), include_dir_line());
    assert_eq!(after_include(&content), format!("{}{}\n", content, include_dir_line()));
}

#[test]
fn contains_line_cases() {
    assert!(contains_line("a\nbc\nd", "bc"));
    assert!(contains_line("a\nbc", "bc"));
    assert!(!contains_line("a\nbcd\n", "bc"));
    assert!(!contains_line("", "bc"));
    assert!(!contains_line("xbc\n", "bc"));
}

#[test]
fn include_text_adds_separator_where_needed() {
    assert_eq!(include_text("x", "L"), "\nL\n");
    assert_eq!(include_text("x\n", "L"), "L\n");
    assert_eq!(include_text("L\n", "L"), "");
    assert_eq!(include_line("/d"), "Include /d/*");
}

#[test]
fn mandatory_block_is_exact() {
    let c = SshConfig::new("k".into(), "h.example".into(), None, vec![]);
    assert_eq!(
        c.render("/keys/k/id_ed25519", Platform::Other),
        "# AUTO GENERATED FILE. DO NOT EDIT\n\nHost k\n\tHostname h.example\n\tAddKeysToAgent \
         yes\n\tIdentitiesOnly yes\n\tIdentityFile /keys/k/id_ed25519\n"
    );
    assert_eq!(
        c.render("/p", Platform::MacOs),
        "# AUTO GENERATED FILE. DO NOT EDIT\n\nHost k\n\tHostname h.example\n\tAddKeysToAgent \
         yes\n\tIdentitiesOnly yes\n\tIdentityFile /p\n\tUseKeychain yes\n"
    );
}

#[test]
fn addition_names_become_pascal_case() {
    let c = SshConfig::new(
        "k".into(),
        "h".into(),
        None,
        vec![("snake_case".into(), "yes".into())],
    );
    assert!(c.render("/p", Platform::Other).ends_with("\tSnakeCase yes\n"));
    let c = SshConfig::new("k".into(), "h".into(), None, vec![("ForwardAgent".into(), "no".into())]);
    assert!(c.render("/p", Platform::Other).ends_with("\tForwardAgent no\n"));
}

#[test]
fn missing_public_key_writes_nothing() {
    let c = entry("key", "host");
    let event = SshEvent::KeyFilesChecked { public_exists: false, private_exists: true };
    match c.generate(&prefix(), Platform::Other, event) {
        SshAction::Fail(SshConfigError::MissingPublicKey(p)) => {
            assert_eq!(p, format!("{}/skm/key/id_ed25519.pub", ROOT))
        }
        _ => panic!("expected a missing public key"),
    }
}

#[test]
fn missing_private_key_writes_nothing() {
    let c = entry("key", "host");
    let event = SshEvent::KeyFilesChecked { public_exists: true, private_exists: false };
    match c.generate(&prefix(), Platform::Other, event) {
        SshAction::Fail(SshConfigError::MissingPrivateKey(p)) => {
            assert_eq!(p, format!("{}/skm/key/id_ed25519", ROOT))
        }
        _ => panic!("expected a missing private key"),
    }
}

#[test]
fn rerun_overwrites_with_second_hostname() {
    let (p1, _) = written(&entry("key", "first.example"), Platform::Other);
    let (p2, c2) = written(&entry("key", "second.example"), Platform::Other);
    assert_eq!(p1, p2);
    assert!(c2.contains("\tHostname second.example\n"));
    assert!(!c2.contains("first.example"));
}

#[test]
fn generate_walks_every_step() {
    let c = SshConfig::new("key".into(), "host".into(), Some("me@box".into()), vec![]);
    let p = prefix();
    match c.generate(&p, Platform::Other, SshEvent::Start) {
        SshAction::ReadMasterConfig { path } => assert_eq!(path, format!("{}/ssh/config", ROOT)),
        _ => panic!("expected a read"),
    }
    match c.generate(&p, Platform::Other, SshEvent::MasterConfigRead(String::new())) {
        SshAction::UpdateMasterConfig { path, append, config_dir } => {
            assert_eq!(path, format!("{}/ssh/config", ROOT));
            assert_eq!(append, format!("{}\n", include_dir_line()));
            assert_eq!(config_dir, format!("{}/ssh/config.d", ROOT));
        }
        _ => panic!("expected an update"),
    }
    match c.generate(&p, Platform::Other, SshEvent::MasterConfigUpdated) {
        SshAction::RunKeyCommand { program, args } => {
            assert_eq!(program, format!("{}/bin/skm", ROOT));
            let skm = format!("{}/skm", ROOT);
            assert_eq!(
                args,
                vec!["--store-path", skm.as_str(), "create", "key", "-C", "me@box", "-t", "ed25519"]
            );
        }
        _ => panic!("expected the key command"),
    }
    match c.generate(&p, Platform::Other, SshEvent::KeyCommandExited(false)) {
        SshAction::Fail(SshConfigError::KeyGenerationFailed) => {}
        _ => panic!("expected a failure"),
    }
    match c.generate(&p, Platform::Other, SshEvent::KeyCommandExited(true)) {
        SshAction::CheckKeyFiles { public, private } => {
            assert_eq!(public, format!("{}/skm/key/id_ed25519.pub", ROOT));
            assert_eq!(private, format!("{}/skm/key/id_ed25519", ROOT));
        }
        _ => panic!("expected a key check"),
    }
    assert!(matches!(c.generate(&p, Platform::Other, SshEvent::ConfigWritten), SshAction::Done));
}

#[test]
fn key_comment_defaults_to_hostname() {
    let (_, args) = entry("key", "host").generate_key(&prefix());
    assert_eq!(args[5], "host");
}

#[test]
fn join_path_separators() {
    assert_eq!(join_path("a", "b"), "a/b");
    assert_eq!(join_path("a/", "b"), "a/b");
    assert_eq!(join_path("", "b"), "b");
    let p = Prefix::new("/r/".to_string());
    assert_eq!(p.ssh_config(), "/r/ssh/config.d");
    assert_eq!(p.bin(), "/r/bin");
}
