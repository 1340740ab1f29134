use gid::gpg::GpgManager;
use gid::ssh::SshManager;
use gid::text::split_lines;

const LISTING: &str = "/home/u/.gnupg/pubring.kbx
------------------------
sec   rsa4096/ABCD1234EF567890 2023-01-01 [SC]
      0123456789ABCDEF0123456789ABCDEF01234567
uid                 [ultimate] Work Name <work@example.com>
ssb   rsa4096/1111222233334444 2023-01-01 [E]

sec   ed25519/FEDCBA9876543210 2024-02-02 [SC]
uid                 [ unknown] Home <home@example.com>
";

#[test]
fn lines_follow_str_lines() {
    let s = "a\r\nb\n\nc";
    let got: Vec<String> = split_lines(s);
    let want: Vec<String> = s.lines().map(|l| l.to_string()).collect();
    assert_eq!(got, want);
    assert!(split_lines("").is_empty());
    assert_eq!(split_lines("x\n"), vec!["x".to_string()]);
}

#[test]
fn key_ids_and_emails() {
    let g = GpgManager::new();
    assert_eq!(
        g.extract_key_id("sec   rsa4096/ABCD1234EF567890 2023-01-01 [SC]").as_deref(),
        Some("ABCD1234EF567890")
    );
    assert!(g.extract_key_id("sec").is_none());
    assert!(g.extract_key_id("sec   rsa4096 2023").is_none());
    assert_eq!(g.extract_email("Name <a@b.c>").as_deref(), Some("a@b.c"));
    assert!(g.extract_email("Name a@b.c").is_none());
    assert!(g.extract_email("x > y <z").is_none());
}

#[test]
fn listing_is_parsed_into_keys() {
    let g = GpgManager::new();
    let keys = g.parse_gpg_output(LISTING);
    assert_eq!(keys.len(), 2);
    assert_eq!(keys[0].key_id, "ABCD1234EF567890");
    assert_eq!(keys[0].uid, "<work@example.com>");
    assert_eq!(keys[0].email.as_deref(), Some("work@example.com"));
    assert_eq!(keys[1].key_id, "FEDCBA9876543210");
    assert_eq!(keys[1].email.as_deref(), Some("home@example.com"));
    let hit = g.find_key_by_email(LISTING, "home@example.com").unwrap();
    assert_eq!(hit.key_id, "FEDCBA9876543210");
    assert!(g.find_key_by_email(LISTING, "none@example.com").is_none());
}

#[test]
fn ssh_paths() {
    let m = SshManager::with_home("/home/u");
    assert_eq!(m.ssh_dir, "/home/u/.ssh");
    assert_eq!(m.config_path, "/home/u/.ssh/config");
    let m2 = SshManager::with_home("/home/u/");
    assert_eq!(m2.ssh_dir, "/home/u/.ssh");
    assert_eq!(m.get_public_key_path("~/.ssh/id_work"), "~/.ssh/id_work.pub");
    assert_eq!(m.get_public_key_path("/"), "/id_rsa.pub");
}

#[test]
fn host_entries_are_replaced() {
    let m = SshManager::with_home("/home/u");
    let (alias, text) = m.configure_for_identity("work", "github.com", "~/.ssh/id_work", "Host other\n    User x\n");
    assert_eq!(alias, "github-com-work");
    assert_eq!(
        text,
        "Host other\n    User x\n\n# gid managed - github-com-work\nHost github-com-work\n    HostName github.com\n    User git\n    IdentityFile ~/.ssh/id_work\n    IdentitiesOnly yes\n"
    );
    let (_, again) = m.configure_for_identity("work", "github.com", "~/.ssh/id_new", &text);
    assert_eq!(
        again,
        "Host other\n    User x\n\n\n# gid managed - github-com-work\nHost github-com-work\n    HostName github.com\n    User git\n    IdentityFile ~/.ssh/id_new\n    IdentitiesOnly yes\n"
    );
    let removed = m.remove_host_from_config(
        "# gid managed - a-x\nHost a-x\n  User git\nHost keep\n  User y\n",
        "a-x",
    );
    assert_eq!(removed, "Host keep\n  User y\n");
}
