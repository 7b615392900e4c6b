use crossscp::security::{CredentialSecret, SecretString};
use crossscp::ssh::{
    entry_name, is_directory_perm, is_symlink_perm, needs_home_directory, normalize_remote_path, path_file_name,
    plan_ssh_auth, refuses_deletion, remote_basename, remote_child_path, remote_directory_prefixes, remote_join,
    resolve_download_directory_destination, resolve_upload_destination, SshAuthPlan, SshAuthRefusal,
};

#[test]
fn remote_join_uses_one_slash() {
    assert_eq!(remote_join("/", "x"), "/x");
    assert_eq!(remote_join("/a//", "b"), "/a/b");
    assert_eq!(remote_join("home", "b"), "home/b");
}

#[test]
fn remote_child_paths_follow_the_listed_parent() {
    assert_eq!(remote_child_path(" . ", "f"), "f");
    assert_eq!(remote_child_path("", "f"), "f");
    assert_eq!(remote_child_path("/", "f"), "/f");
    assert_eq!(remote_child_path(" /srv/ ", "f"), "/srv/f");
}

#[test]
fn remote_basename_ignores_trailing_slashes() {
    assert_eq!(remote_basename("/a/b/"), "b");
    assert_eq!(remote_basename("/"), "download");
    assert_eq!(remote_basename("file"), "file");
}

#[test]
fn path_file_name_reads_the_last_component() {
    assert_eq!(path_file_name("/tmp/a.txt"), Some("a.txt".to_string()));
    assert_eq!(path_file_name("dir/"), Some("dir".to_string()));
    assert_eq!(path_file_name("a/."), Some("a".to_string()));
    assert_eq!(path_file_name(".."), None);
    assert_eq!(path_file_name("/"), None);
    assert_eq!(path_file_name(""), None);
}

#[test]
fn upload_destinations_follow_the_remote_path() {
    assert_eq!(resolve_upload_destination("/tmp/a.txt", " ", false), "a.txt");
    assert_eq!(resolve_upload_destination("/tmp/a.txt", "/", false), "/a.txt");
    assert_eq!(resolve_upload_destination("/tmp/a.txt", "/srv/", false), "/srv/a.txt");
    assert_eq!(resolve_upload_destination("/tmp/a.txt", "/srv", true), "/srv/a.txt");
    assert_eq!(resolve_upload_destination("/tmp/a.txt", " /srv/b.txt ", false), "/srv/b.txt");
    assert_eq!(resolve_upload_destination("/", ".", false), "upload.bin");
}

#[test]
fn downloaded_directories_go_inside_existing_local_directories() {
    assert_eq!(resolve_download_directory_destination("/data/logs/", "/tmp/out", true), "/tmp/out/logs");
    assert_eq!(resolve_download_directory_destination("/data/logs/", "/tmp/out", false), "/tmp/out");
    assert_eq!(resolve_download_directory_destination("/data/logs", "/tmp/out/", true), "/tmp/out/logs");
}

#[test]
fn directory_prefixes_are_made_outermost_first() {
    assert_eq!(remote_directory_prefixes("/a/b/c"), vec!["/a", "/a/b", "/a/b/c"]);
    assert_eq!(remote_directory_prefixes("a//b/"), vec!["a", "a/b"]);
    assert!(remote_directory_prefixes("/").is_empty());
}

#[test]
fn permission_bits_tell_directories_and_links() {
    assert!(is_directory_perm(0o040755));
    assert!(!is_directory_perm(0o100644));
    assert!(is_symlink_perm(0o120777));
    assert!(!is_symlink_perm(0o040755));
}

#[test]
fn deleting_blank_paths_or_the_root_is_refused() {
    assert!(refuses_deletion("  "));
    assert!(refuses_deletion("/"));
    assert!(!refuses_deletion("/tmp/x"));
}

#[test]
fn home_relative_paths_are_normalized() {
    assert!(needs_home_directory(" ~ "));
    assert!(needs_home_directory("~/docs"));
    assert!(!needs_home_directory("/etc"));
    assert_eq!(normalize_remote_path("~/docs", "/home/alice"), "/home/alice/docs");
    assert_eq!(normalize_remote_path(" . ", "/home/alice"), "/home/alice");
    assert_eq!(normalize_remote_path("/etc ", "/home/alice"), "/etc");
}

#[test]
fn entry_names_fall_back_to_the_whole_path() {
    assert_eq!(entry_name("/srv/file.txt"), "file.txt");
    assert_eq!(entry_name(".."), "..");
}

#[test]
fn ssh_auth_plans_prefer_the_credential_user_name() {
    let password = CredentialSecret::Password(SecretString::new("pw").expect("secret"));
    match plan_ssh_auth(&None, &Some("bob".to_string()), &password) {
        Ok(SshAuthPlan::Password { username, password }) => {
            assert_eq!(username, "bob");
            assert_eq!(password, "pw");
        }
        other => panic!("unexpected plan: {other:?}"),
    }
    let key = CredentialSecret::PrivateKey {
        private_key_path: "/k".to_string(),
        passphrase: Some(SecretString::new("pp").expect("secret")),
    };
    match plan_ssh_auth(&Some("alice".to_string()), &Some("bob".to_string()), &key) {
        Ok(SshAuthPlan::PrivateKeyFile { username, private_key_path, passphrase }) => {
            assert_eq!(username, "alice");
            assert_eq!(private_key_path, "/k");
            assert_eq!(passphrase, Some("pp".to_string()));
        }
        other => panic!("unexpected plan: {other:?}"),
    }
    assert!(matches!(plan_ssh_auth(&None, &None, &key), Err(SshAuthRefusal::MissingUsername)));
    let token = CredentialSecret::Token(SecretString::new("t").expect("secret"));
    assert!(matches!(
        plan_ssh_auth(&Some("a".to_string()), &None, &token),
        Err(SshAuthRefusal::UnsupportedSecret)
    ));
}
