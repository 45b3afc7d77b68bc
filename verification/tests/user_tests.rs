use home_keeper::error::Error;
use home_keeper::user::{Removal, User};

const PASSWD: &str = "root:x:0:0:root:/root:/bin/bash\n\
daemon:x:1:1:daemon:/usr/sbin:/usr/sbin/nologin\n\
bob:x:1000:1000:Bob,,,:/home/bob:/bin/sh\n";

fn home(username: &str, passwd: &str) -> Option<String> {
    match User::home_dir_for(username, passwd) {
        Ok(h) => Some(h),
        Err(Error::NoUserFound(u)) => {
            assert_eq!(u, username);
            None
        }
        Err(e) => panic!("unexpected error {:?}", e),
    }
}

#[test]
fn home_dir_of_first_entry() {
    assert_eq!(home("root", PASSWD), Some("/root".to_string()));
}

#[test]
fn home_dir_of_later_entry() {
    assert_eq!(home("daemon", PASSWD), Some("/usr/sbin".to_string()));
    assert_eq!(home("bob", PASSWD), Some("/home/bob".to_string()));
}

#[test]
fn unknown_user_is_an_error() {
    assert_eq!(home("carol", PASSWD), None);
}

#[test]
fn name_inside_another_entry_is_not_that_user() {
    // "ob" stands inside "bob", and "oot" inside "root", but neither is a user.
    assert_eq!(home("ob", PASSWD), None);
    assert_eq!(home("oot", PASSWD), None);
    // "bin" stands inside "/bin/bash", but no entry is named "bin".
    assert_eq!(home("bin", PASSWD), None);
}

#[test]
fn user_after_a_longer_name_that_contains_it() {
    let passwd = "malice:x:1001:1001::/home/malice:/bin/sh\n\
                  alice:x:1002:1002::/home/alice:/bin/sh\n";
    assert_eq!(home("alice", passwd), Some("/home/alice".to_string()));
    assert_eq!(home("malice", passwd), Some("/home/malice".to_string()));
}

#[test]
fn first_entry_of_a_name_decides() {
    assert_eq!(home("eve", "eve:x:1\neve:x:1:1:Eve:/home/eve\n"), None);
    assert_eq!(
        home("eve", "eve:x:1:1:Eve:/first\neve:x:1:1:Eve:/second\n"),
        Some("/first".to_string())
    );
}

#[test]
fn too_few_fields_is_an_error() {
    assert_eq!(home("eve", "eve:x:1:1:Eve\n"), None);
}

#[test]
fn exactly_six_fields() {
    assert_eq!(home("eve", "eve:x:1:1:Eve:/home/eve"), Some("/home/eve".to_string()));
}

#[test]
fn carriage_return_before_line_feed_is_dropped() {
    assert_eq!(home("eve", "eve:x:1:1:Eve:/home/eve\r\nx\n"), Some("/home/eve".to_string()));
}

#[test]
fn carriage_return_at_the_very_end_is_kept() {
    assert_eq!(home("eve", "eve:x:1:1:Eve:/home/eve\r"), Some("/home/eve\r".to_string()));
}

#[test]
fn empty_name_needs_an_entry_with_an_empty_name() {
    assert_eq!(home("", PASSWD), None);
    assert_eq!(home("", ""), None);
    assert_eq!(home("", ":x:1:1::/nobody:\n"), Some("/nobody".to_string()));
    // A blank line is an entry with an empty name, and too few fields.
    assert_eq!(home("", "\n:x:1:1::/nobody:\n"), None);
}

#[test]
fn blank_lines_and_carriage_returns_between_entries() {
    let passwd = "root:x:0:0:root:/root:/bin/bash\r\n\r\n\nbob:x:1:1::/home/bob\r\n";
    assert_eq!(home("root", passwd), Some("/root".to_string()));
    assert_eq!(home("bob", passwd), Some("/home/bob".to_string()));
}

#[test]
fn backup_command_copies_home_into_the_backup() {
    let user = User { name: "bob".to_string(), home_dir: "/home/bob".to_string() };
    assert_eq!(
        user.backup_command("/backup", true),
        vec!["--perms", "--delete", "--archive", "--compress", "/home/bob", "/backup"]
    );
    assert_eq!(
        user.backup_command("/backup", false),
        vec!["--perms", "--delete", "--archive", "/home/bob", "/backup"]
    );
}

#[test]
fn restore_command_copies_the_backup_onto_home() {
    let user = User { name: "bob".to_string(), home_dir: "/home/bob".to_string() };
    assert_eq!(
        user.restore_command("/backup/bob/", true, false),
        vec!["--perms", "--delete", "--archive", "--checksum", "/backup/bob/", "/home/bob"]
    );
    assert_eq!(
        user.restore_command("/backup/bob/", false, true),
        vec!["--perms", "--delete", "--archive", "--compress", "/backup/bob/", "/home/bob"]
    );
}

#[test]
fn non_ascii_text() {
    assert_eq!(
        home("jürgen", "jürgen:x:5:5:Jürgen Ü:/home/jürgen:/bin/sh\n"),
        Some("/home/jürgen".to_string())
    );
}

#[test]
fn new_user_keeps_its_name() {
    let user = User::new("bob".to_string(), PASSWD).unwrap();
    assert_eq!(user.name, "bob");
    assert_eq!(user.home_dir, "/home/bob");
}

#[test]
fn new_unknown_user_fails() {
    match User::new("carol".to_string(), PASSWD) {
        Err(Error::NoUserFound(u)) => assert_eq!(u, "carol"),
        _ => panic!("expected NoUserFound"),
    }
}

#[test]
fn backup_args_with_and_without_compression() {
    assert_eq!(User::backup_args(false), vec!["--perms", "--delete", "--archive"]);
    assert_eq!(
        User::backup_args(true),
        vec!["--perms", "--delete", "--archive", "--compress"]
    );
}

#[test]
fn restore_args_follow_the_flags() {
    assert_eq!(User::restore_args(false, false), vec!["--perms", "--delete", "--archive"]);
    assert_eq!(
        User::restore_args(true, false),
        vec!["--perms", "--delete", "--archive", "--checksum"]
    );
    assert_eq!(
        User::restore_args(false, true),
        vec!["--perms", "--delete", "--archive", "--compress"]
    );
    assert_eq!(
        User::restore_args(true, true),
        vec!["--perms", "--delete", "--archive", "--checksum", "--compress"]
    );
}

#[test]
fn removal_before_backup() {
    assert_eq!(User::removal_for(false, false), Removal::Nothing);
    assert_eq!(User::removal_for(false, true), Removal::Nothing);
    assert_eq!(User::removal_for(true, true), Removal::Directory);
    assert_eq!(User::removal_for(true, false), Removal::File);
}

#[test]
fn backup_name_ends_in_slash() {
    let user = User { name: "bob".to_string(), home_dir: "/home/bob".to_string() };
    assert_eq!(user.backup_name(), "bob/");
}

#[test]
fn backup_files_must_be_a_directory() {
    assert!(User::check_backup_files("/b/bob/".to_string(), true, true).is_ok());
    for (exists, is_dir) in [(false, false), (true, false), (false, true)] {
        match User::check_backup_files("/b/bob/".to_string(), exists, is_dir) {
            Err(Error::NoBackupFilesFound(p)) => assert_eq!(p, "/b/bob/"),
            _ => panic!("expected NoBackupFilesFound"),
        }
    }
}

#[test]
fn rsync_failure_carries_its_output() {
    assert!(User::rsync_outcome(true, "ignored".to_string()).is_ok());
    match User::rsync_outcome(false, "no space left".to_string()) {
        Err(Error::RsyncError(m)) => assert_eq!(m, "no space left"),
        _ => panic!("expected RsyncError"),
    }
}
