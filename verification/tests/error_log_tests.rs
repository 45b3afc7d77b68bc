use home_keeper::error::{Error, ExternalError};
use home_keeper::log::log_file_name;

fn io(message: &str, description: &str) -> ExternalError {
    ExternalError { message: message.to_string(), description: description.to_string() }
}

#[test]
fn messages_of_each_error() {
    assert_eq!(Error::Io(io("disk full", "other")).message(), "disk full");
    assert_eq!(Error::GLibError(io("bad key", "glib")).message(), "bad key");
    assert_eq!(Error::NoUserFound("bob".to_string()).message(), "Couldn't find user 'bob'");
    assert_eq!(Error::NotDirectory("/x".to_string()).message(), "/x is not directory");
    assert_eq!(
        Error::RsyncError("boom".to_string()).message(),
        "Error while using `rsync` command saying: boom"
    );
    assert_eq!(
        Error::NoConfFileFound("/etc/home-keeper/conf".to_string()).message(),
        "Couldn't find configuration file in /etc/home-keeper/conf , you may want to \
         run home-keeper --help to for more info configuration"
    );
    assert_eq!(Error::EmptyUsernames.message(), "usernames is empty in configuration file");
    assert_eq!(
        Error::NoBackupFilesFound("/b/bob/".to_string()).message(),
        "Couldn't find backup files in: /b/bob/"
    );
}

#[test]
fn descriptions_of_each_error() {
    assert_eq!(Error::Io(io("disk full", "other")).description(), "other");
    assert_eq!(Error::GLibError(io("bad key", "glib")).description(), "glib");
    assert_eq!(Error::NoUserFound("bob".to_string()).description(), "Username not found");
    assert_eq!(Error::NotDirectory("/x".to_string()).description(), "Path is not directory");
    assert_eq!(Error::RsyncError("b".to_string()).description(), "Error while using `rsync` command");
    assert_eq!(Error::NoConfFileFound("c".to_string()).description(), "Configuration file not found");
    assert_eq!(Error::EmptyUsernames.description(), "usernames is empty");
    assert_eq!(Error::NoBackupFilesFound("p".to_string()).description(), "Backup files not found");
}

#[test]
fn only_system_errors_have_a_cause() {
    let e = Error::Io(io("disk full", "other"));
    assert_eq!(e.cause().map(|c| c.message.clone()), Some("disk full".to_string()));
    let e = Error::GLibError(io("bad key", "glib"));
    assert_eq!(e.cause().map(|c| c.description.clone()), Some("glib".to_string()));
    assert!(Error::EmptyUsernames.cause().is_none());
    assert!(Error::NoUserFound("bob".to_string()).cause().is_none());
}

#[test]
fn log_file_name_holds_the_time_in_decimal() {
    assert_eq!(log_file_name("home-keeper", 1514764800), "home-keeper-1514764800.log");
    assert_eq!(log_file_name("home-keeper", 0), "home-keeper-0.log");
    assert_eq!(log_file_name("x", 9), "x-9.log");
    assert_eq!(log_file_name("x", 10), "x-10.log");
    assert_eq!(log_file_name("", u64::MAX), "-18446744073709551615.log");
}
