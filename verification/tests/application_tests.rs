use home_keeper::application::{Application, CHECKSUM_DEFAULT, COMPRESS_DEFAULT};
use home_keeper::error::{Error, ExternalError};

const PASSWD: &str = "root:x:0:0:root:/root:/bin/bash\n\
bob:x:1000:1000:Bob:/home/bob:/bin/sh\n";

#[test]
fn str_to_bool_reads_only_the_two_flags() {
    assert_eq!(Application::str_to_bool("true;"), Ok(true));
    assert_eq!(Application::str_to_bool("false;"), Ok(false));
    assert_eq!(Application::str_to_bool("true"), Err(()));
    assert_eq!(Application::str_to_bool("false"), Err(()));
    assert_eq!(Application::str_to_bool(""), Err(()));
    assert_eq!(Application::str_to_bool("TRUE;"), Err(()));
}

#[test]
fn flag_or_default_falls_back() {
    assert_eq!(Application::flag_or_default("true;", false), (true, true));
    assert_eq!(Application::flag_or_default("false;", true), (false, true));
    assert_eq!(Application::flag_or_default("yes", CHECKSUM_DEFAULT), (false, false));
    assert_eq!(Application::flag_or_default("yes", COMPRESS_DEFAULT), (true, false));
}

#[test]
fn no_usernames_is_an_error() {
    match Application::new(vec![], Ok(PASSWD)) {
        Err(Error::EmptyUsernames) => {}
        _ => panic!("expected EmptyUsernames"),
    }
}

#[test]
fn known_and_unknown_users_are_parted() {
    let names = vec!["bob".to_string(), "carol".to_string(), "root".to_string(), "dave".to_string()];
    let (app, errors) = Application::new(names, Ok(PASSWD)).unwrap();
    let users = app.users();
    assert_eq!(users.len(), 2);
    assert_eq!(users[0].name, "bob");
    assert_eq!(users[0].home_dir, "/home/bob");
    assert_eq!(users[1].name, "root");
    assert_eq!(users[1].home_dir, "/root");
    assert_eq!(errors.len(), 2);
    assert!(matches!(&errors[0], Error::NoUserFound(u) if u == "carol"));
    assert!(matches!(&errors[1], Error::NoUserFound(u) if u == "dave"));
}

#[test]
fn all_users_unknown_still_sets_up() {
    let (app, errors) = Application::new(vec!["zed".to_string()], Ok(PASSWD)).unwrap();
    assert!(app.users().is_empty());
    assert_eq!(errors.len(), 1);
}

#[test]
fn unreadable_user_database_reports_every_user() {
    let failure = ExternalError {
        message: "Permission denied".to_string(),
        description: "permission denied".to_string(),
    };
    let names = vec!["bob".to_string(), "root".to_string()];
    let (app, errors) = Application::new(names, Err(&failure)).unwrap();
    assert!(app.users().is_empty());
    assert_eq!(errors.len(), 2);
    for e in &errors {
        match e {
            Error::Io(x) => {
                assert_eq!(x.message, "Permission denied");
                assert_eq!(x.description, "permission denied");
            }
            _ => panic!("expected Io"),
        }
    }
    match Application::new(vec![], Err(&failure)) {
        Err(Error::EmptyUsernames) => {}
        _ => panic!("expected EmptyUsernames"),
    }
}

#[test]
fn look_up_without_the_empty_check() {
    let (app, errors) = Application::look_up(vec![], PASSWD);
    assert!(app.users().is_empty());
    assert!(errors.is_empty());
}
