//! What the program decides: which of the configured users can be kept, and how
//! the flags of the configuration file are read.
use vstd::prelude::*;

use crate::error::{Error, ExternalError};
use crate::text::same_text;
use crate::user::{passwd_home, User};

verus! {

/// The value that `checksum` takes where the configuration gives none that can be read.
pub const CHECKSUM_DEFAULT: bool = false;

/// The value that `compress` takes where the configuration gives none that can be read.
pub const COMPRESS_DEFAULT: bool = true;

/// How a flag of the configuration file is read: `true;` and `false;` are the
/// only texts that stand for a value.
pub open spec fn flag_of(val: Seq<char>) -> Result<bool, ()> {
    if val == "true;"@ {
        Ok(true)
    } else if val == "false;"@ {
        Ok(false)
    } else {
        Err(())
    }
}

/// The value of a flag written `val`, and whether it could be read; where it
/// could not, the value is `default`.
pub open spec fn flag_or_default(val: Seq<char>, default: bool) -> (bool, bool) {
    match flag_of(val) {
        Ok(b) => (b, true),
        Err(_) => (default, false),
    }
}

/// A flag is read as written where it is `true;` or `false;`, whatever the
/// default: `true;` turns it on and `false;` off, and the reading is marked as
/// valid. Any other text gives the default, marked as not valid. Where a flag
/// is read, the default has no part in its value.
pub proof fn lemma_flag_reading(val: Seq<char>, default: bool)
    ensures
        val == "true;"@ ==> flag_of(val) == Ok::<bool, ()>(true) && flag_or_default(val, default)
            == (true, true),
        val == "false;"@ ==> flag_of(val) == Ok::<bool, ()>(false) && flag_or_default(
            val,
            default,
        ) == (false, true),
        val != "true;"@ && val != "false;"@ ==> flag_of(val) is Err && flag_or_default(
            val,
            default,
        ) == (default, false),
        flag_or_default(val, default).1 ==> flag_or_default(val, default) == flag_or_default(
            val,
            !default,
        ),
        flag_of(val) matches Ok(b) ==> flag_or_default(val, default) == (b, true),
{
    reveal_strlit("true;");
    reveal_strlit("false;");
    assert("true;"@ != "false;"@) by {
        assert("true;"@[0] != "false;"@[0]);
    }
}

/// The users among `names` that `passwd` knows, each with its home directory,
/// in the order of `names`.
pub open spec fn known_users(names: Seq<Seq<char>>, passwd: Seq<char>) -> Seq<(Seq<char>, Seq<char>)> {
    names.filter_map(
        |name: Seq<char>|
            match passwd_home(passwd, name) {
                Some(home) => Some((name, home)),
                None => None,
            },
    )
}

/// The names among `names` that `passwd` does not know, in their order.
pub open spec fn unknown_users(names: Seq<Seq<char>>, passwd: Seq<char>) -> Seq<Seq<char>> {
    names.filter(|name: Seq<char>| passwd_home(passwd, name) is None)
}

/// Every configured name is either kept, with the home directory that the user
/// database gives for it, or reported as unknown to the user database: none is
/// lost and none is counted twice.
pub proof fn lemma_users_partition(names: Seq<Seq<char>>, passwd: Seq<char>)
    ensures
        known_users(names, passwd).len() + unknown_users(names, passwd).len() == names.len(),
        forall|k: int|
            0 <= k < known_users(names, passwd).len() ==> passwd_home(
                passwd,
                #[trigger] known_users(names, passwd)[k].0,
            ) == Some(known_users(names, passwd)[k].1),
        forall|k: int|
            0 <= k < unknown_users(names, passwd).len() ==> passwd_home(
                passwd,
                #[trigger] unknown_users(names, passwd)[k],
            ) is None,
    decreases names.len(),
{
    reveal_with_fuel(Seq::filter, 1);
    reveal_with_fuel(Seq::filter_map, 1);
    if names.len() > 0 {
        lemma_users_partition(names.drop_last(), passwd);
        let known = known_users(names, passwd);
        let known0 = known_users(names.drop_last(), passwd);
        let unknown = unknown_users(names, passwd);
        let unknown0 = unknown_users(names.drop_last(), passwd);
        match passwd_home(passwd, names.last()) {
            Some(home) => {
                assert(known == known0 + seq![(names.last(), home)]);
                assert(unknown == unknown0);
                assert forall|k: int| 0 <= k < known.len() implies passwd_home(
                    passwd,
                    #[trigger] known[k].0,
                ) == Some(known[k].1) by {
                    if k < known0.len() {
                        assert(known[k] == known0[k]);
                    }
                }
            },
            None => {
                assert(known == known0);
                assert(unknown == unknown0.push(names.last()));
                assert forall|k: int| 0 <= k < unknown.len() implies passwd_home(
                    passwd,
                    #[trigger] unknown[k],
                ) is None by {
                    if k < unknown0.len() {
                        assert(unknown[k] == unknown0[k]);
                    }
                }
            },
        }
    }
}

/// The names of `users`, each with its home directory.
pub open spec fn user_entries(users: Seq<User>) -> Seq<(Seq<char>, Seq<char>)> {
    users.map_values(|u: User| (u.name@, u.home_dir@))
}

/// The texts of `names`.
pub open spec fn texts_of(names: Seq<String>) -> Seq<Seq<char>> {
    names.map_values(|s: String| s@)
}

/// The users whose home directories are kept.
pub struct Application {
    users: Vec<User>,
}

impl Application {
    /// The users whose home directories are kept.
    pub closed spec fn spec_users(&self) -> Seq<User> {
        self.users@
    }

    /// The application holds the users among `names` that `passwd` knows, and
    /// `errors` reports, in order, those that it does not know.
    pub open spec fn looked_up(
        self,
        errors: Seq<Error>,
        names: Seq<Seq<char>>,
        passwd: Seq<char>,
    ) -> bool {
        &&& user_entries(self.spec_users()) == known_users(names, passwd)
        &&& errors.len() == unknown_users(names, passwd).len()
        &&& forall|j: int|
            0 <= j < errors.len() ==> (#[trigger] errors[j] matches Error::NoUserFound(u) && u@
                == unknown_users(names, passwd)[j])
    }

    /// Sets up the application for the users named `usernames`, with `passwd`
    /// the text of the user database, or the failure to read it. No names at
    /// all is an error. Where the user database could be read, a name that it
    /// does not know is left out, and its error is handed back beside the
    /// application, in the order of the names; where it could not be read, no
    /// user is kept and every name gets that failure as its error.
    pub fn new(usernames: Vec<String>, passwd: Result<&str, &ExternalError>) -> (r: Result<
        (Application, Vec<Error>),
        Error,
    >)
        ensures
            match r {
                Ok((app, errors)) => {
                    &&& usernames.len() > 0
                    &&& match passwd {
                        Ok(text) => app.looked_up(errors@, texts_of(usernames@), text@),
                        Err(failure) => {
                            &&& app.spec_users().len() == 0
                            &&& errors.len() == usernames.len()
                            &&& forall|j: int|
                                0 <= j < errors.len() ==> (#[trigger] errors@[j] matches Error::Io(
                                    x,
                                ) && x.message@ == failure.message@ && x.description@
                                    == failure.description@)
                        },
                    }
                },
                Err(e) => usernames.len() == 0 && e is EmptyUsernames,
            },
    {
        if usernames.len() == 0 {
            return Err(Error::EmptyUsernames);
        }
        match passwd {
            Ok(text) => Ok(Application::look_up(usernames, text)),
            Err(failure) => {
                let mut errors: Vec<Error> = Vec::new();
                let n = usernames.len();
                let mut i: usize = 0;
                while i < n
                    invariant
                        i <= n,
                        errors.len() == i,
                        forall|j: int|
                            0 <= j < i ==> (#[trigger] errors@[j] matches Error::Io(x)
                                && x.message@ == failure.message@ && x.description@
                                == failure.description@),
                    decreases n - i,
                {
                    let x = ExternalError {
                        message: failure.message.clone(),
                        description: failure.description.clone(),
                    };
                    errors.push(Error::Io(x));
                    i = i + 1;
                }
                Ok((Application { users: Vec::new() }, errors))
            },
        }
    }

    /// Looks each of `usernames` up in `passwd`, the text of the user database:
    /// those it knows are kept, the others are reported, in order.
    pub fn look_up(usernames: Vec<String>, passwd: &str) -> (r: (Application, Vec<Error>))
        ensures
            r.0.looked_up(r.1@, texts_of(usernames@), passwd@),
    {
        let ghost names = texts_of(usernames@);
        let mut users: Vec<User> = Vec::new();
        let mut errors: Vec<Error> = Vec::new();
        let n = usernames.len();
        let mut i: usize = 0;
        while i < n
            invariant
                n == usernames.len(),
                i <= n,
                names == texts_of(usernames@),
                user_entries(users@) == known_users(names.take(i as int), passwd@),
                errors.len() == unknown_users(names.take(i as int), passwd@).len(),
                forall|j: int|
                    0 <= j < errors.len() ==> (#[trigger] errors@[j] matches Error::NoUserFound(u)
                        && u@ == unknown_users(names.take(i as int), passwd@)[j]),
            decreases n - i,
        {
            let username = usernames[i].clone();
            let ghost k = i as int;
            let ghost name = username@;
            proof {
                assert(names.take(k + 1).drop_last() =~= names.take(k));
                assert(names.take(k + 1).last() == username@);
                reveal_with_fuel(Seq::filter, 1);
                reveal_with_fuel(Seq::filter_map, 1);
            }
            match User::new(username, passwd) {
                Ok(user) => {
                    assert(unknown_users(names.take(k + 1), passwd@) == unknown_users(
                        names.take(k),
                        passwd@,
                    ));
                    let ghost before = users@;
                    users.push(user);
                    assert(user_entries(users@) =~= user_entries(before).push((name, user.home_dir@)));
                    assert(user_entries(users@) =~= known_users(names.take(k + 1), passwd@));
                },
                Err(error) => {
                    assert(known_users(names.take(k + 1), passwd@) == known_users(
                        names.take(k),
                        passwd@,
                    ));
                    assert(unknown_users(names.take(k + 1), passwd@) == unknown_users(
                        names.take(k),
                        passwd@,
                    ).push(name));
                    errors.push(error);
                },
            }
            i = i + 1;
        }
        assert(names.take(n as int) =~= names);
        (Application { users }, errors)
    }

    /// The users whose home directories are kept.
    pub fn users(&self) -> (r: &Vec<User>)
        ensures
            r@ == self.spec_users(),
    {
        &self.users
    }

    /// Reads a flag as the configuration file writes it: `true;` or `false;`.
    pub fn str_to_bool(val: &str) -> (r: Result<bool, ()>)
        ensures
            r == flag_of(val@),
            val@ == "true;"@ ==> r == Ok::<bool, ()>(true),
            val@ == "false;"@ ==> r == Ok::<bool, ()>(false),
            val@ != "true;"@ && val@ != "false;"@ ==> r is Err,
    {
        proof {
            lemma_flag_reading(val@, false);
        }
        if same_text(val, "true;") {
            Ok(true)
        } else if same_text(val, "false;") {
            Ok(false)
        } else {
            Err(())
        }
    }

    /// The value of a flag written `val`, or `default` where `val` cannot be
    /// read; and whether it could be read.
    pub fn flag_or_default(val: &str, default: bool) -> (r: (bool, bool))
        ensures
            r == flag_or_default(val@, default),
            val@ == "true;"@ ==> r == (true, true),
            val@ == "false;"@ ==> r == (false, true),
            val@ != "true;"@ && val@ != "false;"@ ==> r == (default, false),
    {
        proof {
            lemma_flag_reading(val@, default);
        }
        match Application::str_to_bool(val) {
            Ok(b) => (b, true),
            Err(()) => (default, false),
        }
    }
}

} // verus!
