//! The users whose home directories are kept, and how a user's home directory is
//! found in the system's user database.
use vstd::prelude::*;

use crate::error::Error;
use crate::text::{
    chars_of, free_of, index_of, join_with, lemma_join_free, lemma_join_last,
    lemma_split_concat, lemma_split_first, lemma_split_free, lemma_split_join,
    lemma_split_nonempty, line_piece, matches_at, occurs_at, split_on, text_lines,
};

verus! {

/// A user, by name, with the home directory that the user database gives for it.
pub struct User {
    pub name: String,
    pub home_dir: String,
}

/// The first `:`-separated field of `line`: the user name of an entry of the
/// user database.
pub open spec fn entry_name(line: Seq<char>) -> Seq<char> {
    split_on(line, ':')[0]
}

/// Line `k` of `lines` is the first whose entry is that of `name`.
pub open spec fn is_first_entry(lines: Seq<Seq<char>>, name: Seq<char>, k: int) -> bool {
    &&& 0 <= k < lines.len()
    &&& entry_name(lines[k]) == name
    &&& forall|j: int| 0 <= j < k ==> entry_name(#[trigger] lines[j]) != name
}

/// The home directory that the user database `passwd` (the text of `/etc/passwd`)
/// gives for `name`: the sixth `:`-separated field of the first line whose first
/// field is `name`. `None` where no line is an entry of `name`, or where the
/// first such line has fewer than six fields.
pub open spec fn passwd_home(passwd: Seq<char>, name: Seq<char>) -> Option<Seq<char>> {
    let lines = text_lines(passwd);
    if exists|k: int| is_first_entry(lines, name, k) {
        let k = choose|k: int| is_first_entry(lines, name, k);
        let fields = split_on(lines[k], ':');
        if fields.len() > 5 {
            Some(fields[5])
        } else {
            None
        }
    } else {
        None
    }
}

/// There is one first entry of a name.
proof fn lemma_first_entry_unique(lines: Seq<Seq<char>>, name: Seq<char>, i: int, j: int)
    requires
        is_first_entry(lines, name, i),
        is_first_entry(lines, name, j),
    ensures
        i == j,
{
    if i < j {
        assert(entry_name(lines[i]) != name);
    } else if j < i {
        assert(entry_name(lines[j]) != name);
    }
}

/// Where `name` has a first entry at line `k`, the home directory is the sixth
/// field of that line.
proof fn lemma_home_of_entry(passwd: Seq<char>, name: Seq<char>, k: int)
    requires
        is_first_entry(text_lines(passwd), name, k),
    ensures
        passwd_home(passwd, name) == (if split_on(text_lines(passwd)[k], ':').len() > 5 {
            Some(split_on(text_lines(passwd)[k], ':')[5])
        } else {
            None::<Seq<char>>
        }),
{
    let lines = text_lines(passwd);
    let c = choose|c: int| is_first_entry(lines, name, c);
    lemma_first_entry_unique(lines, name, c, k);
}

/// The texts of `args`.
pub open spec fn arg_texts(args: Seq<&str>) -> Seq<Seq<char>> {
    args.map_values(|a: &str| a@)
}

/// The texts of `args`.
pub open spec fn string_texts(args: Seq<String>) -> Seq<Seq<char>> {
    args.map_values(|a: String| a@)
}

/// The options that every `rsync` run of the program is given.
pub open spec fn base_args() -> Seq<Seq<char>> {
    seq!["--perms"@, "--delete"@, "--archive"@]
}

/// `opt` where `on` holds, nothing otherwise.
pub open spec fn option_if(on: bool, opt: Seq<char>) -> Seq<Seq<char>> {
    if on {
        seq![opt]
    } else {
        Seq::empty()
    }
}

/// What is in the way of a new backup, and has to be removed before it is made.
#[derive(PartialEq, Eq, Structural, Debug)]
pub enum Removal {
    /// Nothing is there.
    Nothing,
    /// A directory is there.
    Directory,
    /// Something other than a directory is there.
    File,
}

/// The pieces of `t` between `from` and `to` split at `sep`, where the first
/// separator from `from` on stands at `at` (or there is none, and `at` is `to`).
proof fn lemma_split_range(t: Seq<char>, from: int, at: int, to: int, sep: char)
    requires
        0 <= from <= at <= to <= t.len(),
        free_of(t.subrange(from, at), sep),
        at < to ==> t[at] == sep,
    ensures
        split_on(t.subrange(from, to), sep)[0] == t.subrange(from, at),
        at < to ==> split_on(t.subrange(from, to), sep) == seq![t.subrange(from, at)] + split_on(
            t.subrange(at + 1, to),
            sep,
        ),
        at == to ==> split_on(t.subrange(from, to), sep) == seq![t.subrange(from, to)],
{
    if at < to {
        assert(t.subrange(from, to) =~= t.subrange(from, at) + seq![sep] + t.subrange(at + 1, to));
        lemma_split_first(t.subrange(from, at), t.subrange(at + 1, to), sep);
    } else {
        lemma_split_free(t.subrange(from, to), sep);
    }
}

/// An entry of the user database (`name:password:uid:gid:gecos:home:...`, at
/// least six fields, none holding `:` or a line feed, the line not ending in a
/// carriage return), written as a line of its own after any number of lines
/// none of which is an entry of the same name, is read back: the home directory
/// found for the name is its sixth field.
pub proof fn lemma_passwd_entry_read_back(
    before: Seq<char>,
    fields: Seq<Seq<char>>,
    after: Seq<char>,
)
    requires
        fields.len() >= 6,
        forall|i: int|
            0 <= i < fields.len() ==> free_of(#[trigger] fields[i], ':') && free_of(
                fields[i],
                '\n',
            ),
        fields.last().len() == 0 || fields.last().last() != '\r',
        before.len() == 0 || before.last() == '\n',
        forall|j: int|
            0 <= j < text_lines(before).len() ==> entry_name(#[trigger] text_lines(before)[j])
                != fields[0],
    ensures
        passwd_home(before + join_with(fields, ':') + seq!['\n'] + after, fields[0]) == Some(
            fields[5],
        ),
{
    let line = join_with(fields, ':');
    let rest = line + seq!['\n'] + after;
    let text = before + rest;
    assert(text =~= before + join_with(fields, ':') + seq!['\n'] + after);
    let name = fields[0];
    lemma_join_free(fields, ':', '\n');
    lemma_split_first(line, after, '\n');
    lemma_split_nonempty(after, '\n');
    lemma_join_last(fields, ':');
    lemma_split_join(fields, ':');
    let pr = split_on(rest, '\n');
    assert(pr == seq![line] + split_on(after, '\n'));
    let lines = text_lines(text);
    let parts = split_on(text, '\n');
    if before.len() == 0 {
        assert(text =~= rest);
        assert(lines[0] == line_piece(parts, 0));
        assert(is_first_entry(lines, name, 0));
        lemma_home_of_entry(text, name, 0);
    } else {
        let b0 = before.drop_last();
        assert(before =~= b0 + seq!['\n'] + Seq::<char>::empty());
        assert(text =~= b0 + seq!['\n'] + rest);
        lemma_split_concat(b0, rest, '\n');
        lemma_split_concat(b0, Seq::<char>::empty(), '\n');
        let pb = split_on(b0, '\n');
        let parts_b = split_on(before, '\n');
        assert(parts == pb + pr);
        assert(parts_b == pb + seq![Seq::<char>::empty()]);
        let m = pb.len() as int;
        let lines_b = text_lines(before);
        assert(lines_b.len() == m);
        assert forall|j: int| 0 <= j < m implies lines[j] == lines_b[j] by {
            assert(parts[j] == parts_b[j]);
        }
        assert(parts[m] == line);
        assert(lines[m] == line);
        assert forall|j: int| 0 <= j < m implies entry_name(#[trigger] lines[j]) != name by {
            assert(lines[j] == lines_b[j]);
        }
        assert(is_first_entry(lines, name, m));
        lemma_home_of_entry(text, name, m);
    }
}

/// Where the sixth `:`-separated field of the line `text[start..end]` stands, if
/// the line has six fields.
fn home_field(text: &Vec<char>, start: usize, end: usize) -> (r: Option<(usize, usize)>)
    requires
        start <= end <= text.len(),
    ensures
        match r {
            Some((a, b)) => {
                &&& start <= a <= b <= end
                &&& split_on(text@.subrange(start as int, end as int), ':').len() > 5
                &&& split_on(text@.subrange(start as int, end as int), ':')[5] == text@.subrange(
                    a as int,
                    b as int,
                )
            },
            None => split_on(text@.subrange(start as int, end as int), ':').len() <= 5,
        },
{
    let ghost t = text@;
    let ghost line = t.subrange(start as int, end as int);
    let ghost mut prefix: Seq<Seq<char>> = Seq::empty();
    let mut pos = start;
    let mut f: usize = 0;
    assert(t.subrange(pos as int, end as int) =~= line);
    while f < 5
        invariant
            text@ == t,
            start <= pos <= end <= t.len(),
            line == t.subrange(start as int, end as int),
            f <= 5,
            prefix.len() == f,
            split_on(line, ':') == prefix + split_on(t.subrange(pos as int, end as int), ':'),
        decreases 5 - f,
    {
        let q = index_of(text, ':', pos, end);
        proof {
            lemma_split_range(t, pos as int, q as int, end as int, ':');
        }
        if q == end {
            return None;
        }
        proof {
            prefix = prefix.push(t.subrange(pos as int, q as int));
            assert(split_on(line, ':') =~= prefix + split_on(t.subrange(q + 1, end as int), ':'));
        }
        pos = q + 1;
        f = f + 1;
    }
    let q = index_of(text, ':', pos, end);
    proof {
        lemma_split_range(t, pos as int, q as int, end as int, ':');
        lemma_split_nonempty(t.subrange(pos as int, end as int), ':');
    }
    Some((pos, q))
}

/// `args` as owned strings.
fn owned_args(args: &Vec<&str>) -> (r: Vec<String>)
    ensures
        string_texts(r@) == arg_texts(args@),
{
    let mut r: Vec<String> = Vec::new();
    let mut i: usize = 0;
    while i < args.len()
        invariant
            i <= args.len(),
            string_texts(r@) == arg_texts(args@).take(i as int),
        decreases args.len() - i,
    {
        let a = String::from_str(args[i]);
        let ghost before = r@;
        r.push(a);
        assert(string_texts(r@) =~= string_texts(before).push(args@[i as int]@));
        assert(arg_texts(args@).take(i + 1) =~= arg_texts(args@).take(i as int).push(
            args@[i as int]@,
        ));
        i = i + 1;
    }
    assert(arg_texts(args@).take(i as int) =~= arg_texts(args@));
    r
}

/// The error for a user that the user database does not know.
fn no_user(username: &str) -> (e: Error)
    ensures
        e matches Error::NoUserFound(u) && u@ == username@,
{
    Error::NoUserFound(String::from_str(username))
}

impl User {
    /// Looks up the home directory of `username` in `passwd`, the text of the
    /// user database: the sixth field of the first line whose first field is
    /// `username`.
    pub fn home_dir_for(username: &str, passwd: &str) -> (r: Result<String, Error>)
        ensures
            match r {
                Ok(home) => passwd_home(passwd@, username@) == Some(home@),
                Err(e) => passwd_home(passwd@, username@) is None && (e matches Error::NoUserFound(
                    u,
                ) && u@ == username@),
            },
    {
        let text = chars_of(passwd);
        let pat = chars_of(username);
        let n = text.len();
        let ghost t = text@;
        let ghost parts = split_on(t, '\n');
        let ghost lines = text_lines(t);
        let ghost mut prefix: Seq<Seq<char>> = Seq::empty();
        let mut pos: usize = 0;
        assert(t.subrange(0, n as int) =~= t);
        while pos < n
            invariant
                text@ == t,
                t == passwd@,
                pat@ == username@,
                n == t.len(),
                pos <= n,
                parts == split_on(t, '\n'),
                lines == text_lines(t),
                parts == prefix + split_on(t.subrange(pos as int, n as int), '\n'),
                forall|j: int| 0 <= j < prefix.len() ==> entry_name(#[trigger] lines[j]) != pat@,
            decreases n - pos,
        {
            // The line that starts at `pos` ends before `q`, or at `e` without its
            // carriage return.
            let q = index_of(&text, '\n', pos, n);
            let e = if q < n && q > pos && text[q - 1] == '\r' {
                q - 1
            } else {
                q
            };
            let ghost k = prefix.len() as int;
            let ghost line = t.subrange(pos as int, e as int);
            proof {
                lemma_split_range(t, pos as int, q as int, n as int, '\n');
                if q < n {
                    lemma_split_nonempty(t.subrange(q + 1, n as int), '\n');
                    assert(parts == prefix.push(t.subrange(pos as int, q as int)) + split_on(
                        t.subrange(q + 1, n as int),
                        '\n',
                    ));
                    assert(parts[k] == t.subrange(pos as int, q as int));
                    if e < q {
                        assert(t.subrange(pos as int, q as int).drop_last() =~= line);
                    }
                } else {
                    assert(parts == prefix.push(t.subrange(pos as int, q as int)));
                }
                assert(lines[k] == line_piece(parts, k));
                assert(lines[k] == line);
            }
            let f = index_of(&text, ':', pos, e);
            proof {
                lemma_split_range(t, pos as int, f as int, e as int, ':');
                assert(entry_name(line) == t.subrange(pos as int, f as int));
            }
            if f - pos == pat.len() && matches_at(&text, &pat, pos) {
                proof {
                    assert(is_first_entry(lines, pat@, k));
                    lemma_home_of_entry(t, pat@, k);
                }
                return match home_field(&text, pos, e) {
                    Some((a, b)) => Ok(String::from_str(passwd.substring_char(a, b))),
                    None => Err(no_user(username)),
                };
            }
            proof {
                if t.subrange(pos as int, f as int) == pat@ {
                    assert(occurs_at(t, pat@, pos as int));
                }
            }
            if q == n {
                proof {
                    assert(lines.len() == k + 1);
                    assert forall|j: int| 0 <= j < lines.len() implies entry_name(
                        #[trigger] lines[j],
                    ) != pat@ by {}
                }
                return Err(no_user(username));
            }
            proof {
                prefix = prefix.push(t.subrange(pos as int, q as int));
            }
            pos = q + 1;
        }
        proof {
            assert(t.subrange(pos as int, n as int) =~= Seq::<char>::empty());
            assert(lines.len() == prefix.len());
        }
        Err(no_user(username))
    }

    /// The user `username`, with the home directory that `passwd`, the text of the
    /// user database, gives for it.
    pub fn new(username: String, passwd: &str) -> (r: Result<User, Error>)
        ensures
            match r {
                Ok(user) => user.name@ == username@ && passwd_home(passwd@, username@) == Some(
                    user.home_dir@,
                ),
                Err(e) => passwd_home(passwd@, username@) is None && (e matches Error::NoUserFound(
                    u,
                ) && u@ == username@),
            },
    {
        let home_dir = User::home_dir_for(username.as_str(), passwd)?;
        Ok(User { name: username, home_dir })
    }

    /// The options of the `rsync` run that backs a home directory up.
    pub fn backup_args(compress: bool) -> (r: Vec<&'static str>)
        ensures
            arg_texts(r@) == base_args() + option_if(compress, "--compress"@),
    {
        let mut args: Vec<&'static str> = vec!["--perms", "--delete", "--archive"];
        if compress {
            args.push("--compress");
        }
        assert(arg_texts(args@) =~= base_args() + option_if(compress, "--compress"@));
        args
    }

    /// The options of the `rsync` run that restores a home directory.
    pub fn restore_args(checksum: bool, compress: bool) -> (r: Vec<&'static str>)
        ensures
            arg_texts(r@) == base_args() + option_if(checksum, "--checksum"@) + option_if(
                compress,
                "--compress"@,
            ),
    {
        let mut args: Vec<&'static str> = vec!["--perms", "--delete", "--archive"];
        if checksum {
            args.push("--checksum");
        }
        if compress {
            args.push("--compress");
        }
        assert(arg_texts(args@) =~= base_args() + option_if(checksum, "--checksum"@) + option_if(
            compress,
            "--compress"@,
        ));
        args
    }

    /// The whole argument list of the `rsync` run that backs this user's home
    /// directory up into `path`: the options, then the home directory (what is
    /// copied), then `path` (where it goes).
    pub fn backup_command(&self, path: &str, compress: bool) -> (r: Vec<String>)
        ensures
            string_texts(r@) == base_args() + option_if(compress, "--compress"@) + seq![
                self.home_dir@,
                path@,
            ],
    {
        let options = User::backup_args(compress);
        let mut r = owned_args(&options);
        r.push(self.home_dir.clone());
        r.push(String::from_str(path));
        assert(string_texts(r@) =~= arg_texts(options@) + seq![self.home_dir@, path@]);
        r
    }

    /// The whole argument list of the `rsync` run that restores this user's home
    /// directory from `backup_files`: the options, then `backup_files` (what is
    /// copied), then the home directory (where it goes).
    pub fn restore_command(&self, backup_files: &str, checksum: bool, compress: bool) -> (r: Vec<
        String,
    >)
        ensures
            string_texts(r@) == base_args() + option_if(checksum, "--checksum"@) + option_if(
                compress,
                "--compress"@,
            ) + seq![backup_files@, self.home_dir@],
    {
        let options = User::restore_args(checksum, compress);
        let mut r = owned_args(&options);
        r.push(String::from_str(backup_files));
        r.push(self.home_dir.clone());
        assert(string_texts(r@) =~= arg_texts(options@) + seq![backup_files@, self.home_dir@]);
        r
    }

    /// What has to be removed before a backup is made where something `exists`,
    /// a directory where `is_dir`.
    pub fn removal_for(exists: bool, is_dir: bool) -> (r: Removal)
        ensures
            r == (if !exists {
                Removal::Nothing
            } else if is_dir {
                Removal::Directory
            } else {
                Removal::File
            }),
    {
        if !exists {
            Removal::Nothing
        } else if is_dir {
            Removal::Directory
        } else {
            Removal::File
        }
    }

    /// The name, under the backup directory, of this user's backup: the user's
    /// name followed by `/`.
    pub fn backup_name(&self) -> (r: String)
        ensures
            r@ == self.name@ + "/"@,
    {
        let mut r = self.name.clone();
        r.append("/");
        r
    }

    /// Whether the backup files at `path` can be restored from: they must be there,
    /// as a directory.
    pub fn check_backup_files(path: String, exists: bool, is_dir: bool) -> (r: Result<(), Error>)
        ensures
            match r {
                Ok(()) => exists && is_dir,
                Err(e) => !(exists && is_dir) && (e matches Error::NoBackupFilesFound(p) && p@ == path@),
            },
    {
        if !is_dir || !exists {
            return Err(Error::NoBackupFilesFound(path));
        }
        Ok(())
    }

    /// The outcome of an `rsync` run that `succeeded` or not, having written
    /// `stderr` to its standard error.
    pub fn rsync_outcome(succeeded: bool, stderr: String) -> (r: Result<(), Error>)
        ensures
            match r {
                Ok(()) => succeeded,
                Err(e) => !succeeded && (e matches Error::RsyncError(m) && m@ == stderr@),
            },
    {
        if succeeded {
            Ok(())
        } else {
            Err(Error::RsyncError(stderr))
        }
    }
}

} // verus!
