# home_keeper

A service that restores the home directories of a machine's users from their
backups. The library (`src/`) holds what the service decides, with its
contracts proved:

- `user`: finding a user's home directory in the text of `/etc/passwd`, and the
  `rsync` options and outcomes of backing up and restoring it;
- `application`: which configured users are kept and which are reported, and how
  the flags of the configuration file are read;
- `error`: the errors, with their messages and descriptions;
- `log`: the name of the log file;
- `text`: splitting text, its first line, and searching in it.

`app/` is the service around it: the GIO application, the GLib key file that holds
the configuration, the file system, `rsync` and the log.
