# bucketctl

An S3 shell with an SFTP-like workflow: list, upload, download and delete
objects of the buckets named in `~/.config/bucketctl/config.toml`, from the
command line (`bucketctl ls mybucket:/path`) or in an interactive shell
(`bucketctl mybucket`).

## Layout

- `src/` is the verified library. Every function there carries a contract
  that Verus proves:
  - `command/`: parsing command lines, remote targets, planning recursive
    transfers, and the decisions of running a command;
  - `session.rs`, `remote_path.rs`, `local_path.rs`: the current remote
    directory and how paths resolve, with the laws of resolution;
  - `s3/`: keys, listings, multipart plans and their scheduling, resumable
    downloads, deletes;
  - `cdn.rs`: downloads through a CDN domain;
  - `completion.rs`, `shell_complete.rs`: tab completion and completion
    scripts;
  - `ui.rs`, `config.rs`, `cli.rs`, `paths.rs`, `error.rs`, `text.rs`,
    `key_set.rs`, `sorting.rs`: styling, configuration, start-up, messages,
    and the text and ordering models the contracts are written in.
- `app/` is the program around it: the AWS SDK and HTTP clients, files,
  the terminal, line editing.
- `tests/` holds the tests of the library.
