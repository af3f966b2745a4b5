# updatable-cli

Self-update for command-line tools that ship as binaries in GitHub releases: find the newest
release that has a build for the platform, download it, check it against its SHA-256 checksum,
stage it beside the installed binary, and put it in place.

The library in `src/` is verified with Verus. It decides and does not act: each operation is a flow
that hands out one action at a time and takes in what came of it, so that its contracts can say
what it does for every answer that the network, the disk or another program may give. The program
side in `app/` performs the actions.

```rust
let host = this_host();
let updater = Updater::new(UpdaterConfig::new("mytool", "1.2.3", "octocat/mytool"));
let mut step = updater.run_update(&host);
let outcome = loop {
    step = match step {
        Step::Do { action, then } => then.advance(perform(action)),
        Step::Done(result) => break result,
    };
};
```

## Layout

| Module | What it holds |
| --- | --- |
| `config` | the configuration: install paths, tokens, asset names |
| `host` | platforms, release targets, file names |
| `version` | the order of versions |
| `release`, `json` | what the releases feed says |
| `select` | which release is chosen, and what is said of those passed over |
| `http` | redirects, and who may see a token |
| `checksum` | checksum files |
| `effects` | actions, events and steps |
| `check`, `stage`, `promote`, `update` | the flows |
| `updater` | the updater of one tool |
| `startup` | the hook at the start of a tool |
| `tools` | the operations as tools for others |
| `text`, `failure` | texts and failures |
| `outside` | what is taken on trust of other crates and of `std` |

## What is proved

The contract of every function says what it gives for every input. Beyond that, the functions named
`law_..` state what holds of whole flows, whatever happens:

- the newest published release with the assets for the platform is found, what was passed over is
  on record, and the user is told (`select`, `update`);
- a release that may be a downgrade is not taken unless the configuration allows it (`select`);
- in a download a token goes to the host that it is for, and to no other, across all redirects
  (`http`, `stage`). The one request for the feed leaves redirects to the program's HTTP client;
- nothing is unpacked or staged but the archive of the release, once the checksum of the release
  vouches for it (`stage`, `update`);
- what is shown of a configuration to those who debug holds no token (`config`);
- staging leaves the installed binary alone, and an update with nothing to do changes nothing
  (`stage`, `update`);
- on Windows no installed binary is ever replaced (`promote`, `update`);
- the startup hook cannot fail, and only looks where it cannot promote (`startup`).

## Platforms

| | installed | staged | default directory |
| --- | --- | --- | --- |
| Linux, macOS | `<tool>` | `<tool>_next` | `$HOME/.local/bin` |
| Windows (`x86_64`) | `<tool>.exe` | `<tool>_next.exe` | `%LOCALAPPDATA%\Programs\<tool>` |

Windows does not let go of a binary that runs. There an update stays staged where the tool is
installed, and the outcome says how to finish it.
