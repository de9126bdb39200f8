# monosplice

Keep a monorepo and the standalone repositories spliced out of it in sync, commit by commit:
`push` exports monorepo commits, `pull` replays standalone commits back in, and commit
trailers (`Monosplice-Source`, `Monosplice-Origin`) record which commit answers which.

The library under `src/` is written in Verus: every function there carries a contract, and
Verus proves the code meets it. It holds the decisions and the text handling; running git,
reading and writing files and talking to the network is left to the program under `app/`,
which hands the library plain values and acts on what comes back.

## Layout

- `text` — characters, trimming, splitting and joining, as spec functions with the code
  proved against them.
- `trailers` — reading and appending commit trailers.
- `paths` — subrepo path normalization and the `exclude` globs (through `globset`).
- `config` — `monosplice.toml`: the schema, defaults and every refusal (through `toml`).
- `vendor` — rendering a subrepo entry, appending it to the config and removing it again,
  and the checks around editing the config.
- `entry_laws` — what holds of those edits across calls.
- `git` — the git invocations the library asks for, and the parsing of their output.
- `importer` — replaying standalone commits: a machine that names the next git call and
  takes back its outcome, with the sequencer `--continue` and `--abort` work from.
- `hooks`, `adopt`, `release`, `report`, `sync_view` — the rest of the shared logic.
- `commands` — the decisions of each subcommand.

## Laws

Besides each function's own contract, the library proves:

- reading a trailer gives back what appending it wrote, for a key made of
  `[A-Za-z0-9-]` the message does not carry and a one-line value; messages whose
  once-normalized text already carries the key with another value are left out, since
  appending normalizes twice (`trailers::lemma_get_trailer_reads_what_append_trailer_wrote`);
- an imported commit names the public commit it replays, on the same terms
  (`importer::lemma_an_import_names_its_public_commit`);
- an adoption commit names the public head it anchors to, when the name, the source and
  the head are each one line (`adopt::lemma_an_adoption_names_the_public_head`);
- normalizing a normalized path changes nothing
  (`paths::lemma_normalized_path_is_a_fixed_point`);
- every config that resolves has distinct names and paths, no nesting paths, normalized
  paths, non-empty names, an `upstream` other than `remote`, and the branch as push branch
  without `upstream` (`config::lemma_a_resolved_config_is_consistent`);
- a walk over subrepos runs the body on each in order up to the first halting refusal and
  reports every refusal together (`report::walk_subrepos`, its `ensures`);
- removing the entry that was just appended gives the config file back, for a file that is
  empty or ends in exactly one line feed, whose blocks all name themselves plainly and none
  of them the entry's name, and an entry whose path is normalized where its name is left to
  the path (`entry_laws::lemma_removing_an_inserted_entry_gives_the_file_back`);
- a value the config writer quotes is read back as the text it quotes
  (`vendor::lemma_quoted_reads_back`).
