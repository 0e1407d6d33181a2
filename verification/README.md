# xmcl

The back-end core of the XMCL Minecraft launcher, written in Verus: what the
account commands, the CAUC (eduroam) login, the modpack exporters and the
full-pack importer decide, with each decision stated in `requires`/`ensures`
and proved.

## Layout

- `src/` — the verified library.
  - `text.rs`, `paths.rs`: character-sequence helpers and the relative-path
    model (`normalize_relative_path`, `safe_join`, containment).
  - `account.rs`: the account list and the selected player; what adding,
    deleting, replacing players and deleting servers do.
  - `cauc.rs`: cookies, tokens and the decisions of the CAUC login flow.
  - `export_common.rs`, `export_modrinth.rs`, `export_curseforge.rs`,
    `export_multimc.rs`, `export_fullzip.rs`: the default file selection,
    remote matching outcomes, manifests, zip entry names and the full-pack
    import routing.
  - `hashes.rs`: SHA-1/SHA-512 in hex and the CurseForge fingerprint.
  - `openlist.rs`, `proxy.rs`, `tasks.rs`, `models.rs`, `error.rs`.
- `app/` — the unverified shell: file system, zip archives, HTTP, shared
  state, the JSON forms of the library's types, and the traits through which
  the rest of the launcher is reached.
- `tests/` — tests of the library on concrete values.

Laws that relate several functions are public proof functions named `law_*`.
