# nm_openvpn_sso

The verified core of a NetworkManager VPN plugin that drives OpenVPN with
single sign-on, and of its GNOME password dialog.

- `src/text.rs` — the string operations the rest is built from (trimming,
  splitting, line reading, prefixes, ASCII case folding, decimal port
  numbers), each stated over the characters of its input.
- `src/keyed.rs` — `StrMap`, a text-keyed map viewed as a `Map`.
- `src/config.rs` — reading a connection from NetworkManager's settings
  (`ConnectionConfig::from_nm_settings`), whether a password is still
  needed, and the exact OpenVPN command line (`build_openvpn_args`), with
  the laws that the command line keeps.
- `src/auth_dialog.rs` — the auth-dialog protocol: the line reader for the
  secret agent's input and the answer the dialog writes back.
- `app/` — the dialog program itself (argument parsing, standard input,
  the GTK window) and the conversion of D-Bus settings values into the
  library's plain settings.

Everything under `src/` is checked by Verus; `tests/` runs the library.
