# dig-node-service

The service shell of a DIG node: its HTTP and socket interfaces, its registration with the operating
system, its state directory, its TLS material, and the record of the spends it makes on its own.

The library under `src/` decides. Every function in it has a contract that Verus proves, and the
promises that span several functions stand beside them as laws: public proof functions whose names
begin with `law_`. The program under `app/` acts: it reads sockets, files, clocks and the service
manager, hands the library plain values, and does what the library answers.

| module | what it decides |
| --- | --- |
| `server` | who may call what, where a call goes, what is served, which doors are opened |
| `service` | scopes, guards, reinstall, removal, and what each command reports |
| `service_control` | how a run ends once a stop is asked for |
| `state` | where state is kept, and when a directory or a token may be trusted |
| `tls` | when the leaf certificate may be loaded, and what is said of its renewal |
| `spend_audit`, `spend_audit_cli` | the append-only record of spends, its ledger, and its readers |
| `untrusted_text` | what of a stranger's text is shown on a terminal |
| `updater` | what an answer of the update beacon means |
| `user_scope` | which registrations of other accounts may be removed, and how |

`text`, `paths`, `net`, `json`, `tokens`, `log`, `error`, `meta`, `outcome`, `config` and `oracle` are
what these are built from.

What is taken on trust is marked `#[verifier::external_body]` or `assume_specification`, and says which
outside function it stands for and what it claims of it.
