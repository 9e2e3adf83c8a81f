# SudoServer

A local service that lets an agent run administrator/root PowerShell, and only with a token
that the user has issued. The library holds the rules and is verified with Verus; the
application around it talks to the operating system and the network.

## The library (`src/`)

| Module | What it holds |
|---|---|
| `auth` | credentials, the lock after five failures, tokens: issue, verify, identify, revoke, list |
| `history` | what holds of credentials and tokens over the whole life of the service |
| `jwt` | tokens as text: header, claims, signature |
| `totp` | one-time codes with the parameters of common authenticator apps |
| `config` | the configuration and its faults, sealing and unsealing of the shared secret |
| `session` | which token owns which session, by which handle |
| `server` | what each request does to the state of the service |
| `shell` | how a command is framed for PowerShell and its answer found |
| `mcp` | JSON-RPC requests, tool calls and replies |
| `setup` | choosing a Master Password, enrolling an authenticator, who may start the service |
| `service` | the systemd unit, the Windows service, access rights of private files |
| `json`, `encoding`, `crypto`, `clock`, `secret` | the calls into other crates, each with its contract |
| `text`, `string_map` | texts, and maps with texts as keys |

What depends on chance or on the clock comes in pairs: a function that takes the random
value or the time as an argument and says exactly what it does, and one that draws the
value itself and says what holds whichever came. `issue_token_at` and `issue_token` are
such a pair.

What holds of several functions together is stated and proved in functions whose names
begin with `law_`: that a second entry gives back the same session, that a revoked token
has no access, that nothing within the output limit is lost, and so on.

Cryptographic algorithms and JSON are not specified here. Their results have names, and the
contracts in `crypto`, `totp` and `json` say of those names what the rest needs: that a
signature verifies under its own key, that a sealed text opens under its own key, that a
password matches its own hash, that an object that was written is read back.

## The application (`app/`)

`main.rs` is the command line (`init`, `serve`, `install`), `http.rs` and `rpc.rs` are the
HTTP and MCP interfaces, `powershell.rs` drives the PowerShell process, `config_file.rs`
reads and writes the configuration and the seal key, and `windows_service_host.rs` is the
entry point of the Windows service.

The service listens on `127.0.0.1:32119` unless configured otherwise, and never on an
address that another machine can reach.
