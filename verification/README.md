# odus

A minimal privilege escalation tool for Linux and FreeBSD. It runs a command as root
where a rule in `/etc/odus.toml` lets the user do so, after the user has authenticated
through PAM.

```text
odus <command> [args...]
```

## Layout

- `src/` is the library: everything the tool decides. Verus proves each function against
  its contract, and the public proof functions named `law_...` state what holds of the
  library as a whole.
- `app/` is the program: it reads and writes files, talks to the user, to PAM and to the
  system log, and hands over to the command.
- `tests/` runs the library on concrete values.

| Module        | What it decides                                                          |
|---------------|--------------------------------------------------------------------------|
| `cli`         | what a command line asks for                                             |
| `config`      | whether the configuration file can be used, and what it says             |
| `value`       | the values of a TOML document                                            |
| `rules`       | which rule lets a user run a command                                     |
| `path`        | what a path is once normalised, and which paths are refused              |
| `exec`        | which executable runs, with which arguments and in which environment     |
| `handover`    | the calls by which the process becomes root and runs the command         |
| `security`    | whether a state file can be trusted                                      |
| `state`       | how long credentials and cooldowns last, and when their files are removed|
| `pam_service` | whether the PAM service file can be used                                 |
| `auth`        | the steps of an authentication                                           |
| `audit`       | what the system log is told                                              |
| `text`        | strings and numbers                                                      |

## Rules

Rules are read from the top, and the first match wins. A rule that is not valid refuses
the request when it is reached.

| Field      | Required | Meaning                                                      |
|------------|----------|--------------------------------------------------------------|
| `cmd`      | yes      | `ALL`, a bare name, an absolute path, or a prefix with a `*` |
| `user`     | no       | the user that the rule is for; any, where it is left out     |
| `group`    | no       | the group that the rule is for; any, where it is left out    |
| `nopasswd` | no       | `true` where no password is needed                           |

A user and a group that a rule names each restrict it: where it has both, both must match.
A rule that names neither is for everyone.

Every outcome of an authentication is logged: the command that runs, a password that is
rejected, and a failure that ends the attempt.
