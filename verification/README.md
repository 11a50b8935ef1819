# Gitom

A git server for one user: browse repositories in a web browser, fetch and push with git over
HTTP, and tell other services of pushes through webhooks.

`src/` is the library. It holds the rules of the server and is verified with Verus: each function
states in its contract what it returns, and the laws that span functions stand beside them as
public proof functions. `app/` is the program around it: HTTP, SQLite with its queries (among
them the choice of the webhooks that a push is told to), the git repositories on disk and the sending
of messages.

| Module | What it settles |
| --- | --- |
| `config`, `startup` | the settings and their defaults, and when the server refuses to start |
| `auth`, `middleware` | session tokens, password hashes, who a request comes from |
| `rate_limiter` | the limit on failed logins, across restarts |
| `routes::user`, `routes::new_repo` | logging in and out, making repositories |
| `routes::repo`, `routes::home` | which repositories are shown to whom, and where they lie on disk |
| `routes::git_auth`, `routes::git_http` | git over HTTP: credentials, the order of checks, commands, answers |
| `routes::webhooks`, `webhook` | who may be told of pushes, the signed messages, retries and counters |
| `db` | rows, directory listings, commits, differences, branches and tags |
| `error`, `templates`, `server` | error pages, template filters, assets and health |
| `text`, `numerals`, `paths`, `bytes`, `json` | the models that the rest is stated over |

What the library takes from other crates (JWT, Argon2, HMAC, base64, URLs, regular expressions, media
types, dates, JSON and git object names) is called through small wrappers, each of which says above
its contract what is claimed of the function behind it.

The program reads its settings from a file `gitom` (TOML, JSON or YAML) and from `GITOM_..` variables of
the environment:

```
export GITOM_JWT_SECRET=$(openssl rand -hex 32)
export GITOM_PASSWORD="your-secure-password"
```

Page templates and assets are taken from `/usr/share/gitom/`, database migrations from
`./migrations`.
