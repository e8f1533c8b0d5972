# ngx-http-altcha-module

An NGINX module that hands out [ALTCHA](https://altcha.org) proof-of-work
challenges and checks solved ones, as request variables:

- `$altcha_challenge`: a fresh challenge in JSON, one per request;
- `$altcha_verified`: `1` if the configured input holds a solved, signed,
  unexpired payload, `0` otherwise.

The rules of the module are a library verified with
[Verus](https://github.com/verus-lang/verus), in `src/`. The calls into NGINX
are ordinary Rust around it, in `app/`.

## Directives

Every directive takes one argument, is valid in `http`, `server` and `location`,
and is inherited by inner contexts that do not set it.

| Directive                          | Value                                     | Default          |
| ---------------------------------- | ----------------------------------------- | ---------------- |
| `altcha_hmac_signature_secret`     | secret that signs challenges              | required         |
| `altcha_hmac_key_signature_secret` | secret that signs derived keys            | required for verification |
| `altcha_algorithm`                 | key derivation, by name                   | `PBKDF2/SHA-256` |
| `altcha_cost`                      | positive integer                          | `100000`         |
| `altcha_hmac_algorithm`            | `sha256`, `sha384` or `sha512`            | `sha256`         |
| `altcha_key_length`                | bytes, 1 to 64                            | `32`             |
| `altcha_key_prefix`                | hex                                       | `00`             |
| `altcha_expires`                   | `Ns`, `Nm`, `Nh`, `Nd`, or bare seconds   | `5m`             |
| `altcha_verify_input`              | expression that yields the payload        | required for verification |

A payload is the JSON of `{challenge, solution}` in base64: standard, or URL-safe
with or without padding.

## Modules

| Module       | What it states                                                        |
| ------------ | --------------------------------------------------------------------- |
| `text`       | arguments as UTF-8, as displayed text, as numbers, as hex             |
| `encoding`   | the base64 wrappings, and that each is read back                      |
| `duration`   | lifetimes                                                             |
| `config`     | settings, defaults, and what a context inherits                       |
| `directives` | what each directive accepts, stores and refuses                       |
| `challenge`  | what a challenge is issued from, and what it then holds               |
| `verify`     | which payloads are good                                               |
| `variables`  | what reading a variable gives, and what a request remembers of it     |

What the library takes from other crates (`altcha`, `base64`, `duration-str`,
`serde_json`) it takes on trust; the contract of each such call stands above the
function that makes it.
