# static_web_server

The request-processing logic of a static web server as a verified
library, with a thin program around it.

- `src/` is the library. Its public functions carry contracts that Verus
  proves, about byte ranges and their responses, entity tags, content
  codings and quality-weighted header values, error, maintenance and
  fallback pages, redirects and rewrites (glob sources turned into regular
  expressions, `$N` placeholders), HTTPS redirects, security headers,
  metrics labels, path handling and configuration values. Calls into
  `regex`, `regex-lite`, `aho-corasick`, `globset`, `http`, `headers`, `mini-moka`,
  `mime_guess`, `percent-encoding` and a few `std` conversions stand behind
  small trusted wrappers: their contracts are believed, not proved, and
  name what those calls compute.
- `app/` is the program: command line and configuration file, the
  listeners, file system access, Prometheus collectors and logging. It
  hands plain values to the library and acts on what it decides.
- `tests/` exercises the library on concrete values.
