# koharu

The verified core of Koharu, a desktop manga translator: the rules the
application follows when it talks to its embedded browser UI, presents frames,
keeps project history, exchanges translation packages and runs its typesetting
audit. Verus proves the contracts of the functions in `src/`, with five
exceptions that it takes on trust: the calls into `alphanumeric-sort`
(`audit::sort_naturally`), `url` (`navigation::parse_url`) and
`percent-encoding` (`resource::percent_decode_utf8`), std's `to_lowercase`
(`library::lowercase`), and the contract given to std's `String::push`
(`text`). Their doc comments say what each contract claims of the outside
code.

Layout:

- `src/` — the library, one module per concern (`frame`, `damage`,
  `presentation`, `geometry`, `input`, `message`, `delivery`, `navigation`,
  `resource`, `project`, `library`, `import`, `jobs`, `png`, `translation`, `audit`, `names`,
  `flux`, `bundle`, `pipeline`, `protocol`, `events`, `renderer`, `control`,
  `accelerated`). Public `lemma_*` proof functions state the properties that
  span several operations.
- `tests/` — executable tests of the library.
- `app/` — the code around it: file and directory access, JSON documents, and
  floating-point window geometry.
