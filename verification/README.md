# image_style_studio

The core of a desktop app that manages image styles (a style is a JSON
object plus a Markdown brief), compiles them with a subject into prompts,
and generates images through OpenRouter.

- `src/` is the library, verified with Verus: JSON values and their compact,
  pretty and canonical (key-sorted) text, the style hash, prompt compilation
  and plain-language rendering, configuration and paths, the OpenRouter
  request bodies and the reading of their answers, the model cache, data
  URLs and image files, date-time columns, the steps of taking over legacy
  data on first start, and the decisions of every command (validation,
  defaults, what an update writes, anchor lists and their limit).
- `tests/` runs the library on concrete values.
- `app/` is the shell around it: SQLite through rusqlite, HTTP through
  reqwest, files, configuration loading, and the command handlers.
