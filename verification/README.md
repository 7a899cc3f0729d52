# cosmonaut_code

A code review tool: it walks a git repository, has each source file reviewed
by a generative AI provider (OpenAI, Google Gemini or a local LM Studio
server), rolls the reviews up into a summary with a red/amber/green status,
and writes a JSON or HTML report.

## Layout

- `src/` is the library, verified with Verus: prompt assembly and token
  substitution, the handling of provider responses, lines-of-code counting,
  content hashing, the RAG rules, the language and blacklist tables, the
  tallies drawn from the git history, settings lookups and report naming.
  Calls into outside crates (`regex`, `sha2`, `url`) stand behind small
  trusted wrappers whose contracts say what the crates' documentation says.
- `app/` is the program around it: settings loading, the walk of the
  repository and its history, the HTTP requests to the providers, language
  detection with GitHub Linguist, and report rendering.
- `tests/` exercises the library on concrete values.
