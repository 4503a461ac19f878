# luts

The verified core of LUTS, a framework for LLM agents with layered,
persistent context: core context blocks, memory block queries, personality
agents and their tool loop, the agent registry and message routing, context
providers, conversation search, export and auto-saving, context snapshots,
token usage analysis, and the decisions of an OpenAI-compatible chat API
(request conversion, routing, responses and stream chunks).

* `src/` is the library, written in Verus. Every function states its
  behaviour in `requires`/`ensures` and is proved; laws that relate several
  functions are public proof functions named `law_*`. Calls into `uuid`,
  `chrono`, `rand`, `regex`, `serde_json`, `scraper` and `fast_html2md` go
  through small trusted wrappers whose contracts say what the outside function does.
* `tests/` runs the library on concrete values.
* `app/` is the command-line program: argument handling, terminal I/O, the
  model service (`genai` under `tokio`), HTTP fetching for the search and
  website tools (`reqwest`), and the measures that need floating point
  (costs, percentages, similarity scores). The HTTP server of the chat API
  is not part of this program. Every decision it
  acts on comes from the library.

Verify with `verus` on `src/lib.rs`; build the program from `app/main.rs`
against the library.
