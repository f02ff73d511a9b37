# yt

A YouTube transcript client whose logic is verified with Verus.

- `src/` is the verified library. It reads video and playlist identifiers
  out of URLs (`video_id`), reads the InnerTube player response
  (`innertube`, over the JSON values of `json`) and the watch and playlist
  pages (`page`), chooses a transcript (`transcript`), checks HTTP answers
  and builds request addresses (`http`), parses transcript documents
  (`parser`, over the XML events of `xml`), decodes HTML entities
  (`html_escape`) and assembles the fetched transcript (`response`).
  `text` holds the character-level operations they share.
- `app/` is the command-line program: it makes the HTTP requests with
  `reqwest`, converts between `serde_json` values and the library's JSON
  values, turns the raw transcript times into seconds, and prints.
- `tests/` runs the library on concrete inputs.

The outside crates that the logic calls (`url`, `regex`, `quick-xml`, and
`reqwest`'s status codes) are reached through small trusted wrappers whose
contracts name what the crate computes: the parts of a parsed URL, the
groups of regular-expression matches, the reason phrase of a status, and
the `n`-th XML event that `quick-xml` reads from a text.
