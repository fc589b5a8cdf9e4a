# opentypeless_llm

The language-model side of a voice-to-text tool, written in Verus.

`src/` is the verified library:

- `prompt` builds the user prompt that wraps a raw transcription (or a selected-text
  editing instruction) in `<instructions>`, `<transcript>` / `<selected_text>` /
  `<instruction>` and `<output>` sections, and the chat messages that carry it;
  `prompt_laws` proves what every such prompt holds.
- `provider` plans the request for an OpenAI-compatible endpoint or for the hosted proxy,
  and turns refusals and whole replies into errors and text.
- `stream` decodes a streamed (server-sent events) reply chunk by chunk; its laws show that
  the pieces handed on spell the final text.
- `probe` holds the logic of checking a live endpoint (env file, settings, URL, reporting).
- `text`, `json` and `status` are helpers: character-level text functions, and the
  trusted calls into `serde_json` and `reqwest`.

`app/` holds the HTTP providers built on it (reqwest, async).
