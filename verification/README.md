# mini-proxy

A small proxy for AI chat APIs (OpenAI `/v1`, Anthropic `/v2`, Responses
`/v3`) that retries failed requests on the same endpoint.

- `src/` is the library, verified with Verus: path routing (`protocol`),
  configuration merging and the retry status rules (`config`, `model_map`),
  the retry loop as a state machine with its laws (`retry`), the upstream
  request headers, reply headers and business error codes in reply bodies
  (`upstream`), request body cleaning (`cleaning`), request routing (`server`), the JSON work done by
  `serde_json` (`json`) and character-level parsing helpers (`text`).
- `app/` is the program around it: configuration file loading, the HTTP
  server and client, and the loop that performs what the state machine asks.
- `tests/` exercise the library on concrete inputs.
