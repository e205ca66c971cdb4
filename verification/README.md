# voice_server

A voice server: a client speaks, the server has the speech recognised, answers it with a language
model and has the answer spoken.

`src/` is the library: everything that is decided and computed, with contracts that Verus proves.
It makes no connection and reads no file; where it needs the outside to act, it says so in the
result of a function and takes what happened as the argument of the next one.

| Modules | What they are about |
| --- | --- |
| `text`, `json`, `record`, `codec`, `string_map`, `sse` | texts, documents, encodings, event streams |
| `audio`, `crossfade`, `sentence`, `speech`, `emotion`, `voices` | sound and speech |
| `config`, `prompts`, `payload`, `events`, `error`, `metrics` | what is configured, sent and counted |
| `asr`, `llm`, `tts`, `funasr`, `handshake`, `tts_ws`, `tts_session`, `tts_build` | the services that are asked |
| `memory`, `agent`, `knowledge` | conversations with the language model |
| `pipeline`, `llm_tts` | from the answer to numbered audio |
| `session`, `service`, `live_asr`, `asr_stream`, `admin` | what clients get |

`app/` is the program around it: HTTP and WebSocket, files, the environment, Redis and Prometheus.
`tests/` runs the library on concrete values.
