# Marvin

A local voice assistant: it listens for a wake word, opens a short window for a
question, puts the question to a chat service, and speaks the answer.

The library in `src/` holds the decisions and is verified with Verus:

- `text`, `numbers`, `distance`: the normal form of spoken text, decimal numbers,
  the edit distance.
- `wakeword`: the variants of the wake word, and their recognition by part or by
  distance.
- `recognition`, `phrases`: the guesses of the recogniser, and what an utterance
  sounds like.
- `dialog`, `chat`, `headers`, `json`: the question window, the conversation, the
  request to the chat service and the answer in its reply.
- `listener`, `clock`: the steps of the listening loop, the cooldowns of wake word
  and speech, and where speech goes.
- `commands`, `speech`, `settings`: the programs that record and play, and the
  variables of the environment.
- `text_laws`, `wake_laws`, `dialog_laws`, `listener_laws`: what holds over several
  steps.

The program in `app/` reads the variables, runs `arecord`, `espeak-ng` and `aplay`,
feeds the Vosk recogniser, and talks to the network.

## Variables

Listening: `WAKE_WORD` (`marvin`), `WAKE_WORD_ALIASES`, `WAKE_FUZZY_DISTANCE` (1),
`WAKE_USE_GRAMMAR` (on), `WAKE_COOLDOWN_MS` (0), `DEBUG_WAKEWORD` (off),
`VOSK_MODEL_PATH`, `ALSA_DEVICE` (`default`), `SAMPLE_RATE` (16000).

Speaking: `TTS_ENABLED` (on), `TTS_TEXT`, `TTS_VOICE` (`de`), `TTS_SPEED` (165),
`TTS_COOLDOWN_MS` (3000), `ALSA_OUTPUT_DEVICE`, `OPENROUTER_TTS_MAX_CHARS` (400).

Conversation: `OPENROUTER_API_KEY` (switches it on), `OPENROUTER_MODEL`,
`OPENROUTER_BASE_URL`, `OPENROUTER_SITE_URL`, `OPENROUTER_SITE_NAME`,
`OPENROUTER_SYSTEM_PROMPT`, `QUESTION_WINDOW_MS` (8000),
`OPENROUTER_MAX_HISTORY_TURNS` (4).
