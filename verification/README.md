# meetily_engine

The decision logic of an offline meeting recorder that transcribes Korean audio with
whisper and summarizes it with a local Qwen2.5 model, written in Verus and proved
against its contracts.

- `src/` — the verified library:
  - `text` — Unicode whitespace trimming, clipping, lossy UTF-8 decoding, spaced joins;
  - `chunks` — cutting a recording into 8-second windows;
  - `transcript` — turning each window's whisper segments into text and keeping the
    running transcript (stop requests, language, progress);
  - `prompt`, `engine`, `spike` — the Korean minutes prompt and the two setups that use it;
  - `generation` — the token-by-token summary loop;
  - `commands` — the app's clip listing, resource paths, the wait before summarizing,
    and its errors;
  - `harness` — the speech-recognition test harness's command line and text modes;
  - `wav` — which recordings are accepted.
- `app/` — the Tauri app and the two host-side tools: file and model I/O, whisper and
  llama.cpp calls, threads, events, and sample conversion to floats.
- `tests/` — tests of the library on concrete values.
