# prompt_core

The core of `prompt`, a command line for talking to AI models through JavaScript plugins.

- `src/` is the library, verified with Verus: the configuration model (models, plugins, chats and
  the prompt home's layout), the values exchanged with plugins and how prompts, settings and
  configuration steps are read from them, the configuration of a model as a state machine, and
  the decisions of the command line and of the interactive setup.
- `tests/` exercises the library on concrete values.
- `app/` is the `prompt` program: argument parsing, the JavaScript engine, the YAML configuration
  file, the file system and the interactive prompts. It hands the library plain values and acts
  on what the library decides.
