# pi-agent-connect

A gateway between a private chat and the `pi` coding agent: direct messages go
to `pi`, and its replies come back. Messages that begin with
`[pi-agent-connect]` come from the gateway itself; everything else is what `pi`
said, forwarded as it is.

## Layout

- `src/` holds the decisions, and is verified with Verus. The calls into
  `serde_json`, `serenity` and those parts of std that Verus has no
  specification for stand behind small items whose contracts are believed, not
  proved: functions marked `external_body` and `assume_specification`. The doc
  comment of each names the function that is called and says what is claimed of
  it. Its modules:
  - `commands`, `router`, `gateway`: what a message is and what is done with it;
  - `worker`: the queue, the running task, and the messages that are owed;
  - `agent`: what is sent to `pi` and what its output means;
  - `chat`: posting, and retrying what failed;
  - `format`: the texts, and long messages cut into pieces;
  - `config`: the environment variables;
  - `text`, `json`, `time`, `path`: what the others are stated over.
- `app/` performs the decisions: processes, the network, signals and the log.
- `tests/` runs the library on concrete values.

What holds across several functions is stated by the proof functions whose
names begin with `law_`.

## Usage

`PIAC_DISCORD_TOKEN` is required. Without `PIAC_DISCORD_ALLOWED_USER_ID` the
gateway starts in lockdown: messages are logged, and nothing is processed.

| Command           | Alias | Action                                                              |
|-------------------|-------|---------------------------------------------------------------------|
| `.new`            | `.n`  | Abort the running task, clear the queue; the next message starts a new session |
| `.abort`          | `.a`  | Abort the running task, clear the queue                             |
| `.session`        | `.s`  | Session id, file, model, thinking level and tokens                  |
| `.model [ref]`    | `.m`  | Switch the model; without a reference, list the models              |
| `.thinking [lvl]` | `.t`  | Set the thinking level; without a level, list the levels            |
