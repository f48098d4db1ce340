# scut_ai_proxy

The logic of an OpenAI-compatible gateway in front of the chat3 service
(`https://chat3.scut.edu.cn/api`), verified with Verus, and the server around it.

## Layout

`src/` is the verified library:

- `config`: the settings and their defaults
- `gateway`: who may ask, how a request is answered, how failures are reported
- `openai`: the types of the OpenAI protocol
- `chat3`: requests as chat3 understands them, and what its answers mean
- `sse`: server-sent events
- `reasoning`: taking a model's reasoning out of its answer
- `planner`: asking for a plan of tool calls and checking it
- `plan`: the course of a plan, with repairs, up to what the client is answered
- `relay`: passing on a stream while it arrives
- `reply`, `wire`: the answers and their JSON
- `json`, `text`, `views`: JSON values, texts and views

`app/` is the server: HTTP in both directions, the environment, and the JSON of
requests. `tests/` holds the library's tests.

## Settings

- `BIND_ADDR`, default `127.0.0.1:3000`
- `CHAT3_BASE_URL`, default `https://chat3.scut.edu.cn/api`
- `REQUEST_TIMEOUT_SECS`, default `120`
- `PLANNER_REPAIR_ATTEMPTS`, default `1`

## Endpoints

- `GET /health`
- `GET /v1/models`
- `POST /v1/chat/completions`

The gateway holds no keys: a request carries its chat3 token in its
`Authorization` header, and the token is passed on as it came.

Tool calling is emulated. Where a request offers `tools` and its `tool_choice`
is not `none`, chat3 is asked for a plan; a plan is answered only where it
passes the checks of `planner`. The gateway does not execute tools.

## What is believed

Each contract that Verus takes on trust stands above a call of `serde_json`,
`http`, `chrono` or the standard library, in `json`, `chat3`, `reply`, `sse` and
`text`, and says what is claimed of it.
