# notification

Announces text messages, calls and dynamic DNS events on the channels that a user configured:
a webhook, Bark, PushPlus, WeCom applications and group robots, DingTalk group robots and
corporation robots, Feishu robots and Telegram bots.

- `src/` is the library, verified with Verus. It fills templates, builds and signs requests,
  judges answers, keeps access tokens, and decides what follows. It reads the clocks of the
  system, and does no other input or output: a delivery is a row of steps, and the caller
  sends the requests.
- `app/` sends the requests with `reqwest`.
- `tests/` holds the tests of the library.

What the contracts take for granted of other crates and of the standard library stands at the
functions marked `external_body`, each with a comment on what it claims.
