# leader-stream

A service that tells, slot by slot, which validator leads, which one leads next and
where both are reached; and a page that shows the slots to come.

The library under `src/` holds what the service and the page compute and decide, under
contracts that Verus proves. The programs under `app/` do the rest: they listen, ask the
RPC endpoint, follow its websocket, read the clock, write JSON and draw the page.

## The service

- `config`: the configuration that the environment gives.
- `util`, `web_url`: addresses of validators, URLs and the clock.
- `models`: what is kept and told; who leads when, by what is kept.
- `rpc`: requests to the endpoint, what its replies amount to, and what is to be done
  about an event of its websocket.
- `background`: the payload of a slot, which leaders to ask for, and the steps of the
  background tasks.
- `state`: the state of the service and what an announcement or a subscriber changes.
- `handlers`, `responses`, `stream`, `server`: what clients are answered.
- `template`: the pages.

## The page

- `rows`: runs of slots with one leader.
- `table`: the runs by the slots they begin with, and what is to be done to the rows on
  the screen when the table changes.
- `page`, `wasm_app`: the state of the page and its smaller decisions.

## What is trusted

- `web_url::parse_url` and `web_url::with_scheme` call the `url` crate.
- `stream::write_member` calls `serde_json`.
- `stream::sort_slots` calls `sort_unstable`.

Laws that relate several functions are public proof functions beside what they speak of.
