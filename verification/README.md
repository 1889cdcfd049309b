# engine

The decision logic of a Minecraft launcher engine, written in Verus: every
public function states what it returns in `requires`/`ensures`, and the
laws that span several calls are proof functions.

- `src/` — the verified library. Text helpers (`text`, `order`), the JSON
  shape readers work over (`json`), wire formats (`ping`, `rcon`), version
  manifests and loader catalogues (`meta`, `fabric`, `paper`, `spigot`,
  `neoforge`, `processors`, `installer`, `buildtools`, `profile`), launch
  assembly (`launch`, `log4j`, `prepare`, `secrets`, `task`),
  materialising files (`materialize`, `java`), the content pool and packs (`content`, `installed`, `batch`, `sync`),
  entries and their files (`servers`, `world`, `stores`, `home`,
  `transfer`, `screenshots`, `skins`, `backup`), flavors (`provider`,
  `registry`, `vanilla`) and the network (`net`, `retry`, `store`).
- `tests/` — executable tests against the compiled library.
- `app/` — the edges the library leaves to its caller: JSON and NBT
  parsing, archive extraction, sockets and the clock.
