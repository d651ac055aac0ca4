# lean_ctx

Verified core of a context server, in Verus.

- `src/firewall.rs`, `src/config.rs`: which tool outputs are replaced by a digest, and the digest.
- `src/mcp_bridge.rs`, `src/provider.rs`: other MCP servers as data sources.
- `src/ctx_provider.rs`: the provider tool, as steps that a caller carries out.
- `src/json.rs`: JSON values of `serde_json`, behind trusted contracts.
- `src/text.rs`: string primitives, stated over characters and proved over UTF-8 bytes.
- `app/`: HTTP, the environment and the step loop; not verified.
