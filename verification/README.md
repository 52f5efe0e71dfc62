# cf-cdn

A VLESS-over-WebSocket proxy server that can be published through a
Cloudflare quick tunnel (`cloudflared tunnel --url ...`).

- `src/` is the verified library (Verus): the VLESS request header parser,
  the user UUID check, the configuration with its defaults and share links
  (`vless://` link, base64 subscription), the percent-encoding of the
  WebSocket path, the recognition of the tunnel URL in `cloudflared`'s
  output, and the decisions a session takes on each WebSocket or
  destination event.
- `app/` is the program around it: TOML configuration files, the TCP
  listener and WebSocket handshake, the destination connections, and the
  `cloudflared` process.
- `tests/` exercises the library on concrete values.
