# relay_hub

A websocket chat hub: connections log in under an identifier (a UUID) and send
frames addressed to an identifier; an HTTP endpoint turns a request into such a
frame.

- `src/` is the verified library: the connection table (`registry`), how a text
  frame is read as a command (`message`), the relay frame and HTTP answers
  (`relay`), and properties across operations (`laws`).
- `app/` is the server around it: warp routes, websocket plumbing, JSON decoding
  with serde, and logging.
