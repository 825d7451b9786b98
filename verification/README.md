# matching_server

State and decisions of a signaling server that pairs peers under a matcher
(an application id and a matcher id), verified with Verus.

- `src/` is the verified library: the matcher map, the waiting users and the
  line of waiting peer connections (`app_state`), how a peer's user id is
  settled (`user_id`), whether a starting peer waits or is matched
  (`start_matching`), the route table (`routes`), and the laws that tie the
  operations together (`laws`).
- `app/` is the HTTP server around it (axum, tokio), which performs the I/O.
- `tests/` runs the library on concrete values.
