# logenough

A log collector: log lines arrive as UDP datagrams, go into a ring buffer of fixed size,
and are followed by readers that print them, show them in a window, or ship them to TCP
clients as frames `LLL:text,`.

- `src/` is the library, verified with Verus: ring arithmetic (`ring`), log lines
  (`logline`), the shared log and its readers (`logdata`, `receiver`, and the plain
  `log_data`/`reference` variant), the TCP frame format and greeting (`tcp`), the UDP
  listener's decisions and kept lines (`listener`), the window's shown lines (`window`,
  `recent`), UTF-8 decoding (`text`) and the locks it shares between threads (`sync`).
- `app/` is the program around it: sockets, threads, the CTRL-C handler and the egui
  windows. Run it without arguments to print the lines heard on UDP port 4711, or with
  `tcp-server`, `local-ui`, `tcp-client`, `udp-writer` or `ary-builder`.
