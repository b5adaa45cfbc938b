# oxiduct

A TCP/UDP proxy that cleans up after itself: dead connections are found and closed, so
that no ghost session outlives its client.

## Layout

- `src/` is the library, verified with Verus: what the proxy decides and computes.
  - `addr`, `text`: addresses and decimal numbers as plain values.
  - `cli`, `config`: settings, and how they resolve to one `ProxyConfig` per proxy.
  - `limits`: admission limits, in total and per source address.
  - `proxy::tcp`: admission, the life of a connection, the copy loop and the watchdog.
  - `proxy::udp`: sessions by source address, how they are opened, relayed and evicted.
  - `proxy::proxy_protocol`: the PROXY protocol v2 header.
  - `metrics`: the metric families, what moves them, and the exporter's answers.
  - `clock`, `socket_opts`, `supervisor`: the clock, socket options, running several
    proxies side by side.
- `app/` is the program: command line, config file, sockets and tasks. It performs the
  actions that the library asks for and reports what came of them.
- `tests/` runs the library.

## How a step works

A connection, a session table or a copy loop is a value with a method that takes an event
and returns an action, together with what to record in the metrics. Its contract gives the
next state, the action and the record exactly, over a model of the value. Laws that span
several steps (what every history keeps, what one step undoes) are public proof functions
named `law_...` at the end of each module.

## What is trusted

The contracts of the calls into `prometheus` (`metrics::store`) and of a few functions of
the standard library (`clock`, `metrics::http`) are believed without proof. Each says in
its comment which function it speaks of and what it claims.
