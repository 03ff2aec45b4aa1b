# gatekeeper_rs

An infrastructure health monitor with a terminal dashboard and a setup wizard.
It polls HTTP and TCP services, alerts a Discord webhook when a service goes
down or recovers, and runs a service's restart command after its recovery
delay. Maintenance mode silences alerts and restarts; dry-run mode alerts but
never restarts.

- `src/` is the library, verified with Verus: the configuration model and the
  test-overlay rule, the decisions of a health check, the dashboard's data
  model, the setup wizard's state machine and validation, the command line,
  the scanner's output parser and the text handling they rest on. The laws
  the library keeps are public proof functions (`law_*`).
- `app/` is the program around it: terminal, network probes, webhook,
  restart commands, files, clock and rendering.
- `tests/` runs the library on concrete cases.
