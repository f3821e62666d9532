# tent_backend

Configuration, service-discovery bookkeeping and protocol-message validation
for the Tent backend, written in Verus.

- `src/config.rs`: runtime settings from the environment (`Config`,
  `ConfigError`, `parse_port`, `parse_bool`), the file configuration
  (`RootConfig` and its parts) with its defaults, and how runtime settings
  override the file.
- `src/discovery.rs`: the registry of announced service instances.
- `src/protocol/validate.rs`: validation results, field validators, the
  message validator (schema outcome, JSON field validators per message type,
  custom payload validators), order and account payload rules, and format
  checks for identifiers.
- `src/protocol/number.rs`: comparisons of `f64` values held as their bits.
- `src/protocol/pattern.rs`: regular expressions through the `regex` crate.
- `src/text.rs`: character classes, trimming, decimal writing and `{:?}`
  quoting of strings.
- `app/`: the executable: environment and file reading, logging, async
  discovery wrapper, JSON payload extraction, closure adapters for the message
  validator and the floating-point checks.
