# oabctl

The logic of a command-line provisioner that deploys agent services to Amazon ECS
Fargate from YAML manifests, with its behaviour stated in contracts and proved.

- `src/manifest.rs`: the manifest types, the rules `validate` checks, the service name.
- `src/config.rs`: rendering of the agent configuration to `config.toml`.
- `src/toml.rs`: escaping of TOML strings and keys, and a reader for the subset of TOML
  that `config.toml` is written in.
- `src/config_read.rs`: the items a reader finds in `config.toml`, and the proof that each
  part of the rendered text reads as them.
- `src/store.rs`: object keys in the control-plane bucket, and the configuration
  generations read from stored keys and planned above them; the paginated listing of
  stored keys.
- `src/deploy.rs`: the plan of `apply` (uploads, task definition, create or update) and
  the order in which manifests are validated and applied.
- `src/listing.rs`: the plan of `get` (name resolution, paginated listing, batches,
  table rows).
- `src/teardown.rs`: the plan of `delete`.
- `src/command.rs`: errors, the resource-type check, and which failed requests stop an
  operation.
- `src/text.rs`: string comparison, search, decimal rendering and padding.
- `src/laws.rs`: properties that relate the operations to one another.
- `app/`: the executable: argument parsing, YAML reading and writing, and the AWS calls.
