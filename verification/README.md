# switchyard_route

Capability-mode routing between a weak and a strong model tier, verified with
Verus up to the calls that it makes into other crates. A cheap judge classifies
each chat request; the tier it names is resolved through a table to a cluster
and a model, the request's `model` is rewritten, and the cluster is handed to the
gateway. Nothing else of the request changes.

Two filters share the ground work:

- `ratchet` keeps a floor per session. A session that was routed to the strong
  tier is not routed below it again while its floor lives; a pass that fails
  leaves the request as it came, or is rejected.
- `sticky` keeps a memory per session. A turn whose judge fails is served by the
  tier that the judge last chose for the session, or by the strong tier.

## Layout

- `src/` is the library. It is verified, except for the small functions that make
  the calls into other crates, whose contracts are believed (see below). `text`,
  `clock`, `tier`, `json`, `wire`, `steps`, `judge`, `classifier`, `config` and
  `cli` are shared; `ratchet/` and `sticky/` hold a filter each, with what holds
  of it over any number of turns in their `laws` modules.
- `tests/` run the library on concrete requests.
- `app/` is the gateway around it: the filters in the request pipeline, the YAML
  shape of their settings, the judge callouts and the classifier.

Calls into `serde_json`, `http`, `dashmap` and `clap`, and two into the standard
library's text conversions, stand behind small functions whose contracts are
stated and not proved; each says which call it makes and what is claimed of it.
