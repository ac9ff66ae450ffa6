# suivision

The search core of SuiVision, a desktop tool that looks for video resource
links across public cloud-drive search sites, PanSou endpoints, CMS V10 sites
and Torznab/Newznab indexers.

The library in `src/` is written in Verus and proved against its contracts:

- `plan`: recognising the media a query is about and planning search terms;
- `settings`, `sources`: normalising user settings and listing the sources;
- `dispatch`, `requests`: deciding what searching a source takes and the
  HTTP requests it sends;
- `json`, `pages`, `xml`: reading the answers (JSON, HTML pages, RSS);
- `items`, `ranking`, `response`: filtering, de-duplicating, ranking,
  grouping and summing up results;
- `links`: finding share links, resolving details and judging links;
- `embedded`: the state machine that keeps the PanSou sidecar in step;
- `accounts`, `cms`: local sign-in, favorites and CMS source import;
- `laws`: properties of the library as a whole.

Calls into `regex`, `scraper`, `roxmltree`, `urlencoding`, `base64` and
`serde_json` are made through small trusted wrappers whose contracts name
what the call returns.

`app/` holds what cannot be verified: files, the network, the sidecar
process and the commands of the desktop shell.
