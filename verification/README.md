# AtlasIP

IP and host-name intelligence: reverse DNS, RDAP and WHOIS, BGP facts from
RIPEstat, GeoLite2 locations, passive reverse-IP sources, and export of the
results as CSV, TSV, text, HTML or XML.

## Layout

- `src/` — the library, verified with Verus. Every public function states
  in its contract what it returns or changes:
  - `net`: address parsing, the public-address filter, target cleaning,
    PTR names;
  - `whois/`: WHOIS parsing, referrals, the choice of answer, and the
    enrichment of a record from a raw WHOIS text;
  - `rdap`: reading RDAP documents (vCards, CIDRs, events);
  - `bgp`, `dns`, `reverse`, `geoip`: reading RIPEstat, DNS-over-HTTPS,
    HackerTarget and crt.sh answers, record ordering, database paths and
    taking the database out of its downloaded archive;
  - `lookup`: merging the sources into one record, the session store,
    ordering and selection of results;
  - `cache`, `retry`, `metrics`: the time-to-live cache, back-off policy and
    request counters;
  - `export`, `config`, `cli`, `i18n`, `service`, `server`, `ui_config`:
    export formats, configuration and its validation, `config set`,
    translations, service manifests, the loopback bind address, and the
    desktop shell's settings;
  - `json`, `text`, `models`, `dates`: the data model and text helpers.
  Laws that relate several functions are public proof functions named
  `law_*` next to the functions they speak of.
- `tests/` — tests of the library on concrete values.
- `app/` — the `atlasip` program: command line, HTTP API, and the network,
  file and process work around the library.
