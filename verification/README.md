# shaarlot

The client-side logic of Shaarlot, a bookmark manager, written in Verus.
The functions in `src/` carry contracts that Verus proves, except five small
wrappers marked `#[verifier::external_body]` around calls into `std`,
`urlencoding` and `uuid` (`push_char`, `to_lowercase`, `url_encode`,
`uuid_to_string`, `parse_uuid`), whose contracts are trusted.

- `src/` — the verified library: loading states (`eventually`), bookmark
  list parameters and their query form (`query`, `provider`,
  `bookmark_list`), tag auto-completion (`tag_input`), search-term
  highlighting (`highlight`), page addresses (`routes`), the form state
  machines (`bookmark_forms`, `account_forms`), the application shell
  (`shell`), and the text and URL helpers they share (`text`, `url`).
- `tests/` — tests on concrete values.
- `app/` — the parts that need serde, chrono or floating point: query-string
  (de)serialisation, date formatting and tag-cloud weights.
