# maprando_web

The logic behind the web pages of a map randomizer, verified with Verus.

| Module | Contents |
| --- | --- |
| `seed_page` | what the header and the footer of a seed's page show |
| `percent`, `single` | the percentage of a preset that is enabled, in single precision on integers |
| `enabled`, `game` | enabled techs and notables; the tables of the presets |
| `settings` | the settings that the pages speak of |
| `save` | the files of a seed, who may see them, and the course of saving it |
| `headers` | the headers of a request as a JSON object |
| `random` | random seed numbers |
| `app_data` | the command line and the data that the pages share |
| `text` | decimal numbers and joined lists |

`app/` is the server around the library. It needs the randomizer's crates `maprando` and
`maprando_game`, and the HTML templates `seed/seed_header.html` and `seed/seed_footer.html`. The environment
variable `MAPRANDO_VERSION` gives it the number of the release when it is built.

What is taken on trust are the declarations marked `external_body`, which call into `actix_web`,
`hashbrown`, `rand` and `serde_json`, and the names without a body (`uninterp`) that they speak of.
Each says in its comment what it claims of the call. Nothing proves that `app/` meets the `requires`
of the functions it calls: it has to test them before each call.
