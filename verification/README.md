# Telegram Photo Geolocator Bot

A Telegram bot for AWS Lambda. Send it an original geotagged image as a
file/document, or share a Telegram location, and it replies with the
coordinates, the place name, a short EXIF summary, links to eleven map
services, and the nearest Wikidata items and Wikipedia articles ordered by
distance.

## Layout

- `src/` is the library, written in Verus and verified: everything the bot
  decides and writes.
  - `bot.rs`: webhook routing, the secret check, what to do with a message,
    the file checks, and the fixed reply texts.
  - `reply.rs`: the location reply and the help text.
  - `links.rs`: the map links for a point.
  - `wikimedia.rs`: SPARQL and geosearch queries, reading Wikimedia URLs,
    and the ordering, de-duplication and cutting of nearby results.
  - `geocoder.rs`: the Nominatim query and the place label of an answer.
  - `config.rs`: the configuration read from the environment.
  - `telegram.rs`, `exif_geo.rs`: Telegram payload types and answers, the
    EXIF summary and its texts.
  - `geo.rs`, `order.rs`, `text.rs`, `number.rs`, `encoding.rs`: the
    building blocks (renderings of angles and distances, a stable sort by key,
    string and number helpers, percent-encoding through `urlencoding`).
- `app/` is the Lambda program around it: HTTP, the Telegram, Nominatim and
  Wikimedia calls, EXIF parsing with `nom-exif` and `kamadak-exif`, and the
  floating-point geometry (distances, compass directions, coordinate checks).
  It hands the library plain values and acts on what it returns.
- `tests/` exercises the library on concrete values.

Angles and distances reach the library as the texts the bot prints them with
(and, for distances, the bits of the `f64`, which fix their order), so the
library never computes with floating point.
