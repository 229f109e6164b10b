# auction_query

Keeps the fixed-price auctions of an auction house in a MongoDB collection, and answers queries over
it by HTTP.

`src/` is the library, verified with Verus:

- `item`: auctions as they are listed, and the base64 and NBT data packed into each
- `levels`: the map from enchantments or runes to their levels
- `auctions`: the documents that are stored of auctions
- `document`: BSON documents and what they hold
- `text`: decimal numbers, lines, upper case and colour codes
- `update`: the steps of an update, and its statistics
- `config`: the configuration
- `server`: what each request is answered

`app/` is the service around it: logging, HTTP, the database, and the NBT and JSON readers. The
library takes the NBT reader as a function from bytes to item data.

The service reads `config.json`, an object with the strings `base_url` (the address to listen on),
`api_key` and `mongo_db_url`.
