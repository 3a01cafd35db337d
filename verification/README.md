# order_book

Keeps the BTC-PERPETUAL limit order book of Deribit from its websocket feed.

- `src/` is the verified library (Verus): the JSON form of the messages
  (`json`), prices as float bit patterns (`price`), the levels, messages and book
  (`models`), reading change messages (`limit_order_fns`) and snapshots
  (`order_book_fns`), applying change messages to the book
  (`update_order_book_fns`), following the feed (`feed`) and the laws the
  operations obey (`laws`).
- `app/` is the program: the websocket, JSON parsing with `serde_json` and the
  printing of the best bid and ask.
- `tests/` runs the library on concrete messages and books.
