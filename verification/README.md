# student_tracker

A rollup application that keeps track of students and of the assets they bring in and take out:
Ether, ERC-20 tokens, ERC-721 items and ERC-1155 items.

- `src/` is the library, verified with Verus. `request` takes the bytes of a request and says what is
  to be sent; `advance` and `inspect` are the two kinds of requests; `decision` says what an input
  does; `state`, `student`, `ledger` and `statement` keep the books; `hex`, `abi`, `text`, `document`,
  `dotenv`, `input` and `message` read and write. `laws` and `round_trips` state what holds of them
  together.
- `app/` is the program: settings, HTTP, and the loop that asks the rollup for requests.
- `tests/` runs the library on concrete values.
