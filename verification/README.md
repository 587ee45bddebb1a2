# Encrypted transactions

A pallet for transactions that stay encrypted until they are executed.

1. A user submits a call that is encrypted twice, pays a fee, and names a builder
   and an executor.
2. The builder takes off the outer layer, the executor takes off the inner one.
3. The calls that come out are dispatched on the user's behalf, where they weigh no
   more than the user declared.
4. A user whose transaction was not executed in its session can have it marked for a
   refund in the session that follows.

`src/` is the library, verified with Verus: the rules, as functions on the pallet's
state.

| module      | what it holds                                                       |
|-------------|---------------------------------------------------------------------|
| `config`    | what the pallet asks of a chain                                     |
| `types`     | the values that calls take and give                                 |
| `storage`   | a verified key-value map                                            |
| `state`     | the state as mathematical maps, and the steps that calls take it    |
| `pallet`    | the calls of users and collators                                    |
| `execution` | dispatching the calls of a decrypted transaction, one at a time     |
| `fee`       | charging a fee, one step at a time                                  |
| `session`   | what happens when sessions change                                   |
| `substrate` | the types and the hash function of a Substrate chain                |
| `laws`      | what holds of the pallet as a whole                                 |
| `history`   | what holds whatever has happened, step after step                   |

`tests/` runs the library. `app/` is ordinary Rust around it: it reads and writes a
FRAME chain's storage, withdraws fees and dispatches calls.
