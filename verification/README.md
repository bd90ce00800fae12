# PrellBlock, verified core

PrellBlock is a lightweight logging blockchain: redundant processing units
(RPUs) agree on blocks of transactions with a byzantine fault tolerant
consensus (PRaftBFT) and keep the values of their clients in time series.

This crate holds the core of an RPU as a Verus library whose functions carry
contracts that Verus proves:

- `src/consensus/`: the state machines of the consensus. `follower` checks
  and accepts the `Prepare`, `Append`, `Commit` and `NewView` messages of a
  leader, `stateful_validation` replays the transactions of a block,
  `view_change` collects the votes for a new leader term, `synchronizer`
  decides how a follower that fell behind catches up, `leader` builds the
  blocks, `censorship` spots transactions that stay queued for too long.
- `src/world_state.rs`, `src/transaction_checker.rs`, `src/account.rs`: the
  accounts, their permissions and the checks of transactions.
- `src/block_storage.rs`: which block may be stored next, the keys of stored
  blocks and values, and which values of a time series a query selects.
- `src/ring_buffer.rs`, `src/queue.rs`, `src/flatten_vec.rs`,
  `src/signature_list.rs`: the containers of the consensus.
- `src/quorum.rs`: the sizes of the quorums and why two supermajorities
  always share a correct peer.
- `src/peer/`: the peer protocol's messages and their framing on a stream.

Signatures and block hashes are computed outside the library; the functions
that depend on them take their outcome as arguments.

`app/` holds the parts that do input and output: the block and data storage on
disk (sled, postcard), the peer protocol on TCP (JSON frames), and `main`.
