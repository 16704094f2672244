//! Snowflake identifiers: 64-bit ids made of a millisecond timestamp (41 bits),
//! a worker id (5 bits), a server id (5 bits) and a per-millisecond counter
//! (12 bits).
use vstd::prelude::*;

verus! {

/// The custom epoch of the identifiers, in milliseconds since the Unix epoch.
pub const EPOCH: u64 = 1725513600000u64;

/// Bits given to the per-millisecond counter.
pub const COUNTER_BITS: u64 = 12;

/// Bits given to the worker (process) id.
pub const PID_BITS: u64 = 5;

/// Bits given to the server id.
pub const SID_BITS: u64 = 5;

/// The largest counter value: `2^COUNTER_BITS - 1`.
pub const MAX_COUNTER: u64 = 4095;

/// The largest worker id: `2^PID_BITS - 1`.
pub const MAX_WORKER_ID: u64 = 31;

/// The largest server id: `2^SID_BITS - 1`.
pub const MAX_SERVER_ID: u8 = 31;

/// Timestamps (milliseconds since `EPOCH`) must stay below this bound:
/// `2^41`, so that the id fits in 63 bits.
pub const TIMESTAMP_LIMIT: u64 = 2199023255552u64;

/// The identifier made of its four parts.
pub open spec fn compose_id(ts: int, worker: int, server: int, counter: int) -> int {
    ts * 4194304 + worker * 131072 + server * 4096 + counter
}

/// The parts are within their bit widths.
pub open spec fn parts_in_range(ts: int, worker: int, server: int, counter: int) -> bool {
    &&& 0 <= ts < TIMESTAMP_LIMIT
    &&& 0 <= worker <= MAX_WORKER_ID
    &&& 0 <= server <= MAX_SERVER_ID
    &&& 0 <= counter <= MAX_COUNTER
}

/// Milliseconds since `EPOCH` at the Unix time `now_ms`, or 0 before it.
pub open spec fn elapsed_ms(now_ms: int) -> int {
    if now_ms >= EPOCH {
        now_ms - EPOCH
    } else {
        0
    }
}

/// The outcome of one attempt when the clock reads `now_ms` (Unix time in
/// milliseconds; `None` for a reading before the epoch): the next state and
/// the step. A reading beyond the timestamp bits, or before the epoch, is
/// out of range; otherwise an issued id is the one `step` gives, and `Wait`
/// is a step that issues nothing.
pub open spec fn attempt_spec(g: GeneratorModel, now_ms: Option<u64>) -> (
    GeneratorModel,
    GenerateStep,
) {
    match now_ms {
        None => (g, GenerateStep::ClockOutOfRange),
        Some(ms) => if elapsed_ms(ms as int) >= TIMESTAMP_LIMIT {
            (g, GenerateStep::ClockOutOfRange)
        } else {
            let (g2, r) = g.step(elapsed_ms(ms as int));
            match r {
                Some(id) => (g2, GenerateStep::Issued(id as i64)),
                None => (g2, GenerateStep::Wait),
            }
        },
    }
}

/// The abstract state of a generator.
pub struct GeneratorModel {
    /// Timestamp (since `EPOCH`) of the last id issued.
    pub last_ts: int,
    /// Counter of the last id issued within `last_ts`.
    pub counter: int,
    pub server_id: int,
    pub worker_id: int,
}

impl GeneratorModel {
    /// The fields are within their bit widths.
    pub open spec fn wf(self) -> bool {
        parts_in_range(self.last_ts, self.worker_id, self.server_id, self.counter)
    }

    /// The id made of the last timestamp and counter: every id issued from
    /// this state on is larger.
    pub open spec fn last_id(self) -> int {
        compose_id(self.last_ts, self.worker_id, self.server_id, self.counter)
    }

    /// One attempt to issue an id at `now` (milliseconds since `EPOCH`):
    /// the next state, and the id issued, if any. A clock behind the last
    /// timestamp, or a counter used up within the millisecond, issues nothing.
    pub open spec fn step(self, now: int) -> (GeneratorModel, Option<int>) {
        if now < self.last_ts {
            (self, None)
        } else if now == self.last_ts {
            if self.counter < MAX_COUNTER {
                let next = GeneratorModel { counter: self.counter + 1, ..self };
                (next, Some(next.last_id()))
            } else {
                (self, None)
            }
        } else {
            let next = GeneratorModel { last_ts: now, counter: 0, ..self };
            (next, Some(next.last_id()))
        }
    }

    /// The state after attempts at the clock readings `nows`, in order, and
    /// the ids issued on the way.
    pub open spec fn run(self, nows: Seq<int>) -> (GeneratorModel, Seq<int>)
        decreases nows.len(),
    {
        if nows.len() == 0 {
            (self, Seq::<int>::empty())
        } else {
            let (g, ids) = self.run(nows.drop_last());
            let (g2, r) = g.step(nows.last());
            match r {
                Some(id) => (g2, ids.push(id)),
                None => (g2, ids),
            }
        }
    }
}

#[derive(Debug)]
struct GeneratorState {
    last_ts: u64,
    counter: u64,
}

/// A generator of snowflake ids for one worker on one server.
#[derive(Debug)]
pub struct SnowflakeGenerator {
    state: GeneratorState,
    server_id: u8,
    worker_id: u64,
}

impl View for SnowflakeGenerator {
    type V = GeneratorModel;

    closed spec fn view(&self) -> GeneratorModel {
        GeneratorModel {
            last_ts: self.state.last_ts as int,
            counter: self.state.counter as int,
            server_id: self.server_id as int,
            worker_id: self.worker_id as int,
        }
    }
}

/// The outcome of one attempt to issue an id.
#[derive(Debug, Clone, Copy, PartialEq, Eq)]
pub enum GenerateStep {
    /// An id was issued.
    Issued(i64),
    /// No id can be issued in this millisecond: try again later.
    Wait,
    /// The clock reads before the Unix epoch, or beyond the range that the
    /// timestamp bits can hold.
    ClockOutOfRange,
}

proof fn lemma_compose_bits(ts: u64, worker: u64, server: u64, counter: u64)
    requires
        ts < 2199023255552u64,
        worker <= 31,
        server <= 31,
        counter <= 4095,
    ensures
        (ts << 22u64) | ((worker & 31u64) << 17u64) | ((server & 31u64) << 12u64) | (counter
            & 4095u64) == ts * 4194304 + worker * 131072 + server * 4096 + counter,
        ts * 4194304 + worker * 131072 + server * 4096 + counter < 9223372036854775808,
{
    assert((ts << 22u64) | ((worker & 31u64) << 17u64) | ((server & 31u64) << 12u64) | (counter
        & 4095u64) == ts * 4194304 + worker * 131072 + server * 4096 + counter) by (bit_vector)
        requires
            ts < 2199023255552u64,
            worker <= 31,
            server <= 31,
            counter <= 4095,
    ;
}

proof fn lemma_decompose_bits(id: u64)
    ensures
        id >> 22u64 == id / 4194304,
        (id >> 17u64) & 31u64 == (id / 131072) % 32,
        (id >> 12u64) & 31u64 == (id / 4096) % 32,
        id & 4095u64 == id % 4096,
{
    assert(id >> 22u64 == id / 4194304) by (bit_vector);
    assert((id >> 17u64) & 31u64 == (id / 131072) % 32) by (bit_vector);
    assert((id >> 12u64) & 31u64 == (id / 4096) % 32) by (bit_vector);
    assert(id & 4095u64 == id % 4096) by (bit_vector);
}

/// The id made of its parts, each within its bit width.
pub fn compose(ts: u64, worker_id: u64, server_id: u8, counter: u64) -> (id: i64)
    requires
        parts_in_range(ts as int, worker_id as int, server_id as int, counter as int),
    ensures
        id as int == compose_id(ts as int, worker_id as int, server_id as int, counter as int),
        id >= 0,
{
    let server = server_id as u64;
    proof {
        lemma_compose_bits(ts, worker_id, server, counter);
    }
    let output: u64 = (ts << 22u64) | ((worker_id & 31u64) << 17u64) | ((server & 31u64)
        << 12u64) | (counter & 4095u64);
    output as i64
}

/// The parts of an id: Unix time of its creation in milliseconds, server id,
/// worker id and counter.
pub open spec fn decompose_spec(id: int) -> (int, int, int, int) {
    (id / 4194304 + EPOCH, (id / 4096) % 32, (id / 131072) % 32, id % 4096)
}

/// The parts of an id: Unix time of its creation in milliseconds, server id,
/// worker id and counter.
pub fn decompose(id: u64) -> (res: (u64, u8, u8, u16))
    ensures
        (res.0 as int, res.1 as int, res.2 as int, res.3 as int) == decompose_spec(id as int),
{
    proof {
        lemma_decompose_bits(id);
    }
    let ts = (id >> 22u64) + EPOCH;
    let pid = ((id >> 17u64) & 31u64) as u8;
    let sid = ((id >> 12u64) & 31u64) as u8;
    let counter = (id & 4095u64) as u16;
    (ts, sid, pid, counter)
}

impl SnowflakeGenerator {
    /// A generator for `worker_id` on `server_id`, before any id was issued.
    pub fn new(server_id: u8, worker_id: u64) -> (res: Self)
        requires
            worker_id <= MAX_WORKER_ID,
            server_id <= MAX_SERVER_ID,
        ensures
            res@ == (GeneratorModel {
                last_ts: 0,
                counter: 0,
                server_id: server_id as int,
                worker_id: worker_id as int,
            }),
            res@.wf(),
    {
        SnowflakeGenerator { state: GeneratorState { last_ts: 0, counter: 0 }, server_id, worker_id }
    }

    /// The server id.
    pub fn server_id(&self) -> (res: u8)
        ensures
            res == self@.server_id,
    {
        self.server_id
    }

    /// The worker id.
    pub fn worker_id(&self) -> (res: u64)
        ensures
            res == self@.worker_id,
    {
        self.worker_id
    }

    /// One attempt to issue an id when the clock reads `now_ms` (Unix time
    /// in milliseconds).
    pub fn try_generate_at(&mut self, now_ms: u64) -> (res: Option<i64>)
        requires
            old(self)@.wf(),
            elapsed_ms(now_ms as int) < TIMESTAMP_LIMIT,
        ensures
            final(self)@.wf(),
            (final(self)@, match res {
                Some(id) => Some(id as int),
                None => None::<int>,
            }) == old(self)@.step(elapsed_ms(now_ms as int)),
    {
        let now = now_ms.saturating_sub(EPOCH);
        if now < self.state.last_ts {
            None
        } else if now == self.state.last_ts {
            if self.state.counter < MAX_COUNTER {
                self.state.counter = self.state.counter + 1;
                Some(compose(self.state.last_ts, self.worker_id, self.server_id, self.state.counter))
            } else {
                None
            }
        } else {
            self.state.last_ts = now;
            self.state.counter = 0;
            Some(compose(self.state.last_ts, self.worker_id, self.server_id, self.state.counter))
        }
    }

    /// Milliseconds since the Unix epoch on the system clock; `None` where the
    /// clock reads before the epoch.
    pub fn current_time_ms() -> Option<u64> {
        crate::encoding::unix_time_ms()
    }

    /// One attempt to issue an id when the clock reads `now_ms` (Unix time in
    /// milliseconds; `None` for a reading before the epoch).
    pub fn next_id_at(&mut self, now_ms: Option<u64>) -> (res: GenerateStep)
        requires
            old(self)@.wf(),
        ensures
            final(self)@.wf(),
            (final(self)@, res) == attempt_spec(old(self)@, now_ms),
    {
        let ms = match now_ms {
            Some(ms) => ms,
            None => {
                return GenerateStep::ClockOutOfRange;
            },
        };
        if ms >= EPOCH && ms - EPOCH >= TIMESTAMP_LIMIT {
            return GenerateStep::ClockOutOfRange;
        }
        match self.try_generate_at(ms) {
            Some(id) => GenerateStep::Issued(id),
            None => GenerateStep::Wait,
        }
    }

    /// One attempt to issue an id, reading the system clock: the outcome
    /// that `next_id_at` gives for that reading.
    pub fn next_id(&mut self) -> (res: GenerateStep)
        requires
            old(self)@.wf(),
        ensures
            final(self)@.wf(),
            exists|reading: Option<u64>|
                (final(self)@, res) == #[trigger] attempt_spec(old(self)@, reading),
    {
        let reading = Self::current_time_ms();
        let res = self.next_id_at(reading);
        assert((final(self)@, res) == attempt_spec(old(self)@, reading));
        res
    }
}

/// Every attempt keeps the state well formed and never lowers the last id;
/// an id it issues is larger than every id issued before, and the attempt
/// that issues nothing changes nothing.
pub proof fn lemma_step_increases(g: GeneratorModel, now: int)
    requires
        g.wf(),
        0 <= now < TIMESTAMP_LIMIT,
    ensures
        g.step(now).0.wf(),
        g.step(now).0.last_id() >= g.last_id(),
        g.step(now).1 is None ==> g.step(now).0 == g,
        g.step(now).1 matches Some(id) ==> id == g.step(now).0.last_id() && id > g.last_id(),
        g.step(now).0.server_id == g.server_id,
        g.step(now).0.worker_id == g.worker_id,
{
    let (g2, r) = g.step(now);
    if now > g.last_ts {
        assert((now - g.last_ts) * 4194304 >= 4194304) by (nonlinear_arith)
            requires
                now - g.last_ts >= 1,
        ;
    }
}

/// The ids that a generator issues over any sequence of clock readings
/// (within range) are strictly increasing, so no id is issued twice, and each
/// is larger than the last id of the state it started from.
pub proof fn lemma_run_strictly_increasing(g: GeneratorModel, nows: Seq<int>)
    requires
        g.wf(),
        forall|i: int| 0 <= i < nows.len() ==> 0 <= #[trigger] nows[i] < TIMESTAMP_LIMIT,
    ensures
        g.run(nows).0.wf(),
        g.run(nows).0.server_id == g.server_id,
        g.run(nows).0.worker_id == g.worker_id,
        g.run(nows).0.last_id() >= g.last_id(),
        forall|i: int|
            0 <= i < g.run(nows).1.len() ==> g.last_id() < #[trigger] g.run(nows).1[i]
                <= g.run(nows).0.last_id(),
        forall|i: int, j: int|
            0 <= i < j < g.run(nows).1.len() ==> #[trigger] g.run(nows).1[i]
                < #[trigger] g.run(nows).1[j],
    decreases nows.len(),
{
    if nows.len() > 0 {
        let prefix = nows.drop_last();
        lemma_run_strictly_increasing(g, prefix);
        let (g1, ids) = g.run(prefix);
        lemma_step_increases(g1, nows.last());
    }
}

/// Different parts make different ids: the worker id, server id, timestamp
/// and counter are all recovered from the id.
pub proof fn lemma_compose_injective(
    ts1: int,
    w1: int,
    s1: int,
    c1: int,
    ts2: int,
    w2: int,
    s2: int,
    c2: int,
)
    requires
        parts_in_range(ts1, w1, s1, c1),
        parts_in_range(ts2, w2, s2, c2),
        compose_id(ts1, w1, s1, c1) == compose_id(ts2, w2, s2, c2),
    ensures
        ts1 == ts2,
        w1 == w2,
        s1 == s2,
        c1 == c2,
{
    lemma_compose_parts(ts1, w1, s1, c1);
    lemma_compose_parts(ts2, w2, s2, c2);
}

/// Reading the parts back out of a composed id gives the parts.
pub proof fn lemma_compose_parts(ts: int, w: int, s: int, c: int)
    requires
        parts_in_range(ts, w, s, c),
    ensures
        compose_id(ts, w, s, c) / 4194304 == ts,
        (compose_id(ts, w, s, c) / 131072) % 32 == w,
        (compose_id(ts, w, s, c) / 4096) % 32 == s,
        compose_id(ts, w, s, c) % 4096 == c,
{
    let id = compose_id(ts, w, s, c);
    let low = w * 131072 + s * 4096 + c;
    assert(0 <= low < 4194304);
    assert(id == ts * 4194304 + low);
    vstd::arithmetic::div_mod::lemma_fundamental_div_mod_converse(id, 4194304, ts, low);
    let low2 = s * 4096 + c;
    assert(0 <= low2 < 131072);
    assert(id == (ts * 32 + w) * 131072 + low2) by (nonlinear_arith)
        requires
            id == ts * 4194304 + w * 131072 + low2,
    ;
    vstd::arithmetic::div_mod::lemma_fundamental_div_mod_converse(id, 131072, ts * 32 + w, low2);
    vstd::arithmetic::div_mod::lemma_fundamental_div_mod_converse(ts * 32 + w, 32, ts, w);
    assert(id == ((ts * 32 + w) * 32 + s) * 4096 + c) by (nonlinear_arith)
        requires
            id == ts * 4194304 + w * 131072 + s * 4096 + c,
    ;
    vstd::arithmetic::div_mod::lemma_fundamental_div_mod_converse(
        id,
        4096,
        (ts * 32 + w) * 32 + s,
        c,
    );
    vstd::arithmetic::div_mod::lemma_fundamental_div_mod_converse(
        (ts * 32 + w) * 32 + s,
        32,
        ts * 32 + w,
        s,
    );
}

/// `decompose` gives back the parts that `compose` put together.
pub proof fn lemma_decompose_compose(ts: int, w: int, s: int, c: int)
    requires
        parts_in_range(ts, w, s, c),
    ensures
        decompose_spec(compose_id(ts, w, s, c)) == (ts + EPOCH, s, w, c),
{
    lemma_compose_parts(ts, w, s, c);
}

/// The timestamp field of an id (milliseconds since `EPOCH`).
pub open spec fn id_timestamp(id: int) -> int {
    id / 4194304
}

/// The counter field of an id.
pub open spec fn id_counter(id: int) -> int {
    id % 4096
}

/// How many of `ids` carry the timestamp `ts`.
pub open spec fn count_in_ms(ids: Seq<int>, ts: int) -> nat
    decreases ids.len(),
{
    if ids.len() == 0 {
        0
    } else {
        count_in_ms(ids.drop_last(), ts) + if id_timestamp(ids.last()) == ts {
            1nat
        } else {
            0nat
        }
    }
}

/// What holds after a run from a new generator: the ids issued so far carry
/// the generator's worker and server, timestamps no later than its last one,
/// and counters that count the earlier ids of their millisecond; the state's
/// counter counts the ids of its last millisecond.
spec fn counter_inv(g: GeneratorModel, ids: Seq<int>) -> bool {
    &&& g.wf()
    &&& g.last_ts == 0 ==> g.counter == 0 && ids.len() == 0
    &&& count_in_ms(ids, g.last_ts) == if g.last_ts == 0 {
        0
    } else {
        g.counter + 1
    }
    &&& forall|i: int| 0 <= i < ids.len() ==> 1 <= id_timestamp(#[trigger] ids[i]) <= g.last_ts
    &&& forall|i: int|
        0 <= i < ids.len() ==> (#[trigger] ids[i] / 131072) % 32 == g.worker_id && (ids[i] / 4096)
            % 32 == g.server_id
    &&& forall|i: int|
        0 <= i < ids.len() ==> id_counter(#[trigger] ids[i]) == count_in_ms(
            ids.take(i),
            id_timestamp(ids[i]),
        )
}

proof fn lemma_count_none_later(ids: Seq<int>, ts: int)
    requires
        forall|i: int| 0 <= i < ids.len() ==> id_timestamp(#[trigger] ids[i]) < ts,
    ensures
        count_in_ms(ids, ts) == 0,
    decreases ids.len(),
{
    if ids.len() > 0 {
        let prev = ids.drop_last();
        assert forall|i: int| 0 <= i < prev.len() implies id_timestamp(#[trigger] prev[i]) < ts by {
            assert(prev[i] == ids[i]);
        }
        lemma_count_none_later(prev, ts);
        assert(id_timestamp(ids[ids.len() - 1]) < ts);
    }
}

proof fn lemma_step_counter_inv(g: GeneratorModel, ids: Seq<int>, now: int)
    requires
        counter_inv(g, ids),
        1 <= now < TIMESTAMP_LIMIT,
    ensures
        counter_inv(
            g.step(now).0,
            match g.step(now).1 {
                Some(id) => ids.push(id),
                None => ids,
            },
        ),
{
    let (g2, r) = g.step(now);
    match r {
        None => {},
        Some(id) => {
            lemma_compose_parts(g2.last_ts, g2.worker_id, g2.server_id, g2.counter);
            let ids2 = ids.push(id);
            assert(ids2.drop_last() =~= ids);
            assert(id_timestamp(id) == g2.last_ts);
            assert(id_counter(id) == g2.counter);
            if now > g.last_ts {
                assert forall|i: int| 0 <= i < ids.len() implies id_timestamp(#[trigger] ids[i])
                    < now by {}
                lemma_count_none_later(ids, now);
            }
            assert(count_in_ms(ids2, g2.last_ts) == count_in_ms(ids, g2.last_ts) + 1);
            assert forall|i: int| 0 <= i < ids2.len() implies id_counter(#[trigger] ids2[i])
                == count_in_ms(ids2.take(i), id_timestamp(ids2[i])) by {
                if i < ids.len() {
                    assert(ids2.take(i) =~= ids.take(i));
                    assert(ids2[i] == ids[i]);
                } else {
                    assert(ids2.take(i) =~= ids);
                }
            }
            assert forall|i: int| 0 <= i < ids2.len() implies 1 <= id_timestamp(
                #[trigger] ids2[i],
            ) <= g2.last_ts by {
                if i < ids.len() {
                    assert(ids2[i] == ids[i]);
                }
            }
            assert forall|i: int| 0 <= i < ids2.len() implies (#[trigger] ids2[i] / 131072) % 32
                == g2.worker_id && (ids2[i] / 4096) % 32 == g2.server_id by {
                if i < ids.len() {
                    assert(ids2[i] == ids[i]);
                }
            }
        },
    }
}

proof fn lemma_run_counter_inv(g: GeneratorModel, nows: Seq<int>)
    requires
        counter_inv(g, Seq::<int>::empty()),
        forall|i: int| 0 <= i < nows.len() ==> 1 <= #[trigger] nows[i] < TIMESTAMP_LIMIT,
    ensures
        counter_inv(g.run(nows).0, g.run(nows).1),
    decreases nows.len(),
{
    if nows.len() > 0 {
        let prev = nows.drop_last();
        assert forall|i: int| 0 <= i < prev.len() implies 1 <= #[trigger] prev[i]
            < TIMESTAMP_LIMIT by {
            assert(prev[i] == nows[i]);
        }
        lemma_run_counter_inv(g, prev);
        let (g1, ids) = g.run(prev);
        assert(1 <= nows.last() < TIMESTAMP_LIMIT);
        lemma_step_counter_inv(g1, ids, nows.last());
    }
}

/// Ids from a new generator whose clock readings all fall after `EPOCH`
/// (`nows`, in milliseconds since `EPOCH`, in the order read): each id
/// carries the generator's worker and server, a timestamp after `EPOCH`,
/// and, as its counter, the number of ids issued before it in the same
/// millisecond, so a millisecond holds at most 4096 ids.
pub proof fn lemma_counter_counts_earlier_ids(server_id: int, worker_id: int, nows: Seq<int>)
    requires
        0 <= server_id <= MAX_SERVER_ID,
        0 <= worker_id <= MAX_WORKER_ID,
        forall|i: int| 0 <= i < nows.len() ==> 1 <= #[trigger] nows[i] < TIMESTAMP_LIMIT,
    ensures
        ({
            let ids = (GeneratorModel {
                last_ts: 0,
                counter: 0,
                server_id,
                worker_id,
            }).run(nows).1;
            forall|i: int|
                0 <= i < ids.len() ==> {
                    &&& id_counter(#[trigger] ids[i]) == count_in_ms(
                        ids.take(i),
                        id_timestamp(ids[i]),
                    )
                    &&& 1 <= id_timestamp(ids[i])
                    &&& (ids[i] / 131072) % 32 == worker_id
                    &&& (ids[i] / 4096) % 32 == server_id
                }
        }),
{
    let g = GeneratorModel { last_ts: 0, counter: 0, server_id, worker_id };
    lemma_run_counter_inv(g, nows);
    lemma_run_strictly_increasing(g, nows);
    let (g2, ids) = g.run(nows);
    assert forall|i: int| 0 <= i < ids.len() implies {
        &&& id_counter(#[trigger] ids[i]) == count_in_ms(ids.take(i), id_timestamp(ids[i]))
        &&& 1 <= id_timestamp(ids[i])
        &&& (ids[i] / 131072) % 32 == worker_id
        &&& (ids[i] / 4096) % 32 == server_id
    } by {
        assert(1 <= id_timestamp(ids[i]) <= g2.last_ts);
    }
}

} // verus!
