use ore_api::state::Bus;
use ore_utils::AccountDeserialize;
use vstd::prelude::*;

verus! {

/// Number of distribution channels (bus accounts).
pub const BUS_COUNT: u64 = 8;

/// A distribution channel: its id and its remaining rewards.
#[derive(Clone, Copy, Debug, PartialEq, Eq)]
pub struct Channel {
    pub id: u64,
    pub rewards: u64,
}

/// Value of a little-endian byte string.
pub open spec fn le_value(b: Seq<u8>) -> int
    decreases b.len(),
{
    if b.len() == 0 {
        0
    } else {
        b[0] as int + 256 * le_value(b.drop_first())
    }
}

/// `data` is a bus account holding `c`: 40 bytes, discriminator 100 first, then
/// from byte 8 on the id and the rewards as little-endian integers.
pub open spec fn bus_layout(data: Seq<u8>, c: Channel) -> bool {
    &&& data.len() == 40
    &&& data[0] == 100
    &&& c.id as int == le_value(data.subrange(8, 16))
    &&& c.rewards as int == le_value(data.subrange(16, 24))
}

/// Relies on ore-utils' AccountDeserialize::try_from_bytes for ore-api's Bus
/// (a bytemuck cast of the bytes after the 8-byte header, native order, which
/// is little-endian on the hosts a miner runs on). It indexes byte 0 and
/// slices from byte 8, so shorter data is left out; it may also refuse data
/// that is not suitably aligned, so success is not promised.
#[verifier::external_body]
fn decode_bus(data: &Vec<u8>) -> (r: Option<Channel>)
    requires
        data@.len() >= 8,
    ensures
        r matches Some(c) ==> bus_layout(data@, c),
{
    match Bus::try_from_bytes(data) {
        Ok(bus) => Some(Channel { id: bus.id, rewards: bus.rewards }),
        Err(_) => None,
    }
}

/// The account is present and holds `c`.
pub open spec fn account_holds(account: Option<Vec<u8>>, c: Channel) -> bool {
    account matches Some(d) && bus_layout(d@, c)
}

/// `d` holds one decode result per account: a channel only where the account
/// holds it, and nothing where the account is absent or too short to read.
pub open spec fn decoded_by(accounts: Seq<Option<Vec<u8>>>, d: Seq<Option<Channel>>) -> bool {
    &&& d.len() == accounts.len()
    &&& forall|j: int|
        0 <= j < d.len() ==> {
            &&& (#[trigger] d[j] matches Some(c) ==> account_holds(accounts[j], c))
            &&& (accounts[j] matches Some(data) ==> data@.len() < 8 ==> d[j] is None)
            &&& (accounts[j] is None ==> d[j] is None)
        }
}

/// The channels among decode results, in order: the results that hold a
/// channel of a known id.
pub open spec fn known_channels(d: Seq<Option<Channel>>) -> Seq<Channel>
    decreases d.len(),
{
    if d.len() == 0 {
        Seq::empty()
    } else {
        let rest = known_channels(d.drop_last());
        match d.last() {
            Some(c) => if c.id < BUS_COUNT {
                rest.push(c)
            } else {
                rest
            },
            None => rest,
        }
    }
}

/// Every known channel has an id below `BUS_COUNT`.
pub proof fn lemma_known_ids(d: Seq<Option<Channel>>)
    ensures
        forall|k: int|
            0 <= k < known_channels(d).len() ==> (#[trigger] known_channels(d)[k]).id < BUS_COUNT,
    decreases d.len(),
{
    if d.len() > 0 {
        lemma_known_ids(d.drop_last());
        let rest = known_channels(d.drop_last());
        assert forall|k: int|
            0 <= k < known_channels(d).len() implies (#[trigger] known_channels(d)[k]).id
            < BUS_COUNT by {
            if k < rest.len() {
                assert(known_channels(d)[k] == rest[k]);
            }
        }
    }
}

/// One decode result per account of a batch, in batch order.
pub fn decode_accounts(accounts: &Vec<Option<Vec<u8>>>) -> (r: Vec<Option<Channel>>)
    ensures
        decoded_by(accounts@, r@),
{
    let mut out: Vec<Option<Channel>> = Vec::new();
    let mut j: usize = 0;
    while j < accounts.len()
        invariant
            j <= accounts@.len(),
            decoded_by(accounts@.take(j as int), out@),
        decreases accounts@.len() - j,
    {
        let mut one: Option<Channel> = None;
        if let Some(data) = &accounts[j] {
            if data.len() >= 8 {
                one = decode_bus(data);
            }
        }
        let ghost before = out@;
        out.push(one);
        proof {
            let a = accounts@.take(j + 1);
            assert forall|k: int| 0 <= k < out@.len() implies {
                &&& (#[trigger] out@[k] matches Some(c) ==> account_holds(a[k], c))
                &&& (a[k] matches Some(data) ==> data@.len() < 8 ==> out@[k] is None)
                &&& (a[k] is None ==> out@[k] is None)
            } by {
                if k < j {
                    assert(out@[k] == before[k]);
                    assert(a[k] == accounts@.take(j as int)[k]);
                }
            }
        }
        j = j + 1;
    }
    assert(accounts@.take(accounts@.len() as int) =~= accounts@);
    out
}

/// The known channels among decode results, in order.
pub fn known_channel_list(d: &Vec<Option<Channel>>) -> (r: Vec<Channel>)
    ensures
        r@ == known_channels(d@),
{
    let mut out: Vec<Channel> = Vec::new();
    let mut j: usize = 0;
    while j < d.len()
        invariant
            j <= d@.len(),
            out@ == known_channels(d@.take(j as int)),
        decreases d@.len() - j,
    {
        proof {
            assert(d@.take(j + 1).drop_last() =~= d@.take(j as int));
        }
        if let Some(c) = d[j] {
            if c.id < BUS_COUNT {
                out.push(c);
            }
        }
        j = j + 1;
    }
    assert(d@.take(d@.len() as int) =~= d@);
    out
}

/// The channel to submit to, from the decode results of a batch: the known
/// channel with the most rewards, lowest id on ties; 0 when none is known.
pub fn select_decoded(d: &Vec<Option<Channel>>) -> (r: u64)
    ensures
        is_selection(known_channels(d@), r),
        r < BUS_COUNT,
{
    let chs = known_channel_list(d);
    let r = select(&chs);
    proof {
        lemma_known_ids(d@);
        if chs@.len() > 0 {
            let i = choose|i: int|
                0 <= i < chs@.len() && chs@[i].id == r && (forall|j: int|
                    0 <= j < chs@.len() ==> #[trigger] chs@[j].rewards <= chs@[i].rewards) && (
                forall|j: int|
                    0 <= j < chs@.len() && #[trigger] chs@[j].rewards == chs@[i].rewards ==> r
                        <= chs@[j].id);
            assert(chs@[i].id < BUS_COUNT);
        }
    }
    r
}

/// `id` is the choice among `chs`: the id of a channel with the most rewards,
/// the lowest such id; 0 when there is no channel.
pub open spec fn is_selection(chs: Seq<Channel>, id: u64) -> bool {
    if chs.len() == 0 {
        id == 0
    } else {
        exists|i: int|
            0 <= i < chs.len() && chs[i].id == id && (forall|j: int|
                0 <= j < chs.len() ==> #[trigger] chs[j].rewards <= chs[i].rewards) && (forall|
                j: int,
            |
                0 <= j < chs.len() && #[trigger] chs[j].rewards == chs[i].rewards ==> id
                    <= chs[j].id)
    }
}

/// The channel with the largest rewards; ties go to the lowest id.
pub fn select(chs: &Vec<Channel>) -> (r: u64)
    ensures
        is_selection(chs@, r),
{
    if chs.len() == 0 {
        return 0;
    }
    let mut best: usize = 0;
    let mut k: usize = 1;
    while k < chs.len()
        invariant
            1 <= k <= chs@.len(),
            best < k,
            forall|j: int| 0 <= j < k ==> #[trigger] chs@[j].rewards <= chs@[best as int].rewards,
            forall|j: int|
                0 <= j < k && #[trigger] chs@[j].rewards == chs@[best as int].rewards
                    ==> chs@[best as int].id <= chs@[j].id,
        decreases chs@.len() - k,
    {
        let c = chs[k];
        if c.rewards > chs[best].rewards || (c.rewards == chs[best].rewards && c.id < chs[best].id) {
            best = k;
        }
        k = k + 1;
    }
    chs[best].id
}

/// The selection names one channel only: two results that both meet it agree.
pub proof fn lemma_selection_unique(chs: Seq<Channel>, a: u64, b: u64)
    requires
        is_selection(chs, a),
        is_selection(chs, b),
    ensures
        a == b,
{
    if chs.len() > 0 {
        let i = choose|i: int|
            0 <= i < chs.len() && chs[i].id == a && (forall|j: int|
                0 <= j < chs.len() ==> #[trigger] chs[j].rewards <= chs[i].rewards) && (forall|
                j: int,
            |
                0 <= j < chs.len() && #[trigger] chs[j].rewards == chs[i].rewards ==> a
                    <= chs[j].id);
        let k = choose|k: int|
            0 <= k < chs.len() && chs[k].id == b && (forall|j: int|
                0 <= j < chs.len() ==> #[trigger] chs[j].rewards <= chs[k].rewards) && (forall|
                j: int,
            |
                0 <= j < chs.len() && #[trigger] chs[j].rewards == chs[k].rewards ==> b
                    <= chs[j].id);
        assert(chs[i].rewards <= chs[k].rewards);
        assert(chs[k].rewards <= chs[i].rewards);
        assert(a <= chs[k].id);
        assert(b <= chs[i].id);
    }
}

/// Channel for a cycle: the selection among the decoded accounts of the
/// batch, or the random draw when the batch could not be read.
pub fn pick_channel(batch: &Option<Vec<Option<Vec<u8>>>>, draw: u64) -> (r: u64)
    requires
        draw < BUS_COUNT,
    ensures
        r < BUS_COUNT,
        batch is None ==> r == draw,
        batch matches Some(accounts) ==> exists|d: Seq<Option<Channel>>|
            decoded_by(accounts@, d) && is_selection(known_channels(d), r),
{
    match batch {
        None => draw,
        Some(accounts) => {
            let d = decode_accounts(accounts);
            select_decoded(&d)
        },
    }
}

} // verus!
