//! The ordered message dispatcher's decisions: the poll budget, grouping a
//! polled batch by topic, and splitting a topic's batch into per-key FIFO
//! chains that preserve intra-key order while freeing inter-key parallelism.

use vstd::prelude::*;
use crate::action::opt_str_view;
use crate::strfmt::str_eq;
use vstd::string::StringExecFns;

verus! {

/// One consumed message envelope: an optional partition key, the raw payload,
/// the headers in delivery order, and the broker timestamp when the broker
/// carries one, in milliseconds since the Unix epoch.
pub struct Message {
    pub key: Option<String>,
    pub payload: String,
    pub headers: Vec<(String, String)>,
    pub timestamp_millis: Option<i64>,
}

/// The key of a message, as character data.
pub open spec fn key_view(m: Message) -> Option<Seq<char>> {
    opt_str_view(m.key)
}

/// Consumer tuning: how long one poll round may collect, in nanoseconds, and
/// how many records it may gather.
pub struct ConsumerConfig {
    pub poll_max_wait_nanos: u64,
    pub poll_max_records: usize,
}

impl Default for ConsumerConfig {
    /// One second of polling, at most a thousand records.
    fn default() -> (r: ConsumerConfig)
        ensures
            r.poll_max_wait_nanos == 1000000000,
            r.poll_max_records == 1000,
    {
        ConsumerConfig { poll_max_wait_nanos: 1000000000, poll_max_records: 1000 }
    }
}

/// Whether one poll round is over: its time budget is spent or it has
/// collected enough records.
pub fn poll_complete(config: &ConsumerConfig, elapsed_nanos: u64, collected: usize) -> (r: bool)
    ensures
        r == (elapsed_nanos >= config.poll_max_wait_nanos || collected >= config.poll_max_records),
{
    elapsed_nanos >= config.poll_max_wait_nanos || collected >= config.poll_max_records
}

/// The time budget left in one poll round.
pub fn remaining_wait_nanos(config: &ConsumerConfig, elapsed_nanos: u64) -> (r: u64)
    ensures
        config.poll_max_wait_nanos >= elapsed_nanos ==> r == config.poll_max_wait_nanos
            - elapsed_nanos,
        config.poll_max_wait_nanos < elapsed_nanos ==> r == 0,
{
    if config.poll_max_wait_nanos >= elapsed_nanos {
        config.poll_max_wait_nanos - elapsed_nanos
    } else {
        0
    }
}

/// The messages of a batch that were polled from the given topic, in delivery
/// order.
pub open spec fn filter_topic(batch: Seq<(String, Message)>, topic: Seq<char>) -> Seq<Message>
    decreases batch.len(),
{
    if batch.len() == 0 {
        Seq::empty()
    } else {
        filter_topic(batch.drop_last(), topic) + (if batch.last().0@ == topic {
            seq![batch.last().1]
        } else {
            Seq::empty()
        })
    }
}

/// The messages of a topic's batch that carry the given key (or none), in
/// delivery order.
pub open spec fn filter_key(messages: Seq<Message>, key: Option<Seq<char>>) -> Seq<Message>
    decreases messages.len(),
{
    if messages.len() == 0 {
        Seq::empty()
    } else {
        filter_key(messages.drop_last(), key) + (if key_view(messages.last()) == key {
            seq![messages.last()]
        } else {
            Seq::empty()
        })
    }
}

/// Some group carries the given topic.
pub open spec fn has_topic(groups: Seq<(String, Vec<Message>)>, topic: Seq<char>) -> bool {
    exists|i: int| 0 <= i < groups.len() && #[trigger] groups[i].0@ == topic
}

fn find_group(groups: &Vec<(String, Vec<Message>)>, name: &str) -> (r: Option<usize>)
    ensures
        r matches Some(i) ==> i < groups@.len() && groups@[i as int].0@ == name@,
        r is None ==> forall|i: int| 0 <= i < groups@.len() ==> groups@[i].0@ != name@,
{
    let mut i: usize = 0;
    while i < groups.len()
        invariant
            i <= groups@.len(),
            forall|j: int| 0 <= j < i ==> groups@[j].0@ != name@,
        decreases groups@.len() - i,
    {
        if str_eq(groups[i].0.as_str(), name) {
            return Some(i);
        }
        i += 1;
    }
    None
}

/// Groups a polled batch by topic.  Each topic that occurs in the batch gets
/// exactly one group, holding that topic's messages in delivery order; one
/// bulk action is then opened per group.
pub fn group_by_topic(batch: Vec<(String, Message)>) -> (groups: Vec<(String, Vec<Message>)>)
    ensures
        forall|i: int|
            0 <= i < groups@.len() ==> groups@[i].1@ == filter_topic(batch@, groups@[i].0@),
        forall|i: int, j: int|
            0 <= i < j < groups@.len() ==> groups@[i].0@ != groups@[j].0@,
        forall|j: int| 0 <= j < batch@.len() ==> has_topic(groups@, (#[trigger] batch@[j]).0@),
        forall|i: int| 0 <= i < groups@.len() ==> groups@[i].1@.len() > 0,
{
    let ghost orig = batch@;
    let mut rest = batch;
    let mut groups: Vec<(String, Vec<Message>)> = Vec::new();
    let ghost mut done = Seq::<(String, Message)>::empty();
    proof {
        assert(orig =~= done + rest@);
    }
    while rest.len() > 0
        invariant
            orig == done + rest@,
            forall|i: int|
                0 <= i < groups@.len() ==> groups@[i].1@ == filter_topic(done, groups@[i].0@),
            forall|i: int, j: int|
                0 <= i < j < groups@.len() ==> groups@[i].0@ != groups@[j].0@,
            forall|j: int| 0 <= j < done.len() ==> has_topic(groups@, (#[trigger] done[j]).0@),
            forall|i: int| 0 <= i < groups@.len() ==> groups@[i].1@.len() > 0,
        decreases rest.len(),
    {
        let (topic, message) = rest.remove(0);
        let ghost prev_done = done;
        proof {
            done = done.push((topic, message));
            assert(orig =~= done + rest@);
            assert(done.drop_last() =~= prev_done);
        }
        match find_group(&groups, topic.as_str()) {
            Some(i) => {
                let ghost prev_groups = groups@;
                let slot = &mut groups[i];
                slot.1.push(message);
                proof {
                    assert forall|x: int| 0 <= x < groups@.len() implies groups@[x].1@
                        == filter_topic(done, groups@[x].0@) by {
                        if x != i {
                            assert(groups@[x] == prev_groups[x]);
                            assert(filter_topic(done, groups@[x].0@) =~= filter_topic(
                                prev_done,
                                groups@[x].0@,
                            ));
                        }
                    }
                    assert forall|j: int| 0 <= j < done.len() implies has_topic(
                        groups@,
                        (#[trigger] done[j]).0@,
                    ) by {
                        if j < done.len() - 1 {
                            assert(done[j] == prev_done[j]);
                            assert(has_topic(prev_groups, prev_done[j].0@));
                            let y = choose|y: int|
                                0 <= y < prev_groups.len() && #[trigger] prev_groups[y].0@
                                    == prev_done[j].0@;
                            assert(groups@[y].0@ == prev_groups[y].0@);
                        } else {
                            assert(groups@[i as int].0@ == done[j].0@);
                        }
                    }
                }
            },
            None => {
                let ghost prev_groups = groups@;
                let mut list: Vec<Message> = Vec::new();
                list.push(message);
                groups.push((topic, list));
                proof {
                    assert forall|x: int| 0 <= x < groups@.len() implies groups@[x].1@
                        == filter_topic(done, groups@[x].0@) by {
                        if x < groups@.len() - 1 {
                            assert(groups@[x] == prev_groups[x]);
                            assert(filter_topic(done, groups@[x].0@) =~= filter_topic(
                                prev_done,
                                groups@[x].0@,
                            ));
                        } else {
                            lemma_filter_topic_absent(prev_done, groups@[x].0@, prev_groups);
                            assert(groups@[x].1@ =~= filter_topic(done, groups@[x].0@));
                        }
                    }
                    assert forall|j: int| 0 <= j < done.len() implies has_topic(
                        groups@,
                        (#[trigger] done[j]).0@,
                    ) by {
                        if j < done.len() - 1 {
                            assert(done[j] == prev_done[j]);
                            assert(has_topic(prev_groups, prev_done[j].0@));
                            let y = choose|y: int|
                                0 <= y < prev_groups.len() && #[trigger] prev_groups[y].0@
                                    == prev_done[j].0@;
                            assert(groups@[y].0@ == prev_groups[y].0@);
                        } else {
                            assert(groups@[groups@.len() - 1].0@ == done[j].0@);
                        }
                    }
                }
            },
        }
    }
    proof {
        assert(done =~= orig);
    }
    groups
}

/// A topic none of whose messages were seen yet filters to nothing.
proof fn lemma_filter_topic_absent(
    done: Seq<(String, Message)>,
    topic: Seq<char>,
    groups: Seq<(String, Vec<Message>)>,
)
    requires
        forall|j: int| 0 <= j < done.len() ==> has_topic(groups, (#[trigger] done[j]).0@),
        !has_topic(groups, topic),
    ensures
        filter_topic(done, topic) == Seq::<Message>::empty(),
    decreases done.len(),
{
    if done.len() > 0 {
        assert forall|j: int| 0 <= j < done.drop_last().len() implies has_topic(
            groups,
            (#[trigger] done.drop_last()[j]).0@,
        ) by {
            assert(done.drop_last()[j] == done[j]);
        }
        lemma_filter_topic_absent(done.drop_last(), topic, groups);
        assert(done.last() == done[done.len() - 1]);
        assert(filter_topic(done, topic) =~= Seq::<Message>::empty());
    }
}

} // verus!

verus! {

/// Some chain carries the given key.
pub open spec fn has_chain(chains: Seq<(String, Vec<Message>)>, key: Seq<char>) -> bool {
    exists|i: int| 0 <= i < chains.len() && #[trigger] chains[i].0@ == key
}

/// The execution plan of one topic's batch on the single-message path:
/// messages without a key run as independent tasks; messages sharing a key
/// form one FIFO chain, handled sequentially in delivery order.
pub struct DispatchPlan {
    pub unkeyed: Vec<Message>,
    pub chains: Vec<(String, Vec<Message>)>,
}

/// Splits a topic's batch into the unkeyed messages and one FIFO chain per
/// key, each chain holding its key's messages in delivery order.
pub fn build_key_chains(messages: Vec<Message>) -> (plan: DispatchPlan)
    ensures
        plan.unkeyed@ == filter_key(messages@, None),
        forall|i: int|
            0 <= i < plan.chains@.len() ==> plan.chains@[i].1@ == filter_key(
                messages@,
                Some(plan.chains@[i].0@),
            ),
        forall|i: int, j: int|
            0 <= i < j < plan.chains@.len() ==> plan.chains@[i].0@ != plan.chains@[j].0@,
        forall|j: int|
            0 <= j < messages@.len() ==> (#[trigger] key_view(messages@[j]) matches Some(k)
                ==> has_chain(plan.chains@, k)),
        forall|i: int| 0 <= i < plan.chains@.len() ==> plan.chains@[i].1@.len() > 0,
{
    let ghost orig = messages@;
    let mut rest = messages;
    let mut unkeyed: Vec<Message> = Vec::new();
    let mut chains: Vec<(String, Vec<Message>)> = Vec::new();
    let ghost mut done = Seq::<Message>::empty();
    proof {
        assert(orig =~= done + rest@);
    }
    while rest.len() > 0
        invariant
            orig == done + rest@,
            unkeyed@ == filter_key(done, None),
            forall|i: int|
                0 <= i < chains@.len() ==> chains@[i].1@ == filter_key(
                    done,
                    Some(chains@[i].0@),
                ),
            forall|i: int, j: int| 0 <= i < j < chains@.len() ==> chains@[i].0@ != chains@[j].0@,
            forall|j: int|
                0 <= j < done.len() ==> (#[trigger] key_view(done[j]) matches Some(k) ==> has_chain(
                    chains@,
                    k,
                )),
            forall|i: int| 0 <= i < chains@.len() ==> chains@[i].1@.len() > 0,
        decreases rest.len(),
    {
        let message = rest.remove(0);
        let ghost prev_done = done;
        proof {
            done = done.push(message);
            assert(orig =~= done + rest@);
            assert(done.drop_last() =~= prev_done);
        }
        let key: Option<String> = match &message.key {
            Some(k) => Some(k.clone()),
            None => None,
        };
        match key {
            None => {
                unkeyed.push(message);
                proof {
                    assert forall|x: int| 0 <= x < chains@.len() implies chains@[x].1@
                        == filter_key(done, Some(chains@[x].0@)) by {
                        assert(filter_key(done, Some(chains@[x].0@)) =~= filter_key(
                            prev_done,
                            Some(chains@[x].0@),
                        ));
                    }
                    assert forall|j: int| 0 <= j < done.len() implies (#[trigger] key_view(
                        done[j],
                    ) matches Some(k) ==> has_chain(chains@, k)) by {
                        if j < done.len() - 1 {
                            assert(done[j] == prev_done[j]);
                        }
                    }
                }
            },
            Some(key_string) => {
                match find_group(&chains, key_string.as_str()) {
                    Some(i) => {
                        let ghost prev_chains = chains@;
                        let slot = &mut chains[i];
                        slot.1.push(message);
                        proof {
                            assert(unkeyed@ =~= filter_key(done, None));
                            assert forall|x: int| 0 <= x < chains@.len() implies chains@[x].1@
                                == filter_key(done, Some(chains@[x].0@)) by {
                                if x != i {
                                    assert(chains@[x] == prev_chains[x]);
                                    assert(filter_key(done, Some(chains@[x].0@)) =~= filter_key(
                                        prev_done,
                                        Some(chains@[x].0@),
                                    ));
                                }
                            }
                            assert forall|j: int| 0 <= j < done.len() implies (#[trigger] key_view(
                                done[j],
                            ) matches Some(k) ==> has_chain(chains@, k)) by {
                                if j < done.len() - 1 {
                                    assert(done[j] == prev_done[j]);
                                    if key_view(done[j]) is Some {
                                        let k = key_view(done[j])->Some_0;
                                        assert(has_chain(prev_chains, k));
                                        let y = choose|y: int|
                                            0 <= y < prev_chains.len()
                                                && #[trigger] prev_chains[y].0@ == k;
                                        assert(chains@[y].0@ == prev_chains[y].0@);
                                    }
                                } else {
                                    assert(chains@[i as int].0@ == key_view(done[j])->Some_0);
                                }
                            }
                        }
                    },
                    None => {
                        let ghost prev_chains = chains@;
                        let mut list: Vec<Message> = Vec::new();
                        list.push(message);
                        chains.push((key_string, list));
                        proof {
                            assert(unkeyed@ =~= filter_key(done, None));
                            assert forall|x: int| 0 <= x < chains@.len() implies chains@[x].1@
                                == filter_key(done, Some(chains@[x].0@)) by {
                                if x < chains@.len() - 1 {
                                    assert(chains@[x] == prev_chains[x]);
                                    assert(filter_key(done, Some(chains@[x].0@)) =~= filter_key(
                                        prev_done,
                                        Some(chains@[x].0@),
                                    ));
                                } else {
                                    lemma_filter_key_absent(prev_done, chains@[x].0@, prev_chains);
                                    assert(chains@[x].1@ =~= filter_key(
                                        done,
                                        Some(chains@[x].0@),
                                    ));
                                }
                            }
                            assert forall|j: int| 0 <= j < done.len() implies (#[trigger] key_view(
                                done[j],
                            ) matches Some(k) ==> has_chain(chains@, k)) by {
                                if j < done.len() - 1 {
                                    assert(done[j] == prev_done[j]);
                                    if key_view(done[j]) is Some {
                                        let k = key_view(done[j])->Some_0;
                                        assert(has_chain(prev_chains, k));
                                        let y = choose|y: int|
                                            0 <= y < prev_chains.len()
                                                && #[trigger] prev_chains[y].0@ == k;
                                        assert(chains@[y].0@ == prev_chains[y].0@);
                                    }
                                } else {
                                    assert(chains@[chains@.len() - 1].0@ == key_view(
                                        done[j],
                                    )->Some_0);
                                }
                            }
                        }
                    },
                }
            },
        }
    }
    proof {
        assert(done =~= orig);
    }
    DispatchPlan { unkeyed, chains }
}

/// A key none of whose messages were seen yet filters to nothing.
proof fn lemma_filter_key_absent(
    done: Seq<Message>,
    key: Seq<char>,
    chains: Seq<(String, Vec<Message>)>,
)
    requires
        forall|j: int|
            0 <= j < done.len() ==> (#[trigger] key_view(done[j]) matches Some(k) ==> has_chain(
                chains,
                k,
            )),
        !has_chain(chains, key),
    ensures
        filter_key(done, Some(key)) == Seq::<Message>::empty(),
    decreases done.len(),
{
    if done.len() > 0 {
        assert forall|j: int| 0 <= j < done.drop_last().len() implies (#[trigger] key_view(
            done.drop_last()[j],
        ) matches Some(k) ==> has_chain(chains, k)) by {
            assert(done.drop_last()[j] == done[j]);
        }
        lemma_filter_key_absent(done.drop_last(), key, chains);
        assert(done.last() == done[done.len() - 1]);
        assert(filter_key(done, Some(key)) =~= Seq::<Message>::empty());
    }
}

} // verus!

verus! {

/// The position a message takes inside its key's chain: how many earlier
/// messages of the batch carry the same key.
pub open spec fn chain_pos(messages: Seq<Message>, key: Seq<char>, j: int) -> int {
    filter_key(messages.take(j), Some(key)).len() as int
}

/// A keyed message lands in its key's chain, at its chain position.
pub proof fn lemma_chain_pos(messages: Seq<Message>, key: Seq<char>, j: int)
    requires
        0 <= j < messages.len(),
        key_view(messages[j]) == Some(key),
    ensures
        0 <= chain_pos(messages, key, j) < filter_key(messages, Some(key)).len(),
        filter_key(messages, Some(key))[chain_pos(messages, key, j)] == messages[j],
    decreases messages.len(),
{
    if j == messages.len() - 1 {
        assert(messages.take(j) =~= messages.drop_last());
        assert(messages.last() == messages[j]);
    } else {
        assert(messages.drop_last().take(j) =~= messages.take(j));
        assert(messages.drop_last()[j] == messages[j]);
        lemma_chain_pos(messages.drop_last(), key, j);
    }
}

/// Intra-key delivery order is preserved: of two messages that share a key,
/// the earlier one stands earlier in the key's chain.  Since each chain is
/// run by one task, sequentially and in chain order, per-key actions start in
/// delivery order.
pub proof fn lemma_chain_keeps_order(messages: Seq<Message>, key: Seq<char>, j1: int, j2: int)
    requires
        0 <= j1 < j2 < messages.len(),
        key_view(messages[j1]) == Some(key),
        key_view(messages[j2]) == Some(key),
    ensures
        chain_pos(messages, key, j1) < chain_pos(messages, key, j2),
        filter_key(messages, Some(key))[chain_pos(messages, key, j1)] == messages[j1],
        filter_key(messages, Some(key))[chain_pos(messages, key, j2)] == messages[j2],
{
    lemma_chain_pos(messages, key, j1);
    lemma_chain_pos(messages, key, j2);
    assert(messages.take(j2)[j1] == messages[j1]);
    assert(messages.take(j2).take(j1) =~= messages.take(j1));
    lemma_chain_pos(messages.take(j2), key, j1);
}

/// Some message of the batch was polled from the given topic.
pub open spec fn topic_in_batch(batch: Seq<(String, Message)>, t: Seq<char>) -> bool {
    exists|j: int| 0 <= j < batch.len() && (#[trigger] batch[j]).0@ == t
}

/// A topic with a non-empty filtered group has a message in the batch.
proof fn lemma_filter_topic_member(batch: Seq<(String, Message)>, t: Seq<char>)
    ensures
        filter_topic(batch, t).len() > 0 ==> topic_in_batch(batch, t),
    decreases batch.len(),
{
    if batch.len() > 0 {
        lemma_filter_topic_member(batch.drop_last(), t);
        if filter_topic(batch, t).len() > 0 {
            if batch.last().0@ == t {
                assert(batch[batch.len() - 1].0@ == t);
            } else {
                let j = choose|j: int|
                    0 <= j < batch.drop_last().len() && (#[trigger] batch.drop_last()[j]).0@ == t;
                assert(batch[j].0@ == t);
            }
        }
    }
}

/// Exactly one bulk action arises per (topic, poll-batch) pair: the groups of
/// a batch carry pairwise distinct topics, every polled message's topic has a
/// group, and every group's topic was polled.  One action is opened per
/// group, so each polled topic gets exactly one action for the batch.
pub proof fn lemma_one_action_per_topic_batch(
    batch: Seq<(String, Message)>,
    groups: Seq<(String, Vec<Message>)>,
)
    requires
        forall|i: int| 0 <= i < groups.len() ==> groups[i].1@ == filter_topic(batch, groups[i].0@),
        forall|i: int, j: int| 0 <= i < j < groups.len() ==> groups[i].0@ != groups[j].0@,
        forall|j: int| 0 <= j < batch.len() ==> has_topic(groups, (#[trigger] batch[j]).0@),
        forall|i: int| 0 <= i < groups.len() ==> groups[i].1@.len() > 0,
    ensures
        forall|i1: int, i2: int|
            0 <= i1 < groups.len() && 0 <= i2 < groups.len() && #[trigger] groups[i1].0@
                == #[trigger] groups[i2].0@ ==> i1 == i2,
        forall|i: int| 0 <= i < groups.len() ==> topic_in_batch(batch, (#[trigger] groups[i]).0@),
{
    assert forall|i1: int, i2: int|
        0 <= i1 < groups.len() && 0 <= i2 < groups.len() && #[trigger] groups[i1].0@
            == #[trigger] groups[i2].0@ implies i1 == i2 by {
        if i1 < i2 {
            assert(groups[i1].0@ != groups[i2].0@);
        }
        if i2 < i1 {
            assert(groups[i2].0@ != groups[i1].0@);
        }
    }
    assert forall|i: int| 0 <= i < groups.len() implies topic_in_batch(
        batch,
        (#[trigger] groups[i]).0@,
    ) by {
        assert(groups[i].1@ == filter_topic(batch, groups[i].0@));
        assert(filter_topic(batch, groups[i].0@).len() > 0);
        lemma_filter_topic_member(batch, groups[i].0@);
    }
}

/// The value of the first header with the given name.
pub open spec fn spec_header_first(headers: Seq<(String, String)>, name: Seq<char>) -> Option<
    Seq<char>,
>
    decreases headers.len(),
{
    if headers.len() == 0 {
        None
    } else if headers[0].0@ == name {
        Some(headers[0].1@)
    } else {
        spec_header_first(headers.drop_first(), name)
    }
}

/// The correlation id a message inherited from its producer: the first
/// `ref_id` header, if one was attached.
pub fn message_ref_id(m: &Message) -> (r: Option<String>)
    ensures
        opt_str_view(r) == spec_header_first(m.headers@, "ref_id"@),
{
    let mut i: usize = 0;
    proof {
        assert(m.headers@.skip(0) =~= m.headers@);
    }
    while i < m.headers.len()
        invariant
            i <= m.headers@.len(),
            spec_header_first(m.headers@, "ref_id"@) == spec_header_first(
                m.headers@.skip(i as int),
                "ref_id"@,
            ),
        decreases m.headers@.len() - i,
    {
        if str_eq(m.headers[i].0.as_str(), "ref_id") {
            proof {
                assert(m.headers@.skip(i as int)[0] == m.headers@[i as int]);
            }
            return Some(m.headers[i].1.clone());
        }
        proof {
            assert(m.headers@.skip(i as int)[0] == m.headers@[i as int]);
            assert(m.headers@.skip(i as int).drop_first() =~= m.headers@.skip(i + 1));
        }
        i += 1;
    }
    proof {
        assert(m.headers@.skip(m.headers@.len() as int) =~= Seq::<(String, String)>::empty());
    }
    None
}

/// The oldest broker timestamp among the messages that carry one.
pub open spec fn spec_oldest_timestamp(ms: Seq<Message>) -> Option<int>
    decreases ms.len(),
{
    if ms.len() == 0 {
        None
    } else {
        let rest = spec_oldest_timestamp(ms.drop_last());
        match (ms.last().timestamp_millis, rest) {
            (Option::None, r) => r,
            (Option::Some(t), Option::None) => Some(t as int),
            (Option::Some(t), Option::Some(r)) => if t as int <= r {
                Some(t as int)
            } else {
                Some(r)
            },
        }
    }
}

/// The oldest broker timestamp of a batch, used to record the batch's lag.
pub fn oldest_timestamp(messages: &Vec<Message>) -> (r: Option<i64>)
    ensures
        match r {
            Some(v) => spec_oldest_timestamp(messages@) == Some(v as int),
            None => spec_oldest_timestamp(messages@) is None,
        },
{
    let mut best: Option<i64> = None;
    let mut i: usize = 0;
    proof {
        assert(messages@.take(0) =~= Seq::<Message>::empty());
    }
    while i < messages.len()
        invariant
            i <= messages@.len(),
            match best {
                Some(v) => spec_oldest_timestamp(messages@.take(i as int)) == Some(v as int),
                None => spec_oldest_timestamp(messages@.take(i as int)) is None,
            },
        decreases messages@.len() - i,
    {
        proof {
            assert(messages@.take(i + 1).drop_last() =~= messages@.take(i as int));
            assert(messages@.take(i + 1).last() == messages@[i as int]);
        }
        match (&messages[i].timestamp_millis, &best) {
            (Some(t), None) => {
                best = Some(*t);
            },
            (Some(t), Some(b)) => {
                if *t < *b {
                    best = Some(*t);
                }
            },
            (None, _) => {},
        }
        i += 1;
    }
    proof {
        assert(messages@.take(messages@.len() as int) =~= messages@);
    }
    best
}

} // verus!
