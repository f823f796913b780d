//! Network test scenarios: what each one checks and how it judges what it observed.
use vstd::prelude::*;
use crate::gateway::str_views;
use crate::text::{decimal, push_decimal, str_eq};

verus! {

/// One check of a scenario: what was expected, what was seen, and whether they agree.
#[derive(Debug)]
pub struct TestCheck {
    pub name: String,
    pub passed: bool,
    pub expected: String,
    pub actual: String,
}

impl TestCheck {
    /// A check record.
    pub fn new(name: &str, passed: bool, expected: &str, actual: &str) -> (c: TestCheck)
        ensures
            c.name@ == name@,
            c.passed == passed,
            c.expected@ == expected@,
            c.actual@ == actual@,
    {
        TestCheck { name: name.to_owned(), passed, expected: expected.to_owned(), actual: actual.to_owned() }
    }
}

/// Whether every check passed.
pub fn all_passed(checks: &Vec<TestCheck>) -> (b: bool)
    ensures
        b == (forall|i: int| 0 <= i < checks@.len() ==> (#[trigger] checks@[i]).passed),
{
    for i in 0..checks.len()
        invariant
            forall|j: int| 0 <= j < i ==> (#[trigger] checks@[j]).passed,
    {
        if !checks[i].passed {
            return false;
        }
    }
    true
}

/// A mesh of `node_count` nodes is formed.
#[derive(Debug)]
pub struct P2pMeshScenario {
    pub node_count: usize,
}

impl P2pMeshScenario {
    /// The scenario's name.
    pub fn name(&self) -> (s: &'static str)
        ensures
            s@ == "p2p_mesh"@,
    {
        "p2p_mesh"
    }

    /// The check that as many nodes exist as were created.
    pub fn nodes_check(&self, count: usize) -> (c: TestCheck)
        ensures
            c.name@ == "nodes_created"@,
            c.passed == (count == self.node_count),
            c.expected@ == decimal(self.node_count as nat),
            c.actual@ == decimal(count as nat),
    {
        let mut expected = String::new();
        push_decimal(&mut expected, self.node_count as u64);
        let mut actual = String::new();
        push_decimal(&mut actual, count as u64);
        TestCheck::new("nodes_created", count == self.node_count, expected.as_str(), actual.as_str())
    }
}

/// A message published on one node reaches another over gossip.
#[derive(Debug)]
pub struct GossipPropagationScenario {
    pub topic: String,
    pub message: String,
}

impl GossipPropagationScenario {
    /// Nodes taking part.
    pub const NODE_COUNT: usize = 3;

    /// The scenario's name.
    pub fn name(&self) -> (s: &'static str)
        ensures
            s@ == "gossip_propagation"@,
    {
        "gossip_propagation"
    }

    /// Whether to go on polling the nodes: until the message has arrived or the deadline
    /// has passed.
    pub fn keep_polling(received: bool, past_deadline: bool) -> (b: bool)
        ensures
            b == (!received && !past_deadline),
    {
        !received && !past_deadline
    }

    /// The check that the second node received the message.
    pub fn delivery_check(received: bool) -> (c: TestCheck)
        ensures
            c.name@ == "gossip_node1"@,
            c.passed == received,
            c.expected@ == "message received"@,
            c.actual@ == (if received { "received"@ } else { "not received"@ }),
    {
        let actual = if received { "received" } else { "not received" };
        TestCheck::new("gossip_node1", received, "message received", actual)
    }
}

/// Several messages sent in sequence all arrive.
#[derive(Debug)]
pub struct SequentialMessagesScenario;

/// The check record for message `msg`.
pub open spec fn message_check_name(msg: Seq<char>) -> Seq<char> {
    "received_"@ + msg
}

impl SequentialMessagesScenario {
    /// The scenario's name.
    pub fn name(&self) -> (s: &'static str)
        ensures
            s@ == "sequential_messages"@,
    {
        "sequential_messages"
    }

    /// The topic the messages are sent on.
    pub fn topic() -> (s: &'static str)
        ensures
            s@ == "test/seq"@,
    {
        "test/seq"
    }

    /// The messages sent, in order.
    pub fn messages() -> (m: Vec<&'static str>)
        ensures
            m@.map_values(|s: &str| s@) == seq!["msg1"@, "msg2"@, "msg3"@],
    {
        let m = vec!["msg1", "msg2", "msg3"];
        assert(m@.map_values(|s: &str| s@) =~= seq!["msg1"@, "msg2"@, "msg3"@]);
        m
    }

    /// Whether to go on collecting messages: until as many distinct texts as messages sent
    /// have arrived or the deadline has passed.
    pub fn keep_collecting(received: &Vec<String>, sent: usize, past_deadline: bool) -> (b: bool)
        ensures
            b == (received@.len() < sent && !past_deadline),
    {
        received.len() < sent && !past_deadline
    }

    /// Records a received text, once.
    pub fn record(received: &mut Vec<String>, text: String)
        ensures
            str_views(old(received)@).contains(text@) ==> final(received)@ == old(received)@,
            !str_views(old(received)@).contains(text@) ==> final(received)@ == old(received)@.push(text),
    {
        let mut i: usize = 0;
        while i < received.len()
            invariant
                i <= received@.len(),
                forall|j: int| 0 <= j < i ==> received@[j]@ != text@,
            decreases received@.len() - i,
        {
            if received[i] == text {
                assert(str_views(received@)[i as int] == text@);
                return;
            }
            i = i + 1;
        }
        assert(!str_views(received@).contains(text@)) by {
            if str_views(received@).contains(text@) {
                let j = choose|j: int| 0 <= j < str_views(received@).len() && str_views(received@)[j] == text@;
                assert(received@[j]@ == text@);
            }
        }
        received.push(text);
    }

    /// Whether `msg` was received.
    fn was_received(received: &Vec<String>, msg: &str) -> (b: bool)
        ensures
            b == str_views(received@).contains(msg@),
    {
        for i in 0..received.len()
            invariant
                forall|j: int| 0 <= j < i ==> received@[j]@ != msg@,
        {
            if str_eq(received[i].as_str(), msg) {
                assert(str_views(received@)[i as int] == msg@);
                return true;
            }
        }
        assert(!str_views(received@).contains(msg@)) by {
            if str_views(received@).contains(msg@) {
                let j = choose|j: int| 0 <= j < str_views(received@).len() && str_views(received@)[j] == msg@;
                assert(received@[j]@ == msg@);
            }
        }
        false
    }

    /// One check per message: named `received_<msg>`, passed when the message arrived, and
    /// showing the message or `missing`.
    pub fn message_checks(messages: &Vec<&'static str>, received: &Vec<String>) -> (checks: Vec<TestCheck>)
        ensures
            checks@.len() == messages@.len(),
            forall|i: int|
                0 <= i < checks@.len() ==> {
                    let found = str_views(received@).contains(messages@[i]@);
                    &&& (#[trigger] checks@[i]).name@ == message_check_name(messages@[i]@)
                    &&& checks@[i].passed == found
                    &&& checks@[i].expected@ == messages@[i]@
                    &&& checks@[i].actual@ == (if found { messages@[i]@ } else { "missing"@ })
                },
    {
        let mut checks: Vec<TestCheck> = Vec::new();
        for i in 0..messages.len()
            invariant
                checks@.len() == i,
                forall|k: int|
                    0 <= k < i ==> {
                        let found = str_views(received@).contains(messages@[k]@);
                        &&& (#[trigger] checks@[k]).name@ == message_check_name(messages@[k]@)
                        &&& checks@[k].passed == found
                        &&& checks@[k].expected@ == messages@[k]@
                        &&& checks@[k].actual@ == (if found { messages@[k]@ } else { "missing"@ })
                    },
        {
            let msg = messages[i];
            let found = Self::was_received(received, msg);
            let mut name = "received_".to_owned();
            name.append(msg);
            let actual = if found { msg } else { "missing" };
            checks.push(TestCheck::new(name.as_str(), found, msg, actual));
        }
        checks
    }
}

/// No text occurs twice in `texts`.
pub open spec fn distinct_texts(texts: Seq<Seq<char>>) -> bool {
    forall|i: int, j: int| 0 <= i < j < texts.len() ==> texts[i] != texts[j]
}

/// Law: recording a text keeps the received texts free of repeats.
pub proof fn law_record_keeps_texts_distinct(received: Seq<Seq<char>>, text: Seq<char>)
    requires
        distinct_texts(received),
    ensures
        distinct_texts(if received.contains(text) { received } else { received.push(text) }),
{
    if !received.contains(text) {
        let r = received.push(text);
        assert forall|i: int, j: int| 0 <= i < j < r.len() implies r[i] != r[j] by {
            if j == received.len() {
                assert(received[i] == r[i]);
            }
        }
    }
}

} // verus!
