use vstd::prelude::*;
use vstd::string::StringExecFns;

use crate::error::ClientError;

verus! {

/// How long one publish waits for the broker's confirmation, in seconds.
pub const DELIVERY_TIMEOUT_SECS: u64 = 5;

/// Pause between the records of a numbered test batch, in milliseconds.
pub const TEST_PACING_MS: u64 = 500;

/// Pause between the records of a bulk test batch, in milliseconds.
pub const BULK_PACING_MS: u64 = 100;

/// Where a published record landed.
#[derive(Debug, Clone, Copy, PartialEq, Eq, Structural)]
pub struct DeliveryReceipt {
    pub partition: i32,
    pub offset: i64,
}

/// Turns the broker's answer to one publish into a receipt or `DeliveryFailed`.
pub fn delivery_outcome(answer: Result<(i32, i64), String>) -> (r: Result<DeliveryReceipt, ClientError>)
    ensures
        answer is Ok <==> r is Ok,
        r is Ok ==> r->Ok_0 == (DeliveryReceipt { partition: answer->Ok_0.0, offset: answer->Ok_0.1 }),
        r is Err ==> r->Err_0 is DeliveryFailed && r->Err_0->DeliveryFailed_0@ == answer->Err_0@,
{
    match answer {
        Ok((partition, offset)) => Ok(DeliveryReceipt { partition, offset }),
        Err(reason) => Err(ClientError::DeliveryFailed(reason)),
    }
}

pub open spec fn digit_char(d: nat) -> char {
    ((d + 48) as u8) as char
}

/// The decimal digits of `n`, most significant first.
pub open spec fn decimal(n: nat) -> Seq<char>
    decreases n,
{
    if n < 10 {
        seq![digit_char(n)]
    } else {
        decimal(n / 10).push(digit_char(n % 10))
    }
}

fn digit_str(d: usize) -> (r: &'static str)
    requires
        d < 10,
    ensures
        r@ == seq![digit_char(d as nat)],
{
    proof {
        reveal_strlit("0");
        reveal_strlit("1");
        reveal_strlit("2");
        reveal_strlit("3");
        reveal_strlit("4");
        reveal_strlit("5");
        reveal_strlit("6");
        reveal_strlit("7");
        reveal_strlit("8");
        reveal_strlit("9");
    }
    let r = match d {
        0 => "0",
        1 => "1",
        2 => "2",
        3 => "3",
        4 => "4",
        5 => "5",
        6 => "6",
        7 => "7",
        8 => "8",
        _ => "9",
    };
    assert(r@ =~= seq![digit_char(d as nat)]);
    r
}

/// Appends the decimal digits of `n` to `s`.
pub fn push_decimal(s: &mut String, n: usize)
    ensures
        final(s)@ == old(s)@ + decimal(n as nat),
    decreases n,
{
    if n < 10 {
        s.append(digit_str(n));
    } else {
        push_decimal(s, n / 10);
        s.append(digit_str(n % 10));
        assert(final(s)@ =~= old(s)@ + decimal(n as nat));
    }
}

pub open spec fn numbered_key(i: nat) -> Seq<char> {
    "test-key-"@ + decimal(i)
}

pub open spec fn numbered_payload(i: nat) -> Seq<char> {
    "Тестовое сообщение номер "@ + decimal(i)
}

/// The key and payload of the `i`-th record of a numbered test batch.
pub fn numbered_record(i: usize) -> (r: (String, String))
    ensures
        r.0@ == numbered_key(i as nat),
        r.1@ == numbered_payload(i as nat),
{
    let mut key = String::from_str("test-key-");
    push_decimal(&mut key, i);
    let mut payload = String::from_str("Тестовое сообщение номер ");
    push_decimal(&mut payload, i);
    (key, payload)
}

/// The records of a numbered test batch of `count` records, numbered from 1.
pub fn numbered_records(count: usize) -> (r: Vec<(String, String)>)
    ensures
        r@.len() == count,
        forall|i: int| 0 <= i < count ==> (#[trigger] r@[i]).0@ == numbered_key((i + 1) as nat)
            && r@[i].1@ == numbered_payload((i + 1) as nat),
{
    let mut records: Vec<(String, String)> = Vec::new();
    let mut i: usize = 0;
    while i < count
        invariant
            0 <= i <= count,
            records@.len() == i,
            forall|j: int| 0 <= j < i ==> (#[trigger] records@[j]).0@ == numbered_key((j + 1) as nat)
                && records@[j].1@ == numbered_payload((j + 1) as nat),
        decreases count - i,
    {
        records.push(numbered_record(i + 1));
        i = i + 1;
    }
    records
}

/// The key and payload of the single test record.
pub fn test_record() -> (r: (String, String))
    ensures
        r.0@ == "test-key"@,
        r.1@ == "Привет из Rust Kafka Producer! Это тестовое сообщение."@,
{
    (
        String::from_str("test-key"),
        String::from_str("Привет из Rust Kafka Producer! Это тестовое сообщение."),
    )
}

/// The progress of a batch send: how many records were attempted, and the
/// positions (from 0) of those whose delivery failed.
pub open spec fn after_send(progress: (nat, Seq<nat>), delivered: bool) -> (nat, Seq<nat>) {
    (progress.0 + 1, if delivered { progress.1 } else { progress.1.push(progress.0) })
}

/// The progress after sending records whose deliveries went as `delivered` says.
pub open spec fn replay(delivered: Seq<bool>) -> (nat, Seq<nat>)
    decreases delivered.len(),
{
    if delivered.len() == 0 {
        (0, Seq::empty())
    } else {
        after_send(replay(delivered.drop_last()), delivered.last())
    }
}

/// The bookkeeping of one batch send: each record is attempted in order, and a
/// failed delivery is recorded without ending the batch.
pub struct BatchProgress {
    pub total: usize,
    pub attempted: usize,
    pub failed: Vec<usize>,
    pub receipts: Vec<DeliveryReceipt>,
}

impl BatchProgress {
    pub open spec fn view_progress(&self) -> (nat, Seq<nat>) {
        (self.attempted as nat, self.failed@.map_values(|p: usize| p as nat))
    }

    pub fn new(total: usize) -> (r: Self)
        ensures
            r.total == total,
            r.view_progress() == replay(Seq::empty()),
            r.receipts@.len() == 0,
    {
        let r = BatchProgress { total, attempted: 0, failed: Vec::new(), receipts: Vec::new() };
        assert(r.view_progress().1 =~= Seq::<nat>::empty());
        r
    }

    /// Whether every record has been attempted.
    pub fn is_done(&self) -> (r: bool)
        ensures
            r == (self.attempted >= self.total),
    {
        self.attempted >= self.total
    }

    /// Records the outcome of sending the next record.
    pub fn record(&mut self, outcome: &Result<DeliveryReceipt, ClientError>)
        requires
            old(self).attempted < old(self).total,
        ensures
            final(self).total == old(self).total,
            final(self).view_progress() == after_send(old(self).view_progress(), outcome is Ok),
            final(self).receipts@ == (match outcome {
                Ok(receipt) => old(self).receipts@.push(*receipt),
                Err(_) => old(self).receipts@,
            }),
    {
        match outcome {
            Ok(receipt) => {
                self.receipts.push(*receipt);
            },
            Err(_) => {
                self.failed.push(self.attempted);
            },
        }
        self.attempted = self.attempted + 1;
        assert(self.view_progress().1 =~= after_send(old(self).view_progress(), outcome is Ok).1);
    }
}

/// A failed delivery does not end a batch: after a batch, every record was
/// attempted, and exactly those whose delivery failed are reported as failed,
/// in order.
pub proof fn law_failure_isolation(delivered: Seq<bool>)
    ensures
        replay(delivered).0 == delivered.len(),
        forall|p: nat| replay(delivered).1.contains(p) <==> p < delivered.len() && !delivered[p as int],
        forall|i: int, j: int| 0 <= i < j < replay(delivered).1.len() ==> replay(delivered).1[i] < replay(delivered).1[j],
    decreases delivered.len(),
{
    lemma_replay_bounded(delivered);
    if delivered.len() > 0 {
        let init = delivered.drop_last();
        law_failure_isolation(init);
        lemma_replay_bounded(init);
        assert(replay(delivered) == after_send(replay(init), delivered.last()));
        let before = replay(init).1;
        let now = replay(delivered).1;
        let n = init.len();
        assert forall|p: nat| now.contains(p) <==> p < delivered.len() && !delivered[p as int] by {
            if p < n {
                assert(init[p as int] == delivered[p as int]);
            }
            if before.contains(p) {
                let k = choose|k: int| 0 <= k < before.len() && before[k] == p;
                assert(before[k] < n);
            }
            if delivered.last() {
                assert(now == before);
            } else {
                assert(now == before.push(n));
                if now.contains(p) {
                    let k = choose|k: int| 0 <= k < now.len() && now[k] == p;
                    if k < before.len() {
                        assert(before[k] == p);
                    }
                }
                if p < n && !delivered[p as int] {
                    let k = choose|k: int| 0 <= k < before.len() && before[k] == p;
                    assert(now[k] == p);
                }
                if p == n {
                    assert(now[before.len() as int] == p);
                }
            }
        }
        assert forall|i: int, j: int| 0 <= i < j < now.len() implies now[i] < now[j] by {
            if !delivered.last() && j == before.len() {
                assert(before[i] < n);
            }
        }
    }
}

/// Every reported position is below the number of records attempted.
pub proof fn lemma_replay_bounded(delivered: Seq<bool>)
    ensures
        replay(delivered).0 == delivered.len(),
        forall|i: int| 0 <= i < replay(delivered).1.len() ==> replay(delivered).1[i] < delivered.len(),
    decreases delivered.len(),
{
    if delivered.len() > 0 {
        lemma_replay_bounded(delivered.drop_last());
    }
}

} // verus!
