use vstd::prelude::*;

use crate::error::ClientError;

verus! {

/// The shape of a topic that `ensure_topic` asks the broker for.
#[derive(Debug, Clone)]
pub struct TopicSpec {
    pub name: String,
    pub partition_count: i32,
    pub replication_factor: i32,
}

impl TopicSpec {
    /// A topic of one partition, replicated once.
    pub fn single(name: String) -> (r: Self)
        ensures
            r.name@ == name@,
            r.partition_count == 1,
            r.replication_factor == 1,
    {
        TopicSpec { name, partition_count: 1, replication_factor: 1 }
    }
}

/// Why the broker did not create one topic.
#[derive(Debug, Clone)]
pub enum CreateFailure {
    /// The topic exists already.
    AlreadyExists,
    /// Any other refusal, with the broker's reason.
    Other(String),
}

/// The broker's answer for one topic: its name where it was created.
pub type TopicResult = Result<String, CreateFailure>;

/// A per-topic answer that leaves the topic in place: created, or there already.
pub open spec fn tolerated(r: TopicResult) -> bool {
    r is Ok || r->Err_0 is AlreadyExists
}

/// The reason of the first per-topic answer that is not tolerated, if any.
pub open spec fn first_refusal(results: Seq<TopicResult>) -> Option<Seq<char>>
    decreases results.len(),
{
    if results.len() == 0 {
        None
    } else if !tolerated(results[0]) {
        Some(results[0]->Err_0->Other_0@)
    } else {
        first_refusal(results.drop_first())
    }
}

/// The outcome of `ensure_topic`, as a spec: `None` for success, else the
/// reason of `TopicCreateFailed`.
pub open spec fn creation_refusal(response: Result<Seq<TopicResult>, Seq<char>>) -> Option<Seq<char>> {
    match response {
        Ok(results) => first_refusal(results),
        Err(reason) => Some(reason),
    }
}

pub open spec fn response_view(
    response: Result<Vec<TopicResult>, String>,
) -> Result<Seq<TopicResult>, Seq<char>> {
    match response {
        Ok(results) => Ok(results@),
        Err(reason) => Err(reason@),
    }
}

/// Classifies the broker's answer to a topic creation request: success when
/// every topic was created or existed already; otherwise `TopicCreateFailed`
/// with the reason of the first refusal, or of the failed request.
pub fn classify_creation(response: Result<Vec<TopicResult>, String>) -> (r: Result<(), ClientError>)
    ensures
        creation_refusal(response_view(response)) is None <==> r is Ok,
        response is Ok ==> (r is Ok <==> forall|i: int|
            0 <= i < response->Ok_0@.len() ==> tolerated(#[trigger] response->Ok_0@[i])),
        r is Err ==> r->Err_0 is TopicCreateFailed
            && Some(r->Err_0->TopicCreateFailed_0@) == creation_refusal(response_view(response)),
{
    let results = match response {
        Ok(results) => results,
        Err(reason) => {
            return Err(ClientError::TopicCreateFailed(reason));
        },
    };
    assert(results@.subrange(0, results@.len() as int) =~= results@);
    let mut i: usize = 0;
    while i < results.len()
        invariant
            0 <= i <= results.len(),
            response_view(response) == Ok::<Seq<TopicResult>, Seq<char>>(results@),
            first_refusal(results@) == first_refusal(results@.subrange(i as int, results@.len() as int)),
        decreases results.len() - i,
    {
        proof {
            let rest = results@.subrange(i as int, results@.len() as int);
            assert(rest.drop_first() =~= results@.subrange(i + 1, results@.len() as int));
        }
        match &results[i] {
            Ok(_) => {},
            Err(CreateFailure::AlreadyExists) => {},
            Err(CreateFailure::Other(reason)) => {
                assert(results@.subrange(i as int, results@.len() as int)[0] == results@[i as int]);
                proof {
                    lemma_refusal_iff(results@);
                }
                return Err(ClientError::TopicCreateFailed(reason.clone()));
            },
        }
        i = i + 1;
    }
    assert(results@.subrange(i as int, results@.len() as int) =~= Seq::<TopicResult>::empty());
    proof {
        lemma_refusal_iff(results@);
    }
    Ok(())
}

/// Asking again for a topic that is in place succeeds: an answer in which every
/// topic was created or existed already never gives `TopicCreateFailed`, so a
/// second `ensure_topic` of the same name, answered "already exists", succeeds
/// as the first did.
pub proof fn law_repeated_creation_succeeds(first: Seq<TopicResult>, second: Seq<TopicResult>)
    requires
        forall|i: int| 0 <= i < first.len() ==> tolerated(first[i]),
        forall|i: int| 0 <= i < second.len() ==> (#[trigger] second[i]) is Err
            && second[i]->Err_0 is AlreadyExists,
    ensures
        creation_refusal(Ok(first)) is None,
        creation_refusal(Ok(second)) is None,
{
    lemma_all_tolerated(first);
    assert forall|i: int| 0 <= i < second.len() implies tolerated(second[i]) by {
        assert(second[i] is Err);
    }
    lemma_all_tolerated(second);
}

/// Answers that are all tolerated have no refusal.
pub proof fn lemma_all_tolerated(results: Seq<TopicResult>)
    requires
        forall|i: int| 0 <= i < results.len() ==> tolerated(results[i]),
    ensures
        first_refusal(results) is None,
    decreases results.len(),
{
    if results.len() > 0 {
        assert(tolerated(results[0]));
        assert forall|i: int| 0 <= i < results.drop_first().len() implies tolerated(results.drop_first()[i]) by {
            assert(tolerated(results[i + 1]));
        }
        lemma_all_tolerated(results.drop_first());
    }
}

/// There is a refusal exactly when some answer is not tolerated.
pub proof fn lemma_refusal_iff(results: Seq<TopicResult>)
    ensures
        first_refusal(results) is None <==> forall|i: int| 0 <= i < results.len() ==> tolerated(#[trigger] results[i]),
    decreases results.len(),
{
    if results.len() > 0 {
        lemma_refusal_iff(results.drop_first());
        if forall|i: int| 0 <= i < results.len() ==> tolerated(#[trigger] results[i]) {
            lemma_all_tolerated(results);
        }
        if first_refusal(results) is None {
            assert forall|i: int| 0 <= i < results.len() implies tolerated(#[trigger] results[i]) by {
                if i > 0 {
                    assert(results[i] == results.drop_first()[i - 1]);
                }
            }
        }
    }
}

/// Whether `name` is among the topic names reported by the broker.
pub fn topic_exists(names: &Vec<String>, name: &String) -> (r: bool)
    ensures
        r == exists|i: int| 0 <= i < names@.len() && (#[trigger] names@[i])@ == name@,
{
    let mut i: usize = 0;
    while i < names.len()
        invariant
            0 <= i <= names@.len(),
            forall|j: int| 0 <= j < i ==> (#[trigger] names@[j])@ != name@,
        decreases names.len() - i,
    {
        if names[i] == *name {
            return true;
        }
        i = i + 1;
    }
    false
}

} // verus!
