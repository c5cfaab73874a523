use vstd::prelude::*;

verus! {

/// An item of the shared queue: a job to run, or the signal for one worker
/// to stop.
pub enum Message<J> {
    NewJob(J),
    Terminate,
}

/// The jobs that a run of messages carries, in queue order.
pub open spec fn jobs_of<J>(s: Seq<Message<J>>) -> Seq<J>
    decreases s.len(),
{
    if s.len() == 0 {
        Seq::empty()
    } else {
        let rest = jobs_of(s.drop_last());
        match s.last() {
            Message::NewJob(j) => rest.push(j),
            Message::Terminate => rest,
        }
    }
}

/// How many terminate signals a run of messages holds.
pub open spec fn terminates_in<J>(s: Seq<Message<J>>) -> nat
    decreases s.len(),
{
    if s.len() == 0 {
        0
    } else {
        let rest = terminates_in(s.drop_last());
        match s.last() {
            Message::NewJob(_) => rest,
            Message::Terminate => rest + 1,
        }
    }
}

/// Every message of `s` is a terminate signal.
pub open spec fn all_terminates<J>(s: Seq<Message<J>>) -> bool {
    forall|i: int| 0 <= i < s.len() ==> (#[trigger] s[i]) is Terminate
}

/// Every message of `s` is a job.
pub open spec fn all_jobs<J>(s: Seq<Message<J>>) -> bool {
    forall|i: int| 0 <= i < s.len() ==> (#[trigger] s[i]) is NewJob
}

/// Both counts split over a concatenation.
pub proof fn lemma_concat<J>(a: Seq<Message<J>>, b: Seq<Message<J>>)
    ensures
        jobs_of(a + b) == jobs_of(a) + jobs_of(b),
        terminates_in(a + b) == terminates_in(a) + terminates_in(b),
    decreases b.len(),
{
    if b.len() == 0 {
        assert(a + b =~= a);
        assert(jobs_of(a) + jobs_of(b) =~= jobs_of(a));
    } else {
        lemma_concat(a, b.drop_last());
        assert((a + b).drop_last() =~= a + b.drop_last());
        assert((a + b).last() == b.last());
        match b.last() {
            Message::NewJob(j) => {
                assert(jobs_of(a + b) =~= jobs_of(a) + jobs_of(b));
            },
            Message::Terminate => {},
        }
    }
}

/// Splitting off the front message of a non-empty run.
pub proof fn lemma_front<J>(s: Seq<Message<J>>)
    requires
        s.len() > 0,
    ensures
        s[0] is Terminate ==> jobs_of(s) == jobs_of(s.drop_first())
            && terminates_in(s) == terminates_in(s.drop_first()) + 1,
        s[0] matches Message::NewJob(j) ==> jobs_of(s) == seq![j] + jobs_of(s.drop_first())
            && terminates_in(s) == terminates_in(s.drop_first()),
{
    let head = seq![s[0]];
    assert(s =~= head + s.drop_first());
    lemma_concat(head, s.drop_first());
    assert(head.drop_last() =~= Seq::<Message<J>>::empty());
    assert(head.last() == s[0]);
    assert(jobs_of(head.drop_last()) == Seq::<J>::empty());
    assert(terminates_in(head.drop_last()) == 0);
    if let Message::NewJob(j) = s[0] {
        assert(jobs_of(head) =~= seq![j]);
    }
}

/// A run of terminate signals carries no job.
pub proof fn lemma_all_terminates<J>(s: Seq<Message<J>>)
    requires
        all_terminates(s),
    ensures
        jobs_of(s) == Seq::<J>::empty(),
        terminates_in(s) == s.len(),
    decreases s.len(),
{
    if s.len() > 0 {
        lemma_all_terminates(s.drop_last());
        assert(s.last() == s[s.len() - 1]);
    }
}

/// A run of jobs holds no terminate signal.
pub proof fn lemma_all_jobs<J>(s: Seq<Message<J>>)
    requires
        all_jobs(s),
    ensures
        terminates_in(s) == 0,
        jobs_of(s).len() == s.len(),
    decreases s.len(),
{
    if s.len() > 0 {
        lemma_all_jobs(s.drop_last());
        assert(s.last() == s[s.len() - 1]);
    }
}

} // verus!
