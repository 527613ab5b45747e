//! The local record set: votes in insertion order, the id that the next
//! vote gets, and the two ways a set changes (a vote is added, a vote is
//! made public).

use vstd::prelude::*;

verus! {

/// Why the local votes could not be read.
#[derive(Debug, PartialEq, Eq, Structural)]
pub enum StoreError {
    /// The file is there and could not be read.
    Io,
    /// What the file holds is not a set of votes.
    Malformed,
}

/// What reading the file of local votes gave.
#[derive(Debug, PartialEq, Eq)]
pub enum FileRead {
    /// There is no such file.
    Absent,
    /// The file is there and could not be read.
    Unreadable,
    /// What the file holds is not a set of votes.
    Malformed,
    /// The votes that the file holds.
    Votes(Vec<Vote>),
}

/// One vote as the store holds it.
#[derive(Debug, PartialEq, Eq)]
pub struct Vote {
    pub id: usize,
    pub name: String,
    pub public: bool,
}

/// A vote as a mathematical value.
pub struct Record {
    pub id: nat,
    pub name: Seq<char>,
    pub public: bool,
}

impl View for Vote {
    type V = Record;

    open spec fn view(&self) -> Record {
        Record { id: self.id as nat, name: self.name@, public: self.public }
    }
}

impl Clone for Vote {
    fn clone(&self) -> (copy: Self)
        ensures
            copy == *self,
    {
        Vote { id: self.id, name: self.name.clone(), public: self.public }
    }
}

/// The record set that a vector of votes stands for: the same votes in the
/// same order.
pub open spec fn records(votes: Seq<Vote>) -> Seq<Record> {
    Seq::new(votes.len(), |i: int| votes[i]@)
}

/// The largest id in `s`, and 0 where `s` is empty.
pub open spec fn largest_id(s: Seq<Record>) -> nat
    decreases s.len(),
{
    if s.len() == 0 {
        0
    } else if s.last().id > largest_id(s.drop_last()) {
        s.last().id
    } else {
        largest_id(s.drop_last())
    }
}

/// The id that the next vote added to `s` gets: 0 in an empty set, else one
/// more than the largest id in it.
pub open spec fn next_id(s: Seq<Record>) -> nat {
    if s.len() == 0 {
        0
    } else {
        largest_id(s) + 1
    }
}

/// `s` after a vote named `name` was added: a private vote under the next
/// id, behind all the others.
pub open spec fn added(s: Seq<Record>, name: Seq<char>) -> Seq<Record> {
    s.push(Record { id: next_id(s), name, public: false })
}

/// `r` after the vote with id `id` was made public.
pub open spec fn published_record(r: Record, id: nat) -> Record {
    if r.id == id {
        Record { id: r.id, name: r.name, public: true }
    } else {
        r
    }
}

/// `s` after the vote with id `id` was made public: every record with that
/// id is public, every other record is as it was.
pub open spec fn published(s: Seq<Record>, id: nat) -> Seq<Record> {
    Seq::new(s.len(), |i: int| published_record(s[i], id))
}

/// The public records of `s`, in the order of `s`.
pub open spec fn public_records(s: Seq<Record>) -> Seq<Record> {
    s.filter(|r: Record| r.public)
}

/// No two records of `s` share an id.
pub open spec fn distinct_ids(s: Seq<Record>) -> bool {
    forall|i: int, j: int| 0 <= i < j < s.len() ==> s[i].id != s[j].id
}

/// `largest_id(s)` bounds every id in `s`, and is the id of one of its
/// records unless `s` is empty.
pub proof fn lemma_largest_id(s: Seq<Record>)
    ensures
        forall|i: int| 0 <= i < s.len() ==> (#[trigger] s[i]).id <= largest_id(s),
        s.len() > 0 ==> exists|i: int| 0 <= i < s.len() && (#[trigger] s[i]).id == largest_id(s),
    decreases s.len(),
{
    if s.len() > 0 {
        let rest = s.drop_last();
        lemma_largest_id(rest);
        assert forall|i: int| 0 <= i < s.len() implies (#[trigger] s[i]).id <= largest_id(s) by {
            if i < rest.len() {
                assert(rest[i] == s[i]);
            }
        }
        if s.last().id > largest_id(rest) {
            assert(s[s.len() - 1].id == largest_id(s));
        } else if rest.len() > 0 {
            let k = choose|k: int| 0 <= k < rest.len() && (#[trigger] rest[k]).id == largest_id(rest);
            assert(s[k] == rest[k]);
        } else {
            assert(s[s.len() - 1].id == largest_id(s));
        }
    }
}

/// The local votes, given what reading their file gave. A file that is not
/// there stands for the empty set; one that could not be read, or holds
/// something else, is an error.
pub fn read_local_votes(file: FileRead) -> (votes: Result<Vec<Vote>, StoreError>)
    ensures
        match file {
            FileRead::Absent => votes matches Ok(v) && v@.len() == 0,
            FileRead::Unreadable => votes == Err::<Vec<Vote>, StoreError>(StoreError::Io),
            FileRead::Malformed => votes == Err::<Vec<Vote>, StoreError>(StoreError::Malformed),
            FileRead::Votes(v) => votes == Ok::<Vec<Vote>, StoreError>(v),
        },
{
    match file {
        FileRead::Absent => Ok(Vec::new()),
        FileRead::Unreadable => Err(StoreError::Io),
        FileRead::Malformed => Err(StoreError::Malformed),
        FileRead::Votes(v) => Ok(v),
    }
}

/// The id that the next vote added to `votes` gets, or `None` where that id
/// is beyond `usize`.
pub fn next_vote_id(votes: &Vec<Vote>) -> (id: Option<usize>)
    ensures
        match id {
            Some(n) => n == next_id(records(votes@)),
            None => next_id(records(votes@)) > usize::MAX,
        },
{
    let ghost s = records(votes@);
    let mut largest: usize = 0;
    let mut i: usize = 0;
    while i < votes.len()
        invariant
            i <= votes.len(),
            s == records(votes@),
            largest == largest_id(s.take(i as int)),
        decreases votes.len() - i,
    {
        proof {
            assert(s.take(i + 1).drop_last() == s.take(i as int));
            assert(s.take(i + 1).last() == votes@[i as int]@);
        }
        if votes[i].id > largest {
            largest = votes[i].id;
        }
        i = i + 1;
    }
    proof {
        assert(s.take(votes.len() as int) == s);
    }
    if votes.len() == 0 {
        Some(0)
    } else {
        largest.checked_add(1)
    }
}

/// Adds a private vote named `name` under the next id, behind the votes
/// already there, and returns it. The new id is greater than every id that
/// was in the set.
pub fn add_vote(votes: &mut Vec<Vote>, name: &str) -> (vote: Vote)
    requires
        next_id(records(old(votes)@)) <= usize::MAX,
    ensures
        records(final(votes)@) == added(records(old(votes)@), name@),
        next_id(records(final(votes)@)) == next_id(records(old(votes)@)) + 1,
        vote@ == (Record { id: next_id(records(old(votes)@)), name: name@, public: false }),
        forall|i: int| 0 <= i < old(votes)@.len() ==> (#[trigger] old(votes)@[i]).id < vote.id,
        forall|i: int| 0 <= i < old(votes)@.len() ==> final(votes)@[i] == old(votes)@[i],
        distinct_ids(records(old(votes)@)) ==> distinct_ids(records(final(votes)@)),
{
    let id = match next_vote_id(votes) {
        Some(n) => n,
        None => 0,
    };
    let vote = Vote { id, name: name.to_owned(), public: false };
    proof {
        lemma_largest_id(records(votes@));
        assert forall|i: int| 0 <= i < votes@.len() implies (#[trigger] votes@[i]).id < id by {
            assert(records(votes@)[i].id <= largest_id(records(votes@)));
        }
        lemma_add_raises_next_id(records(votes@), name@);
        lemma_add_keeps_ids_distinct(records(votes@), name@);
    }
    votes.push(vote.clone());
    proof {
        assert(records(votes@) =~= added(records(old(votes)@), name@));
    }
    vote
}

/// Makes the vote with id `id` public. Every other vote stays as it was;
/// where no vote has that id, so does the whole set.
pub fn publish_vote(votes: &mut Vec<Vote>, id: usize)
    ensures
        records(final(votes)@) == published(records(old(votes)@), id as nat),
        final(votes)@.len() == old(votes)@.len(),
        forall|i: int| 0 <= i < old(votes)@.len() && old(votes)@[i].id != id
            ==> #[trigger] final(votes)@[i] == old(votes)@[i],
        distinct_ids(records(old(votes)@)) ==> distinct_ids(records(final(votes)@)),
{
    proof {
        lemma_publish_changes_only_matching(records(votes@), id as nat);
    }
    let mut i: usize = 0;
    while i < votes.len()
        invariant
            i <= votes.len(),
            votes@.len() == old(votes)@.len(),
            forall|k: int| 0 <= k < i ==> (#[trigger] votes@[k])@ == published_record(old(votes)@[k]@, id as nat),
            forall|k: int| 0 <= k < i && old(votes)@[k].id != id ==> #[trigger] votes@[k] == old(votes)@[k],
            forall|k: int| i <= k < votes@.len() ==> #[trigger] votes@[k] == old(votes)@[k],
        decreases votes.len() - i,
    {
        if votes[i].id == id {
            votes[i].public = true;
        }
        i = i + 1;
    }
}

/// The public votes of `votes`, in their order.
pub fn public_votes(votes: &Vec<Vote>) -> (chosen: Vec<Vote>)
    ensures
        records(chosen@) == public_records(records(votes@)),
{
    let ghost s = records(votes@);
    let mut chosen: Vec<Vote> = Vec::new();
    let mut i: usize = 0;
    proof {
        assert(s.take(0).filter(|r: Record| r.public) == Seq::<Record>::empty());
    }
    while i < votes.len()
        invariant
            i <= votes.len(),
            s == records(votes@),
            records(chosen@) == public_records(s.take(i as int)),
        decreases votes.len() - i,
    {
        proof {
            let head = s.take(i as int);
            assert(s.take(i + 1) == head.push(s[i as int]));
            lemma_filter_push(head, s[i as int]);
        }
        if votes[i].public {
            let ghost before = records(chosen@);
            chosen.push(votes[i].clone());
            proof {
                assert(records(chosen@) == before.push(s[i as int]));
            }
        }
        i = i + 1;
    }
    proof {
        assert(s.take(votes.len() as int) == s);
    }
    chosen
}

/// The public records of `s` with one more record behind it.
pub proof fn lemma_filter_push(s: Seq<Record>, r: Record)
    ensures
        public_records(s.push(r)) == if r.public {
            public_records(s).push(r)
        } else {
            public_records(s)
        },
{
    assert(s.push(r).drop_last() == s);
    reveal_with_fuel(Seq::filter, 2);
}

/// Adding a vote raises the next id by one: votes added one after another
/// get ids that strictly increase.
pub proof fn lemma_add_raises_next_id(s: Seq<Record>, name: Seq<char>)
    ensures
        next_id(added(s, name)) == next_id(s) + 1,
{
    let t = added(s, name);
    assert(t.drop_last() == s);
    lemma_largest_id(s);
}

/// The id of an added vote is greater than every id that was in the set, so
/// a set in which no two votes share an id stays one.
pub proof fn lemma_add_keeps_ids_distinct(s: Seq<Record>, name: Seq<char>)
    ensures
        forall|i: int| 0 <= i < s.len() ==> (#[trigger] s[i]).id < added(s, name).last().id,
        distinct_ids(s) ==> distinct_ids(added(s, name)),
{
    lemma_largest_id(s);
    let t = added(s, name);
    assert forall|i: int| 0 <= i < s.len() implies (#[trigger] s[i]).id < t.last().id by {}
    if distinct_ids(s) {
        assert forall|i: int, j: int| 0 <= i < j < t.len() implies t[i].id != t[j].id by {
            if j < s.len() {
                assert(t[i] == s[i] && t[j] == s[j]);
            } else {
                assert(t[i] == s[i]);
                assert(s[i].id < t.last().id);
            }
        }
    }
}

/// `s` after votes with the names `names` were added to it, one after
/// another.
pub open spec fn added_all(s: Seq<Record>, names: Seq<Seq<char>>) -> Seq<Record>
    decreases names.len(),
{
    if names.len() == 0 {
        s
    } else {
        added(added_all(s, names.drop_last()), names.last())
    }
}

/// Votes added one after another stand behind the votes that were there, in
/// the order in which they were added, each private and under an id one
/// greater than that of the vote added before it: the ids strictly increase
/// in the order of assignment, each is greater than every id that was in the
/// set, and where no two votes shared an id, none do afterwards.
pub proof fn lemma_adds_assign_increasing_ids(s: Seq<Record>, names: Seq<Seq<char>>)
    ensures
        added_all(s, names).len() == s.len() + names.len(),
        next_id(added_all(s, names)) == next_id(s) + names.len(),
        forall|i: int| 0 <= i < s.len() ==> (#[trigger] added_all(s, names)[i]) == s[i],
        forall|k: int|
            0 <= k < names.len() ==> (#[trigger] added_all(s, names)[s.len() + k]) == (Record {
                id: next_id(s) + k as nat,
                name: names[k],
                public: false,
            }),
        forall|i: int, k: int|
            0 <= i < s.len() && 0 <= k < names.len() ==> (#[trigger] s[i]).id < (
            #[trigger] added_all(s, names)[s.len() + k]).id,
        forall|j: int, k: int|
            0 <= j < k < names.len() ==> (#[trigger] added_all(s, names)[s.len() + j]).id < (
            #[trigger] added_all(s, names)[s.len() + k]).id,
        distinct_ids(s) ==> distinct_ids(added_all(s, names)),
    decreases names.len(),
{
    let t = added_all(s, names);
    lemma_largest_id(s);
    if names.len() > 0 {
        let head = names.drop_last();
        let u = added_all(s, head);
        lemma_adds_assign_increasing_ids(s, head);
        lemma_add_raises_next_id(u, names.last());
        lemma_add_keeps_ids_distinct(u, names.last());
        assert forall|i: int| 0 <= i < s.len() implies (#[trigger] t[i]) == s[i] by {
            assert(t[i] == u[i]);
        }
        assert forall|k: int| 0 <= k < names.len() implies (#[trigger] t[s.len() + k]) == (Record {
            id: next_id(s) + k as nat,
            name: names[k],
            public: false,
        }) by {
            if k < head.len() {
                assert(t[s.len() + k] == u[s.len() + k]);
                assert(head[k] == names[k]);
            }
        }
    }
    assert forall|i: int, k: int| 0 <= i < s.len() && 0 <= k < names.len() implies (#[trigger] s[i]).id
        < (#[trigger] t[s.len() + k]).id by {
        assert(s[i].id <= largest_id(s));
    }
}

/// Making a vote public changes the votes with that id and no other: the
/// set keeps its length and its order, a vote with that id keeps its id and
/// its name and is public, and every other vote is as it was. No id
/// changes, so a set in which no two votes share an id stays one.
pub proof fn lemma_publish_changes_only_matching(s: Seq<Record>, id: nat)
    ensures
        published(s, id).len() == s.len(),
        forall|i: int| 0 <= i < s.len() ==> (#[trigger] published(s, id)[i]).id == s[i].id,
        distinct_ids(s) ==> distinct_ids(published(s, id)),
        forall|i: int|
            0 <= i < s.len() && s[i].id == id ==> (#[trigger] published(s, id)[i]) == (Record {
                id: s[i].id,
                name: s[i].name,
                public: true,
            }),
        forall|i: int| 0 <= i < s.len() && s[i].id != id ==> (#[trigger] published(s, id)[i]) == s[i],
{
}

/// Making public a vote that the set does not hold changes nothing.
pub proof fn lemma_publish_unknown_id(s: Seq<Record>, id: nat)
    requires
        forall|i: int| 0 <= i < s.len() ==> (#[trigger] s[i]).id != id,
    ensures
        published(s, id) == s,
{
    assert(published(s, id) =~= s);
}

/// A vote that is public stays public, whatever is added or made public
/// after it.
pub proof fn lemma_public_stays_public(s: Seq<Record>, id: nat, name: Seq<char>)
    ensures
        forall|i: int| 0 <= i < s.len() && s[i].public ==> (#[trigger] published(s, id)[i]).public,
        forall|i: int| 0 <= i < s.len() ==> (#[trigger] added(s, name)[i]) == s[i],
{
}

} // verus!
