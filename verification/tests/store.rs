use vote_gossip::record::{
    add_vote, next_vote_id, public_votes, publish_vote, read_local_votes, FileRead, StoreError, Vote,
};

fn vote(id: usize, name: &str, public: bool) -> Vote {
    Vote { id, name: name.to_string(), public }
}

#[test]
fn add_to_empty_store_assigns_id_zero() {
    let mut votes: Vec<Vote> = Vec::new();
    let added = add_vote(&mut votes, "Rust");
    assert_eq!(added, vote(0, "Rust", false));
    assert_eq!(votes, vec![vote(0, "Rust", false)]);
}

#[test]
fn added_ids_strictly_increase() {
    let mut votes: Vec<Vote> = Vec::new();
    let first = add_vote(&mut votes, "Elm");
    let second = add_vote(&mut votes, "Rust");
    let third = add_vote(&mut votes, "Elm");
    assert_eq!((first.id, second.id, third.id), (0, 1, 2));
    assert_eq!(
        votes,
        vec![vote(0, "Elm", false), vote(1, "Rust", false), vote(2, "Elm", false)]
    );
}

#[test]
fn next_id_is_one_more_than_the_largest() {
    let mut votes = vec![vote(5, "Go", true), vote(2, "Lua", false)];
    assert_eq!(next_vote_id(&votes), Some(6));
    let added = add_vote(&mut votes, "Ruby");
    assert_eq!(added, vote(6, "Ruby", false));
    assert_eq!(
        votes,
        vec![vote(5, "Go", true), vote(2, "Lua", false), vote(6, "Ruby", false)]
    );
    assert_eq!(next_vote_id(&votes), Some(7));
}

#[test]
fn next_id_of_an_empty_store_is_zero() {
    assert_eq!(next_vote_id(&Vec::new()), Some(0));
}

#[test]
fn next_id_of_a_store_with_only_id_zero_is_one() {
    assert_eq!(next_vote_id(&vec![vote(0, "R", false)]), Some(1));
}

#[test]
fn next_id_beyond_the_machine_is_none() {
    let votes = vec![vote(1, "Dart", false), vote(usize::MAX, "Java", false)];
    assert_eq!(next_vote_id(&votes), None);
}

#[test]
fn added_id_is_new_where_ids_were_distinct() {
    let mut votes = vec![vote(3, "a", false), vote(9, "b", true), vote(4, "c", false)];
    let added = add_vote(&mut votes, "d");
    assert_eq!(added.id, 10);
    assert_eq!(votes.iter().filter(|v| v.id == added.id).count(), 1);
}

#[test]
fn publish_changes_only_the_matching_vote() {
    let mut votes = vec![vote(0, "A", false), vote(1, "B", false), vote(2, "C", true)];
    publish_vote(&mut votes, 1);
    assert_eq!(votes, vec![vote(0, "A", false), vote(1, "B", true), vote(2, "C", true)]);
}

#[test]
fn publish_of_an_unknown_id_changes_nothing() {
    let mut votes = vec![vote(0, "A", false), vote(1, "B", true)];
    publish_vote(&mut votes, 7);
    assert_eq!(votes, vec![vote(0, "A", false), vote(1, "B", true)]);
    let mut none: Vec<Vote> = Vec::new();
    publish_vote(&mut none, 0);
    assert!(none.is_empty());
}

#[test]
fn publish_never_hides_a_vote() {
    let mut votes = vec![vote(0, "A", true), vote(1, "B", false)];
    publish_vote(&mut votes, 0);
    publish_vote(&mut votes, 0);
    assert_eq!(votes, vec![vote(0, "A", true), vote(1, "B", false)]);
}

#[test]
fn publish_reaches_every_vote_with_the_id() {
    let mut votes = vec![vote(4, "A", false), vote(1, "B", false), vote(4, "C", false)];
    publish_vote(&mut votes, 4);
    assert_eq!(votes, vec![vote(4, "A", true), vote(1, "B", false), vote(4, "C", true)]);
}

#[test]
fn public_votes_keep_their_order() {
    let votes = vec![vote(0, "A", true), vote(1, "B", false), vote(2, "C", true)];
    assert_eq!(public_votes(&votes), vec![vote(0, "A", true), vote(2, "C", true)]);
    assert_eq!(votes.len(), 3);
}

#[test]
fn public_votes_of_private_votes_are_none() {
    assert!(public_votes(&vec![vote(0, "A", false)]).is_empty());
    assert!(public_votes(&Vec::new()).is_empty());
}

#[test]
fn a_missing_file_is_an_empty_store() {
    assert_eq!(read_local_votes(FileRead::Absent), Ok(Vec::new()));
}

#[test]
fn an_unreadable_file_is_an_error() {
    assert_eq!(read_local_votes(FileRead::Unreadable), Err(StoreError::Io));
}

#[test]
fn a_malformed_file_is_an_error() {
    assert_eq!(read_local_votes(FileRead::Malformed), Err(StoreError::Malformed));
}

#[test]
fn a_decoded_file_gives_its_votes() {
    let votes = vec![vote(2, "Kotlin", true), vote(0, "Swift", false)];
    assert_eq!(
        read_local_votes(FileRead::Votes(votes)),
        Ok(vec![vote(2, "Kotlin", true), vote(0, "Swift", false)])
    );
}

#[test]
fn cloned_vote_equals_its_source() {
    let source = vote(11, "Haskell", true);
    assert_eq!(source.clone(), source);
}
