use coolrouter::state::OracleVote;
use coolrouter::tally::{count_votes, pick_leader};

fn v(oracle: u8, h: u8) -> OracleVote {
    OracleVote { oracle: [oracle; 32], response_hash: [h; 32] }
}

#[test]
fn count_groups_in_first_seen_order() {
    let votes = vec![v(1, 7), v(2, 5), v(3, 7), v(4, 9), v(5, 5), v(6, 7)];
    let counts = count_votes(&votes);
    assert_eq!(counts, vec![([7; 32], 3), ([5; 32], 2), ([9; 32], 1)]);
}

#[test]
fn count_of_no_votes_is_empty() {
    assert!(count_votes(&Vec::new()).is_empty());
}

#[test]
fn leader_is_first_of_the_largest() {
    let counts = vec![([1u8; 32], 2u8), ([2u8; 32], 3u8), ([3u8; 32], 3u8), ([4u8; 32], 1u8)];
    assert_eq!(pick_leader(&counts), 1);
    let counts = vec![([1u8; 32], 4u8), ([2u8; 32], 4u8)];
    assert_eq!(pick_leader(&counts), 0);
    let counts = vec![([1u8; 32], 1u8)];
    assert_eq!(pick_leader(&counts), 0);
}
