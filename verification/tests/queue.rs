use match_server::{matching_round, MatchQueue, MessageCommand, QueueType, ThreadMessageCommand};

#[test]
fn first_come_first_matched() {
    let mut q = MatchQueue::new();
    q.push(1);
    assert_eq!(q.try_match_2(), None);
    q.push(2);
    q.push(3);
    assert_eq!(q.try_match_2(), Some((1, 2)));
    assert_eq!(q.players, vec![3]);
}

#[test]
fn four_player_matches() {
    let mut q = MatchQueue::new();
    for p in 1..=5 {
        q.push(p);
    }
    assert_eq!(q.try_match_4(), Some((1, 2, 3, 4)));
    assert_eq!(q.try_match_4(), None);
    assert_eq!(q.players, vec![5]);
}

#[test]
fn removing_players() {
    let mut q = MatchQueue::new();
    for p in [7, 8, 7, 9] {
        q.push(p);
    }
    q.remove_player(7);
    assert_eq!(q.players, vec![8, 9]);
    q.remove_player(42);
    assert_eq!(q.players, vec![8, 9]);
}

#[test]
fn applying_commands() {
    let mut q2 = MatchQueue::new();
    let mut q4 = MatchQueue::new();
    q2.apply(QueueType::Two, &MessageCommand::AddPlayer2(5));
    q4.apply(QueueType::Four, &MessageCommand::AddPlayer2(5));
    q4.apply(QueueType::Four, &MessageCommand::AddPlayer4(6));
    assert_eq!(q2.players, vec![5]);
    assert_eq!(q4.players, vec![6]);
    q2.apply(QueueType::Two, &MessageCommand::RemovePlayer2(5));
    q4.apply(QueueType::Four, &MessageCommand::RemovePlayer4(6));
    assert!(q2.players.is_empty());
    assert!(q4.players.is_empty());
}

#[test]
fn matching_rounds() {
    let mut q2 = MatchQueue::new();
    let mut q4 = MatchQueue::new();
    for p in [1, 2, 3] {
        q2.push(p);
    }
    for p in [10, 11, 12] {
        q4.push(p);
    }
    let (two, four) = matching_round(&mut q2, &mut q4);
    assert_eq!(two, Some(ThreadMessageCommand::NewSession2(1, 2)));
    assert_eq!(four, None);
    q4.push(13);
    let (two, four) = matching_round(&mut q2, &mut q4);
    assert_eq!(two, None);
    assert_eq!(four, Some(ThreadMessageCommand::NewSession4(10, 11, 12, 13)));
    assert_eq!(q2.players, vec![3]);
    assert!(q4.players.is_empty());
}
