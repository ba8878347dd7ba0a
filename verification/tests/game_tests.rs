use std::collections::VecDeque;
use tui_prac::game::{play_round, player_choice, thegameloop, vote, Card, Player};

fn table(n: usize) -> VecDeque<Player> {
    (0..n).map(|_| Player::default()).collect()
}

#[test]
fn every_player_agrees() {
    assert!(player_choice(&Player::default()));
    assert!(vote(&[Player::default()]));
    assert!(vote(&[Player::default(), Player::default(), Player::default()]));
}

#[test]
fn round_without_situation_does_nothing() {
    let mut players = table(2);
    let mut stack: Vec<Card> = Vec::new();
    assert_eq!(play_round(&mut players, &mut stack), None);
    assert_eq!(players.len(), 2);
}

#[test]
fn round_without_players_drops_the_situation() {
    let mut players = table(0);
    let mut stack = vec![Card, Card];
    assert_eq!(play_round(&mut players, &mut stack), None);
    assert_eq!(stack.len(), 1);
}

#[test]
fn round_is_voted_and_passed() {
    let mut players = table(3);
    let mut stack = vec![Card, Card];
    assert_eq!(play_round(&mut players, &mut stack), Some(true));
    assert_eq!(stack.len(), 1);
    assert_eq!(players.len(), 3);
}

#[test]
fn game_plays_every_situation() {
    let mut players = table(3);
    let mut stack = vec![Card; 5];
    let votes = thegameloop(&mut players, &mut stack);
    assert_eq!(votes, vec![true; 5]);
    assert!(stack.is_empty());
    assert_eq!(players.len(), 3);
}

#[test]
fn game_without_players_stops_at_once() {
    let mut players = table(0);
    let mut stack = vec![Card; 3];
    let votes = thegameloop(&mut players, &mut stack);
    assert!(votes.is_empty());
    assert_eq!(stack.len(), 2);
}

#[test]
fn new_player_holds_no_cards() {
    assert!(Player::default().hand().is_empty());
}
