use tictactoe::{Entity, GameState};

#[test]
fn entity_default_is_empty() {
    assert_eq!(Entity::default(), Entity::Empty);
}

#[test]
fn entity_labels() {
    assert_eq!(Entity::Empty.as_str(), "-");
    assert_eq!(Entity::Human.as_str(), "O");
    assert_eq!(Entity::Computer.as_str(), "X");
}

#[test]
fn complement_swaps_the_players_and_keeps_empty() {
    assert_eq!(!Entity::Computer, Entity::Human);
    assert_eq!(!Entity::Human, Entity::Computer);
    assert_eq!(!Entity::Empty, Entity::Empty);
    assert_eq!(!!Entity::Computer, Entity::Computer);
}

#[test]
fn state_default_is_ready() {
    assert_eq!(GameState::default(), GameState::Ready);
}

#[test]
fn finished_phases() {
    assert!(GameState::Draw.is_finished());
    assert!(GameState::Win(Entity::Computer).is_finished());
    assert!(GameState::Win(Entity::Human).is_finished());
    assert!(!GameState::Ready.is_finished());
    assert!(!GameState::Playing(Entity::Human).is_finished());
    assert!(!GameState::Repeat(Entity::Computer).is_finished());
}

#[test]
fn playable_phases() {
    assert!(GameState::Playing(Entity::Computer).is_playable());
    assert!(GameState::Playing(Entity::Human).is_playable());
    assert!(GameState::Repeat(Entity::Human).is_playable());
    assert!(!GameState::Ready.is_playable());
    assert!(!GameState::Draw.is_playable());
    assert!(!GameState::Win(Entity::Human).is_playable());
}
