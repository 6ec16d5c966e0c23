//! Room and roster tests: join admission in unrestricted and restricted
//! rooms, name reuse on re-join, and the roster operations.

use wolfsheep::player::{num_to_player_mode, player_mode_to_num, Player, PlayerList, PlayerMode};
use wolfsheep::server::ServerInstance;
use wolfsheep::protocol::MsgGameState;
use wolfsheep::room::{GameRules, JoinError, RoomRegistry, ServerRoom};

struct FixedRules;

impl GameRules for FixedRules {
    fn reset(&mut self, _force: bool) {}

    fn apply_move(
        &mut self,
        _mode: PlayerMode,
        _action: u32,
        _token: u32,
        _x: u32,
        _y: u32,
    ) -> Result<(), String> {
        Ok(())
    }

    fn serialize_state(&self) -> MsgGameState {
        MsgGameState::new(vec![0; 35], 0, 0, 0, 0)
    }

    fn merge_state(&mut self, _msg: &MsgGameState, _force: bool) -> Result<bool, String> {
        Ok(true)
    }

    fn recorded_moves_as_text(&self) -> String {
        String::new()
    }
}

fn room(name: &str, restricted: bool) -> ServerRoom<FixedRules> {
    ServerRoom::new(name.to_string(), FixedRules, restricted)
}

#[test]
fn join_exclusivity() {
    // Unrestricted: two wolves may share a room.
    let mut unrestricted = room("default", false);
    assert!(unrestricted.add_player("A", PlayerMode::Wolf).is_ok());
    assert!(unrestricted.add_player("B", PlayerMode::Wolf).is_ok());

    // Restricted: the second wolf is refused, a sheep is fine.
    let mut restricted = room("default", true);
    assert!(restricted.add_player("A", PlayerMode::Wolf).is_ok());
    assert_eq!(
        restricted.add_player("B", PlayerMode::Wolf),
        Err(JoinError::ModeTaken)
    );
    assert!(restricted.add_player("B", PlayerMode::Sheep).is_ok());
    // The combined mode is refused outright in a restricted room.
    assert_eq!(
        restricted.add_player("C", PlayerMode::Both),
        Err(JoinError::RestrictedBoth)
    );
    // Spectators are always admitted.
    assert!(restricted.add_player("C", PlayerMode::Spectator).is_ok());
}

#[test]
fn join_name_taken() {
    let mut r = room("r", false);
    assert!(r.add_player("A", PlayerMode::Wolf).is_ok());
    assert_eq!(r.add_player("A", PlayerMode::Sheep), Err(JoinError::NameTaken));
    // The check may ignore the caller's own entry while it re-joins.
    assert!(r.can_add_player("A", PlayerMode::Sheep, Some("A")).is_ok());
    assert!(r.can_add_player("A", PlayerMode::Sheep, None).is_err());
}

#[test]
fn roster_operations() {
    let mut list = PlayerList::new(Vec::new());
    assert!(list.is_empty());
    list.add_player(Player::new("wanda".to_string(), PlayerMode::Wolf, false));
    list.add_player(Player::new("sam".to_string(), PlayerMode::Sheep, false));
    list.add_player(Player::new("walt".to_string(), PlayerMode::Wolf, false));
    assert_eq!(list.count(), 3);
    assert_eq!(
        list.find_player_by_name("sam").map(|p| p.mode),
        Some(PlayerMode::Sheep)
    );
    assert!(list.find_player_by_name("SAM").is_none());
    let wolves = list.find_players_by_mode(PlayerMode::Wolf);
    assert_eq!(wolves.len(), 2);
    assert_eq!(wolves[0].name, "wanda");
    assert_eq!(wolves[1].name, "walt");
    list.remove_player_by_name("wanda");
    assert_eq!(list.count(), 2);
    assert!(list.find_player_by_name("wanda").is_none());

    let mut names = Vec::new();
    let mut iter = list.iter();
    while let Some(p) = iter.next() {
        names.push(p.name.clone());
    }
    assert_eq!(names, vec!["sam".to_string(), "walt".to_string()]);

    list.resize(4, || Player::new("pad".to_string(), PlayerMode::Spectator, false));
    assert_eq!(list.count(), 4);
    list.set_player(0, Player::new("first".to_string(), PlayerMode::Both, true));
    assert_eq!(list.players[0].name, "first");
    list.resize(1, || Player::new("pad".to_string(), PlayerMode::Spectator, false));
    assert_eq!(list.count(), 1);
    assert_eq!(list.players[0].name, "first");
}

#[test]
fn list_messages_are_sorted_by_name() {
    // The generated roster and room lists come out sorted by name; they
    // would stay in insertion order if the sorting step handed its input
    // back unchanged.
    let handler = ServerInstance::new();
    let mut r = room("r", false);
    r.add_player("zoe", PlayerMode::Sheep).unwrap();
    r.add_player("abe", PlayerMode::Wolf).unwrap();
    r.add_player("mia", PlayerMode::Spectator).unwrap();
    let msgs = handler.gen_player_list_msgs(&r).unwrap();
    assert_eq!(msgs.len(), 3);
    assert_eq!(msgs[0].get_player_name().unwrap(), "abe");
    assert_eq!(msgs[1].get_player_name().unwrap(), "mia");
    assert_eq!(msgs[2].get_player_name().unwrap(), "zoe");
    assert_eq!(msgs[0].get_total_count(), 3);
    assert_eq!(msgs[2].get_index(), 2);

    let mut registry: RoomRegistry<FixedRules> = RoomRegistry::new();
    registry.open_room(room("zulu", false)).unwrap();
    registry.open_room(room("alpha", false)).unwrap();
    registry.open_room(room("mike", false)).unwrap();
    let msgs = handler.gen_room_list_msgs(&registry).unwrap();
    assert_eq!(msgs.len(), 3);
    assert_eq!(msgs[0].get_room_name().unwrap(), "alpha");
    assert_eq!(msgs[1].get_room_name().unwrap(), "mike");
    assert_eq!(msgs[2].get_room_name().unwrap(), "zulu");
}

#[test]
fn registry_open_and_find() {
    let mut registry: RoomRegistry<FixedRules> = RoomRegistry::new();
    assert!(registry.open_room(room("lobby", false)).is_ok());
    assert!(registry.open_room(room("attic", false)).is_ok());
    // A duplicate name is refused.
    assert_eq!(registry.open_room(room("lobby", false)), Err(JoinError::NameTaken));
    assert_eq!(registry.room_count(), 2);
    assert_eq!(registry.find_room("attic"), Some(1));
    assert_eq!(registry.find_room("cellar"), None);
    let names: Vec<String> = registry.room_names();
    assert_eq!(names, vec!["lobby".to_string(), "attic".to_string()]);
}

#[test]
fn player_mode_numbers() {
    for mode in [
        PlayerMode::Spectator,
        PlayerMode::Wolf,
        PlayerMode::Sheep,
        PlayerMode::Both,
    ] {
        let n = player_mode_to_num(mode);
        assert_eq!(num_to_player_mode(n).unwrap(), mode);
    }
    assert_eq!(player_mode_to_num(PlayerMode::Spectator), 0);
    assert_eq!(player_mode_to_num(PlayerMode::Wolf), 1);
    assert_eq!(player_mode_to_num(PlayerMode::Sheep), 2);
    assert_eq!(player_mode_to_num(PlayerMode::Both), 3);
    assert!(num_to_player_mode(4).is_err());
}

#[test]
fn room_full() {
    let mut r = room("r", false);
    for i in 0..1024 {
        assert!(r.add_player(&format!("p{}", i), PlayerMode::Spectator).is_ok());
    }
    assert_eq!(
        r.add_player("one-too-many", PlayerMode::Spectator),
        Err(JoinError::RoomFull)
    );
    assert_eq!(r.get_player_list_ref().count(), 1024);
}
