use oppai::player::Player;
use oppai::server::{put_point_result, Effect, FieldSize, Game, GameSummary, Lobby, Request, RequestError};

const SIZE: FieldSize = FieldSize { width: 20, height: 15 };

#[test]
fn create_join_and_put_points() {
    let mut lobby = Lobby::new();
    assert_eq!(lobby.handle(1, Request::Create { game_id: 100, size: SIZE }), Ok(Effect::Nothing));
    assert_eq!(lobby.open_game_summaries(), vec![GameSummary { game_id: 100, size: SIZE }]);
    assert!(lobby.game_summaries().is_empty());
    let game = Game { red_player_id: 1, black_player_id: 2, size: SIZE };
    assert_eq!(
        lobby.handle(2, Request::Join { game_id: 100 }),
        Ok(Effect::GameStarted { game_id: 100, game })
    );
    assert!(lobby.open_game_summaries().is_empty());
    assert_eq!(lobby.game_summaries(), vec![GameSummary { game_id: 100, size: SIZE }]);
    assert_eq!(
        lobby.handle(1, Request::PutPoint { game_id: 100, x: 3, y: 4 }),
        Ok(Effect::PutPoint { game_id: 100, player: Player::Red, x: 3, y: 4 })
    );
    assert_eq!(
        lobby.handle(2, Request::PutPoint { game_id: 100, x: 5, y: 6 }),
        Ok(Effect::PutPoint { game_id: 100, player: Player::Black, x: 5, y: 6 })
    );
    assert_eq!(
        lobby.handle(3, Request::PutPoint { game_id: 100, x: 5, y: 6 }),
        Err(RequestError::PutPointNotAllowed)
    );
    assert_eq!(
        lobby.handle(1, Request::PutPoint { game_id: 101, x: 0, y: 0 }),
        Err(RequestError::NoGameToPutPoint)
    );
}

#[test]
fn joining_unknown_game_does_nothing() {
    let mut lobby = Lobby::new();
    assert_eq!(lobby.handle(2, Request::Join { game_id: 5 }), Ok(Effect::Nothing));
    assert_eq!(lobby.handle(2, Request::Subscribe { game_id: 5 }), Ok(Effect::Nothing));
    assert_eq!(lobby.handle(2, Request::Unsubscribe { game_id: 5 }), Ok(Effect::Nothing));
    assert!(lobby.open_game_summaries().is_empty());
    assert!(lobby.game_summaries().is_empty());
}

#[test]
fn joining_twice_starts_once() {
    let mut lobby = Lobby::new();
    lobby.handle(1, Request::Create { game_id: 7, size: SIZE }).unwrap();
    assert!(matches!(lobby.handle(2, Request::Join { game_id: 7 }), Ok(Effect::GameStarted { .. })));
    assert_eq!(lobby.handle(3, Request::Join { game_id: 7 }), Ok(Effect::Nothing));
}

#[test]
fn several_open_games_are_listed() {
    let mut lobby = Lobby::new();
    for id in 0..5u128 {
        lobby.handle(9, Request::Create { game_id: id, size: FieldSize { width: id as u32, height: 1 } }).unwrap();
    }
    let mut list = lobby.open_game_summaries();
    list.sort_by_key(|s| s.game_id);
    assert_eq!(list.len(), 5);
    for (i, s) in list.iter().enumerate() {
        assert_eq!(s.game_id, i as u128);
        assert_eq!(s.size.width, i as u32);
    }
}

#[test]
fn game_color_and_put_point_result() {
    let game = Game { red_player_id: 1, black_player_id: 2, size: SIZE };
    assert_eq!(game.color(1), Some(Player::Red));
    assert_eq!(game.color(2), Some(Player::Black));
    assert_eq!(game.color(3), None);
    let own = Game { red_player_id: 4, black_player_id: 4, size: SIZE };
    assert_eq!(own.color(4), Some(Player::Red));
    assert_eq!(put_point_result(true), Ok(()));
    assert_eq!(put_point_result(false), Err(RequestError::WrongPosition));
}

#[test]
fn error_messages() {
    assert_eq!(RequestError::PutPointNotAllowed.message(), "putting point is not allowed");
    assert_eq!(RequestError::NoGameToPutPoint.message(), "no game to put point");
    assert_eq!(RequestError::WrongPosition.message(), "putting point on a wrong position");
}

#[test]
fn player_from_bool() {
    assert_eq!(Player::from_bool(true), Player::Black);
    assert_eq!(Player::from_bool(false), Player::Red);
}

#[test]
fn refused_request_leaves_lobby_unchanged() {
    let mut lobby = Lobby::new();
    lobby.handle(1, Request::Create { game_id: 10, size: SIZE }).unwrap();
    lobby.handle(2, Request::Create { game_id: 11, size: SIZE }).unwrap();
    lobby.handle(3, Request::Join { game_id: 11 }).unwrap();
    let open_before = lobby.open_game_summaries();
    let games_before = lobby.game_summaries();
    assert!(lobby.handle(4, Request::PutPoint { game_id: 11, x: 1, y: 1 }).is_err());
    assert!(lobby.handle(4, Request::PutPoint { game_id: 10, x: 1, y: 1 }).is_err());
    assert_eq!(lobby.open_game_summaries(), open_before);
    assert_eq!(lobby.game_summaries(), games_before);
}
