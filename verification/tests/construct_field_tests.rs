use oppai::construct_field::{construct_field, is_field_image, Move};
use oppai::player::Player;

fn mv(player: Player, x: u32, y: u32) -> Move {
    Move { player, x, y }
}

const FORK: &str = "
    ......
    .aa...
    .AA...
    .aaAa.
    ......
    ";

#[test]
fn fork_image_size_and_moves() {
    assert!(is_field_image(FORK));
    let f = construct_field(FORK);
    assert_eq!(f.width, 6);
    assert_eq!(f.height, 5);
    assert_eq!(
        f.moves,
        vec![
            mv(Player::Black, 1, 2),
            mv(Player::Black, 2, 2),
            mv(Player::Black, 3, 3),
            mv(Player::Red, 1, 1),
            mv(Player::Red, 2, 1),
            mv(Player::Red, 1, 3),
            mv(Player::Red, 2, 3),
            mv(Player::Red, 4, 3),
        ]
    );
}

#[test]
fn moves_sorted_by_letter_then_case_then_reading_order() {
    let image = "bB\nAa\nab";
    let f = construct_field(image);
    assert_eq!(f.width, 2);
    assert_eq!(f.height, 3);
    assert_eq!(
        f.moves,
        vec![
            mv(Player::Black, 0, 1),
            mv(Player::Red, 1, 1),
            mv(Player::Red, 0, 2),
            mv(Player::Black, 1, 0),
            mv(Player::Red, 0, 0),
            mv(Player::Red, 1, 2),
        ]
    );
}

#[test]
fn benchmark_image_is_read() {
    let image = "
    .............
    .............
    ...aAa.......
    ..AAa...A....
    ..Aa...A..a..
    ..Aaa.AA.a...
    ..AaaaaAa....
    ..AAa.Aaa....
    ..aaAA.A.....
    .............
    .............
    ";
    let f = construct_field(image);
    assert_eq!(f.width, 13);
    assert_eq!(f.height, 11);
    let black = f.moves.iter().filter(|m| m.player == Player::Black).count();
    let red = f.moves.iter().filter(|m| m.player == Player::Red).count();
    assert_eq!(black, 17);
    assert_eq!(red, 18);
    assert_eq!(f.moves[0], mv(Player::Black, 4, 2));
    assert_eq!(f.moves[17], mv(Player::Red, 3, 2));
    assert!(f.moves.iter().all(|m| m.x < f.width && m.y < f.height));
}

#[test]
fn lines_are_trimmed_and_empty_lines_skipped() {
    let f = construct_field("  \n  .a  \n\n   \n  B.\n");
    assert_eq!(f.width, 2);
    assert_eq!(f.height, 2);
    assert_eq!(f.moves, vec![mv(Player::Red, 1, 0), mv(Player::Black, 0, 1)]);
}

#[test]
fn non_letters_are_empty_points() {
    let f = construct_field("1a#\nZ?%");
    assert_eq!(f.height, 2);
    assert_eq!(f.width, 3);
    assert_eq!(f.moves, vec![mv(Player::Red, 1, 0), mv(Player::Black, 0, 1)]);
}

#[test]
fn width_counts_bytes() {
    assert!(is_field_image("é\nab"));
    let f = construct_field("é\nab");
    assert_eq!(f.width, 2);
    assert_eq!(f.height, 2);
}

#[test]
fn unusable_images() {
    assert!(!is_field_image(""));
    assert!(!is_field_image("   \n \n"));
    assert!(!is_field_image("...\n.."));
    assert!(!is_field_image("é\nabc"));
    assert!(is_field_image("\t.\n.."));
}

#[test]
fn second_benchmark_image_is_read() {
    let image = "
    .......
    ...a...
    .......
    ..Aa.A.
    .A...A.
    .AaaaA.
    ..AAAa.
    .....a.
    .......
    ";
    let f = construct_field(image);
    assert_eq!(f.width, 7);
    assert_eq!(f.height, 9);
    assert_eq!(
        f.moves,
        vec![
            mv(Player::Black, 2, 3),
            mv(Player::Black, 5, 3),
            mv(Player::Black, 1, 4),
            mv(Player::Black, 5, 4),
            mv(Player::Black, 1, 5),
            mv(Player::Black, 5, 5),
            mv(Player::Black, 2, 6),
            mv(Player::Black, 3, 6),
            mv(Player::Black, 4, 6),
            mv(Player::Red, 3, 1),
            mv(Player::Red, 3, 3),
            mv(Player::Red, 2, 5),
            mv(Player::Red, 3, 5),
            mv(Player::Red, 4, 5),
            mv(Player::Red, 5, 6),
            mv(Player::Red, 5, 7),
        ]
    );
}
