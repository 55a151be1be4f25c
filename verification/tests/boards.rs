use seqtools::combinations::combinations;
use seqtools::comm::common_lines;
use seqtools::conway::{Cell, GameOfLife, Grid};
use seqtools::prefix::longest_common_prefix;
use seqtools::puzzle::{is_solvable, solve, Board, Tile};
use seqtools::trust::{
    Action, Agent, CheatingAgent, CooperatingAgent, CopycatAgent, DetectiveAgent, Game,
    GrudgerAgent, RoundOutcome,
};

#[test]
fn combinations_of_three_choose_two() {
    let r = combinations(&[1, 2, 3], 2);
    assert_eq!(r, vec![vec![1, 2], vec![1, 3], vec![2, 3]]);
}

#[test]
fn combinations_choose_zero_is_the_empty_combination() {
    assert_eq!(combinations(&[1, 2], 0), vec![Vec::<i32>::new()]);
}

#[test]
fn combinations_choose_more_than_available_is_empty() {
    assert_eq!(combinations(&[1, 2], 3), Vec::<Vec<i32>>::new());
}

#[test]
fn grid_new_is_all_default_cells() {
    let g: Grid<Cell> = Grid::new(2, 3);
    assert_eq!(g.size(), (2, 3));
    for r in 0..2 {
        for c in 0..3 {
            assert_eq!(*g.get(r, c), Cell::Dead);
        }
    }
}

#[test]
fn grid_set_and_neighbours() {
    let mut g: Grid<Cell> = Grid::new(3, 3);
    g.set(Cell::Alive, 1, 1);
    assert_eq!(*g.get(1, 1), Cell::Alive);
    assert_eq!(g.neighbours(0, 0), vec![(0, 1), (1, 0), (1, 1)]);
    assert_eq!(
        g.neighbours(1, 1),
        vec![(0, 0), (0, 1), (0, 2), (1, 0), (1, 2), (2, 0), (2, 1), (2, 2)]
    );
}

#[test]
fn game_of_life_blinker_oscillates() {
    let d = Cell::Dead;
    let a = Cell::Alive;
    let start = [d, a, d, d, a, d, d, a, d];
    let grid = Grid::from_slice(&start, 3, 3);
    let mut game = GameOfLife::from_grid(grid);
    game.step();
    let expect = [d, d, d, a, a, a, d, d, d];
    for r in 0..3 {
        for c in 0..3 {
            assert_eq!(*game.get_grid().get(r, c), expect[r * 3 + c]);
        }
    }
    game.step();
    for r in 0..3 {
        for c in 0..3 {
            assert_eq!(*game.get_grid().get(r, c), start[r * 3 + c]);
        }
    }
}

#[test]
fn copycat_against_cheater() {
    let mut game = Game::new(CopycatAgent::default(), CheatingAgent::default());
    assert_eq!(game.play_round(), RoundOutcome::RightCheated);
    assert_eq!(game.left_score(), -1);
    assert_eq!(game.right_score(), 3);
    assert_eq!(game.play_round(), RoundOutcome::BothCheated);
    assert_eq!(game.play_round(), RoundOutcome::BothCheated);
    assert_eq!(game.left_score(), -1);
    assert_eq!(game.right_score(), 3);
}

#[test]
fn grudger_against_cooperator_stays_friendly() {
    let mut game = Game::new(GrudgerAgent::default(), CooperatingAgent::default());
    for _ in 0..4 {
        assert_eq!(game.play_round(), RoundOutcome::BothCooperated);
    }
    assert_eq!(game.left_score(), 8);
    assert_eq!(game.right_score(), 8);
}

#[test]
fn grudger_never_forgives() {
    let mut grudger = GrudgerAgent::default();
    assert_eq!(grudger.play(None), Action::Cooperate);
    assert_eq!(grudger.play(Some(Action::Cheat)), Action::Cheat);
    assert_eq!(grudger.play(Some(Action::Cooperate)), Action::Cheat);
    assert_eq!(grudger.play(Some(Action::Cooperate)), Action::Cheat);
}

#[test]
fn detective_probes_then_exploits_the_meek() {
    let mut game = Game::new(DetectiveAgent::default(), CooperatingAgent::default());
    assert_eq!(game.play_round(), RoundOutcome::BothCooperated);
    assert_eq!(game.play_round(), RoundOutcome::LeftCheated);
    assert_eq!(game.play_round(), RoundOutcome::BothCooperated);
    assert_eq!(game.play_round(), RoundOutcome::BothCooperated);
    // the opponent never struck back, so the detective now always cheats
    assert_eq!(game.play_round(), RoundOutcome::LeftCheated);
    assert_eq!(game.left_score(), 12);
    assert_eq!(game.right_score(), 4);
}

#[test]
fn detective_copies_a_fighter() {
    let mut detective = DetectiveAgent::default();
    assert_eq!(detective.play(None), Action::Cooperate);
    assert_eq!(detective.play(Some(Action::Cheat)), Action::Cheat);
    assert_eq!(detective.play(Some(Action::Cheat)), Action::Cooperate);
    assert_eq!(detective.play(Some(Action::Cheat)), Action::Cooperate);
    // probe over: was betrayed, so it copies from now on
    assert_eq!(detective.play(Some(Action::Cooperate)), Action::Cooperate);
    assert_eq!(detective.play(Some(Action::Cheat)), Action::Cheat);
}

#[test]
fn prefix_of_flower_words() {
    let r = longest_common_prefix(vec!["flower", "flow", "flight"]);
    assert_eq!(r, "fl");
}

#[test]
fn prefix_of_nothing_is_empty() {
    assert_eq!(longest_common_prefix(Vec::new()), "");
}

#[test]
fn prefix_with_an_empty_string_is_empty() {
    assert_eq!(longest_common_prefix(vec!["abc", ""]), "");
}

#[test]
fn prefix_of_equal_strings_is_the_string() {
    assert_eq!(longest_common_prefix(vec!["same", "same"]), "same");
}

#[test]
fn tile_construction_and_queries() {
    let five = Tile::new(Some(5));
    assert_eq!(five.number(), Some(5));
    assert!(!five.is_empty());
    let empty = Tile::new(None);
    assert_eq!(empty.number(), None);
    assert!(empty.is_empty());
    assert_eq!(Tile::empty(), empty);
}

#[test]
fn board_parses_and_prints() {
    let text = ".12\n345\n678\n";
    let board = Board::from_string(text);
    assert_eq!(board.get(0, 0).number(), None);
    assert_eq!(board.get(0, 1).number(), Some(1));
    assert_eq!(board.get(2, 2).number(), Some(8));
    assert_eq!(board.to_string(), text);
}

#[test]
fn board_swap_moves_tiles() {
    let mut board = Board::from_string(".12\n345\n678\n");
    board.swap(0, 0, 2, 2);
    assert_eq!(board.get(0, 0).number(), Some(8));
    assert_eq!(board.get(2, 2).number(), None);
    assert_eq!(board.to_string(), "812\n345\n67.\n");
}

#[test]
fn solved_board_is_recognized() {
    let board = Board::from_string("123\n456\n78.\n");
    assert!(board.is_solved());
    assert_eq!(solve(board), Some(Vec::new()));
    let other = Board::from_string(".12\n345\n678\n");
    assert!(!other.is_solved());
    assert_eq!(solve(other), None);
}

#[test]
fn solvability_goes_by_inversion_parity() {
    assert!(is_solvable(&[1, 2, 3, 4, 5, 6, 7, 8, 0]));
    assert!(!is_solvable(&[1, 2, 3, 4, 5, 6, 8, 7, 0]));
    assert!(is_solvable(&[2, 1, 4, 3, 5, 6, 7, 8, 0]));
    assert!(is_solvable(&[]));
}

fn lines(words: &[&str]) -> Vec<String> {
    words.iter().map(|w| w.to_string()).collect()
}

#[test]
fn common_lines_in_second_order() {
    let r = common_lines(lines(&["a", "b", "c"]), lines(&["c", "a", "d"]));
    assert_eq!(r, lines(&["c", "a"]));
}

#[test]
fn common_lines_counts_duplicates_once() {
    let r = common_lines(lines(&["x", "x", "y"]), lines(&["x", "x", "y"]));
    assert_eq!(r, lines(&["x", "y"]));
}

#[test]
fn common_lines_with_no_overlap_is_empty() {
    let r = common_lines(lines(&["a"]), lines(&["b"]));
    assert_eq!(r, Vec::<String>::new());
}
