use slide_puzzle::puzzle::SeedablePuzzle;
use slide_puzzle::shuffle::exchange;
use slide_puzzle::shuffle::shuffled;

fn counted_seed() -> [u8; 32] {
    let mut seed: [u8; 32] = [0; 32];
    for (i, byte) in seed.iter_mut().enumerate() {
        *byte = i as u8;
    }
    seed
}

fn each_label_once(cells: &[usize]) -> bool {
    let mut sorted: Vec<usize> = cells.to_vec();
    sorted.sort();
    sorted.iter().enumerate().all(|(i, &label)| i == label)
}

#[test]
fn zero_seed_is_reproducible_on_2x2() {
    let first = SeedablePuzzle::new_from_seed([0; 32], (2, 2));
    let second = SeedablePuzzle::new_from_seed([0; 32], (2, 2));
    assert_eq!(first.board().cells(), second.board().cells());
    assert_eq!(first.board().cells(), vec![1, 0, 3, 2]);
    assert_eq!(first.seed(), &[0u8; 32]);
    assert_eq!(first.shape(), (2, 2));
}

#[test]
fn same_seed_same_board() {
    for shape in [(4, 4), (3, 5), (2, 1), (7, 2)] {
        for seed in [[0u8; 32], [255u8; 32], counted_seed()] {
            let first = SeedablePuzzle::new_from_seed(seed, shape);
            let second = SeedablePuzzle::new_from_seed(seed, shape);
            assert_eq!(first.board().cells(), second.board().cells());
            assert_eq!(first.shape(), shape);
            assert!(each_label_once(&first.board().cells()));
        }
    }
}

#[test]
fn known_seeds_give_known_boards() {
    assert_eq!(
        SeedablePuzzle::new_from_seed([0; 32], (4, 4)).board().cells(),
        vec![12, 8, 7, 14, 4, 13, 11, 10, 0, 5, 2, 3, 6, 9, 15, 1]
    );
    assert_eq!(
        SeedablePuzzle::new_from_seed([255; 32], (4, 4)).board().cells(),
        vec![1, 12, 8, 7, 4, 14, 2, 5, 10, 11, 6, 3, 9, 13, 15, 0]
    );
    assert_eq!(
        SeedablePuzzle::new_from_seed(counted_seed(), (4, 4)).board().cells(),
        vec![13, 15, 3, 1, 11, 4, 10, 14, 8, 9, 7, 12, 6, 5, 0, 2]
    );
    assert_eq!(
        SeedablePuzzle::new_from_seed(counted_seed(), (2, 3)).board().cells(),
        vec![5, 1, 3, 2, 0, 4]
    );
}

#[test]
fn shuffled_holds_each_label_once() {
    assert_eq!(shuffled([0; 32], 0), Vec::<usize>::new());
    assert_eq!(shuffled([0; 32], 1), vec![0]);
    assert_eq!(shuffled([0; 32], 4), vec![1, 0, 3, 2]);
    for n in [2usize, 3, 16, 100, 1000] {
        let cells: Vec<usize> = shuffled(counted_seed(), n);
        assert_eq!(cells.len(), n);
        assert!(each_label_once(&cells));
        assert_eq!(cells, shuffled(counted_seed(), n));
    }
}

#[test]
fn fresh_seeds_differ() {
    let first = SeedablePuzzle::new((4, 4));
    let second = SeedablePuzzle::new((4, 4));
    assert_ne!(first.seed(), second.seed());
}

#[test]
fn new_puzzle_matches_its_seed() {
    let puzzle = SeedablePuzzle::new((4, 4));
    let again = SeedablePuzzle::new_from_seed(*puzzle.seed(), (4, 4));
    assert_eq!(puzzle.board().cells(), again.board().cells());
    assert_eq!(puzzle.shape(), (4, 4));
    assert!(each_label_once(&puzzle.board().cells()));
}

#[test]
fn regenerate_with_a_seed() {
    let mut puzzle = SeedablePuzzle::new_from_seed([0; 32], (4, 4));
    puzzle.regenerate(Some(counted_seed()));
    assert_eq!(puzzle.seed(), &counted_seed());
    assert_eq!(puzzle.shape(), (4, 4));
    assert_eq!(
        puzzle.board().cells(),
        vec![13, 15, 3, 1, 11, 4, 10, 14, 8, 9, 7, 12, 6, 5, 0, 2]
    );
}

#[test]
fn regenerate_without_a_seed() {
    let mut puzzle = SeedablePuzzle::new_from_seed([0; 32], (3, 2));
    puzzle.regenerate(None);
    assert_eq!(puzzle.shape(), (3, 2));
    assert_ne!(puzzle.seed(), &[0u8; 32]);
    let again = SeedablePuzzle::new_from_seed(*puzzle.seed(), (3, 2));
    assert_eq!(puzzle.board().cells(), again.board().cells());
}

#[test]
fn puzzle_slides_like_its_board() {
    let mut puzzle = SeedablePuzzle::new_from_seed([0; 32], (2, 2));
    assert_eq!(puzzle.board().cells(), vec![1, 0, 3, 2]);
    assert!(!puzzle.is_solved());
    assert_eq!(puzzle.slide_from((0, 1)), 0);
    assert_eq!(puzzle.slide_from((1, 1)), 1);
    assert_eq!(puzzle.board().cells(), vec![1, 2, 3, 0]);
    assert!(puzzle.is_solved());
    assert_eq!(puzzle.seed(), &[0u8; 32]);
    assert_eq!(puzzle.slide_towards(slide_puzzle::board::Direction::Right, 1), 1);
    assert_eq!(puzzle.board().cells(), vec![1, 2, 0, 3]);
}

#[test]
fn exchange_swaps_two_cells() {
    let mut cells: Vec<usize> = vec![0, 1, 2, 3];
    exchange(&mut cells, 3, 1);
    assert_eq!(cells, vec![0, 3, 2, 1]);
    exchange(&mut cells, 2, 2);
    assert_eq!(cells, vec![0, 3, 2, 1]);
    exchange(&mut cells, 0, 3);
    assert_eq!(cells, vec![1, 3, 2, 0]);
}
