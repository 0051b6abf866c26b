use cantor36_rs::debounce::Debouncer;
use cantor36_rs::event::Event;
use cantor36_rs::keys::{
    matrix_scanner, matrix_state_new, scan_matrix, transform_keypress_coordinates, Destination,
    MatrixState, PinLevels, COLS, LOGICAL_COLS, NB_BOUNCE, ROWS,
};

fn all_high() -> PinLevels {
    [[Some(false); COLS]; ROWS]
}

#[test]
fn dimensions_of_one_half() {
    assert_eq!(ROWS, 4);
    assert_eq!(COLS, 5);
    assert_eq!(LOGICAL_COLS, 10);
    assert_eq!(NB_BOUNCE, 5);
}

#[test]
fn matrix_state_new_is_all_open() {
    let state: MatrixState = matrix_state_new();
    assert_eq!(state, [[false; 5]; 4]);
}

#[test]
fn scan_matrix_reports_low_pins_as_closed() {
    let mut levels = all_high();
    levels[0][0] = Some(true);
    levels[2][3] = Some(true);
    levels[3][4] = Some(true);
    let state = scan_matrix(&levels);
    let mut expected = [[false; 5]; 4];
    expected[0][0] = true;
    expected[2][3] = true;
    expected[3][4] = true;
    assert_eq!(state, expected);
}

#[test]
fn scan_matrix_reports_absent_positions_as_open() {
    let mut levels: PinLevels = [[Some(true); COLS]; ROWS];
    levels[3][0] = None;
    levels[3][1] = None;
    let state = scan_matrix(&levels);
    let mut expected = [[true; 5]; 4];
    expected[3][0] = false;
    expected[3][1] = false;
    assert_eq!(state, expected);
}

#[test]
fn scan_matrix_of_no_switch_at_all_is_open() {
    let levels: PinLevels = [[None; COLS]; ROWS];
    assert_eq!(scan_matrix(&levels), matrix_state_new());
}

#[test]
fn transform_mirrors_the_column_on_the_mirrored_half() {
    assert_eq!(transform_keypress_coordinates(Event::Press(0, 0), true), Event::Press(0, 9));
    assert_eq!(transform_keypress_coordinates(Event::Press(2, 4), true), Event::Press(2, 5));
    assert_eq!(transform_keypress_coordinates(Event::Release(3, 2), true), Event::Release(3, 7));
    assert_eq!(transform_keypress_coordinates(Event::Release(1, 9), true), Event::Release(1, 0));
}

#[test]
fn transform_leaves_the_other_half_alone() {
    assert_eq!(transform_keypress_coordinates(Event::Press(2, 4), false), Event::Press(2, 4));
    assert_eq!(transform_keypress_coordinates(Event::Release(0, 0), false), Event::Release(0, 0));
    assert_eq!(
        transform_keypress_coordinates(Event::Release(7, 200), false),
        Event::Release(7, 200)
    );
}

#[test]
fn transform_twice_is_the_identity() {
    for row in 0..=255u8 {
        for col in 0..LOGICAL_COLS {
            for e in [Event::Press(row, col), Event::Release(row, col)] {
                for mirrored in [false, true] {
                    let once = transform_keypress_coordinates(e, mirrored);
                    assert_eq!(transform_keypress_coordinates(once, mirrored), e);
                }
            }
        }
    }
}

#[test]
fn scanner_routes_to_the_layout_on_the_host_side() {
    let mut debouncer = Debouncer::new(matrix_state_new(), 1);
    let mut levels = all_high();
    levels[1][2] = Some(true);
    let scan = matrix_scanner(&mut debouncer, &levels, true, false);
    assert_eq!(scan.destination, Destination::Layout);
    assert_eq!(scan.events, vec![Event::Press(1, 2)]);
}

#[test]
fn scanner_routes_to_the_peer_on_the_other_side() {
    let mut debouncer = Debouncer::new(matrix_state_new(), 1);
    let mut levels = all_high();
    levels[1][2] = Some(true);
    let scan = matrix_scanner(&mut debouncer, &levels, false, false);
    assert_eq!(scan.destination, Destination::Peer);
    assert_eq!(scan.events, vec![Event::Press(1, 2)]);
}

#[test]
fn scanner_mirrors_on_the_mirrored_half() {
    let mut debouncer = Debouncer::new(matrix_state_new(), 1);
    let mut levels = all_high();
    levels[0][0] = Some(true);
    levels[3][4] = Some(true);
    let scan = matrix_scanner(&mut debouncer, &levels, false, true);
    assert_eq!(scan.events, vec![Event::Press(0, 9), Event::Press(3, 5)]);
    let scan = matrix_scanner(&mut debouncer, &all_high(), true, true);
    assert_eq!(scan.destination, Destination::Layout);
    assert_eq!(scan.events, vec![Event::Release(0, 9), Event::Release(3, 5)]);
}

#[test]
fn scanner_debounces_with_the_default_threshold() {
    let mut debouncer = Debouncer::new(matrix_state_new(), NB_BOUNCE);
    let mut levels = all_high();
    levels[2][1] = Some(true);
    for _ in 0..4 {
        let scan = matrix_scanner(&mut debouncer, &levels, true, false);
        assert!(scan.events.is_empty());
    }
    let scan = matrix_scanner(&mut debouncer, &levels, true, false);
    assert_eq!(scan.events, vec![Event::Press(2, 1)]);
    let scan = matrix_scanner(&mut debouncer, &levels, true, false);
    assert!(scan.events.is_empty());
}

#[test]
fn scanner_ignores_positions_without_a_switch() {
    let mut debouncer = Debouncer::new(matrix_state_new(), 1);
    let mut levels = all_high();
    levels[3][0] = None;
    levels[3][1] = None;
    let scan = matrix_scanner(&mut debouncer, &levels, true, false);
    assert!(scan.events.is_empty());
}
