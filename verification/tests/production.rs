use empire_core::systems::production::{apply_line_upgrade, cancel_line, queue_on_free_line};

#[test]
fn jobs_take_the_first_free_line() {
    let mut lines: Vec<Option<u16>> = vec![Some(9), None, None];
    assert!(queue_on_free_line(&mut lines, 1));
    assert_eq!(lines, vec![Some(9), Some(1), None]);
    assert!(queue_on_free_line(&mut lines, 2));
    assert_eq!(lines, vec![Some(9), Some(1), Some(2)]);
    // Every line busy: nothing changes.
    assert!(!queue_on_free_line(&mut lines, 3));
    assert_eq!(lines, vec![Some(9), Some(1), Some(2)]);
}

#[test]
fn cancel_addresses_infantry_then_armor() {
    let mut infantry: Vec<Option<u16>> = vec![Some(0), Some(1)];
    let mut armor: Vec<Option<u16>> = vec![Some(2)];
    cancel_line(&mut infantry, &mut armor, 1);
    assert_eq!(infantry, vec![Some(0), None]);
    cancel_line(&mut infantry, &mut armor, 2);
    assert_eq!(armor, vec![None]);
    // Past the last line: nothing changes.
    cancel_line(&mut infantry, &mut armor, 7);
    assert_eq!(infantry, vec![Some(0), None]);
    assert_eq!(armor, vec![None]);
}

#[test]
fn upgrades_add_lines_up_to_their_limit() {
    let mut infantry: Vec<Option<u16>> = vec![None];
    let mut armor: Vec<Option<u16>> = vec![None];
    apply_line_upgrade(&mut infantry, &mut armor, 0);
    assert_eq!(infantry.len(), 2);
    // A second Infantry2 adds nothing.
    apply_line_upgrade(&mut infantry, &mut armor, 0);
    assert_eq!(infantry.len(), 2);
    apply_line_upgrade(&mut infantry, &mut armor, 2);
    assert_eq!(infantry.len(), 3);
    apply_line_upgrade(&mut infantry, &mut armor, 2);
    assert_eq!(infantry.len(), 3);
    // Armor3 before Armor2 still adds one line.
    apply_line_upgrade(&mut infantry, &mut armor, 3);
    assert_eq!(armor.len(), 2);
    apply_line_upgrade(&mut infantry, &mut armor, 1);
    assert_eq!(armor.len(), 2);
    // Unknown upgrade codes add nothing.
    apply_line_upgrade(&mut infantry, &mut armor, 9);
    assert_eq!((infantry.len(), armor.len()), (3, 2));
}
