use slide_puzzle::signal_ext::update_guarded;
use slide_puzzle::signal_ext::UpdateGuard;

#[test]
fn new_guard_is_untouched() {
    let mut value: u32 = 7;
    let guard = UpdateGuard::new(&mut value);
    assert!(!guard.updated);
    assert_eq!(*guard, 7);
    assert!(!guard.updated);
}

#[test]
fn writing_marks_the_guard() {
    let mut value: u32 = 7;
    let mut guard = UpdateGuard::new(&mut value);
    *guard += 1;
    assert!(guard.updated);
    assert_eq!(*guard, 8);
    assert_eq!(value, 8);
}

#[test]
fn borrowing_for_writing_marks_the_guard() {
    let mut text = String::from("a");
    let mut guard = UpdateGuard::new(&mut text);
    assert_eq!(guard.len(), 1);
    assert!(!guard.updated);
    guard.push('b');
    assert!(guard.updated);
    assert_eq!(text, "ab");
}

#[test]
fn guarded_update_reports_a_write() {
    let mut value: u32 = 7;
    let result: Option<&str> = update_guarded(&mut value, |guard: &mut UpdateGuard<'_, u32>| {
        **guard = 9;
        "written"
    });
    assert_eq!(result, Some("written"));
    assert_eq!(value, 9);
}

#[test]
fn guarded_update_without_a_write() {
    let mut value: u32 = 7;
    let result: Option<u32> = update_guarded(&mut value, |guard: &mut UpdateGuard<'_, u32>| **guard + 1);
    assert_eq!(result, None);
    assert_eq!(value, 7);
}

#[test]
fn guarded_update_counts_an_equal_write() {
    let mut value: u32 = 7;
    let result: Option<()> = update_guarded(&mut value, |guard: &mut UpdateGuard<'_, u32>| {
        **guard = 7;
    });
    assert_eq!(result, Some(()));
    assert_eq!(value, 7);
}

#[test]
fn what_an_update_passes_on() {
    assert_eq!(slide_puzzle::signal_ext::passed_on(Some(Some(3))), Some(3));
    assert_eq!(slide_puzzle::signal_ext::passed_on::<u8>(Some(None)), None);
    assert_eq!(slide_puzzle::signal_ext::passed_on::<u8>(None), None);
    assert!(slide_puzzle::signal_ext::confirmed(Some(true)));
    assert!(!slide_puzzle::signal_ext::confirmed(Some(false)));
    assert!(!slide_puzzle::signal_ext::confirmed(None));
}
