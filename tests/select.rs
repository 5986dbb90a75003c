use tarsmith::error::InstallError;
use tarsmith::select::{
    classify, default_desktop, default_path, desktop_choice, is_declined, path_choice, select_entry_points, Mode, Pick,
};

#[test]
fn path_selection_all() {
    assert_eq!(path_choice("all", 3).unwrap(), vec![0, 1, 2]);
    assert_eq!(path_choice("  ALL\n", 3).unwrap(), vec![0, 1, 2]);
    assert_eq!(path_choice("\n", 3).unwrap(), vec![0, 1, 2]);
}

#[test]
fn path_selection_numbers() {
    assert_eq!(path_choice("1 3", 3).unwrap(), vec![0, 2]);
    assert_eq!(path_choice("3,1\n", 3).unwrap(), vec![2, 0]);
    assert_eq!(path_choice("+2", 3).unwrap(), vec![1]);
}

#[test]
fn path_selection_errors() {
    assert!(matches!(path_choice("5", 3), Err(InstallError::InvalidSelection)));
    assert!(matches!(path_choice("0", 3), Err(InstallError::InvalidSelection)));
    assert!(matches!(path_choice("1 x", 3), Err(InstallError::InvalidInput)));
    assert!(matches!(path_choice("9 x", 3), Err(InstallError::InvalidInput)));
    assert!(matches!(path_choice("99999999999999999999999", 3), Err(InstallError::InvalidSelection)));
}

#[test]
fn single_executable_is_a_yes_no_question() {
    assert_eq!(path_choice("", 1).unwrap(), vec![0]);
    assert_eq!(path_choice("No", 1).unwrap(), Vec::<usize>::new());
    assert_eq!(desktop_choice(" n ", 1).unwrap(), None);
    assert_eq!(desktop_choice("y", 1).unwrap(), Some(0));
    assert!(is_declined("NO\n"));
    assert!(!is_declined("nope"));
}

#[test]
fn desktop_selection() {
    assert_eq!(desktop_choice("", 3).unwrap(), None);
    assert_eq!(desktop_choice("0\n", 3).unwrap(), None);
    assert_eq!(desktop_choice("2", 3).unwrap(), Some(1));
    assert!(matches!(desktop_choice("4", 3), Err(InstallError::InvalidSelection)));
    assert!(matches!(desktop_choice("two", 3), Err(InstallError::InvalidInput)));
    assert_eq!(desktop_choice("1", 0).unwrap(), None);
}

#[test]
fn flags_decide_without_questions() {
    assert_eq!(default_desktop(3, false), Some(0));
    assert_eq!(default_desktop(3, true), None);
    assert_eq!(default_desktop(0, false), None);
    assert_eq!(default_path(3, false), vec![0, 1, 2]);
    assert!(default_path(3, true).is_empty());
}

#[test]
fn classify_tokens() {
    assert!(matches!(classify("2", 3), Pick::Index(1)));
    assert!(matches!(classify("+", 3), Pick::NotNumber));
    assert!(matches!(classify("", 3), Pick::NotNumber));
    assert!(matches!(classify("4", 3), Pick::OutOfRange));
    assert!(matches!(classify("007", 9), Pick::Index(6)));
}

#[test]
fn unified_selector_by_flags() {
    let s = select_entry_points(3, false, false, &Mode::Flags).unwrap();
    assert_eq!(s.desktop, Some(0));
    assert_eq!(s.path, vec![0, 1, 2]);
    let s = select_entry_points(3, true, true, &Mode::Flags).unwrap();
    assert_eq!(s.desktop, None);
    assert!(s.path.is_empty());
}

#[test]
fn unified_selector_by_answers() {
    let ask = |d: &str, p: &str| Mode::Ask { desktop_answer: d.to_string(), path_answer: p.to_string() };
    let s = select_entry_points(3, false, false, &ask("2", "1 3")).unwrap();
    assert_eq!(s.desktop, Some(1));
    assert_eq!(s.path, vec![0, 2]);
    let s = select_entry_points(3, true, false, &ask("garbage", "all")).unwrap();
    assert_eq!(s.desktop, None);
    assert_eq!(s.path, vec![0, 1, 2]);
    assert!(matches!(select_entry_points(3, false, false, &ask("x", "5")), Err(InstallError::InvalidInput)));
    assert!(matches!(select_entry_points(3, false, false, &ask("1", "5")), Err(InstallError::InvalidSelection)));
    let s = select_entry_points(3, false, true, &ask("", "5")).unwrap();
    assert_eq!(s.desktop, None);
    assert!(s.path.is_empty());
}
