use pipr::autocomplete::AutocompleteState;
use pipr::commandlist::{CommandList, CommandListError};

fn cs(s: &str) -> Vec<char> {
    s.chars().collect()
}

fn entries(l: &CommandList) -> Vec<String> {
    l.entries.iter().map(|e| e.iter().collect()).collect()
}

#[test]
fn push_beyond_cap_keeps_most_recent() {
    let mut l = CommandList::new(vec![], Some(3));
    for s in ["a", "b", "c", "d", "e"] {
        l.push(cs(s));
        assert!(l.len() <= 3);
    }
    assert_eq!(entries(&l), vec!["c", "d", "e"]);
}

#[test]
fn push_without_cap_appends() {
    let mut l = CommandList::new(vec![cs("a")], None);
    l.push(cs("b"));
    assert_eq!(entries(&l), vec!["a", "b"]);
}

#[test]
fn push_with_zero_cap_keeps_nothing() {
    let mut l = CommandList::new(vec![], Some(0));
    l.push(cs("a"));
    assert_eq!(l.len(), 0);
}

#[test]
fn get_at_out_of_range_fails() {
    let l = CommandList::new(vec![cs("a")], None);
    assert!(matches!(l.get_at(0), Ok(ref e) if *e == cs("a")));
    assert!(matches!(l.get_at(1), Err(CommandListError::IndexOutOfRange)));
}

#[test]
fn toggle_twice_restores_list() {
    let mut l = CommandList::new(vec![cs("a"), cs("b")], None);
    l.toggle_entry(cs("c"));
    assert_eq!(entries(&l), vec!["a", "b", "c"]);
    l.toggle_entry(cs("c"));
    assert_eq!(entries(&l), vec!["a", "b"]);
}

#[test]
fn toggle_removes_first_occurrence() {
    let mut l = CommandList::new(vec![cs("a"), cs("b"), cs("a")], None);
    l.toggle_entry(cs("a"));
    assert_eq!(entries(&l), vec!["b", "a"]);
}

#[test]
fn cycling_returns_to_start() {
    let opts = vec![cs("x1"), cs("x2"), cs("x3")];
    let mut a = AutocompleteState::from_options(cs("x"), opts).unwrap();
    a.cycle_selected();
    assert_eq!(a.current_idx, 1);
    assert_eq!(*a.selected(), cs("x2"));
    a.cycle_selected();
    a.cycle_selected();
    assert_eq!(a.current_idx, 0);
    a.cycle_selected_backwards();
    assert_eq!(a.current_idx, 2);
    a.cycle_selected_backwards();
    a.cycle_selected_backwards();
    assert_eq!(a.current_idx, 0);
}

#[test]
fn no_options_no_autocomplete() {
    assert!(AutocompleteState::from_options(cs("x"), vec![]).is_none());
}


#[test]
fn new_list_over_cap_keeps_most_recent() {
    let l = CommandList::new(vec![cs("a"), cs("b"), cs("c")], Some(2));
    assert_eq!(entries(&l), vec!["b", "c"]);
}

#[test]
fn toggle_at_cap_evicts_oldest() {
    let mut l = CommandList::new(vec![cs("a"), cs("b")], Some(2));
    l.toggle_entry(cs("c"));
    assert_eq!(entries(&l), vec!["b", "c"]);
}
