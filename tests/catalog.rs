use dstl::catalog::{add_to_recent, entry_for_command, members_of, AppEntry};

fn entry(name: &str, category: &str, command: &str) -> AppEntry {
    AppEntry {
        name: name.to_string(),
        category: category.to_string(),
        command: command.to_string(),
        terminal: false,
    }
}

fn names(v: &[&str]) -> Vec<String> {
    v.iter().map(|s| s.to_string()).collect()
}

#[test]
fn entry_for_command_finds_first_match() {
    let apps = vec![entry("A", "X", "a"), entry("B", "X", "b"), entry("B2", "Y", "b")];
    assert_eq!(entry_for_command(&apps, &"b".to_string()), Some(1));
    assert_eq!(entry_for_command(&apps, &"a".to_string()), Some(0));
    assert_eq!(entry_for_command(&apps, &"c".to_string()), None);
}

#[test]
fn add_to_recent_moves_name_to_front_and_bounds_length() {
    let mut recent = names(&["b", "a", "c"]);
    add_to_recent(&mut recent, &"a".to_string(), 10);
    assert_eq!(recent, names(&["a", "b", "c"]));
    add_to_recent(&mut recent, &"d".to_string(), 3);
    assert_eq!(recent, names(&["d", "a", "b"]));
    add_to_recent(&mut recent, &"x".to_string(), 0);
    assert!(recent.is_empty());
    let mut dup = names(&["a", "a", "b"]);
    add_to_recent(&mut dup, &"a".to_string(), 5);
    assert_eq!(dup, names(&["a", "b"]));
}

#[test]
fn members_of_plain_and_recent_categories() {
    let apps = vec![entry("Vim", "CLI", "vim"), entry("Web", "Net", "web"), entry("Top", "CLI", "top"), entry("Vim", "CLI", "vim2")];
    assert_eq!(members_of(&apps, &Vec::new(), &"CLI".to_string()), vec![0, 2, 3]);
    assert_eq!(members_of(&apps, &Vec::new(), &"None".to_string()), Vec::<usize>::new());
    let recent = names(&["Top", "Gone", "Vim", "Vim"]);
    assert_eq!(members_of(&apps, &recent, &"Recent".to_string()), vec![0, 2]);
}
