use modbus_bench::directory::{parse_command, Command, Directory};

#[test]
fn employees_are_grouped_by_department() {
    let mut d = Directory::new();
    assert_eq!(d.list_all(), vec!["Справочник пуст".to_string()]);
    d.add_employee(" Alice \n", "Engineering\n", "Developer\n");
    d.add_employee("Bob", "Sales", "Manager");
    d.add_employee("Carol", "Engineering", "Tester");
    assert_eq!(d.departments.len(), 2);
    assert_eq!(d.departments[0].name, "Engineering");
    assert_eq!(d.departments[0].employees.len(), 2);
    assert_eq!(d.departments[0].employees[0].name, "Alice");
    assert_eq!(d.departments[0].employees[1].position, "Tester");
    assert_eq!(
        d.list_all(),
        vec![
            "".to_string(),
            "--- Engineering ---".to_string(),
            "  Alice — Developer".to_string(),
            "  Carol — Tester".to_string(),
            "".to_string(),
            "--- Sales ---".to_string(),
            "  Bob — Manager".to_string(),
        ]
    );
}

#[test]
fn search_is_partial_and_case_insensitive() {
    let mut d = Directory::new();
    d.add_employee("Alice Smith", "Engineering", "Developer");
    d.add_employee("Bob", "Sales", "Manager");
    d.add_employee("Alicia", "Sales", "Clerk");
    let hits: Vec<String> = d.find_employee("  ALI \n").into_iter().map(|e| e.name).collect();
    assert_eq!(hits, vec!["Alice Smith".to_string(), "Alicia".to_string()]);
    assert!(d.find_employee("zed").is_empty());
}

#[test]
fn commands_are_read_trimmed() {
    assert!(parse_command("add\n") == Command::Add);
    assert!(parse_command(" list ") == Command::List);
    assert!(parse_command("find") == Command::Find);
    assert!(parse_command("quit\r\n") == Command::Quit);
    assert!(parse_command("remove") == Command::Unknown);
}
