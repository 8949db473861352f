use payroll::employees::Employee;
use payroll::manager::{HoursCountMismatch, Manager};

fn alice_bob_carol() -> Manager {
    let mut m = Manager::new("Alice");
    m.add_employee(Employee::full_time("Bob"));
    m.add_employee(Employee::part_time("Carol"));
    m
}

#[test]
fn new_manager_has_no_staff() {
    let mut m = Manager::new("Alice");
    assert_eq!(m.name(), "Alice");
    assert_eq!(m.num_employees(), 0);
    assert!(m.employees().is_empty());
    assert_eq!(m.do_work(), "Taking a meeting");
    m.enter_hours(8);
    assert_eq!(m.hours_worked(), 8);
    assert_eq!(m.pay_out(), Vec::<u64>::new());
    assert_eq!(m.enter_emp_hours(vec![]), Ok(()));
}

#[test]
fn staff_kept_in_order() {
    let mut m = alice_bob_carol();
    m.add_employee(Employee::full_time("Bob"));
    assert_eq!(m.num_employees(), 3);
    let names: Vec<&str> = m.employees().iter().map(|e| e.name()).collect();
    assert_eq!(names, vec!["Bob", "Carol", "Bob"]);
}

#[test]
fn hours_go_to_employees_by_position() {
    let mut m = alice_bob_carol();
    assert_eq!(m.enter_emp_hours(vec![4, 15]), Ok(()));
    assert_eq!(m.enter_emp_hours(vec![1, 2]), Ok(()));
    assert_eq!(m.employees()[0].hours_worked(), 5);
    assert_eq!(m.employees()[1].hours_worked(), 17);
}

#[test]
fn mismatched_hours_are_refused_untouched() {
    let mut m = alice_bob_carol();
    assert_eq!(
        m.enter_emp_hours(vec![8]),
        Err(HoursCountMismatch { employees: 2, entries: 1 })
    );
    assert_eq!(
        m.enter_emp_hours(vec![8, 9, 10]),
        Err(HoursCountMismatch { employees: 2, entries: 3 })
    );
    assert_eq!(m.employees()[0].hours_worked(), 0);
    assert_eq!(m.employees()[1].hours_worked(), 0);
}

#[test]
fn pay_out_salaried_and_hourly() {
    let mut m = Manager::new("Alice");
    m.add_employee(Employee::full_time("A"));
    m.add_employee(Employee::part_time("B"));
    assert_eq!(m.enter_emp_hours(vec![0, 10]), Ok(()));
    assert_eq!(m.pay_out(), vec![8_000_000, 20_000]);
    let a = &m.employees()[0];
    let b = &m.employees()[1];
    assert!(a.paid_for_period());
    assert!(b.paid_for_period());
    assert_eq!(a.total_pay(), 8_000_000);
    assert_eq!(b.total_pay(), 20_000);
}

#[test]
fn alice_bob_carol_end_to_end() {
    let mut m = alice_bob_carol();
    assert_eq!(m.enter_emp_hours(vec![0, 15]), Ok(()));
    assert_eq!(m.pay_out(), vec![8_000_000, 30_000]);
    assert_eq!(m.num_employees(), 2);
    assert_eq!(m.employees()[0].total_pay(), 8_000_000);
    assert_eq!(m.employees()[1].total_pay(), 30_000);
}

#[test]
fn paying_out_twice_pays_twice() {
    let mut m = alice_bob_carol();
    assert_eq!(m.enter_emp_hours(vec![0, 15]), Ok(()));
    let first = m.pay_out();
    let second = m.pay_out();
    assert_eq!(first, second);
    assert_eq!(m.employees()[0].total_pay(), 2 * 8_000_000);
    assert_eq!(m.employees()[1].total_pay(), 2 * 30_000);
    assert_eq!(m.employees()[1].hours_worked(), 15);
}

#[test]
fn roster_centres_names() {
    let m = alice_bob_carol();
    let expected = format!(
        "{}\n{}{}\n{}\n",
        "-".repeat(20),
        format!("{:^9}|", "Bob"),
        format!("{:^9}|", "Carol"),
        "-".repeat(20)
    );
    assert_eq!(m.display_employees(), expected);
    assert_eq!(
        m.display_employees(),
        "--------------------\n   Bob   |  Carol  |\n--------------------\n"
    );
}

#[test]
fn roster_odd_padding_and_long_names() {
    let mut m = Manager::new("Alice");
    m.add_employee(Employee::part_time("Ed"));
    m.add_employee(Employee::full_time("Bartholomew"));
    m.add_employee(Employee::full_time("Zoë"));
    let expected = format!(
        "{}\n{:^9}|{:^9}|{:^9}|\n{}\n",
        "-".repeat(30),
        "Ed",
        "Bartholomew",
        "Zoë",
        "-".repeat(30)
    );
    assert_eq!(m.display_employees(), expected);
}

#[test]
fn roster_of_no_one() {
    assert_eq!(Manager::new("Alice").display_employees(), "\n\n\n");
}
