use payroll::employees::{Employee, SalaryType, HOURLY, SALARY};

#[test]
fn salaried_pay_ignores_hours() {
    let mut bob = Employee::full_time("Bob");
    assert_eq!(bob.calculate_payment(), 8_000_000);
    bob.enter_hours(40);
    assert_eq!(bob.calculate_payment(), SALARY);
    bob.enter_hours(1_000);
    assert_eq!(bob.calculate_payment(), 8_000_000);
}

#[test]
fn hourly_pay_is_rate_times_hours() {
    let mut carol = Employee::part_time("Carol");
    assert_eq!(carol.calculate_payment(), 0);
    carol.enter_hours(10);
    assert_eq!(carol.calculate_payment(), 20_000);
    carol.enter_hours(5);
    assert_eq!(carol.calculate_payment(), HOURLY * 15);
}

#[test]
fn hourly_pay_at_most_hours() {
    let mut dan = Employee::part_time("Dan");
    dan.enter_hours(u32::MAX);
    assert_eq!(dan.calculate_payment(), 2_000 * u32::MAX as u64);
}

#[test]
fn new_employees_start_empty() {
    let bob = Employee::full_time("Bob");
    assert_eq!(bob.name(), "Bob");
    assert_eq!(bob.hours_worked(), 0);
    assert_eq!(bob.total_pay(), 0);
    assert!(!bob.paid_for_period());
    assert_eq!(bob.salary_type(), SalaryType::Salaried);
    let carol = Employee::part_time("Carol");
    assert_eq!(carol.salary_type(), SalaryType::Hourly);
}

#[test]
fn hours_add_up_in_any_order() {
    let mut a = Employee::part_time("A");
    let mut b = Employee::part_time("B");
    for h in [3u32, 0, 7, 12] {
        a.enter_hours(h);
    }
    for h in [12u32, 7, 3, 0] {
        b.enter_hours(h);
    }
    assert_eq!(a.hours_worked(), 22);
    assert_eq!(b.hours_worked(), 22);
}

#[test]
fn payments_accumulate_and_mark_paid() {
    let mut bob = Employee::full_time("Bob");
    bob.receive_payment(150);
    assert!(bob.paid_for_period());
    assert_eq!(bob.total_pay(), 150);
    bob.receive_payment(0);
    bob.receive_payment(2_500);
    assert!(bob.paid_for_period());
    assert_eq!(bob.total_pay(), 2_650);
    assert_eq!(bob.hours_worked(), 0);
}

#[test]
fn work_lines() {
    assert_eq!(Employee::full_time("Bob").do_work(), "I work all week");
    assert_eq!(Employee::part_time("Carol").do_work(), "I work part of the week");
}
