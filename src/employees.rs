use vstd::prelude::*;
use vstd::seq_lib::*;

verus! {

/// What a full-time employee is paid per payout, in cents (80000.00).
pub const SALARY: u64 = 8_000_000;

/// What a part-time employee is paid per hour worked, in cents (20.00).
pub const HOURLY: u64 = 2_000;

/// How an employee's pay is worked out.
#[derive(Clone, Copy, Debug, PartialEq, Eq, Structural)]
pub enum SalaryType {
    /// A fixed amount per payout, whatever the hours.
    Salaried,
    /// A rate per hour worked.
    Hourly,
}

/// The pay, in cents, owed to an employee of the given kind with the given hours.
pub open spec fn payment_for(salary_type: SalaryType, hours: nat) -> nat {
    match salary_type {
        SalaryType::Salaried => SALARY as nat,
        SalaryType::Hourly => HOURLY as nat * hours,
    }
}

/// The abstract state of an employee.
pub struct EmployeeView {
    pub name: Seq<char>,
    pub hours_worked: nat,
    pub paid_for_period: bool,
    pub salary_type: SalaryType,
    pub total_pay: nat,
}

impl EmployeeView {
    /// A newly hired employee: no hours, never paid.
    pub open spec fn hired(name: Seq<char>, salary_type: SalaryType) -> EmployeeView {
        EmployeeView { name, hours_worked: 0, paid_for_period: false, salary_type, total_pay: 0 }
    }

    /// What this employee is owed by a payout.
    pub open spec fn payment(self) -> nat {
        payment_for(self.salary_type, self.hours_worked)
    }

    /// The state after `hours` more hours have been entered.
    pub open spec fn with_hours(self, hours: nat) -> EmployeeView {
        EmployeeView { hours_worked: self.hours_worked + hours, ..self }
    }

    /// The state after a payment of `amount` has been received.
    pub open spec fn with_payment(self, amount: nat) -> EmployeeView {
        EmployeeView { total_pay: self.total_pay + amount, paid_for_period: true, ..self }
    }
}

/// The line an employee of the given kind says about their work.
pub open spec fn work_line(salary_type: SalaryType) -> Seq<char> {
    match salary_type {
        SalaryType::Salaried => "I work all week"@,
        SalaryType::Hourly => "I work part of the week"@,
    }
}

/// A worker who reports to a manager, paid by salary (full time) or by the hour
/// (part time).
pub struct Employee {
    name: String,
    hours_worked: u32,
    paid_for_period: bool,
    salary_type: SalaryType,
    total_pay: u64,
}

impl View for Employee {
    type V = EmployeeView;

    closed spec fn view(&self) -> EmployeeView {
        EmployeeView {
            name: self.name@,
            hours_worked: self.hours_worked as nat,
            paid_for_period: self.paid_for_period,
            salary_type: self.salary_type,
            total_pay: self.total_pay as nat,
        }
    }
}

impl Employee {
    fn hire(name: &str, salary_type: SalaryType) -> (r: Employee)
        ensures
            r@ == EmployeeView::hired(name@, salary_type),
    {
        Employee {
            name: String::from_str(name),
            hours_worked: 0,
            paid_for_period: false,
            salary_type,
            total_pay: 0,
        }
    }

    /// A new full-time employee, paid a salary.
    pub fn full_time(name: &str) -> (r: Employee)
        ensures
            r@ == EmployeeView::hired(name@, SalaryType::Salaried),
    {
        Employee::hire(name, SalaryType::Salaried)
    }

    /// A new part-time employee, paid by the hour.
    pub fn part_time(name: &str) -> (r: Employee)
        ensures
            r@ == EmployeeView::hired(name@, SalaryType::Hourly),
    {
        Employee::hire(name, SalaryType::Hourly)
    }

    pub fn name(&self) -> (r: &str)
        ensures
            r@ == self@.name,
    {
        self.name.as_str()
    }

    /// Adds `hours` to the hours worked.
    pub fn enter_hours(&mut self, hours: u32)
        requires
            old(self)@.hours_worked + hours <= u32::MAX,
        ensures
            final(self)@ == old(self)@.with_hours(hours as nat),
    {
        self.hours_worked = self.hours_worked + hours;
    }

    /// What this employee says about their work.
    pub fn do_work(&self) -> (r: &'static str)
        ensures
            r@ == work_line(self@.salary_type),
    {
        match self.salary_type {
            SalaryType::Salaried => "I work all week",
            SalaryType::Hourly => "I work part of the week",
        }
    }

    pub fn hours_worked(&self) -> (r: u32)
        ensures
            r == self@.hours_worked,
    {
        self.hours_worked
    }

    pub fn salary_type(&self) -> (r: SalaryType)
        ensures
            r == self@.salary_type,
    {
        self.salary_type
    }

    pub fn paid_for_period(&self) -> (r: bool)
        ensures
            r == self@.paid_for_period,
    {
        self.paid_for_period
    }

    /// Everything this employee has been paid, in cents.
    pub fn total_pay(&self) -> (r: u64)
        ensures
            r == self@.total_pay,
    {
        self.total_pay
    }

    /// The pay owed for the hours on record, in cents: the salary for a
    /// salaried employee, the hourly rate times the hours for an hourly one.
    pub fn calculate_payment(&self) -> (r: u64)
        ensures
            r == self@.payment(),
            self@.salary_type == SalaryType::Salaried ==> r == SALARY,
            self@.salary_type == SalaryType::Hourly ==> r == HOURLY * self@.hours_worked,
    {
        match self.salary_type {
            SalaryType::Salaried => SALARY,
            SalaryType::Hourly => {
                assert(HOURLY * self.hours_worked <= HOURLY * u32::MAX) by (nonlinear_arith)
                    requires
                        self.hours_worked <= u32::MAX,
                ;
                HOURLY * self.hours_worked as u64
            },
        }
    }

    /// Adds `amount` to the total pay and marks the employee as paid.
    pub fn receive_payment(&mut self, amount: u64)
        requires
            old(self)@.total_pay + amount <= u64::MAX,
        ensures
            final(self)@ == old(self)@.with_payment(amount as nat),
    {
        self.total_pay = self.total_pay + amount;
        self.paid_for_period = true;
    }
}

/// The sum of a sequence of amounts.
pub open spec fn seq_sum(s: Seq<nat>) -> nat
    decreases s.len(),
{
    if s.len() == 0 {
        0
    } else {
        seq_sum(s.drop_last()) + s.last()
    }
}

/// The state after `deltas` have been entered as hours, one call at a time.
pub open spec fn after_hours(e: EmployeeView, deltas: Seq<nat>) -> EmployeeView
    decreases deltas.len(),
{
    if deltas.len() == 0 {
        e
    } else {
        after_hours(e, deltas.drop_last()).with_hours(deltas.last())
    }
}

/// The state after `amounts` have been received as payments, one call at a time.
pub open spec fn after_payments(e: EmployeeView, amounts: Seq<nat>) -> EmployeeView
    decreases amounts.len(),
{
    if amounts.len() == 0 {
        e
    } else {
        after_payments(e, amounts.drop_last()).with_payment(amounts.last())
    }
}

proof fn lemma_seq_sum_remove(s: Seq<nat>, j: int)
    requires
        0 <= j < s.len(),
    ensures
        seq_sum(s) == seq_sum(s.remove(j)) + s[j],
    decreases s.len(),
{
    if j == s.len() - 1 {
        assert(s.remove(j) =~= s.drop_last());
    } else {
        lemma_seq_sum_remove(s.drop_last(), j);
        assert(s.remove(j).drop_last() =~= s.drop_last().remove(j));
    }
}

/// Reordering a sequence does not change its sum.
pub proof fn lemma_seq_sum_reorder(a: Seq<nat>, b: Seq<nat>)
    requires
        a.to_multiset() == b.to_multiset(),
    ensures
        seq_sum(a) == seq_sum(b),
    decreases a.len(),
{
    broadcast use group_to_multiset_ensures;
    broadcast use vstd::multiset::group_multiset_axioms;

    if a.len() == 0 {
        assert(a.to_multiset().len() == 0);
        assert(b.to_multiset().len() == b.len());
        assert(b =~= Seq::<nat>::empty());
    } else {
        let x = a.last();
        let rest = a.drop_last();
        assert(a =~= rest.push(x));
        assert(b.to_multiset().count(x) > 0);
        assert(b.contains(x));
        let j = choose|j: int| 0 <= j < b.len() && b[j] == x;
        assert(b.remove(j).to_multiset() =~= rest.to_multiset());
        lemma_seq_sum_reorder(rest, b.remove(j));
        lemma_seq_sum_remove(b, j);
    }
}

/// Hours add up: after any sequence of entries the hours worked are those
/// before plus the sum of the entries, nothing else changes, and the count
/// never goes down from one entry to the next.
pub proof fn lemma_hours_add_up(e: EmployeeView, deltas: Seq<nat>)
    ensures
        after_hours(e, deltas) == e.with_hours(seq_sum(deltas)),
        forall|k: int|
            0 <= k < deltas.len() ==> #[trigger] after_hours(e, deltas.take(k)).hours_worked
                <= after_hours(e, deltas.take(k + 1)).hours_worked,
    decreases deltas.len(),
{
    if deltas.len() > 0 {
        lemma_hours_add_up(e, deltas.drop_last());
    }
    assert forall|k: int| 0 <= k < deltas.len() implies #[trigger] after_hours(
        e,
        deltas.take(k),
    ).hours_worked <= after_hours(e, deltas.take(k + 1)).hours_worked by {
        assert(deltas.take(k + 1).drop_last() =~= deltas.take(k));
    }
}

/// The order in which hours are entered does not matter: the same entries in
/// any order leave the employee in the same state.
pub proof fn lemma_hours_order_free(e: EmployeeView, a: Seq<nat>, b: Seq<nat>)
    requires
        a.to_multiset() == b.to_multiset(),
    ensures
        after_hours(e, a) == after_hours(e, b),
{
    lemma_hours_add_up(e, a);
    lemma_hours_add_up(e, b);
    lemma_seq_sum_reorder(a, b);
}

/// Payments add up: after any sequence of payments the total pay is the total
/// before plus their sum; once one has been received the employee stays
/// marked as paid.
pub proof fn lemma_payments_add_up(e: EmployeeView, amounts: Seq<nat>)
    ensures
        after_payments(e, amounts).total_pay == e.total_pay + seq_sum(amounts),
        amounts.len() > 0 ==> after_payments(e, amounts).paid_for_period,
        amounts.len() == 0 ==> after_payments(e, amounts) == e,
        forall|k: int|
            1 <= k <= amounts.len() ==> #[trigger] after_payments(e, amounts.take(k)).paid_for_period,
        after_payments(e, amounts).hours_worked == e.hours_worked,
        after_payments(e, amounts).salary_type == e.salary_type,
        after_payments(e, amounts).name == e.name,
    decreases amounts.len(),
{
    if amounts.len() > 0 {
        lemma_payments_add_up(e, amounts.drop_last());
    }
    assert forall|k: int| 1 <= k <= amounts.len() implies #[trigger] after_payments(
        e,
        amounts.take(k),
    ).paid_for_period by {
        assert(amounts.take(k).len() == k);
    }
}

} // verus!
