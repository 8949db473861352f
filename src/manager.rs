use vstd::prelude::*;
use vstd::string::*;

use crate::employees::{Employee, EmployeeView};

verus! {

/// The width, in characters, of a name's cell in the roster.
pub const CELL_WIDTH: usize = 9;

/// `n` blank characters.
pub open spec fn spaces(n: nat) -> Seq<char> {
    Seq::new(n, |i: int| ' ')
}

/// The rule drawn above and below a roster of `n` names: ten dashes per name.
pub open spec fn rule(n: nat) -> Seq<char> {
    Seq::new(10 * n, |i: int| '-')
}

/// A name centred in a cell of `CELL_WIDTH` characters (the odd blank going
/// to the right), closed by a bar. A name as wide as the cell or wider
/// fills it alone.
pub open spec fn cell(name: Seq<char>) -> Seq<char> {
    let pad: nat = if name.len() < CELL_WIDTH { (CELL_WIDTH - name.len()) as nat } else { 0 };
    spaces(pad / 2) + name + spaces((pad - pad / 2) as nat) + seq!['|']
}

/// The cells of all the names, side by side.
pub open spec fn cells(names: Seq<Seq<char>>) -> Seq<char>
    decreases names.len(),
{
    if names.len() == 0 {
        seq![]
    } else {
        cells(names.drop_last()) + cell(names.last())
    }
}

/// The roster of `names`: a rule, a line of cells, and a rule, each line
/// ended by a newline.
pub open spec fn roster(names: Seq<Seq<char>>) -> Seq<char> {
    rule(names.len()) + seq!['\n'] + cells(names) + seq!['\n'] + rule(names.len()) + seq!['\n']
}

/// The abstract state of a manager.
pub struct ManagerView {
    pub name: Seq<char>,
    pub employees: Seq<EmployeeView>,
    pub hours_worked: nat,
}

/// Whether, when there is one entry per employee, every employee may take
/// `hours[i]` more hours without their counter overflowing.
pub open spec fn hours_fit(employees: Seq<EmployeeView>, hours: Seq<u32>) -> bool {
    hours.len() == employees.len() ==> forall|i: int|
        0 <= i < employees.len() ==> #[trigger] employees[i].hours_worked + hours[i] <= u32::MAX
}

/// Whether every employee may receive what a payout owes them without their
/// total overflowing.
pub open spec fn payout_fits(employees: Seq<EmployeeView>) -> bool {
    forall|i: int|
        0 <= i < employees.len() ==> #[trigger] employees[i].total_pay + employees[i].payment()
            <= u64::MAX
}

/// The payment each employee is owed, in order.
pub open spec fn payments(employees: Seq<EmployeeView>) -> Seq<nat> {
    employees.map_values(|e: EmployeeView| e.payment())
}

impl ManagerView {
    /// The employees' names, in order.
    pub open spec fn names(self) -> Seq<Seq<char>> {
        self.employees.map_values(|e: EmployeeView| e.name)
    }

    /// The state after `emp` has joined the staff.
    pub open spec fn with_employee(self, emp: EmployeeView) -> ManagerView {
        ManagerView { employees: self.employees.push(emp), ..self }
    }

    /// The state after `hours[i]` has been entered for the `i`-th employee.
    pub open spec fn with_emp_hours(self, hours: Seq<u32>) -> ManagerView {
        ManagerView {
            employees: Seq::new(
                self.employees.len(),
                |i: int| self.employees[i].with_hours(hours[i] as nat),
            ),
            ..self
        }
    }

    /// The state after each employee has received what they are owed.
    pub open spec fn paid_out(self) -> ManagerView {
        ManagerView {
            employees: self.employees.map_values(|e: EmployeeView| e.with_payment(e.payment())),
            ..self
        }
    }
}

/// A payout resets nothing: paying out twice in a row pays every employee the
/// same amount both times, so each total grows by twice that amount, while
/// the hours stay as they were.
pub proof fn lemma_pay_out_twice(m: ManagerView)
    ensures
        payments(m.paid_out().employees) == payments(m.employees),
        m.paid_out().paid_out().employees.len() == m.employees.len(),
        forall|i: int|
            0 <= i < m.employees.len() ==> {
                let e = #[trigger] m.paid_out().paid_out().employees[i];
                &&& e.total_pay == m.employees[i].total_pay + 2 * m.employees[i].payment()
                &&& e.hours_worked == m.employees[i].hours_worked
                &&& e.paid_for_period
            },
{
    let once = m.paid_out();
    assert(payments(once.employees) =~= payments(m.employees));
    assert forall|i: int| 0 <= i < m.employees.len() implies {
        let e = #[trigger] m.paid_out().paid_out().employees[i];
        &&& e.total_pay == m.employees[i].total_pay + 2 * m.employees[i].payment()
        &&& e.hours_worked == m.employees[i].hours_worked
        &&& e.paid_for_period
    } by {
        assert(once.employees[i].payment() == m.employees[i].payment());
    }
}

/// The error of a list of hours whose length is not the number of employees.
#[derive(Clone, Copy, Debug, PartialEq, Eq, Structural)]
pub struct HoursCountMismatch {
    /// How many employees there are.
    pub employees: usize,
    /// How many hours were given.
    pub entries: usize,
}

fn append_spaces(out: &mut String, n: usize)
    ensures
        final(out)@ == old(out)@ + spaces(n as nat),
{
    let mut k: usize = 0;
    while k < n
        invariant
            k <= n,
            out@ == old(out)@ + spaces(k as nat),
        decreases n - k,
    {
        out.append(" ");
        proof {
            reveal_strlit(" ");
        }
        assert(spaces((k + 1) as nat) =~= spaces(k as nat) + " "@);
        k = k + 1;
    }
}

fn append_rule(out: &mut String, n: usize)
    ensures
        final(out)@ == old(out)@ + rule(n as nat),
{
    let mut k: usize = 0;
    while k < n
        invariant
            k <= n,
            out@ == old(out)@ + rule(k as nat),
        decreases n - k,
    {
        out.append("----------");
        proof {
            reveal_strlit("----------");
        }
        assert(rule((k + 1) as nat) =~= rule(k as nat) + "----------"@);
        k = k + 1;
    }
}

/// A manager and the employees who report to them, in the order they were
/// added.
pub struct Manager {
    name: String,
    employees: Vec<Employee>,
    hours_worked: u32,
}

impl View for Manager {
    type V = ManagerView;

    closed spec fn view(&self) -> ManagerView {
        ManagerView {
            name: self.name@,
            employees: self.employees@.map_values(|e: Employee| e@),
            hours_worked: self.hours_worked as nat,
        }
    }
}

impl Manager {
    /// A manager with no employees.
    pub fn new(name: &str) -> (r: Manager)
        ensures
            r@ == (ManagerView { name: name@, employees: seq![], hours_worked: 0 }),
    {
        let r = Manager { name: String::from_str(name), employees: Vec::new(), hours_worked: 0 };
        assert(r@.employees =~= seq![]);
        r
    }

    pub fn name(&self) -> (r: &str)
        ensures
            r@ == self@.name,
    {
        self.name.as_str()
    }

    /// Adds `hours` to the manager's own hours worked.
    pub fn enter_hours(&mut self, hours: u32)
        requires
            old(self)@.hours_worked + hours <= u32::MAX,
        ensures
            final(self)@ == (ManagerView {
                hours_worked: old(self)@.hours_worked + hours as nat,
                ..old(self)@
            }),
    {
        self.hours_worked = self.hours_worked + hours;
    }

    /// What a manager says about their work.
    pub fn do_work(&self) -> (r: &'static str)
        ensures
            r@ == "Taking a meeting"@,
    {
        "Taking a meeting"
    }

    pub fn hours_worked(&self) -> (r: u32)
        ensures
            r == self@.hours_worked,
    {
        self.hours_worked
    }

    /// Appends `emp` to the staff.
    pub fn add_employee(&mut self, emp: Employee)
        ensures
            final(self)@ == old(self)@.with_employee(emp@),
    {
        self.employees.push(emp);
        assert(self@.employees =~= old(self)@.employees.push(emp@));
    }

    pub fn num_employees(&self) -> (r: usize)
        ensures
            r == self@.employees.len(),
    {
        self.employees.len()
    }

    /// The staff, in the order they were added.
    pub fn employees(&self) -> (r: &[Employee])
        ensures
            r@.map_values(|e: Employee| e@) == self@.employees,
    {
        self.employees.as_slice()
    }

    /// Enters `hours_by_emp[i]` for the `i`-th employee. A list whose length is
    /// not the number of employees is refused, and nothing is entered.
    pub fn enter_emp_hours(&mut self, hours_by_emp: Vec<u32>) -> (r: Result<(), HoursCountMismatch>)
        requires
            hours_fit(old(self)@.employees, hours_by_emp@),
        ensures
            r is Ok <==> hours_by_emp@.len() == old(self)@.employees.len(),
            r is Ok ==> final(self)@ == old(self)@.with_emp_hours(hours_by_emp@),
            r is Err ==> final(self)@ == old(self)@ && r == Err::<(), HoursCountMismatch>(
                HoursCountMismatch {
                    employees: old(self)@.employees.len() as usize,
                    entries: hours_by_emp@.len() as usize,
                },
            ),
    {
        let n = self.employees.len();
        if hours_by_emp.len() != n {
            return Err(HoursCountMismatch { employees: n, entries: hours_by_emp.len() });
        }
        let ghost start = self@;
        let mut i: usize = 0;
        while i < n
            invariant
                n == hours_by_emp@.len() == start.employees.len() == self.employees@.len(),
                i <= n,
                hours_fit(start.employees, hours_by_emp@),
                self@.name == start.name,
                self@.hours_worked == start.hours_worked,
                forall|j: int|
                    0 <= j < i ==> #[trigger] self.employees@[j]@ == start.employees[j].with_hours(
                        hours_by_emp@[j] as nat,
                    ),
                forall|j: int| i <= j < n ==> #[trigger] self.employees@[j]@ == start.employees[j],
            decreases n - i,
        {
            assert(self.employees@[i as int]@ == start.employees[i as int]);
            self.employees[i].enter_hours(hours_by_emp[i]);
            i = i + 1;
        }
        assert(self@.employees =~= start.with_emp_hours(hours_by_emp@).employees);
        Ok(())
    }

    /// Pays every employee, in order, what they are owed, and returns the
    /// amounts paid.
    pub fn pay_out(&mut self) -> (r: Vec<u64>)
        requires
            payout_fits(old(self)@.employees),
        ensures
            r@.len() == old(self)@.employees.len(),
            forall|i: int| 0 <= i < r@.len() ==> #[trigger] r@[i] == old(self)@.employees[i].payment(),
            final(self)@ == old(self)@.paid_out(),
    {
        let n = self.employees.len();
        let ghost start = self@;
        let mut paid: Vec<u64> = Vec::new();
        let mut i: usize = 0;
        while i < n
            invariant
                n == start.employees.len() == self.employees@.len(),
                i <= n,
                paid@.len() == i,
                payout_fits(start.employees),
                self@.name == start.name,
                self@.hours_worked == start.hours_worked,
                forall|j: int|
                    0 <= j < i ==> #[trigger] self.employees@[j]@ == start.employees[j].with_payment(
                        start.employees[j].payment(),
                    ),
                forall|j: int| i <= j < n ==> #[trigger] self.employees@[j]@ == start.employees[j],
                forall|j: int| 0 <= j < i ==> #[trigger] paid@[j] == start.employees[j].payment(),
            decreases n - i,
        {
            assert(self.employees@[i as int]@ == start.employees[i as int]);
            let amount = self.employees[i].calculate_payment();
            self.employees[i].receive_payment(amount);
            paid.push(amount);
            i = i + 1;
        }
        assert(self@.employees =~= start.paid_out().employees);
        paid
    }

    /// The staff's names as a table, in order: a rule, the names centred in
    /// cells, and a rule.
    pub fn display_employees(&self) -> (r: String)
        ensures
            r@ == roster(self@.names()),
    {
        proof {
            reveal_strlit("\n");
        }
        let n = self.employees.len();
        let ghost names = self@.names();
        let mut out = String::new();
        append_rule(&mut out, n);
        out.append("\n");
        let ghost head = out@;
        let mut i: usize = 0;
        while i < n
            invariant
                n == self.employees@.len() == names.len(),
                names == self@.names(),
                i <= n,
                out@ == head + cells(names.take(i as int)),
            decreases n - i,
        {
            let name = self.employees[i].name();
            let width = name.unicode_len();
            let pad: usize = if width < CELL_WIDTH {
                CELL_WIDTH - width
            } else {
                0
            };
            append_spaces(&mut out, pad / 2);
            out.append(name);
            append_spaces(&mut out, pad - pad / 2);
            out.append("|");
            proof {
                reveal_strlit("|");
            }
            assert(name@ == names[i as int]);
            assert(names.take(i + 1).drop_last() =~= names.take(i as int));
            assert(out@ =~= head + cells(names.take(i + 1)));
            i = i + 1;
        }
        assert(names.take(n as int) =~= names);
        out.append("\n");
        append_rule(&mut out, n);
        out.append("\n");
        assert(out@ =~= roster(names));
        out
    }
}

} // verus!