use vstd::prelude::*;
use vstd::string::*;

verus! {

/// What the manager can choose to do next.
#[derive(Clone, Copy, Debug, PartialEq, Eq, Structural)]
pub enum Action {
    AddEmployees,
    EmployeeHours,
    PayEmployees,
    EndDay,
}

/// The kinds of employee that can be hired.
#[derive(Clone, Copy, Debug, PartialEq, Eq, Structural)]
pub enum EmployeeType {
    FullTime,
    PartTime,
}

/// Whether to stop or go on asking for more.
#[derive(Clone, Copy, Debug, PartialEq, Eq, Structural)]
pub enum LoopAction {
    Done,
    Continue,
}

/// The action a choice names: its number, its shorthand or its code.
pub open spec fn action_named(s: Seq<char>) -> Option<Action> {
    if s == "1"@ || s == "add"@ || s == "AddEmployees"@ {
        Some(Action::AddEmployees)
    } else if s == "2"@ || s == "hours"@ || s == "EmployeeHours"@ {
        Some(Action::EmployeeHours)
    } else if s == "3"@ || s == "pay"@ || s == "PayEmployees"@ {
        Some(Action::PayEmployees)
    } else if s == "4"@ || s == "end"@ || s == "EndDay"@ {
        Some(Action::EndDay)
    } else {
        None
    }
}

/// The kind of employee a choice names.
pub open spec fn employee_type_named(s: Seq<char>) -> Option<EmployeeType> {
    if s == "Full"@ {
        Some(EmployeeType::FullTime)
    } else if s == "Part"@ {
        Some(EmployeeType::PartTime)
    } else {
        None
    }
}

/// An empty answer or `Done` ends the asking; anything else goes on.
pub open spec fn loop_action_named(s: Seq<char>) -> LoopAction {
    if s == ""@ || s == "Done"@ {
        LoopAction::Done
    } else {
        LoopAction::Continue
    }
}

/// Whether two strings hold the same characters.
pub fn same_text(a: &str, b: &str) -> (r: bool)
    ensures
        r == (a@ == b@),
{
    let n = a.unicode_len();
    if n != b.unicode_len() {
        return false;
    }
    let mut i: usize = 0;
    while i < n
        invariant
            n == a@.len() == b@.len(),
            i <= n,
            forall|j: int| 0 <= j < i ==> a@[j] == b@[j],
        decreases n - i,
    {
        if a.get_char(i) != b.get_char(i) {
            return false;
        }
        i = i + 1;
    }
    assert(a@ =~= b@);
    true
}

impl Action {
    /// The action that `input` names, if any.
    pub fn parse(input: &str) -> (r: Option<Action>)
        ensures
            r == action_named(input@),
    {
        if same_text(input, "1") || same_text(input, "add") || same_text(input, "AddEmployees") {
            Some(Action::AddEmployees)
        } else if same_text(input, "2") || same_text(input, "hours") || same_text(
            input,
            "EmployeeHours",
        ) {
            Some(Action::EmployeeHours)
        } else if same_text(input, "3") || same_text(input, "pay") || same_text(
            input,
            "PayEmployees",
        ) {
            Some(Action::PayEmployees)
        } else if same_text(input, "4") || same_text(input, "end") || same_text(input, "EndDay") {
            Some(Action::EndDay)
        } else {
            None
        }
    }
}

impl EmployeeType {
    /// The kind of employee that `input` names, if any.
    pub fn parse(input: &str) -> (r: Option<EmployeeType>)
        ensures
            r == employee_type_named(input@),
    {
        if same_text(input, "Full") {
            Some(EmployeeType::FullTime)
        } else if same_text(input, "Part") {
            Some(EmployeeType::PartTime)
        } else {
            None
        }
    }
}

impl LoopAction {
    /// Whether `input` ends the asking.
    pub fn parse(input: &str) -> (r: LoopAction)
        ensures
            r == loop_action_named(input@),
    {
        if same_text(input, "") || same_text(input, "Done") {
            LoopAction::Done
        } else {
            LoopAction::Continue
        }
    }
}

/// Whether `c` has Unicode's White_Space property.
pub uninterp spec fn white_space(c: char) -> bool;

/// Relies on `char::is_whitespace`, which tells whether a character has
/// Unicode's White_Space property.
#[verifier::external_body]
fn is_white(c: char) -> (r: bool)
    ensures
        r == white_space(c),
{
    c.is_whitespace()
}

/// Whether `d` is one or more decimal digits.
pub open spec fn is_digits(d: Seq<char>) -> bool {
    d.len() > 0 && forall|i: int| 0 <= i < d.len() ==> '0' <= #[trigger] d[i] <= '9'
}

/// The number that the decimal digits `d` write.
pub open spec fn digits_value(d: Seq<char>) -> int
    decreases d.len(),
{
    if d.len() == 0 {
        0
    } else {
        digits_value(d.drop_last()) * 10 + (d.last() as int - '0' as int)
    }
}

/// The `u32` that `w` writes: an optional `+` and then decimal digits, whose
/// value fits; `None` for anything else.
pub open spec fn decimal_u32(w: Seq<char>) -> Option<u32> {
    let d = if w.len() > 0 && w[0] == '+' {
        w.drop_first()
    } else {
        w
    };
    if is_digits(d) && digits_value(d) <= u32::MAX {
        Some(digits_value(d) as u32)
    } else {
        None
    }
}

/// Relies on `u32`'s `FromStr`, which accepts an optional `+` followed by
/// decimal digits whose value fits in a `u32`, and refuses anything else.
#[verifier::external_body]
fn parse_u32(w: &str) -> (r: Option<u32>)
    ensures
        r == decimal_u32(w@),
{
    w.parse::<u32>().ok()
}

/// Reads `s` from left to right: the words finished so far, and the word
/// still being read (empty between words).
pub open spec fn scan_words(s: Seq<char>) -> (Seq<Seq<char>>, Seq<char>)
    decreases s.len(),
{
    if s.len() == 0 {
        (seq![], seq![])
    } else {
        let (done, cur) = scan_words(s.drop_last());
        let c = s.last();
        if !white_space(c) {
            (done, cur.push(c))
        } else if cur.len() > 0 {
            (done.push(cur), seq![])
        } else {
            (done, cur)
        }
    }
}

/// The words of `s`: its longest runs of characters that are not white space,
/// in order.
pub open spec fn words(s: Seq<char>) -> Seq<Seq<char>> {
    let (done, cur) = scan_words(s);
    if cur.len() > 0 {
        done.push(cur)
    } else {
        done
    }
}

/// The numbers that the words write, in order, skipping the words that write
/// none.
pub open spec fn numbers_in(ws: Seq<Seq<char>>) -> Seq<u32>
    decreases ws.len(),
{
    if ws.len() == 0 {
        seq![]
    } else {
        match decimal_u32(ws.last()) {
            Some(h) => numbers_in(ws.drop_last()).push(h),
            None => numbers_in(ws.drop_last()),
        }
    }
}

/// The hours written in a line, one per word, in order; words that are not
/// a number of hours are skipped.
pub fn parse_hours(line: &str) -> (r: Vec<u32>)
    ensures
        r@ == numbers_in(words(line@)),
{
    let n = line.unicode_len();
    let ghost s = line@;
    let ghost mut done: Seq<Seq<char>> = seq![];
    let mut hours: Vec<u32> = Vec::new();
    let mut start: usize = 0;
    let mut i: usize = 0;
    while i < n
        invariant
            n == s.len(),
            s == line@,
            start <= i <= n,
            scan_words(s.take(i as int)) == (done, s.subrange(start as int, i as int)),
            hours@ == numbers_in(done),
        decreases n - i,
    {
        let c = line.get_char(i);
        assert(s.take(i + 1).drop_last() =~= s.take(i as int));
        assert(s.take(i + 1).last() == c);
        if !is_white(c) {
            assert(s.subrange(start as int, i + 1) =~= s.subrange(start as int, i as int).push(c));
        } else {
            if start < i {
                let word = line.substring_char(start, i);
                proof {
                    assert(done.push(word@).drop_last() =~= done);
                    done = done.push(word@);
                }
                match parse_u32(word) {
                    Some(h) => hours.push(h),
                    None => {},
                }
            }
            start = i + 1;
            assert(s.subrange(start as int, i + 1) =~= seq![]);
        }
        i = i + 1;
    }
    assert(s.take(n as int) =~= s);
    if start < n {
        let word = line.substring_char(start, n);
        proof {
            assert(done.push(word@).drop_last() =~= done);
        }
        match parse_u32(word) {
            Some(h) => hours.push(h),
            None => {},
        }
    }
    hours
}

} // verus!
