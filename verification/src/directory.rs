//! A company directory: employees (name and position) grouped by
//! department, departments in the order they were first used.

use crate::collections::{lowercase, str_lowercase};
use crate::discover::{contains_seq, str_contains};
use crate::text::{push_str, str_eq, string_of, trim, trimmed};
use vstd::prelude::*;

verus! {

pub struct Employee {
    pub name: String,
    pub position: String,
}

pub struct Department {
    pub name: String,
    pub employees: Vec<Employee>,
}

pub struct Directory {
    pub departments: Vec<Department>,
}

/// An employee as (name, position).
pub type EmployeeView = (Seq<char>, Seq<char>);

/// A department as (name, employees).
pub type DepartmentView = (Seq<char>, Seq<EmployeeView>);

impl View for Employee {
    type V = EmployeeView;

    open spec fn view(&self) -> EmployeeView {
        (self.name@, self.position@)
    }
}

/// The views of a list of employees.
pub open spec fn employee_views(e: Seq<Employee>) -> Seq<EmployeeView> {
    e.map_values(|x: Employee| x@)
}

impl View for Department {
    type V = DepartmentView;

    open spec fn view(&self) -> DepartmentView {
        (self.name@, employee_views(self.employees@))
    }
}

impl View for Directory {
    type V = Seq<DepartmentView>;

    open spec fn view(&self) -> Seq<DepartmentView> {
        self.departments@.map_values(|d: Department| d@)
    }
}

/// Position of the department named `name` from `k` on; the length when
/// there is none.
pub open spec fn dept_index(d: Seq<DepartmentView>, name: Seq<char>, k: int) -> int
    decreases d.len() - k,
{
    if k < 0 || k >= d.len() {
        d.len() as int
    } else if d[k].0 == name {
        k
    } else {
        dept_index(d, name, k + 1)
    }
}

proof fn lemma_dept_index(d: Seq<DepartmentView>, name: Seq<char>, k: int)
    requires
        0 <= k <= d.len(),
    ensures
        k <= dept_index(d, name, k) <= d.len(),
        dept_index(d, name, k) < d.len() ==> d[dept_index(d, name, k)].0 == name,
    decreases d.len() - k,
{
    if k < d.len() && d[k].0 != name {
        lemma_dept_index(d, name, k + 1);
    }
}

/// The directory after adding employee `name` with `position` to
/// department `dept`: appended to that department, or to a new department
/// at the end when there is none of that name.
pub open spec fn spec_add(d: Seq<DepartmentView>, name: Seq<char>, dept: Seq<char>, position: Seq<char>) -> Seq<
    DepartmentView,
> {
    let k = dept_index(d, dept, 0);
    if k < d.len() {
        d.update(k, (dept, d[k].1.push((name, position))))
    } else {
        d.push((dept, seq![(name, position)]))
    }
}

/// Whether an employee's name, in lower case, holds `q`.
pub open spec fn name_matches(e: EmployeeView, q: Seq<char>) -> bool {
    contains_seq(str_lowercase(e.0), q)
}

/// The employees whose name matches `q`, in order.
pub open spec fn matching(e: Seq<EmployeeView>, q: Seq<char>) -> Seq<EmployeeView>
    decreases e.len(),
{
    if e.len() == 0 {
        Seq::empty()
    } else {
        matching(e.drop_last(), q) + if name_matches(e.last(), q) {
            seq![e.last()]
        } else {
            Seq::empty()
        }
    }
}

/// The employees of all departments whose name matches `q`, department by
/// department.
pub open spec fn found(d: Seq<DepartmentView>, q: Seq<char>) -> Seq<EmployeeView>
    decreases d.len(),
{
    if d.len() == 0 {
        Seq::empty()
    } else {
        found(d.drop_last(), q) + matching(d.last().1, q)
    }
}

/// The line that shows an employee.
pub open spec fn employee_line(e: EmployeeView) -> Seq<char> {
    "  "@ + e.0 + " — "@ + e.1
}

/// The lines that show a department: a blank line, its header, then one
/// line per employee.
pub open spec fn department_lines(dep: DepartmentView) -> Seq<Seq<char>> {
    seq![Seq::<char>::empty(), "--- "@ + dep.0 + " ---"@] + dep.1.map_values(|e: EmployeeView| employee_line(e))
}

/// The lines of the departments, in order.
pub open spec fn all_lines(d: Seq<DepartmentView>) -> Seq<Seq<char>>
    decreases d.len(),
{
    if d.len() == 0 {
        Seq::empty()
    } else {
        all_lines(d.drop_last()) + department_lines(d.last())
    }
}

/// What the listing shows: a note for an empty directory, else every
/// department with its employees.
pub open spec fn spec_listing(d: Seq<DepartmentView>) -> Seq<Seq<char>> {
    if d.len() == 0 {
        seq!["Справочник пуст"@]
    } else {
        all_lines(d)
    }
}

fn copy_employee(e: &Employee) -> (r: Employee)
    ensures
        r@ == e@,
{
    Employee { name: string_of(e.name.as_str()), position: string_of(e.position.as_str()) }
}

impl Directory {
    /// An empty directory.
    pub fn new() -> (r: Directory)
        ensures
            r@ == Seq::<DepartmentView>::empty(),
    {
        let r = Directory { departments: Vec::new() };
        proof {
            assert(r@ =~= Seq::<DepartmentView>::empty());
        }
        r
    }

    fn find_department(&self, name: &str) -> (r: usize)
        ensures
            r == dept_index(self@, name@, 0),
            r <= self@.len(),
    {
        let mut k: usize = 0;
        while k < self.departments.len() && !str_eq(self.departments[k].name.as_str(), name)
            invariant
                k <= self@.len(),
                dept_index(self@, name@, 0) == dept_index(self@, name@, k as int),
            decreases self@.len() - k,
        {
            k = k + 1;
        }
        k
    }

    /// Adds an employee; name, department and position are taken trimmed.
    pub fn add_employee(&mut self, name: &str, department: &str, position: &str)
        ensures
            final(self)@ == spec_add(old(self)@, trim(name@), trim(department@), trim(position@)),
    {
        let n = trimmed(name);
        let dp = trimmed(department);
        let ps = trimmed(position);
        let ghost e = (n@, ps@);
        let ghost want = spec_add(old(self)@, trim(name@), trim(department@), trim(position@));
        let k = self.find_department(dp.as_str());
        let emp = Employee { name: n, position: ps };
        if k < self.departments.len() {
            let mut d = self.departments.remove(k);
            let ghost old_d = d@;
            proof {
                assert(old_d == old(self)@[k as int]);
            }
            d.employees.push(emp);
            proof {
                assert(employee_views(d.employees@) =~= old_d.1.push(e));
            }
            let ghost dnew = d;
            self.departments.insert(k, d);
            proof {
                let od = old(self).departments@;
                assert(self.departments@ =~= od.update(k as int, dnew));
                assert(self@ =~= old(self)@.update(k as int, dnew@));
                lemma_dept_index(old(self)@, dp@, 0);
                assert(self@ =~= want);
            }
        } else {
            let mut emps: Vec<Employee> = Vec::new();
            emps.push(emp);
            self.departments.push(Department { name: dp, employees: emps });
            proof {
                assert(employee_views(emps@) =~= seq![e]);
                assert(self@ =~= want);
            }
        }
    }

    /// The employees whose name holds the query (trimmed), both compared in
    /// lower case; department by department.
    pub fn find_employee(&self, query: &str) -> (r: Vec<Employee>)
        ensures
            employee_views(r@) == found(self@, str_lowercase(trim(query@))),
    {
        let t = trimmed(query);
        let q = lowercase(t.as_str());
        let ghost qv = q@;
        let mut out: Vec<Employee> = Vec::new();
        let mut i: usize = 0;
        while i < self.departments.len()
            invariant
                i <= self@.len(),
                qv == q@,
                employee_views(out@) == found(self@.take(i as int), qv),
            decreases self@.len() - i,
        {
            let dep = &self.departments[i];
            let ghost dv = self@[i as int];
            proof {
                assert(dv == dep@);
            }
            let ghost before = out@;
            let mut j: usize = 0;
            while j < dep.employees.len()
                invariant
                    j <= dv.1.len(),
                    dv == dep@,
                    qv == q@,
                    employee_views(out@) == employee_views(before) + matching(dv.1.take(j as int), qv),
                decreases dv.1.len() - j,
            {
                let e = &dep.employees[j];
                proof {
                    assert(dv.1[j as int] == e@);
                    assert(dv.1.take(j + 1).drop_last() =~= dv.1.take(j as int));
                }
                let lower = lowercase(e.name.as_str());
                let ghost mid = out@;
                if str_contains(lower.as_str(), q.as_str()) {
                    out.push(copy_employee(e));
                    proof {
                        assert(employee_views(out@) =~= employee_views(mid).push(e@));
                    }
                }
                proof {
                    assert(employee_views(out@) =~= employee_views(before) + matching(dv.1.take(j + 1), qv));
                }
                j = j + 1;
            }
            proof {
                assert(dv.1.take(j as int) =~= dv.1);
                assert(self@.take(i + 1).drop_last() =~= self@.take(i as int));
                assert(employee_views(out@) =~= found(self@.take(i + 1), qv));
            }
            i = i + 1;
        }
        proof {
            assert(self@.take(i as int) =~= self@);
        }
        out
    }

    /// The listing of the directory, line by line.
    pub fn list_all(&self) -> (r: Vec<String>)
        ensures
            r@.map_values(|s: String| s@) == spec_listing(self@),
    {
        let mut out: Vec<String> = Vec::new();
        if self.departments.len() == 0 {
            out.push(string_of("Справочник пуст"));
            proof {
                assert(out@.map_values(|s: String| s@) =~= spec_listing(self@));
            }
            return out;
        }
        let mut i: usize = 0;
        while i < self.departments.len()
            invariant
                i <= self@.len(),
                out@.map_values(|s: String| s@) == all_lines(self@.take(i as int)),
            decreases self@.len() - i,
        {
            let dep = &self.departments[i];
            let ghost dv = self@[i as int];
            proof {
                assert(dv == dep@);
            }
            let ghost before = out@.map_values(|s: String| s@);
            out.push(String::new());
            let mut header = string_of("--- ");
            push_str(&mut header, dep.name.as_str());
            push_str(&mut header, " ---");
            out.push(header);
            proof {
                assert(out@.map_values(|s: String| s@) =~= before + seq![Seq::<char>::empty(), "--- "@ + dv.0 + " ---"@]);
            }
            let mut j: usize = 0;
            while j < dep.employees.len()
                invariant
                    j <= dv.1.len(),
                    dv == dep@,
                    out@.map_values(|s: String| s@) == before + seq![Seq::<char>::empty(), "--- "@ + dv.0 + " ---"@]
                        + dv.1.take(j as int).map_values(|e: EmployeeView| employee_line(e)),
                decreases dv.1.len() - j,
            {
                let e = &dep.employees[j];
                proof {
                    assert(dv.1[j as int] == e@);
                }
                let mut line = string_of("  ");
                push_str(&mut line, e.name.as_str());
                push_str(&mut line, " — ");
                push_str(&mut line, e.position.as_str());
                let ghost mid = out@.map_values(|s: String| s@);
                out.push(line);
                proof {
                    assert(out@.map_values(|s: String| s@) =~= mid.push(employee_line(dv.1[j as int])));
                    assert(dv.1.take(j + 1).map_values(|e: EmployeeView| employee_line(e)) =~= dv.1.take(
                        j as int,
                    ).map_values(|e: EmployeeView| employee_line(e)).push(employee_line(dv.1[j as int])));
                }
                j = j + 1;
            }
            proof {
                assert(dv.1.take(j as int) =~= dv.1);
                assert(self@.take(i + 1).drop_last() =~= self@.take(i as int));
                assert(out@.map_values(|s: String| s@) =~= all_lines(self@.take(i + 1)));
            }
            i = i + 1;
        }
        proof {
            assert(self@.take(i as int) =~= self@);
        }
        out
    }
}

proof fn lemma_found_after_update(d: Seq<DepartmentView>, k: int, dep: DepartmentView, x: EmployeeView, q: Seq<char>)
    requires
        0 <= k < d.len(),
        dep.1.len() > 0,
        dep.1.last() == x,
        name_matches(x, q),
    ensures
        found(d.update(k, dep), q).contains(x),
    decreases d.len(),
{
    let u = d.update(k, dep);
    let m = matching(dep.1, q);
    assert(m.last() == x);
    if k == d.len() - 1 {
        assert(u.drop_last() =~= d.drop_last());
        assert(u.last() == dep);
        assert(found(u, q)[found(u, q).len() - 1] == x);
    } else {
        lemma_found_after_update(d.drop_last(), k, dep, x, q);
        assert(u.drop_last() =~= d.drop_last().update(k, dep));
        let f = found(u.drop_last(), q);
        let j = choose|j: int| 0 <= j < f.len() && f[j] == x;
        assert(found(u, q)[j] == x);
    }
}

/// What is added can be found: after adding an employee, a search with any
/// part of the name (in lower case) lists that employee.
pub proof fn lemma_added_employee_found(
    d: Seq<DepartmentView>,
    name: Seq<char>,
    dept: Seq<char>,
    position: Seq<char>,
    q: Seq<char>,
)
    requires
        name_matches((name, position), q),
    ensures
        found(spec_add(d, name, dept, position), q).contains((name, position)),
{
    let x = (name, position);
    lemma_dept_index(d, dept, 0);
    let k = dept_index(d, dept, 0);
    if k < d.len() {
        let dep = (dept, d[k].1.push(x));
        assert(dep.1.last() == x);
        lemma_found_after_update(d, k, dep, x, q);
    } else {
        let a = spec_add(d, name, dept, position);
        assert(a.drop_last() =~= d);
        let m = matching(seq![x], q);
        assert(seq![x].drop_last() =~= Seq::<EmployeeView>::empty());
        assert(matching(Seq::<EmployeeView>::empty(), q) =~= Seq::<EmployeeView>::empty());
        assert(seq![x].last() == x);
        assert(m =~= seq![x]);
        assert(found(a, q)[found(a, q).len() - 1] == x);
    }
}

/// A command of the directory's prompt.
#[derive(PartialEq, Eq, Structural)]
pub enum Command {
    Add,
    List,
    Find,
    Quit,
    Unknown,
}

/// The command a typed line (trimmed) names.
pub open spec fn spec_command(line: Seq<char>) -> Command {
    let t = trim(line);
    if t == "add"@ {
        Command::Add
    } else if t == "list"@ {
        Command::List
    } else if t == "find"@ {
        Command::Find
    } else if t == "quit"@ {
        Command::Quit
    } else {
        Command::Unknown
    }
}

/// Reads a command from a typed line.
pub fn parse_command(line: &str) -> (r: Command)
    ensures
        r == spec_command(line@),
{
    let t = trimmed(line);
    if str_eq(t.as_str(), "add") {
        Command::Add
    } else if str_eq(t.as_str(), "list") {
        Command::List
    } else if str_eq(t.as_str(), "find") {
        Command::Find
    } else if str_eq(t.as_str(), "quit") {
        Command::Quit
    } else {
        Command::Unknown
    }
}

} // verus!
