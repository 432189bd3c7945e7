//! Predicates on records: one enumeration for each entity kind, each
//! variant an equality on one column, and what a predicate means both as a
//! condition for a backing store and as a test on a record.

use crate::db_driver::{ReceiverType, ReceiverTypeView};
use crate::statement::{
    bind_flag, flag, SqlValue, SqlValueView, Statement, StatementView, values_view,
};
use crate::table_models::{
    Courses, CoursesView, Departments, DepartmentsView, StudentAccount, StudentAccountView,
    StudentCourse, StudentCourseView, Table, TeacherAccount, TeacherAccountView, User, UserView,
};
use vstd::prelude::*;
use vstd::string::*;

verus! {

/// A predicate that can be handed to the backing store as a condition.
pub trait Filterable {
    /// The text of the condition, with one `?` for the value it compares
    /// with, and that value.
    spec fn condition(&self) -> StatementView;

    /// The condition as a statement fragment: an equality over one column,
    /// its value bound and never spliced into the text.
    fn to_sql(&self) -> (r: Statement)
        ensures
            r@ == self.condition(),
    ;
}

/// How the predicates of one query combine. One choice holds for the whole
/// query.
#[derive(Debug, Clone, Copy, PartialEq, Eq, Structural)]
pub enum Associativity {
    And,
    Or,
}

impl Associativity {
    /// The connective, with a space before and after it.
    pub open spec fn keyword_text(&self) -> Seq<char> {
        match self {
            Associativity::And => " AND "@,
            Associativity::Or => " OR "@,
        }
    }

    /// The connective, with a space before and after it.
    pub fn keyword(&self) -> (r: &'static str)
        ensures
            r@ == self.keyword_text(),
    {
        match self {
            Associativity::And => " AND ",
            Associativity::Or => " OR ",
        }
    }
}

/// The connective of a query that names none: `And`.
pub open spec fn associativity_or_default(a: Option<Associativity>) -> Associativity {
    match a {
        Some(x) => x,
        None => Associativity::And,
    }
}

/// A predicate on one entity kind.
#[derive(Debug, PartialEq)]
pub enum Filter {
    Users(UsersFilter),
    StudentAccount(StudentAccountFilter),
    TeacherAccount(TeacherAccountFilter),
    Courses(CoursesFilter),
    Departments(DepartmentsFilter),
    StudentCourses(StudentCoursesFilter),
}

impl Filter {
    /// The entity kind that the predicate is about.
    pub open spec fn table_of(&self) -> Table {
        match self {
            Filter::Users(_) => Table::Users,
            Filter::StudentAccount(_) => Table::StudentAccount,
            Filter::TeacherAccount(_) => Table::TeacherAccount,
            Filter::Courses(_) => Table::Courses,
            Filter::Departments(_) => Table::Departments,
            Filter::StudentCourses(_) => Table::StudentCourses,
        }
    }

    /// The entity kind that the predicate is about.
    pub fn table(&self) -> (r: Table)
        ensures
            r == self.table_of(),
    {
        match self {
            Filter::Users(_) => Table::Users,
            Filter::StudentAccount(_) => Table::StudentAccount,
            Filter::TeacherAccount(_) => Table::TeacherAccount,
            Filter::Courses(_) => Table::Courses,
            Filter::Departments(_) => Table::Departments,
            Filter::StudentCourses(_) => Table::StudentCourses,
        }
    }

    /// Whether the predicate names a column that its table has.
    pub open spec fn column_exists(&self) -> bool {
        match self {
            Filter::Users(x) => x.column_exists(),
            Filter::StudentAccount(x) => x.column_exists(),
            Filter::TeacherAccount(x) => x.column_exists(),
            Filter::Courses(x) => x.column_exists(),
            Filter::Departments(x) => x.column_exists(),
            Filter::StudentCourses(x) => x.column_exists(),
        }
    }

    /// Whether the predicate names a column that its table has.
    pub fn has_column(&self) -> (r: bool)
        ensures
            r == self.column_exists(),
    {
        match self {
            Filter::Users(x) => x.has_column(),
            Filter::StudentAccount(x) => x.has_column(),
            Filter::TeacherAccount(x) => x.has_column(),
            Filter::Courses(x) => x.has_column(),
            Filter::Departments(x) => x.has_column(),
            Filter::StudentCourses(x) => x.has_column(),
        }
    }

    /// Whether the predicate is the one that every record satisfies.
    pub open spec fn matches_all(&self) -> bool {
        match self {
            Filter::Users(x) => x is All,
            Filter::StudentAccount(x) => x is All,
            Filter::TeacherAccount(x) => x is All,
            Filter::Courses(x) => x is All,
            Filter::Departments(x) => x is All,
            Filter::StudentCourses(x) => x is All,
        }
    }

    /// Whether the predicate is the one that every record satisfies.
    pub fn is_all(&self) -> (r: bool)
        ensures
            r == self.matches_all(),
    {
        match self {
            Filter::Users(x) => matches!(x, UsersFilter::All),
            Filter::StudentAccount(x) => matches!(x, StudentAccountFilter::All),
            Filter::TeacherAccount(x) => matches!(x, TeacherAccountFilter::All),
            Filter::Courses(x) => matches!(x, CoursesFilter::All),
            Filter::Departments(x) => matches!(x, DepartmentsFilter::All),
            Filter::StudentCourses(x) => matches!(x, StudentCoursesFilter::All),
        }
    }

    /// Whether a record satisfies the predicate. A record of another kind
    /// never does.
    pub open spec fn holds(&self, record: ReceiverTypeView) -> bool {
        match (self, record) {
            (Filter::Users(x), ReceiverTypeView::User(r)) => x.holds(r),
            (Filter::StudentAccount(x), ReceiverTypeView::StudentAccount(r)) => x.holds(r),
            (Filter::TeacherAccount(x), ReceiverTypeView::TeacherAccount(r)) => x.holds(r),
            (Filter::Courses(x), ReceiverTypeView::Course(r)) => x.holds(r),
            (Filter::Departments(x), ReceiverTypeView::Department(r)) => x.holds(r),
            (Filter::StudentCourses(x), ReceiverTypeView::StudentCourse(r)) => x.holds(r),
            _ => false,
        }
    }

    /// Whether a record satisfies the predicate. A record of another kind
    /// never does.
    pub fn matches(&self, record: &ReceiverType) -> (b: bool)
        ensures
            b == self.holds(record@),
    {
        match (self, record) {
            (Filter::Users(x), ReceiverType::User(r)) => x.matches(r),
            (Filter::StudentAccount(x), ReceiverType::StudentAccount(r)) => x.matches(r),
            (Filter::TeacherAccount(x), ReceiverType::TeacherAccount(r)) => x.matches(r),
            (Filter::Courses(x), ReceiverType::Course(r)) => x.matches(r),
            (Filter::Departments(x), ReceiverType::Department(r)) => x.matches(r),
            (Filter::StudentCourses(x), ReceiverType::StudentCourse(r)) => x.matches(r),
            _ => false,
        }
    }
}

impl Filterable for Filter {
    open spec fn condition(&self) -> StatementView {
        match self {
            Filter::Users(x) => x.condition(),
            Filter::StudentAccount(x) => x.condition(),
            Filter::TeacherAccount(x) => x.condition(),
            Filter::Courses(x) => x.condition(),
            Filter::Departments(x) => x.condition(),
            Filter::StudentCourses(x) => x.condition(),
        }
    }

    fn to_sql(&self) -> (r: Statement) {
        match self {
            Filter::Users(x) => x.to_sql(),
            Filter::StudentAccount(x) => x.to_sql(),
            Filter::TeacherAccount(x) => x.to_sql(),
            Filter::Courses(x) => x.to_sql(),
            Filter::Departments(x) => x.to_sql(),
            Filter::StudentCourses(x) => x.to_sql(),
        }
    }
}

/// A predicate on users: one column equal to one value, or `All`, which
/// every record satisfies.
#[derive(Debug, PartialEq)]
pub enum UsersFilter {
    Username(String),
    Email(String),
    Phone(String),
    Role(String),
    Verified(bool),
    Suspended(bool),
    Forcenewpw(bool),
    Id(i32),
    All,
}

impl UsersFilter {
    /// Whether the predicate names a column that the table has.
    pub open spec fn column_exists(&self) -> bool {
        true
    }

    /// Whether the predicate names a column that the table has.
    pub fn has_column(&self) -> (r: bool)
        ensures
            r == self.column_exists(),
    {
        true
    }

    /// Whether a record satisfies the predicate.
    pub open spec fn holds(&self, r: UserView) -> bool {
        match self {
            UsersFilter::Username(x) => r.username == x@,
            UsersFilter::Email(x) => r.email == x@,
            UsersFilter::Phone(x) => r.phone == x@,
            UsersFilter::Role(x) => r.role == x@,
            UsersFilter::Verified(x) => r.verified == *x,
            UsersFilter::Suspended(x) => r.suspended == *x,
            UsersFilter::Forcenewpw(x) => r.forcenewpw == *x,
            UsersFilter::Id(x) => r.id == *x,
            UsersFilter::All => true,
        }
    }

    /// Whether a record satisfies the predicate.
    pub fn matches(&self, r: &User) -> (b: bool)
        ensures
            b == self.holds(r@),
    {
        match self {
            UsersFilter::Username(x) => r.username == *x,
            UsersFilter::Email(x) => r.email == *x,
            UsersFilter::Phone(x) => r.phone == *x,
            UsersFilter::Role(x) => r.role == *x,
            UsersFilter::Verified(x) => r.verified == *x,
            UsersFilter::Suspended(x) => r.suspended == *x,
            UsersFilter::Forcenewpw(x) => r.forcenewpw == *x,
            UsersFilter::Id(x) => r.id == *x,
            UsersFilter::All => true,
        }
    }
}

impl Filterable for UsersFilter {
    open spec fn condition(&self) -> StatementView {
        match self {
            UsersFilter::Username(x) => StatementView {
                sql: "username = ?"@,
                params: seq![SqlValueView::Text(x@)],
            },
            UsersFilter::Email(x) => StatementView {
                sql: "email = ?"@,
                params: seq![SqlValueView::Text(x@)],
            },
            UsersFilter::Phone(x) => StatementView {
                sql: "phone = ?"@,
                params: seq![SqlValueView::Text(x@)],
            },
            UsersFilter::Role(x) => StatementView {
                sql: "role = ?"@,
                params: seq![SqlValueView::Text(x@)],
            },
            UsersFilter::Verified(x) => StatementView {
                sql: "verified = ?"@,
                params: seq![flag(*x)],
            },
            UsersFilter::Suspended(x) => StatementView {
                sql: "suspended = ?"@,
                params: seq![flag(*x)],
            },
            UsersFilter::Forcenewpw(x) => StatementView {
                sql: "forcenewpw = ?"@,
                params: seq![flag(*x)],
            },
            UsersFilter::Id(x) => StatementView {
                sql: "id = ?"@,
                params: seq![SqlValueView::Integer(*x as int)],
            },
            UsersFilter::All => StatementView { sql: "1 = 1"@, params: Seq::empty() },
        }
    }

    fn to_sql(&self) -> (r: Statement) {
        let mut params: Vec<SqlValue> = Vec::new();
        match self {
            UsersFilter::Username(x) => {
                params.push(SqlValue::Text(x.clone()));
                assert(values_view(params@) =~= self.condition().params);
                Statement { sql: String::from_str("username = ?"), params }
            },
            UsersFilter::Email(x) => {
                params.push(SqlValue::Text(x.clone()));
                assert(values_view(params@) =~= self.condition().params);
                Statement { sql: String::from_str("email = ?"), params }
            },
            UsersFilter::Phone(x) => {
                params.push(SqlValue::Text(x.clone()));
                assert(values_view(params@) =~= self.condition().params);
                Statement { sql: String::from_str("phone = ?"), params }
            },
            UsersFilter::Role(x) => {
                params.push(SqlValue::Text(x.clone()));
                assert(values_view(params@) =~= self.condition().params);
                Statement { sql: String::from_str("role = ?"), params }
            },
            UsersFilter::Verified(x) => {
                params.push(bind_flag(*x));
                assert(values_view(params@) =~= self.condition().params);
                Statement { sql: String::from_str("verified = ?"), params }
            },
            UsersFilter::Suspended(x) => {
                params.push(bind_flag(*x));
                assert(values_view(params@) =~= self.condition().params);
                Statement { sql: String::from_str("suspended = ?"), params }
            },
            UsersFilter::Forcenewpw(x) => {
                params.push(bind_flag(*x));
                assert(values_view(params@) =~= self.condition().params);
                Statement { sql: String::from_str("forcenewpw = ?"), params }
            },
            UsersFilter::Id(x) => {
                params.push(SqlValue::Integer(*x as i64));
                assert(values_view(params@) =~= self.condition().params);
                Statement { sql: String::from_str("id = ?"), params }
            },
            UsersFilter::All => {
                assert(values_view(params@) =~= self.condition().params);
                Statement { sql: String::from_str("1 = 1"), params }
            },
        }
    }
}

/// A predicate on student accounts: one column equal to one value, or `All`, which
/// every record satisfies.
#[derive(Debug, PartialEq)]
pub enum StudentAccountFilter {
    StudentId(i32),
    AdvisorId(i32),
    Discipline(String),
    Enrollment(String),
    /// In thousandths of a grade point.
    Cgpa(i32),
    CanGrad(bool),
    CurCredit(i32),
    CumCredit(i32),
    Id(i32),
    All,
}

impl StudentAccountFilter {
    /// Whether the predicate names a column that the table has.
    pub open spec fn column_exists(&self) -> bool {
        true
    }

    /// Whether the predicate names a column that the table has.
    pub fn has_column(&self) -> (r: bool)
        ensures
            r == self.column_exists(),
    {
        true
    }

    /// Whether a record satisfies the predicate.
    pub open spec fn holds(&self, r: StudentAccountView) -> bool {
        match self {
            StudentAccountFilter::StudentId(x) => r.student_id == *x,
            StudentAccountFilter::AdvisorId(x) => r.advisor_id == *x,
            StudentAccountFilter::Discipline(x) => r.discipline == x@,
            StudentAccountFilter::Enrollment(x) => r.enrollment == x@,
            StudentAccountFilter::Cgpa(x) => r.cgpa == *x,
            StudentAccountFilter::CanGrad(x) => r.can_grad == *x,
            StudentAccountFilter::CurCredit(x) => r.cur_credit == *x,
            StudentAccountFilter::CumCredit(x) => r.cum_credit == *x,
            StudentAccountFilter::Id(x) => r.id == *x,
            StudentAccountFilter::All => true,
        }
    }

    /// Whether a record satisfies the predicate.
    pub fn matches(&self, r: &StudentAccount) -> (b: bool)
        ensures
            b == self.holds(r@),
    {
        match self {
            StudentAccountFilter::StudentId(x) => r.student_id == *x,
            StudentAccountFilter::AdvisorId(x) => r.advisor_id == *x,
            StudentAccountFilter::Discipline(x) => r.discipline == *x,
            StudentAccountFilter::Enrollment(x) => r.enrollment == *x,
            StudentAccountFilter::Cgpa(x) => r.cgpa == *x,
            StudentAccountFilter::CanGrad(x) => r.can_grad == *x,
            StudentAccountFilter::CurCredit(x) => r.cur_credit == *x,
            StudentAccountFilter::CumCredit(x) => r.cum_credit == *x,
            StudentAccountFilter::Id(x) => r.id == *x,
            StudentAccountFilter::All => true,
        }
    }
}

impl Filterable for StudentAccountFilter {
    open spec fn condition(&self) -> StatementView {
        match self {
            StudentAccountFilter::StudentId(x) => StatementView {
                sql: "student_id = ?"@,
                params: seq![SqlValueView::Integer(*x as int)],
            },
            StudentAccountFilter::AdvisorId(x) => StatementView {
                sql: "advisor_id = ?"@,
                params: seq![SqlValueView::Integer(*x as int)],
            },
            StudentAccountFilter::Discipline(x) => StatementView {
                sql: "discipline = ?"@,
                params: seq![SqlValueView::Text(x@)],
            },
            StudentAccountFilter::Enrollment(x) => StatementView {
                sql: "enrollment = ?"@,
                params: seq![SqlValueView::Text(x@)],
            },
            StudentAccountFilter::Cgpa(x) => StatementView {
                sql: "cgpa = ?"@,
                params: seq![SqlValueView::Real(*x as int)],
            },
            StudentAccountFilter::CanGrad(x) => StatementView {
                sql: "can_grad = ?"@,
                params: seq![flag(*x)],
            },
            StudentAccountFilter::CurCredit(x) => StatementView {
                sql: "cur_credit = ?"@,
                params: seq![SqlValueView::Integer(*x as int)],
            },
            StudentAccountFilter::CumCredit(x) => StatementView {
                sql: "cum_credit = ?"@,
                params: seq![SqlValueView::Integer(*x as int)],
            },
            StudentAccountFilter::Id(x) => StatementView {
                sql: "id = ?"@,
                params: seq![SqlValueView::Integer(*x as int)],
            },
            StudentAccountFilter::All => StatementView { sql: "1 = 1"@, params: Seq::empty() },
        }
    }

    fn to_sql(&self) -> (r: Statement) {
        let mut params: Vec<SqlValue> = Vec::new();
        match self {
            StudentAccountFilter::StudentId(x) => {
                params.push(SqlValue::Integer(*x as i64));
                assert(values_view(params@) =~= self.condition().params);
                Statement { sql: String::from_str("student_id = ?"), params }
            },
            StudentAccountFilter::AdvisorId(x) => {
                params.push(SqlValue::Integer(*x as i64));
                assert(values_view(params@) =~= self.condition().params);
                Statement { sql: String::from_str("advisor_id = ?"), params }
            },
            StudentAccountFilter::Discipline(x) => {
                params.push(SqlValue::Text(x.clone()));
                assert(values_view(params@) =~= self.condition().params);
                Statement { sql: String::from_str("discipline = ?"), params }
            },
            StudentAccountFilter::Enrollment(x) => {
                params.push(SqlValue::Text(x.clone()));
                assert(values_view(params@) =~= self.condition().params);
                Statement { sql: String::from_str("enrollment = ?"), params }
            },
            StudentAccountFilter::Cgpa(x) => {
                params.push(SqlValue::Real(*x as i64));
                assert(values_view(params@) =~= self.condition().params);
                Statement { sql: String::from_str("cgpa = ?"), params }
            },
            StudentAccountFilter::CanGrad(x) => {
                params.push(bind_flag(*x));
                assert(values_view(params@) =~= self.condition().params);
                Statement { sql: String::from_str("can_grad = ?"), params }
            },
            StudentAccountFilter::CurCredit(x) => {
                params.push(SqlValue::Integer(*x as i64));
                assert(values_view(params@) =~= self.condition().params);
                Statement { sql: String::from_str("cur_credit = ?"), params }
            },
            StudentAccountFilter::CumCredit(x) => {
                params.push(SqlValue::Integer(*x as i64));
                assert(values_view(params@) =~= self.condition().params);
                Statement { sql: String::from_str("cum_credit = ?"), params }
            },
            StudentAccountFilter::Id(x) => {
                params.push(SqlValue::Integer(*x as i64));
                assert(values_view(params@) =~= self.condition().params);
                Statement { sql: String::from_str("id = ?"), params }
            },
            StudentAccountFilter::All => {
                assert(values_view(params@) =~= self.condition().params);
                Statement { sql: String::from_str("1 = 1"), params }
            },
        }
    }
}

/// A predicate on teacher accounts: one column equal to one value, or `All`, which
/// every record satisfies.
#[derive(Debug, PartialEq)]
pub enum TeacherAccountFilter {
    TeacherId(i32),
    DeptId(i32),
    Dept(String),
    Id(i32),
    All,
}

impl TeacherAccountFilter {
    /// Whether the predicate names a column that the table has.
    pub open spec fn column_exists(&self) -> bool {
        match self {
            TeacherAccountFilter::Dept(_) => false,
            _ => true,
        }
    }

    /// Whether the predicate names a column that the table has.
    pub fn has_column(&self) -> (r: bool)
        ensures
            r == self.column_exists(),
    {
        match self {
            TeacherAccountFilter::Dept(_) => false,
            _ => true,
        }
    }

    /// Whether a record satisfies the predicate.
    pub open spec fn holds(&self, r: TeacherAccountView) -> bool {
        match self {
            TeacherAccountFilter::TeacherId(x) => r.teacher_id == *x,
            TeacherAccountFilter::DeptId(x) => r.dept_id == *x,
            TeacherAccountFilter::Dept(_) => false,
            TeacherAccountFilter::Id(x) => r.id == *x,
            TeacherAccountFilter::All => true,
        }
    }

    /// Whether a record satisfies the predicate.
    pub fn matches(&self, r: &TeacherAccount) -> (b: bool)
        ensures
            b == self.holds(r@),
    {
        match self {
            TeacherAccountFilter::TeacherId(x) => r.teacher_id == *x,
            TeacherAccountFilter::DeptId(x) => r.dept_id == *x,
            TeacherAccountFilter::Dept(_) => false,
            TeacherAccountFilter::Id(x) => r.id == *x,
            TeacherAccountFilter::All => true,
        }
    }
}

impl Filterable for TeacherAccountFilter {
    open spec fn condition(&self) -> StatementView {
        match self {
            TeacherAccountFilter::TeacherId(x) => StatementView {
                sql: "teacher_id = ?"@,
                params: seq![SqlValueView::Integer(*x as int)],
            },
            TeacherAccountFilter::DeptId(x) => StatementView {
                sql: "dept_id = ?"@,
                params: seq![SqlValueView::Integer(*x as int)],
            },
            TeacherAccountFilter::Dept(x) => StatementView {
                sql: "dept = ?"@,
                params: seq![SqlValueView::Text(x@)],
            },
            TeacherAccountFilter::Id(x) => StatementView {
                sql: "id = ?"@,
                params: seq![SqlValueView::Integer(*x as int)],
            },
            TeacherAccountFilter::All => StatementView { sql: "1 = 1"@, params: Seq::empty() },
        }
    }

    fn to_sql(&self) -> (r: Statement) {
        let mut params: Vec<SqlValue> = Vec::new();
        match self {
            TeacherAccountFilter::TeacherId(x) => {
                params.push(SqlValue::Integer(*x as i64));
                assert(values_view(params@) =~= self.condition().params);
                Statement { sql: String::from_str("teacher_id = ?"), params }
            },
            TeacherAccountFilter::DeptId(x) => {
                params.push(SqlValue::Integer(*x as i64));
                assert(values_view(params@) =~= self.condition().params);
                Statement { sql: String::from_str("dept_id = ?"), params }
            },
            TeacherAccountFilter::Dept(x) => {
                params.push(SqlValue::Text(x.clone()));
                assert(values_view(params@) =~= self.condition().params);
                Statement { sql: String::from_str("dept = ?"), params }
            },
            TeacherAccountFilter::Id(x) => {
                params.push(SqlValue::Integer(*x as i64));
                assert(values_view(params@) =~= self.condition().params);
                Statement { sql: String::from_str("id = ?"), params }
            },
            TeacherAccountFilter::All => {
                assert(values_view(params@) =~= self.condition().params);
                Statement { sql: String::from_str("1 = 1"), params }
            },
        }
    }
}

/// A predicate on courses: one column equal to one value, or `All`, which
/// every record satisfies.
#[derive(Debug, PartialEq)]
pub enum CoursesFilter {
    Id(i32),
    TeacherId(i32),
    Course(String),
    CrCost(i32),
    CreatedAt(String),
    UpdatedAt(String),
    All,
}

impl CoursesFilter {
    /// Whether the predicate names a column that the table has.
    pub open spec fn column_exists(&self) -> bool {
        match self {
            CoursesFilter::CreatedAt(_) => false,
            CoursesFilter::UpdatedAt(_) => false,
            _ => true,
        }
    }

    /// Whether the predicate names a column that the table has.
    pub fn has_column(&self) -> (r: bool)
        ensures
            r == self.column_exists(),
    {
        match self {
            CoursesFilter::CreatedAt(_) => false,
            CoursesFilter::UpdatedAt(_) => false,
            _ => true,
        }
    }

    /// Whether a record satisfies the predicate.
    pub open spec fn holds(&self, r: CoursesView) -> bool {
        match self {
            CoursesFilter::Id(x) => r.id == *x,
            CoursesFilter::TeacherId(x) => r.teacher_id == *x,
            CoursesFilter::Course(x) => r.course == x@,
            CoursesFilter::CrCost(x) => r.cr_cost == *x,
            CoursesFilter::CreatedAt(_) => false,
            CoursesFilter::UpdatedAt(_) => false,
            CoursesFilter::All => true,
        }
    }

    /// Whether a record satisfies the predicate.
    pub fn matches(&self, r: &Courses) -> (b: bool)
        ensures
            b == self.holds(r@),
    {
        match self {
            CoursesFilter::Id(x) => r.id == *x,
            CoursesFilter::TeacherId(x) => r.teacher_id == *x,
            CoursesFilter::Course(x) => r.course == *x,
            CoursesFilter::CrCost(x) => r.cr_cost == *x,
            CoursesFilter::CreatedAt(_) => false,
            CoursesFilter::UpdatedAt(_) => false,
            CoursesFilter::All => true,
        }
    }
}

impl Filterable for CoursesFilter {
    open spec fn condition(&self) -> StatementView {
        match self {
            CoursesFilter::Id(x) => StatementView {
                sql: "id = ?"@,
                params: seq![SqlValueView::Integer(*x as int)],
            },
            CoursesFilter::TeacherId(x) => StatementView {
                sql: "teacher_id = ?"@,
                params: seq![SqlValueView::Integer(*x as int)],
            },
            CoursesFilter::Course(x) => StatementView {
                sql: "course = ?"@,
                params: seq![SqlValueView::Text(x@)],
            },
            CoursesFilter::CrCost(x) => StatementView {
                sql: "cr_cost = ?"@,
                params: seq![SqlValueView::Integer(*x as int)],
            },
            CoursesFilter::CreatedAt(x) => StatementView {
                sql: "created_at = ?"@,
                params: seq![SqlValueView::Text(x@)],
            },
            CoursesFilter::UpdatedAt(x) => StatementView {
                sql: "updated_at = ?"@,
                params: seq![SqlValueView::Text(x@)],
            },
            CoursesFilter::All => StatementView { sql: "1 = 1"@, params: Seq::empty() },
        }
    }

    fn to_sql(&self) -> (r: Statement) {
        let mut params: Vec<SqlValue> = Vec::new();
        match self {
            CoursesFilter::Id(x) => {
                params.push(SqlValue::Integer(*x as i64));
                assert(values_view(params@) =~= self.condition().params);
                Statement { sql: String::from_str("id = ?"), params }
            },
            CoursesFilter::TeacherId(x) => {
                params.push(SqlValue::Integer(*x as i64));
                assert(values_view(params@) =~= self.condition().params);
                Statement { sql: String::from_str("teacher_id = ?"), params }
            },
            CoursesFilter::Course(x) => {
                params.push(SqlValue::Text(x.clone()));
                assert(values_view(params@) =~= self.condition().params);
                Statement { sql: String::from_str("course = ?"), params }
            },
            CoursesFilter::CrCost(x) => {
                params.push(SqlValue::Integer(*x as i64));
                assert(values_view(params@) =~= self.condition().params);
                Statement { sql: String::from_str("cr_cost = ?"), params }
            },
            CoursesFilter::CreatedAt(x) => {
                params.push(SqlValue::Text(x.clone()));
                assert(values_view(params@) =~= self.condition().params);
                Statement { sql: String::from_str("created_at = ?"), params }
            },
            CoursesFilter::UpdatedAt(x) => {
                params.push(SqlValue::Text(x.clone()));
                assert(values_view(params@) =~= self.condition().params);
                Statement { sql: String::from_str("updated_at = ?"), params }
            },
            CoursesFilter::All => {
                assert(values_view(params@) =~= self.condition().params);
                Statement { sql: String::from_str("1 = 1"), params }
            },
        }
    }
}

/// A predicate on departments: one column equal to one value, or `All`, which
/// every record satisfies.
#[derive(Debug, PartialEq)]
pub enum DepartmentsFilter {
    DeptHead(i32),
    Name(String),
    Id(i32),
    All,
}

impl DepartmentsFilter {
    /// Whether the predicate names a column that the table has.
    pub open spec fn column_exists(&self) -> bool {
        match self {
            DepartmentsFilter::DeptHead(_) => false,
            _ => true,
        }
    }

    /// Whether the predicate names a column that the table has.
    pub fn has_column(&self) -> (r: bool)
        ensures
            r == self.column_exists(),
    {
        match self {
            DepartmentsFilter::DeptHead(_) => false,
            _ => true,
        }
    }

    /// Whether a record satisfies the predicate.
    pub open spec fn holds(&self, r: DepartmentsView) -> bool {
        match self {
            DepartmentsFilter::DeptHead(_) => false,
            DepartmentsFilter::Name(x) => r.name == x@,
            DepartmentsFilter::Id(x) => r.id == *x,
            DepartmentsFilter::All => true,
        }
    }

    /// Whether a record satisfies the predicate.
    pub fn matches(&self, r: &Departments) -> (b: bool)
        ensures
            b == self.holds(r@),
    {
        match self {
            DepartmentsFilter::DeptHead(_) => false,
            DepartmentsFilter::Name(x) => r.name == *x,
            DepartmentsFilter::Id(x) => r.id == *x,
            DepartmentsFilter::All => true,
        }
    }
}

impl Filterable for DepartmentsFilter {
    open spec fn condition(&self) -> StatementView {
        match self {
            DepartmentsFilter::DeptHead(x) => StatementView {
                sql: "dept_head = ?"@,
                params: seq![SqlValueView::Integer(*x as int)],
            },
            DepartmentsFilter::Name(x) => StatementView {
                sql: "name = ?"@,
                params: seq![SqlValueView::Text(x@)],
            },
            DepartmentsFilter::Id(x) => StatementView {
                sql: "id = ?"@,
                params: seq![SqlValueView::Integer(*x as int)],
            },
            DepartmentsFilter::All => StatementView { sql: "1 = 1"@, params: Seq::empty() },
        }
    }

    fn to_sql(&self) -> (r: Statement) {
        let mut params: Vec<SqlValue> = Vec::new();
        match self {
            DepartmentsFilter::DeptHead(x) => {
                params.push(SqlValue::Integer(*x as i64));
                assert(values_view(params@) =~= self.condition().params);
                Statement { sql: String::from_str("dept_head = ?"), params }
            },
            DepartmentsFilter::Name(x) => {
                params.push(SqlValue::Text(x.clone()));
                assert(values_view(params@) =~= self.condition().params);
                Statement { sql: String::from_str("name = ?"), params }
            },
            DepartmentsFilter::Id(x) => {
                params.push(SqlValue::Integer(*x as i64));
                assert(values_view(params@) =~= self.condition().params);
                Statement { sql: String::from_str("id = ?"), params }
            },
            DepartmentsFilter::All => {
                assert(values_view(params@) =~= self.condition().params);
                Statement { sql: String::from_str("1 = 1"), params }
            },
        }
    }
}

/// A predicate on enrollments: one column equal to one value, or `All`, which
/// every record satisfies.
#[derive(Debug, PartialEq)]
pub enum StudentCoursesFilter {
    StudentId(i32),
    CourseId(i32),
    /// In thousandths of a grade point.
    Grade(i32),
    Semester(String),
    Id(i32),
    All,
}

impl StudentCoursesFilter {
    /// Whether the predicate names a column that the table has.
    pub open spec fn column_exists(&self) -> bool {
        match self {
            StudentCoursesFilter::Id(_) => false,
            _ => true,
        }
    }

    /// Whether the predicate names a column that the table has.
    pub fn has_column(&self) -> (r: bool)
        ensures
            r == self.column_exists(),
    {
        match self {
            StudentCoursesFilter::Id(_) => false,
            _ => true,
        }
    }

    /// Whether a record satisfies the predicate.
    pub open spec fn holds(&self, r: StudentCourseView) -> bool {
        match self {
            StudentCoursesFilter::StudentId(x) => r.student_id == *x,
            StudentCoursesFilter::CourseId(x) => r.course_id == *x,
            StudentCoursesFilter::Grade(x) => r.grade == *x,
            StudentCoursesFilter::Semester(x) => r.semester == x@,
            StudentCoursesFilter::Id(_) => false,
            StudentCoursesFilter::All => true,
        }
    }

    /// Whether a record satisfies the predicate.
    pub fn matches(&self, r: &StudentCourse) -> (b: bool)
        ensures
            b == self.holds(r@),
    {
        match self {
            StudentCoursesFilter::StudentId(x) => r.student_id == *x,
            StudentCoursesFilter::CourseId(x) => r.course_id == *x,
            StudentCoursesFilter::Grade(x) => r.grade == *x,
            StudentCoursesFilter::Semester(x) => r.semester == *x,
            StudentCoursesFilter::Id(_) => false,
            StudentCoursesFilter::All => true,
        }
    }
}

impl Filterable for StudentCoursesFilter {
    open spec fn condition(&self) -> StatementView {
        match self {
            StudentCoursesFilter::StudentId(x) => StatementView {
                sql: "student_id = ?"@,
                params: seq![SqlValueView::Integer(*x as int)],
            },
            StudentCoursesFilter::CourseId(x) => StatementView {
                sql: "course_id = ?"@,
                params: seq![SqlValueView::Integer(*x as int)],
            },
            StudentCoursesFilter::Grade(x) => StatementView {
                sql: "grade = ?"@,
                params: seq![SqlValueView::Real(*x as int)],
            },
            StudentCoursesFilter::Semester(x) => StatementView {
                sql: "semester = ?"@,
                params: seq![SqlValueView::Text(x@)],
            },
            StudentCoursesFilter::Id(x) => StatementView {
                sql: "id = ?"@,
                params: seq![SqlValueView::Integer(*x as int)],
            },
            StudentCoursesFilter::All => StatementView { sql: "1 = 1"@, params: Seq::empty() },
        }
    }

    fn to_sql(&self) -> (r: Statement) {
        let mut params: Vec<SqlValue> = Vec::new();
        match self {
            StudentCoursesFilter::StudentId(x) => {
                params.push(SqlValue::Integer(*x as i64));
                assert(values_view(params@) =~= self.condition().params);
                Statement { sql: String::from_str("student_id = ?"), params }
            },
            StudentCoursesFilter::CourseId(x) => {
                params.push(SqlValue::Integer(*x as i64));
                assert(values_view(params@) =~= self.condition().params);
                Statement { sql: String::from_str("course_id = ?"), params }
            },
            StudentCoursesFilter::Grade(x) => {
                params.push(SqlValue::Real(*x as i64));
                assert(values_view(params@) =~= self.condition().params);
                Statement { sql: String::from_str("grade = ?"), params }
            },
            StudentCoursesFilter::Semester(x) => {
                params.push(SqlValue::Text(x.clone()));
                assert(values_view(params@) =~= self.condition().params);
                Statement { sql: String::from_str("semester = ?"), params }
            },
            StudentCoursesFilter::Id(x) => {
                params.push(SqlValue::Integer(*x as i64));
                assert(values_view(params@) =~= self.condition().params);
                Statement { sql: String::from_str("id = ?"), params }
            },
            StudentCoursesFilter::All => {
                assert(values_view(params@) =~= self.condition().params);
                Statement { sql: String::from_str("1 = 1"), params }
            },
        }
    }
}

} // verus!
