//! Records as rows of values and rows as records, and rows as text.

use crate::db_driver::{ReceiverType, ReceiverTypeView};
use crate::error::{ErrorKind, Operation};
use crate::model::unreadable;
use crate::lemmas::views_of;
use crate::statement::{bind_flag, flag, SqlValue, SqlValueView};
use crate::table_models::{
    Courses, CoursesView, Departments, DepartmentsView, StudentAccount, StudentAccountView,
    StudentCourse, StudentCourseView, Table, TeacherAccount, TeacherAccountView, User, UserView,
};
use crate::text::{decimal, digit_char, digit_str, digits, render_int};
use vstd::prelude::*;
use vstd::string::*;

verus! {

/// The integer that a column of integers takes from a value: the value must
/// be an integer that fits.
pub open spec fn integer_in(v: SqlValueView) -> Option<i32> {
    match v {
        SqlValueView::Integer(n) => if i32::MIN <= n <= i32::MAX {
            Some(n as i32)
        } else {
            None
        },
        _ => None,
    }
}

/// The text that a column of text takes from a value: the value must be
/// text.
pub open spec fn text_in(v: SqlValueView) -> Option<Seq<char>> {
    match v {
        SqlValueView::Text(s) => Some(s),
        _ => None,
    }
}

/// The flag that a column of flags takes from a value: the value must be an
/// integer, and every integer but 0 means true.
pub open spec fn flag_in(v: SqlValueView) -> Option<bool> {
    match v {
        SqlValueView::Integer(n) => Some(n != 0),
        _ => None,
    }
}

/// The number of thousandths that a column of reals takes from a value: the
/// value must be a real, or an integer, which counts a thousand times, and
/// must fit.
pub open spec fn real_in(v: SqlValueView) -> Option<i32> {
    match v {
        SqlValueView::Real(m) => if i32::MIN <= m <= i32::MAX {
            Some(m as i32)
        } else {
            None
        },
        SqlValueView::Integer(n) => if i32::MIN <= n * 1000 <= i32::MAX {
            Some((n * 1000) as i32)
        } else {
            None
        },
        _ => None,
    }
}

fn integer_of(v: &SqlValue) -> (r: Option<i32>)
    ensures
        r == integer_in(v@),
{
    match v {
        SqlValue::Integer(n) => {
            if -0x8000_0000 <= *n && *n <= 0x7fff_ffff {
                Some(*n as i32)
            } else {
                None
            }
        },
        _ => None,
    }
}

fn text_of(v: &SqlValue) -> (r: Option<String>)
    ensures
        match text_in(v@) {
            Some(s) => r matches Some(x) && x@ == s,
            None => r is None,
        },
{
    match v {
        SqlValue::Text(s) => Some(s.clone()),
        _ => None,
    }
}

fn flag_of(v: &SqlValue) -> (r: Option<bool>)
    ensures
        r == flag_in(v@),
{
    match v {
        SqlValue::Integer(n) => Some(*n != 0),
        _ => None,
    }
}

fn real_of(v: &SqlValue) -> (r: Option<i32>)
    ensures
        r == real_in(v@),
{
    match v {
        SqlValue::Real(m) => {
            if -0x8000_0000 <= *m && *m <= 0x7fff_ffff {
                Some(*m as i32)
            } else {
                None
            }
        },
        SqlValue::Integer(n) => {
            if -2147483 <= *n && *n <= 2147483 {
                Some((*n * 1000) as i32)
            } else {
                None
            }
        },
        _ => None,
    }
}

impl UserView {
    /// The values of the record, in the order of the table's columns.
    pub open spec fn row(self) -> Seq<SqlValueView> {
        seq![
            SqlValueView::Integer(self.id as int),
            SqlValueView::Text(self.username),
            SqlValueView::Text(self.password),
            SqlValueView::Text(self.email),
            SqlValueView::Text(self.phone),
            flag(self.verified),
            flag(self.suspended),
            flag(self.forcenewpw),
            SqlValueView::Text(self.role),
        ]
    }

    /// Whether a row of the table holds a record: it has at least 9
    /// values, and each of the first 9 suits its column.
    pub open spec fn suits(row: Seq<SqlValueView>) -> bool {
        &&& row.len() >= 9
        &&& integer_in(row[0]) is Some
        &&& text_in(row[1]) is Some
        &&& text_in(row[2]) is Some
        &&& text_in(row[3]) is Some
        &&& text_in(row[4]) is Some
        &&& flag_in(row[5]) is Some
        &&& flag_in(row[6]) is Some
        &&& flag_in(row[7]) is Some
        &&& text_in(row[8]) is Some
    }

    /// The record that a row of the table holds, or `None` where the row
    /// suits no record.
    pub open spec fn of_row(row: Seq<SqlValueView>) -> Option<UserView> {
        if Self::suits(row) {
            Some(
                UserView {
                    id: integer_in(row[0])->0,
                    username: text_in(row[1])->0,
                    password: text_in(row[2])->0,
                    email: text_in(row[3])->0,
                    phone: text_in(row[4])->0,
                    verified: flag_in(row[5])->0,
                    suspended: flag_in(row[6])->0,
                    forcenewpw: flag_in(row[7])->0,
                    role: text_in(row[8])->0,
                },
            )
        } else {
            None
        }
    }
}

impl User {
    /// The values of the record, in the order of the table's columns.
    pub fn to_row(&self) -> (r: Vec<SqlValue>)
        ensures
            views_of(r@) == self@.row(),
    {
        let mut r: Vec<SqlValue> = Vec::new();
        r.push(SqlValue::Integer(self.id as i64));
        r.push(SqlValue::Text(self.username.clone()));
        r.push(SqlValue::Text(self.password.clone()));
        r.push(SqlValue::Text(self.email.clone()));
        r.push(SqlValue::Text(self.phone.clone()));
        r.push(bind_flag(self.verified));
        r.push(bind_flag(self.suspended));
        r.push(bind_flag(self.forcenewpw));
        r.push(SqlValue::Text(self.role.clone()));
        assert(views_of(r@) =~= self@.row());
        r
    }

    /// The record that a row of the table holds, or `None` where the row
    /// is too short or a value does not suit its column.
    pub fn from_row(row: &Vec<SqlValue>) -> (r: Option<User>)
        ensures
            match UserView::of_row(views_of(row@)) {
                Some(v) => r matches Some(x) && x@ == v,
                None => r is None,
            },
    {
        if row.len() < 9 {
            return None;
        }
        proof {
            assert(views_of(row@)[0] == row@[0]@);
            assert(views_of(row@)[1] == row@[1]@);
            assert(views_of(row@)[2] == row@[2]@);
            assert(views_of(row@)[3] == row@[3]@);
            assert(views_of(row@)[4] == row@[4]@);
            assert(views_of(row@)[5] == row@[5]@);
            assert(views_of(row@)[6] == row@[6]@);
            assert(views_of(row@)[7] == row@[7]@);
            assert(views_of(row@)[8] == row@[8]@);
        }
        let id = match integer_of(&row[0]) {
            Some(x) => x,
            None => {
                return None;
            },
        };
        let username = match text_of(&row[1]) {
            Some(x) => x,
            None => {
                return None;
            },
        };
        let password = match text_of(&row[2]) {
            Some(x) => x,
            None => {
                return None;
            },
        };
        let email = match text_of(&row[3]) {
            Some(x) => x,
            None => {
                return None;
            },
        };
        let phone = match text_of(&row[4]) {
            Some(x) => x,
            None => {
                return None;
            },
        };
        let verified = match flag_of(&row[5]) {
            Some(x) => x,
            None => {
                return None;
            },
        };
        let suspended = match flag_of(&row[6]) {
            Some(x) => x,
            None => {
                return None;
            },
        };
        let forcenewpw = match flag_of(&row[7]) {
            Some(x) => x,
            None => {
                return None;
            },
        };
        let role = match text_of(&row[8]) {
            Some(x) => x,
            None => {
                return None;
            },
        };
        Some(
            User {
                id,
                username,
                password,
                email,
                phone,
                verified,
                suspended,
                forcenewpw,
                role,
            },
        )
    }
}

impl StudentAccountView {
    /// The values of the record, in the order of the table's columns.
    pub open spec fn row(self) -> Seq<SqlValueView> {
        seq![
            SqlValueView::Integer(self.id as int),
            SqlValueView::Integer(self.student_id as int),
            SqlValueView::Integer(self.advisor_id as int),
            SqlValueView::Text(self.discipline),
            SqlValueView::Text(self.enrollment),
            SqlValueView::Real(self.cgpa as int),
            flag(self.can_grad),
            SqlValueView::Integer(self.cur_credit as int),
            SqlValueView::Integer(self.cum_credit as int),
        ]
    }

    /// Whether a row of the table holds a record: it has at least 9
    /// values, and each of the first 9 suits its column.
    pub open spec fn suits(row: Seq<SqlValueView>) -> bool {
        &&& row.len() >= 9
        &&& integer_in(row[0]) is Some
        &&& integer_in(row[1]) is Some
        &&& integer_in(row[2]) is Some
        &&& text_in(row[3]) is Some
        &&& text_in(row[4]) is Some
        &&& real_in(row[5]) is Some
        &&& flag_in(row[6]) is Some
        &&& integer_in(row[7]) is Some
        &&& integer_in(row[8]) is Some
    }

    /// The record that a row of the table holds, or `None` where the row
    /// suits no record.
    pub open spec fn of_row(row: Seq<SqlValueView>) -> Option<StudentAccountView> {
        if Self::suits(row) {
            Some(
                StudentAccountView {
                    id: integer_in(row[0])->0,
                    student_id: integer_in(row[1])->0,
                    advisor_id: integer_in(row[2])->0,
                    discipline: text_in(row[3])->0,
                    enrollment: text_in(row[4])->0,
                    cgpa: real_in(row[5])->0,
                    can_grad: flag_in(row[6])->0,
                    cur_credit: integer_in(row[7])->0,
                    cum_credit: integer_in(row[8])->0,
                },
            )
        } else {
            None
        }
    }
}

impl StudentAccount {
    /// The values of the record, in the order of the table's columns.
    pub fn to_row(&self) -> (r: Vec<SqlValue>)
        ensures
            views_of(r@) == self@.row(),
    {
        let mut r: Vec<SqlValue> = Vec::new();
        r.push(SqlValue::Integer(self.id as i64));
        r.push(SqlValue::Integer(self.student_id as i64));
        r.push(SqlValue::Integer(self.advisor_id as i64));
        r.push(SqlValue::Text(self.discipline.clone()));
        r.push(SqlValue::Text(self.enrollment.clone()));
        r.push(SqlValue::Real(self.cgpa as i64));
        r.push(bind_flag(self.can_grad));
        r.push(SqlValue::Integer(self.cur_credit as i64));
        r.push(SqlValue::Integer(self.cum_credit as i64));
        assert(views_of(r@) =~= self@.row());
        r
    }

    /// The record that a row of the table holds, or `None` where the row
    /// is too short or a value does not suit its column.
    pub fn from_row(row: &Vec<SqlValue>) -> (r: Option<StudentAccount>)
        ensures
            match StudentAccountView::of_row(views_of(row@)) {
                Some(v) => r matches Some(x) && x@ == v,
                None => r is None,
            },
    {
        if row.len() < 9 {
            return None;
        }
        proof {
            assert(views_of(row@)[0] == row@[0]@);
            assert(views_of(row@)[1] == row@[1]@);
            assert(views_of(row@)[2] == row@[2]@);
            assert(views_of(row@)[3] == row@[3]@);
            assert(views_of(row@)[4] == row@[4]@);
            assert(views_of(row@)[5] == row@[5]@);
            assert(views_of(row@)[6] == row@[6]@);
            assert(views_of(row@)[7] == row@[7]@);
            assert(views_of(row@)[8] == row@[8]@);
        }
        let id = match integer_of(&row[0]) {
            Some(x) => x,
            None => {
                return None;
            },
        };
        let student_id = match integer_of(&row[1]) {
            Some(x) => x,
            None => {
                return None;
            },
        };
        let advisor_id = match integer_of(&row[2]) {
            Some(x) => x,
            None => {
                return None;
            },
        };
        let discipline = match text_of(&row[3]) {
            Some(x) => x,
            None => {
                return None;
            },
        };
        let enrollment = match text_of(&row[4]) {
            Some(x) => x,
            None => {
                return None;
            },
        };
        let cgpa = match real_of(&row[5]) {
            Some(x) => x,
            None => {
                return None;
            },
        };
        let can_grad = match flag_of(&row[6]) {
            Some(x) => x,
            None => {
                return None;
            },
        };
        let cur_credit = match integer_of(&row[7]) {
            Some(x) => x,
            None => {
                return None;
            },
        };
        let cum_credit = match integer_of(&row[8]) {
            Some(x) => x,
            None => {
                return None;
            },
        };
        Some(
            StudentAccount {
                id,
                student_id,
                advisor_id,
                discipline,
                enrollment,
                cgpa,
                can_grad,
                cur_credit,
                cum_credit,
            },
        )
    }
}

impl TeacherAccountView {
    /// The values of the record, in the order of the table's columns.
    pub open spec fn row(self) -> Seq<SqlValueView> {
        seq![
            SqlValueView::Integer(self.id as int),
            SqlValueView::Integer(self.teacher_id as int),
            SqlValueView::Integer(self.dept_id as int),
        ]
    }

    /// Whether a row of the table holds a record: it has at least 3
    /// values, and each of the first 3 suits its column.
    pub open spec fn suits(row: Seq<SqlValueView>) -> bool {
        &&& row.len() >= 3
        &&& integer_in(row[0]) is Some
        &&& integer_in(row[1]) is Some
        &&& integer_in(row[2]) is Some
    }

    /// The record that a row of the table holds, or `None` where the row
    /// suits no record.
    pub open spec fn of_row(row: Seq<SqlValueView>) -> Option<TeacherAccountView> {
        if Self::suits(row) {
            Some(
                TeacherAccountView {
                    id: integer_in(row[0])->0,
                    teacher_id: integer_in(row[1])->0,
                    dept_id: integer_in(row[2])->0,
                },
            )
        } else {
            None
        }
    }
}

impl TeacherAccount {
    /// The values of the record, in the order of the table's columns.
    pub fn to_row(&self) -> (r: Vec<SqlValue>)
        ensures
            views_of(r@) == self@.row(),
    {
        let mut r: Vec<SqlValue> = Vec::new();
        r.push(SqlValue::Integer(self.id as i64));
        r.push(SqlValue::Integer(self.teacher_id as i64));
        r.push(SqlValue::Integer(self.dept_id as i64));
        assert(views_of(r@) =~= self@.row());
        r
    }

    /// The record that a row of the table holds, or `None` where the row
    /// is too short or a value does not suit its column.
    pub fn from_row(row: &Vec<SqlValue>) -> (r: Option<TeacherAccount>)
        ensures
            match TeacherAccountView::of_row(views_of(row@)) {
                Some(v) => r matches Some(x) && x@ == v,
                None => r is None,
            },
    {
        if row.len() < 3 {
            return None;
        }
        proof {
            assert(views_of(row@)[0] == row@[0]@);
            assert(views_of(row@)[1] == row@[1]@);
            assert(views_of(row@)[2] == row@[2]@);
        }
        let id = match integer_of(&row[0]) {
            Some(x) => x,
            None => {
                return None;
            },
        };
        let teacher_id = match integer_of(&row[1]) {
            Some(x) => x,
            None => {
                return None;
            },
        };
        let dept_id = match integer_of(&row[2]) {
            Some(x) => x,
            None => {
                return None;
            },
        };
        Some(
            TeacherAccount {
                id,
                teacher_id,
                dept_id,
            },
        )
    }
}

impl CoursesView {
    /// The values of the record, in the order of the table's columns.
    pub open spec fn row(self) -> Seq<SqlValueView> {
        seq![
            SqlValueView::Integer(self.id as int),
            SqlValueView::Integer(self.teacher_id as int),
            SqlValueView::Text(self.course),
            SqlValueView::Text(self.course_nr),
            SqlValueView::Text(self.description),
            SqlValueView::Integer(self.cr_cost as int),
            SqlValueView::Text(self.timeslots),
        ]
    }

    /// Whether a row of the table holds a record: it has at least 7
    /// values, and each of the first 7 suits its column.
    pub open spec fn suits(row: Seq<SqlValueView>) -> bool {
        &&& row.len() >= 7
        &&& integer_in(row[0]) is Some
        &&& integer_in(row[1]) is Some
        &&& text_in(row[2]) is Some
        &&& text_in(row[3]) is Some
        &&& text_in(row[4]) is Some
        &&& integer_in(row[5]) is Some
        &&& text_in(row[6]) is Some
    }

    /// The record that a row of the table holds, or `None` where the row
    /// suits no record.
    pub open spec fn of_row(row: Seq<SqlValueView>) -> Option<CoursesView> {
        if Self::suits(row) {
            Some(
                CoursesView {
                    id: integer_in(row[0])->0,
                    teacher_id: integer_in(row[1])->0,
                    course: text_in(row[2])->0,
                    course_nr: text_in(row[3])->0,
                    description: text_in(row[4])->0,
                    cr_cost: integer_in(row[5])->0,
                    timeslots: text_in(row[6])->0,
                },
            )
        } else {
            None
        }
    }
}

impl Courses {
    /// The values of the record, in the order of the table's columns.
    pub fn to_row(&self) -> (r: Vec<SqlValue>)
        ensures
            views_of(r@) == self@.row(),
    {
        let mut r: Vec<SqlValue> = Vec::new();
        r.push(SqlValue::Integer(self.id as i64));
        r.push(SqlValue::Integer(self.teacher_id as i64));
        r.push(SqlValue::Text(self.course.clone()));
        r.push(SqlValue::Text(self.course_nr.clone()));
        r.push(SqlValue::Text(self.description.clone()));
        r.push(SqlValue::Integer(self.cr_cost as i64));
        r.push(SqlValue::Text(self.timeslots.clone()));
        assert(views_of(r@) =~= self@.row());
        r
    }

    /// The record that a row of the table holds, or `None` where the row
    /// is too short or a value does not suit its column.
    pub fn from_row(row: &Vec<SqlValue>) -> (r: Option<Courses>)
        ensures
            match CoursesView::of_row(views_of(row@)) {
                Some(v) => r matches Some(x) && x@ == v,
                None => r is None,
            },
    {
        if row.len() < 7 {
            return None;
        }
        proof {
            assert(views_of(row@)[0] == row@[0]@);
            assert(views_of(row@)[1] == row@[1]@);
            assert(views_of(row@)[2] == row@[2]@);
            assert(views_of(row@)[3] == row@[3]@);
            assert(views_of(row@)[4] == row@[4]@);
            assert(views_of(row@)[5] == row@[5]@);
            assert(views_of(row@)[6] == row@[6]@);
        }
        let id = match integer_of(&row[0]) {
            Some(x) => x,
            None => {
                return None;
            },
        };
        let teacher_id = match integer_of(&row[1]) {
            Some(x) => x,
            None => {
                return None;
            },
        };
        let course = match text_of(&row[2]) {
            Some(x) => x,
            None => {
                return None;
            },
        };
        let course_nr = match text_of(&row[3]) {
            Some(x) => x,
            None => {
                return None;
            },
        };
        let description = match text_of(&row[4]) {
            Some(x) => x,
            None => {
                return None;
            },
        };
        let cr_cost = match integer_of(&row[5]) {
            Some(x) => x,
            None => {
                return None;
            },
        };
        let timeslots = match text_of(&row[6]) {
            Some(x) => x,
            None => {
                return None;
            },
        };
        Some(
            Courses {
                id,
                teacher_id,
                course,
                course_nr,
                description,
                cr_cost,
                timeslots,
            },
        )
    }
}

impl StudentCourseView {
    /// The values of the record, in the order of the table's columns.
    pub open spec fn row(self) -> Seq<SqlValueView> {
        seq![
            SqlValueView::Integer(self.student_id as int),
            SqlValueView::Integer(self.course_id as int),
            SqlValueView::Real(self.grade as int),
            SqlValueView::Text(self.semester),
        ]
    }

    /// Whether a row of the table holds a record: it has at least 4
    /// values, and each of the first 4 suits its column.
    pub open spec fn suits(row: Seq<SqlValueView>) -> bool {
        &&& row.len() >= 4
        &&& integer_in(row[0]) is Some
        &&& integer_in(row[1]) is Some
        &&& real_in(row[2]) is Some
        &&& text_in(row[3]) is Some
    }

    /// The record that a row of the table holds, or `None` where the row
    /// suits no record.
    pub open spec fn of_row(row: Seq<SqlValueView>) -> Option<StudentCourseView> {
        if Self::suits(row) {
            Some(
                StudentCourseView {
                    student_id: integer_in(row[0])->0,
                    course_id: integer_in(row[1])->0,
                    grade: real_in(row[2])->0,
                    semester: text_in(row[3])->0,
                },
            )
        } else {
            None
        }
    }
}

impl StudentCourse {
    /// The values of the record, in the order of the table's columns.
    pub fn to_row(&self) -> (r: Vec<SqlValue>)
        ensures
            views_of(r@) == self@.row(),
    {
        let mut r: Vec<SqlValue> = Vec::new();
        r.push(SqlValue::Integer(self.student_id as i64));
        r.push(SqlValue::Integer(self.course_id as i64));
        r.push(SqlValue::Real(self.grade as i64));
        r.push(SqlValue::Text(self.semester.clone()));
        assert(views_of(r@) =~= self@.row());
        r
    }

    /// The record that a row of the table holds, or `None` where the row
    /// is too short or a value does not suit its column.
    pub fn from_row(row: &Vec<SqlValue>) -> (r: Option<StudentCourse>)
        ensures
            match StudentCourseView::of_row(views_of(row@)) {
                Some(v) => r matches Some(x) && x@ == v,
                None => r is None,
            },
    {
        if row.len() < 4 {
            return None;
        }
        proof {
            assert(views_of(row@)[0] == row@[0]@);
            assert(views_of(row@)[1] == row@[1]@);
            assert(views_of(row@)[2] == row@[2]@);
            assert(views_of(row@)[3] == row@[3]@);
        }
        let student_id = match integer_of(&row[0]) {
            Some(x) => x,
            None => {
                return None;
            },
        };
        let course_id = match integer_of(&row[1]) {
            Some(x) => x,
            None => {
                return None;
            },
        };
        let grade = match real_of(&row[2]) {
            Some(x) => x,
            None => {
                return None;
            },
        };
        let semester = match text_of(&row[3]) {
            Some(x) => x,
            None => {
                return None;
            },
        };
        Some(
            StudentCourse {
                student_id,
                course_id,
                grade,
                semester,
            },
        )
    }
}

impl DepartmentsView {
    /// The values of the record, in the order of the table's columns.
    pub open spec fn row(self) -> Seq<SqlValueView> {
        seq![
            SqlValueView::Integer(self.id as int),
            SqlValueView::Text(self.name),
        ]
    }

    /// Whether a row of the table holds a record: it has at least 2
    /// values, and each of the first 2 suits its column.
    pub open spec fn suits(row: Seq<SqlValueView>) -> bool {
        &&& row.len() >= 2
        &&& integer_in(row[0]) is Some
        &&& text_in(row[1]) is Some
    }

    /// The record that a row of the table holds, or `None` where the row
    /// suits no record.
    pub open spec fn of_row(row: Seq<SqlValueView>) -> Option<DepartmentsView> {
        if Self::suits(row) {
            Some(
                DepartmentsView {
                    id: integer_in(row[0])->0,
                    name: text_in(row[1])->0,
                },
            )
        } else {
            None
        }
    }
}

impl Departments {
    /// The values of the record, in the order of the table's columns.
    pub fn to_row(&self) -> (r: Vec<SqlValue>)
        ensures
            views_of(r@) == self@.row(),
    {
        let mut r: Vec<SqlValue> = Vec::new();
        r.push(SqlValue::Integer(self.id as i64));
        r.push(SqlValue::Text(self.name.clone()));
        assert(views_of(r@) =~= self@.row());
        r
    }

    /// The record that a row of the table holds, or `None` where the row
    /// is too short or a value does not suit its column.
    pub fn from_row(row: &Vec<SqlValue>) -> (r: Option<Departments>)
        ensures
            match DepartmentsView::of_row(views_of(row@)) {
                Some(v) => r matches Some(x) && x@ == v,
                None => r is None,
            },
    {
        if row.len() < 2 {
            return None;
        }
        proof {
            assert(views_of(row@)[0] == row@[0]@);
            assert(views_of(row@)[1] == row@[1]@);
        }
        let id = match integer_of(&row[0]) {
            Some(x) => x,
            None => {
                return None;
            },
        };
        let name = match text_of(&row[1]) {
            Some(x) => x,
            None => {
                return None;
            },
        };
        Some(
            Departments {
                id,
                name,
            },
        )
    }
}

/// The names of a table's columns, in their order.
pub open spec fn column_names(table: Table) -> Seq<Seq<char>> {
    match table {
        Table::Users => seq![
            "id"@, "username"@, "password"@, "email"@, "phone"@, "verified"@, "suspended"@,
            "forcenewpw"@, "role"@,
        ],
        Table::StudentAccount => seq![
            "id"@, "student_id"@, "advisor_id"@, "discipline"@, "enrollment"@, "cgpa"@,
            "can_grad"@, "cur_credit"@, "cum_credit"@,
        ],
        Table::TeacherAccount => seq![
            "id"@, "teacher_id"@, "dept_id"@,
        ],
        Table::Courses => seq![
            "id"@, "teacher_id"@, "course"@, "course_nr"@, "description"@, "cr_cost"@,
            "timeslots"@,
        ],
        Table::StudentCourses => seq![
            "student_id"@, "course_id"@, "grade"@, "semester"@,
        ],
        Table::Departments => seq![
            "id"@, "name"@,
        ],
    }
}

/// The names of a table's columns, in their order.
pub fn columns(table: Table) -> (r: Vec<String>)
    ensures
        r@.len() == column_names(table).len(),
        forall|i: int| 0 <= i < r@.len() ==> (#[trigger] r@[i])@ == column_names(table)[i],
{
    let mut r: Vec<String> = Vec::new();
    match table {
        Table::Users => {
            r.push(String::from_str("id"));
            r.push(String::from_str("username"));
            r.push(String::from_str("password"));
            r.push(String::from_str("email"));
            r.push(String::from_str("phone"));
            r.push(String::from_str("verified"));
            r.push(String::from_str("suspended"));
            r.push(String::from_str("forcenewpw"));
            r.push(String::from_str("role"));
        },
        Table::StudentAccount => {
            r.push(String::from_str("id"));
            r.push(String::from_str("student_id"));
            r.push(String::from_str("advisor_id"));
            r.push(String::from_str("discipline"));
            r.push(String::from_str("enrollment"));
            r.push(String::from_str("cgpa"));
            r.push(String::from_str("can_grad"));
            r.push(String::from_str("cur_credit"));
            r.push(String::from_str("cum_credit"));
        },
        Table::TeacherAccount => {
            r.push(String::from_str("id"));
            r.push(String::from_str("teacher_id"));
            r.push(String::from_str("dept_id"));
        },
        Table::Courses => {
            r.push(String::from_str("id"));
            r.push(String::from_str("teacher_id"));
            r.push(String::from_str("course"));
            r.push(String::from_str("course_nr"));
            r.push(String::from_str("description"));
            r.push(String::from_str("cr_cost"));
            r.push(String::from_str("timeslots"));
        },
        Table::StudentCourses => {
            r.push(String::from_str("student_id"));
            r.push(String::from_str("course_id"));
            r.push(String::from_str("grade"));
            r.push(String::from_str("semester"));
        },
        Table::Departments => {
            r.push(String::from_str("id"));
            r.push(String::from_str("name"));
        },
    }
    r
}

impl ReceiverTypeView {
    /// The values of the record, in the order of its table's columns.
    pub open spec fn row(self) -> Seq<SqlValueView> {
        match self {
            ReceiverTypeView::User(x) => x.row(),
            ReceiverTypeView::StudentAccount(x) => x.row(),
            ReceiverTypeView::TeacherAccount(x) => x.row(),
            ReceiverTypeView::Course(x) => x.row(),
            ReceiverTypeView::StudentCourse(x) => x.row(),
            ReceiverTypeView::Department(x) => x.row(),
        }
    }

    /// The record that a row of a table holds, or `None` where the row is
    /// too short or a value does not suit its column.
    pub open spec fn of_row(table: Table, row: Seq<SqlValueView>) -> Option<ReceiverTypeView> {
        match table {
            Table::Users => match UserView::of_row(row) {
                Some(x) => Some(ReceiverTypeView::User(x)),
                None => None,
            },
            Table::StudentAccount => match StudentAccountView::of_row(row) {
                Some(x) => Some(ReceiverTypeView::StudentAccount(x)),
                None => None,
            },
            Table::TeacherAccount => match TeacherAccountView::of_row(row) {
                Some(x) => Some(ReceiverTypeView::TeacherAccount(x)),
                None => None,
            },
            Table::Courses => match CoursesView::of_row(row) {
                Some(x) => Some(ReceiverTypeView::Course(x)),
                None => None,
            },
            Table::StudentCourses => match StudentCourseView::of_row(row) {
                Some(x) => Some(ReceiverTypeView::StudentCourse(x)),
                None => None,
            },
            Table::Departments => match DepartmentsView::of_row(row) {
                Some(x) => Some(ReceiverTypeView::Department(x)),
                None => None,
            },
        }
    }
}

impl ReceiverType {
    /// The values of the record, in the order of its table's columns.
    pub fn to_row(&self) -> (r: Vec<SqlValue>)
        ensures
            views_of(r@) == self@.row(),
    {
        match self {
            ReceiverType::User(x) => x.to_row(),
            ReceiverType::StudentAccount(x) => x.to_row(),
            ReceiverType::TeacherAccount(x) => x.to_row(),
            ReceiverType::Course(x) => x.to_row(),
            ReceiverType::StudentCourse(x) => x.to_row(),
            ReceiverType::Department(x) => x.to_row(),
        }
    }

    /// The record that a row of a table holds. A row that is too short, or
    /// that holds a value that does not suit its column, is refused with
    /// `StorageFailure`.
    pub fn from_row(table: Table, row: &Vec<SqlValue>) -> (r: Result<ReceiverType, ErrorKind>)
        ensures
            match ReceiverTypeView::of_row(table, views_of(row@)) {
                Some(v) => r matches Ok(x) && x@ == v,
                None => r matches Err(e) && e == unreadable(table),
            },
    {
        match table {
            Table::Users => match User::from_row(row) {
                Some(x) => Ok(ReceiverType::User(x)),
                None => Err(
                    ErrorKind::StorageFailure { table, operation: Operation::Read },
                ),
            },
            Table::StudentAccount => match StudentAccount::from_row(row) {
                Some(x) => Ok(ReceiverType::StudentAccount(x)),
                None => Err(
                    ErrorKind::StorageFailure { table, operation: Operation::Read },
                ),
            },
            Table::TeacherAccount => match TeacherAccount::from_row(row) {
                Some(x) => Ok(ReceiverType::TeacherAccount(x)),
                None => Err(
                    ErrorKind::StorageFailure { table, operation: Operation::Read },
                ),
            },
            Table::Courses => match Courses::from_row(row) {
                Some(x) => Ok(ReceiverType::Course(x)),
                None => Err(
                    ErrorKind::StorageFailure { table, operation: Operation::Read },
                ),
            },
            Table::StudentCourses => match StudentCourse::from_row(row) {
                Some(x) => Ok(ReceiverType::StudentCourse(x)),
                None => Err(
                    ErrorKind::StorageFailure { table, operation: Operation::Read },
                ),
            },
            Table::Departments => match Departments::from_row(row) {
                Some(x) => Ok(ReceiverType::Department(x)),
                None => Err(
                    ErrorKind::StorageFailure { table, operation: Operation::Read },
                ),
            },
        }
    }
}

/// The plain values of a list of rows.
pub open spec fn rows_view(rows: Seq<Vec<SqlValue>>) -> Seq<Seq<SqlValueView>> {
    rows.map_values(|row: Vec<SqlValue>| views_of(row@))
}

/// Every row holds a record of the table.
pub open spec fn all_decode(table: Table, rows: Seq<Seq<SqlValueView>>) -> bool {
    forall|i: int|
        0 <= i < rows.len() ==> ReceiverTypeView::of_row(table, #[trigger] rows[i]) is Some
}

/// The records that rows of a table hold, in the order of the rows.
pub open spec fn records_of_rows(table: Table, rows: Seq<Seq<SqlValueView>>) -> Seq<
    ReceiverTypeView,
> {
    rows.map_values(|row: Seq<SqlValueView>| ReceiverTypeView::of_row(table, row)->0)
}

/// The records that the rows of a table hold, in the order of the rows. One
/// row that holds no record refuses them all with `StorageFailure`: no row is
/// passed over.
pub fn decode_rows(table: Table, rows: &Vec<Vec<SqlValue>>) -> (r: Result<
    Vec<ReceiverType>,
    ErrorKind,
>)
    ensures
        match r {
            Ok(records) => all_decode(table, rows_view(rows@)) && views_of(records@)
                == records_of_rows(table, rows_view(rows@)),
            Err(e) => e == unreadable(table) && !all_decode(table, rows_view(rows@)),
        },
{
    let mut out: Vec<ReceiverType> = Vec::new();
    let mut i: usize = 0;
    while i < rows.len()
        invariant
            i <= rows.len(),
            out@.len() == i,
            forall|j: int|
                0 <= j < i ==> ReceiverTypeView::of_row(table, #[trigger] rows_view(rows@)[j])
                    == Some(out@[j]@),
        decreases rows.len() - i,
    {
        assert(rows_view(rows@)[i as int] == views_of(rows@[i as int]@));
        match ReceiverType::from_row(table, &rows[i]) {
            Ok(record) => {
                out.push(record);
            },
            Err(e) => {
                return Err(e);
            },
        }
        i += 1;
    }
    assert(views_of(out@) =~= records_of_rows(table, rows_view(rows@)));
    Ok(out)
}

/// A record that is written out as a row is read back as it was.
pub proof fn lemma_row_round_trip(record: ReceiverTypeView)
    ensures
        ReceiverTypeView::of_row(record.table_of(), record.row()) == Some(record),
{
}

/// A number of thousandths as a decimal fraction: the whole part, and after
/// a point the thousandths without their trailing zeros, where there are any.
pub open spec fn thousandths_text(m: int) -> Seq<char> {
    let size = if m < 0 {
        -m
    } else {
        m
    };
    let part = size % 1000;
    let sign: Seq<char> = if m < 0 {
        seq!['-']
    } else {
        Seq::empty()
    };
    let whole = digits((size / 1000) as nat);
    let fraction: Seq<char> = if part == 0 {
        Seq::empty()
    } else if part % 100 == 0 {
        seq!['.', digit_char(part / 100)]
    } else if part % 10 == 0 {
        seq!['.', digit_char(part / 100), digit_char((part / 10) % 10)]
    } else {
        seq!['.', digit_char(part / 100), digit_char((part / 10) % 10), digit_char(part % 10)]
    };
    sign + whole + fraction
}

/// A value as text: `NULL` for none, an integer in decimal, a real as a
/// decimal fraction, text as it is.
pub open spec fn value_text(v: SqlValueView) -> Seq<char> {
    match v {
        SqlValueView::Null => "NULL"@,
        SqlValueView::Integer(n) => decimal(n),
        SqlValueView::Real(m) => thousandths_text(m),
        SqlValueView::Text(s) => s,
    }
}

/// A number of thousandths as a decimal fraction.
pub fn render_thousandths(m: i64) -> (r: String)
    ensures
        r@ == thousandths_text(m as int),
{
    let size: u64 = if m == i64::MIN {
        9223372036854775808u64
    } else if m < 0 {
        (-m) as u64
    } else {
        m as u64
    };
    let mut out = String::new();
    if m < 0 {
        proof {
            reveal_strlit("-");
        }
        out.append("-");
    }
    let whole = render_int((size / 1000) as i64);
    out.append(whole.as_str());
    let part = size % 1000;
    if part != 0 {
        proof {
            reveal_strlit(".");
        }
        out.append(".");
        out.append(digit_str(part / 100));
        if part % 100 != 0 {
            out.append(digit_str((part / 10) % 10));
            if part % 10 != 0 {
                out.append(digit_str(part % 10));
            }
        }
    }
    assert(out@ =~= thousandths_text(m as int));
    out
}

/// A value as text.
pub fn render_value(v: &SqlValue) -> (r: String)
    ensures
        r@ == value_text(v@),
{
    match v {
        SqlValue::Null => String::from_str("NULL"),
        SqlValue::Integer(n) => render_int(*n),
        SqlValue::Real(m) => render_thousandths(*m),
        SqlValue::Text(s) => s.clone(),
    }
}

/// The value of a row under a column, or none where the row is too short.
pub open spec fn value_at(values: Seq<SqlValueView>, i: int) -> SqlValueView {
    if 0 <= i < values.len() {
        values[i]
    } else {
        SqlValueView::Null
    }
}

/// A row with its columns' names, every value as text: for each column, in
/// order, its name and the text of the row's value under it, `NULL` where
/// the row has none.
pub fn loose_row(columns: &Vec<String>, values: &Vec<SqlValue>) -> (r: Vec<(String, String)>)
    ensures
        r@.len() == columns@.len(),
        forall|i: int|
            0 <= i < r@.len() ==> (#[trigger] r@[i]).0@ == columns@[i]@ && r@[i].1@ == value_text(
                value_at(views_of(values@), i),
            ),
{
    let mut r: Vec<(String, String)> = Vec::new();
    let mut i: usize = 0;
    while i < columns.len()
        invariant
            i <= columns.len(),
            r@.len() == i,
            forall|j: int|
                0 <= j < i ==> (#[trigger] r@[j]).0@ == columns@[j]@ && r@[j].1@ == value_text(
                    value_at(views_of(values@), j),
                ),
        decreases columns.len() - i,
    {
        let text = if i < values.len() {
            assert(views_of(values@)[i as int] == values@[i as int]@);
            render_value(&values[i])
        } else {
            String::from_str("NULL")
        };
        r.push((columns[i].clone(), text));
        i += 1;
    }
    r
}

} // verus!
