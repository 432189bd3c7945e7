//! The six entity kinds, their records, and the statements that insert,
//! update and delete a record.

use crate::db_driver::Join;
use crate::statement::{
    bind_flag, flag, SqlValue, SqlValueView, Statement, StatementView, values_view,
};
use vstd::prelude::*;
use vstd::string::*;

verus! {

/// One thousandth of a grade point is the unit of every grade and average.
pub const GRADE_SCALE: i32 = 1000;

/// The grade of an enrollment that has none yet: minus one grade point.
pub const UNGRADED: i32 = -1000;

/// The command that a statement carries out.
#[derive(Debug, Clone, Copy, PartialEq, Eq, Structural)]
pub enum Action {
    Insert,
    Update,
    Delete,
}

/// The six entity kinds.
#[derive(Debug, Clone, Copy, PartialEq, Eq, Structural)]
pub enum Table {
    Users,
    StudentAccount,
    TeacherAccount,
    Courses,
    StudentCourses,
    Departments,
}

impl Table {
    /// The name of the table in the backing store.
    pub open spec fn name_text(&self) -> Seq<char> {
        match self {
            Table::Users => "USERS"@,
            Table::StudentAccount => "STUDENT_ACCOUNT"@,
            Table::TeacherAccount => "TEACHER_ACCOUNT"@,
            Table::Courses => "COURSES"@,
            Table::StudentCourses => "STUDENT_COURSES"@,
            Table::Departments => "DEPARTMENTS"@,
        }
    }

    /// The name of the table in the backing store.
    pub fn name(&self) -> (r: &'static str)
        ensures
            r@ == self.name_text(),
    {
        match self {
            Table::Users => "USERS",
            Table::StudentAccount => "STUDENT_ACCOUNT",
            Table::TeacherAccount => "TEACHER_ACCOUNT",
            Table::Courses => "COURSES",
            Table::StudentCourses => "STUDENT_COURSES",
            Table::Departments => "DEPARTMENTS",
        }
    }

    /// The table's name between double quotes.
    pub open spec fn quoted(&self) -> Seq<char> {
        "\""@ + self.name_text() + "\""@
    }

    /// The text that joins this table to another: the two quoted names with
    /// the join's keyword between them.
    pub open spec fn join_text(&self, other: &Table, join_as: Join) -> Seq<char> {
        self.quoted() + " "@ + join_as.keyword_text() + " "@ + other.quoted()
    }

    /// The text that joins this table to another in a `FROM` clause.
    pub fn join(&self, other: &Table, join_as: Join) -> (r: String)
        ensures
            r@ == self.join_text(other, join_as),
    {
        let mut s = String::from_str("\"");
        s.append(self.name());
        s.append("\"");
        s.append(" ");
        s.append(join_as.keyword());
        s.append(" ");
        s.append("\"");
        s.append(other.name());
        s.append("\"");
        assert(s@ =~= self.join_text(other, join_as));
        s
    }
}

/// A record that can be written to the backing store.
pub trait ToSQL {
    /// The text and the bound values of the statement that carries out `a`
    /// for this record.
    spec fn statement(&self, a: Action) -> StatementView;

    /// The statement that carries out `a` for this record. An insert leaves
    /// the primary key to the store; an update and a delete find the row by
    /// its key.
    fn to_sql(&self, a: Action) -> (r: Statement)
        ensures
            r@ == self.statement(a),
    ;
}

/// A person known to the institution. `role` is one of `admin`, `teacher` and
/// `student`; `password` holds a hash, never the secret itself.
#[derive(Debug, PartialEq)]
pub struct User {
    pub id: i32,
    pub username: String,
    pub password: String,
    pub email: String,
    pub phone: String,
    pub verified: bool,
    pub suspended: bool,
    pub forcenewpw: bool,
    pub role: String,
}

/// What a `User` holds, as plain values.
pub struct UserView {
    pub id: i32,
    pub username: Seq<char>,
    pub password: Seq<char>,
    pub email: Seq<char>,
    pub phone: Seq<char>,
    pub verified: bool,
    pub suspended: bool,
    pub forcenewpw: bool,
    pub role: Seq<char>,
}

impl View for User {
    type V = UserView;

    open spec fn view(&self) -> UserView {
        UserView {
            id: self.id,
            username: self.username@,
            password: self.password@,
            email: self.email@,
            phone: self.phone@,
            verified: self.verified,
            suspended: self.suspended,
            forcenewpw: self.forcenewpw,
            role: self.role@,
        }
    }
}

impl Clone for User {
    fn clone(&self) -> (r: Self)
        ensures
            r == *self,
    {
        User {
            id: self.id,
            username: self.username.clone(),
            password: self.password.clone(),
            email: self.email.clone(),
            phone: self.phone.clone(),
            verified: self.verified,
            suspended: self.suspended,
            forcenewpw: self.forcenewpw,
            role: self.role.clone(),
        }
    }
}

impl UserView {
    /// The statement that carries out `a` for a record with these values.
    pub open spec fn statement(self, a: Action) -> StatementView {
        match a {
            Action::Insert => StatementView {
                sql: "INSERT INTO USERS (username, password, email, phone, verified, suspended, forcenewpw, role) VALUES (?, ?, ?, ?, ?, ?, ?, ?)"@,
                params: seq![
                    SqlValueView::Text(self.username),
                    SqlValueView::Text(self.password),
                    SqlValueView::Text(self.email),
                    SqlValueView::Text(self.phone),
                    flag(self.verified),
                    flag(self.suspended),
                    flag(self.forcenewpw),
                    SqlValueView::Text(self.role),
                ],
            },
            Action::Update => if self.password.len() == 0 {
                StatementView {
                    sql: "UPDATE USERS SET username = ?, email = ?, phone = ?, verified = ?, suspended = ?, forcenewpw = ?, role = ? WHERE id = ?"@,
                    params: seq![
                        SqlValueView::Text(self.username),
                        SqlValueView::Text(self.email),
                        SqlValueView::Text(self.phone),
                        flag(self.verified),
                        flag(self.suspended),
                        flag(self.forcenewpw),
                        SqlValueView::Text(self.role),
                        SqlValueView::Integer(self.id as int),
                    ],
                }
            } else {
                StatementView {
                    sql: "UPDATE USERS SET username = ?, password = ?, email = ?, phone = ?, verified = ?, suspended = ?, forcenewpw = ?, role = ? WHERE id = ?"@,
                    params: seq![
                        SqlValueView::Text(self.username),
                        SqlValueView::Text(self.password),
                        SqlValueView::Text(self.email),
                        SqlValueView::Text(self.phone),
                        flag(self.verified),
                        flag(self.suspended),
                        flag(self.forcenewpw),
                        SqlValueView::Text(self.role),
                        SqlValueView::Integer(self.id as int),
                    ],
                }
            },
            Action::Delete => StatementView {
                sql: "DELETE FROM USERS WHERE id = ?"@,
                params: seq![SqlValueView::Integer(self.id as int)],
            },
        }
    }
}

impl ToSQL for User {
    open spec fn statement(&self, a: Action) -> StatementView {
        self@.statement(a)
    }

    fn to_sql(&self, a: Action) -> (r: Statement) {
        let mut params: Vec<SqlValue> = Vec::new();
        match a {
            Action::Insert => {
                params.push(SqlValue::Text(self.username.clone()));
                params.push(SqlValue::Text(self.password.clone()));
                params.push(SqlValue::Text(self.email.clone()));
                params.push(SqlValue::Text(self.phone.clone()));
                params.push(bind_flag(self.verified));
                params.push(bind_flag(self.suspended));
                params.push(bind_flag(self.forcenewpw));
                params.push(SqlValue::Text(self.role.clone()));
                assert(values_view(params@) =~= self.statement(a).params);
                Statement {
                    sql: String::from_str(
                        "INSERT INTO USERS (username, password, email, phone, verified, suspended, forcenewpw, role) VALUES (?, ?, ?, ?, ?, ?, ?, ?)",
                    ),
                    params,
                }
            },
            Action::Update => {
                if self.password.as_str().is_empty() {
                    params.push(SqlValue::Text(self.username.clone()));
                    params.push(SqlValue::Text(self.email.clone()));
                    params.push(SqlValue::Text(self.phone.clone()));
                    params.push(bind_flag(self.verified));
                    params.push(bind_flag(self.suspended));
                    params.push(bind_flag(self.forcenewpw));
                    params.push(SqlValue::Text(self.role.clone()));
                    params.push(SqlValue::Integer(self.id as i64));
                    assert(values_view(params@) =~= self.statement(a).params);
                    Statement {
                        sql: String::from_str(
                            "UPDATE USERS SET username = ?, email = ?, phone = ?, verified = ?, suspended = ?, forcenewpw = ?, role = ? WHERE id = ?",
                        ),
                        params,
                    }
                } else {
                    params.push(SqlValue::Text(self.username.clone()));
                    params.push(SqlValue::Text(self.password.clone()));
                    params.push(SqlValue::Text(self.email.clone()));
                    params.push(SqlValue::Text(self.phone.clone()));
                    params.push(bind_flag(self.verified));
                    params.push(bind_flag(self.suspended));
                    params.push(bind_flag(self.forcenewpw));
                    params.push(SqlValue::Text(self.role.clone()));
                    params.push(SqlValue::Integer(self.id as i64));
                    assert(values_view(params@) =~= self.statement(a).params);
                    Statement {
                        sql: String::from_str(
                            "UPDATE USERS SET username = ?, password = ?, email = ?, phone = ?, verified = ?, suspended = ?, forcenewpw = ?, role = ? WHERE id = ?",
                        ),
                        params,
                    }
                }
            },
            Action::Delete => {
                params.push(SqlValue::Integer(self.id as i64));
                assert(values_view(params@) =~= self.statement(a).params);
                Statement { sql: String::from_str("DELETE FROM USERS WHERE id = ?"), params }
            },
        }
    }
}

/// The standing of one student. `cgpa` is held in thousandths of a grade point,
/// so 3750 stands for 3.75; it and `can_grad` are derived from the student's
/// enrollments.
#[derive(Debug, PartialEq)]
pub struct StudentAccount {
    pub id: i32,
    pub student_id: i32,
    pub advisor_id: i32,
    pub discipline: String,
    pub enrollment: String,
    pub cgpa: i32,
    pub can_grad: bool,
    pub cur_credit: i32,
    pub cum_credit: i32,
}

/// What a `StudentAccount` holds, as plain values.
pub struct StudentAccountView {
    pub id: i32,
    pub student_id: i32,
    pub advisor_id: i32,
    pub discipline: Seq<char>,
    pub enrollment: Seq<char>,
    pub cgpa: i32,
    pub can_grad: bool,
    pub cur_credit: i32,
    pub cum_credit: i32,
}

impl View for StudentAccount {
    type V = StudentAccountView;

    open spec fn view(&self) -> StudentAccountView {
        StudentAccountView {
            id: self.id,
            student_id: self.student_id,
            advisor_id: self.advisor_id,
            discipline: self.discipline@,
            enrollment: self.enrollment@,
            cgpa: self.cgpa,
            can_grad: self.can_grad,
            cur_credit: self.cur_credit,
            cum_credit: self.cum_credit,
        }
    }
}

impl Clone for StudentAccount {
    fn clone(&self) -> (r: Self)
        ensures
            r == *self,
    {
        StudentAccount {
            id: self.id,
            student_id: self.student_id,
            advisor_id: self.advisor_id,
            discipline: self.discipline.clone(),
            enrollment: self.enrollment.clone(),
            cgpa: self.cgpa,
            can_grad: self.can_grad,
            cur_credit: self.cur_credit,
            cum_credit: self.cum_credit,
        }
    }
}

impl StudentAccountView {
    /// The statement that carries out `a` for a record with these values.
    pub open spec fn statement(self, a: Action) -> StatementView {
        match a {
            Action::Insert => StatementView {
                sql: "INSERT INTO STUDENT_ACCOUNT (student_id, advisor_id, discipline, enrollment, cgpa, can_grad, cur_credit, cum_credit) VALUES (?, ?, ?, ?, ?, ?, ?, ?)"@,
                params: seq![
                    SqlValueView::Integer(self.student_id as int),
                    SqlValueView::Integer(self.advisor_id as int),
                    SqlValueView::Text(self.discipline),
                    SqlValueView::Text(self.enrollment),
                    SqlValueView::Real(self.cgpa as int),
                    flag(self.can_grad),
                    SqlValueView::Integer(self.cur_credit as int),
                    SqlValueView::Integer(self.cum_credit as int),
                ],
            },
            Action::Update => StatementView {
                sql: "UPDATE STUDENT_ACCOUNT SET student_id = ?, advisor_id = ?, discipline = ?, enrollment = ?, cgpa = ?, can_grad = ?, cur_credit = ?, cum_credit = ? WHERE id = ?"@,
                params: seq![
                    SqlValueView::Integer(self.student_id as int),
                    SqlValueView::Integer(self.advisor_id as int),
                    SqlValueView::Text(self.discipline),
                    SqlValueView::Text(self.enrollment),
                    SqlValueView::Real(self.cgpa as int),
                    flag(self.can_grad),
                    SqlValueView::Integer(self.cur_credit as int),
                    SqlValueView::Integer(self.cum_credit as int),
                    SqlValueView::Integer(self.id as int),
                ],
            },
            Action::Delete => StatementView {
                sql: "DELETE FROM STUDENT_ACCOUNT WHERE id = ?"@,
                params: seq![SqlValueView::Integer(self.id as int)],
            },
        }
    }
}

impl ToSQL for StudentAccount {
    open spec fn statement(&self, a: Action) -> StatementView {
        self@.statement(a)
    }

    fn to_sql(&self, a: Action) -> (r: Statement) {
        let mut params: Vec<SqlValue> = Vec::new();
        match a {
            Action::Insert => {
                params.push(SqlValue::Integer(self.student_id as i64));
                params.push(SqlValue::Integer(self.advisor_id as i64));
                params.push(SqlValue::Text(self.discipline.clone()));
                params.push(SqlValue::Text(self.enrollment.clone()));
                params.push(SqlValue::Real(self.cgpa as i64));
                params.push(bind_flag(self.can_grad));
                params.push(SqlValue::Integer(self.cur_credit as i64));
                params.push(SqlValue::Integer(self.cum_credit as i64));
                assert(values_view(params@) =~= self.statement(a).params);
                Statement {
                    sql: String::from_str(
                        "INSERT INTO STUDENT_ACCOUNT (student_id, advisor_id, discipline, enrollment, cgpa, can_grad, cur_credit, cum_credit) VALUES (?, ?, ?, ?, ?, ?, ?, ?)",
                    ),
                    params,
                }
            },
            Action::Update => {
                params.push(SqlValue::Integer(self.student_id as i64));
                params.push(SqlValue::Integer(self.advisor_id as i64));
                params.push(SqlValue::Text(self.discipline.clone()));
                params.push(SqlValue::Text(self.enrollment.clone()));
                params.push(SqlValue::Real(self.cgpa as i64));
                params.push(bind_flag(self.can_grad));
                params.push(SqlValue::Integer(self.cur_credit as i64));
                params.push(SqlValue::Integer(self.cum_credit as i64));
                params.push(SqlValue::Integer(self.id as i64));
                assert(values_view(params@) =~= self.statement(a).params);
                Statement {
                    sql: String::from_str(
                        "UPDATE STUDENT_ACCOUNT SET student_id = ?, advisor_id = ?, discipline = ?, enrollment = ?, cgpa = ?, can_grad = ?, cur_credit = ?, cum_credit = ? WHERE id = ?",
                    ),
                    params,
                }
            },
            Action::Delete => {
                params.push(SqlValue::Integer(self.id as i64));
                assert(values_view(params@) =~= self.statement(a).params);
                Statement {
                    sql: String::from_str("DELETE FROM STUDENT_ACCOUNT WHERE id = ?"),
                    params,
                }
            },
        }
    }
}

/// The department assignment of one teacher; `dept_id` 0 means unassigned.
#[derive(Debug, PartialEq)]
pub struct TeacherAccount {
    pub id: i32,
    pub teacher_id: i32,
    pub dept_id: i32,
}

/// What a `TeacherAccount` holds, as plain values.
pub struct TeacherAccountView {
    pub id: i32,
    pub teacher_id: i32,
    pub dept_id: i32,
}

impl View for TeacherAccount {
    type V = TeacherAccountView;

    open spec fn view(&self) -> TeacherAccountView {
        TeacherAccountView {
            id: self.id,
            teacher_id: self.teacher_id,
            dept_id: self.dept_id,
        }
    }
}

impl Clone for TeacherAccount {
    fn clone(&self) -> (r: Self)
        ensures
            r == *self,
    {
        TeacherAccount {
            id: self.id,
            teacher_id: self.teacher_id,
            dept_id: self.dept_id,
        }
    }
}

impl TeacherAccountView {
    /// The statement that carries out `a` for a record with these values.
    pub open spec fn statement(self, a: Action) -> StatementView {
        match a {
            Action::Insert => StatementView {
                sql: "INSERT INTO TEACHER_ACCOUNT (teacher_id, dept_id) VALUES (?, ?)"@,
                params: seq![
                    SqlValueView::Integer(self.teacher_id as int),
                    SqlValueView::Integer(self.dept_id as int),
                ],
            },
            Action::Update => StatementView {
                sql: "UPDATE TEACHER_ACCOUNT SET teacher_id = ?, dept_id = ? WHERE id = ?"@,
                params: seq![
                    SqlValueView::Integer(self.teacher_id as int),
                    SqlValueView::Integer(self.dept_id as int),
                    SqlValueView::Integer(self.id as int),
                ],
            },
            Action::Delete => StatementView {
                sql: "DELETE FROM TEACHER_ACCOUNT WHERE id = ?"@,
                params: seq![SqlValueView::Integer(self.id as int)],
            },
        }
    }
}

impl ToSQL for TeacherAccount {
    open spec fn statement(&self, a: Action) -> StatementView {
        self@.statement(a)
    }

    fn to_sql(&self, a: Action) -> (r: Statement) {
        let mut params: Vec<SqlValue> = Vec::new();
        match a {
            Action::Insert => {
                params.push(SqlValue::Integer(self.teacher_id as i64));
                params.push(SqlValue::Integer(self.dept_id as i64));
                assert(values_view(params@) =~= self.statement(a).params);
                Statement {
                    sql: String::from_str(
                        "INSERT INTO TEACHER_ACCOUNT (teacher_id, dept_id) VALUES (?, ?)",
                    ),
                    params,
                }
            },
            Action::Update => {
                params.push(SqlValue::Integer(self.teacher_id as i64));
                params.push(SqlValue::Integer(self.dept_id as i64));
                params.push(SqlValue::Integer(self.id as i64));
                assert(values_view(params@) =~= self.statement(a).params);
                Statement {
                    sql: String::from_str(
                        "UPDATE TEACHER_ACCOUNT SET teacher_id = ?, dept_id = ? WHERE id = ?",
                    ),
                    params,
                }
            },
            Action::Delete => {
                params.push(SqlValue::Integer(self.id as i64));
                assert(values_view(params@) =~= self.statement(a).params);
                Statement {
                    sql: String::from_str("DELETE FROM TEACHER_ACCOUNT WHERE id = ?"),
                    params,
                }
            },
        }
    }
}

/// A course and the teacher who gives it; `cr_cost` is its credit weight.
#[derive(Debug, PartialEq)]
pub struct Courses {
    pub id: i32,
    pub teacher_id: i32,
    pub course: String,
    pub course_nr: String,
    pub description: String,
    pub cr_cost: i32,
    pub timeslots: String,
}

/// What a `Courses` holds, as plain values.
pub struct CoursesView {
    pub id: i32,
    pub teacher_id: i32,
    pub course: Seq<char>,
    pub course_nr: Seq<char>,
    pub description: Seq<char>,
    pub cr_cost: i32,
    pub timeslots: Seq<char>,
}

impl View for Courses {
    type V = CoursesView;

    open spec fn view(&self) -> CoursesView {
        CoursesView {
            id: self.id,
            teacher_id: self.teacher_id,
            course: self.course@,
            course_nr: self.course_nr@,
            description: self.description@,
            cr_cost: self.cr_cost,
            timeslots: self.timeslots@,
        }
    }
}

impl Clone for Courses {
    fn clone(&self) -> (r: Self)
        ensures
            r == *self,
    {
        Courses {
            id: self.id,
            teacher_id: self.teacher_id,
            course: self.course.clone(),
            course_nr: self.course_nr.clone(),
            description: self.description.clone(),
            cr_cost: self.cr_cost,
            timeslots: self.timeslots.clone(),
        }
    }
}

impl CoursesView {
    /// The statement that carries out `a` for a record with these values.
    pub open spec fn statement(self, a: Action) -> StatementView {
        match a {
            Action::Insert => StatementView {
                sql: "INSERT INTO COURSES (teacher_id, course, course_nr, description, cr_cost, timeslots) VALUES (?, ?, ?, ?, ?, ?)"@,
                params: seq![
                    SqlValueView::Integer(self.teacher_id as int),
                    SqlValueView::Text(self.course),
                    SqlValueView::Text(self.course_nr),
                    SqlValueView::Text(self.description),
                    SqlValueView::Integer(self.cr_cost as int),
                    SqlValueView::Text(self.timeslots),
                ],
            },
            Action::Update => StatementView {
                sql: "UPDATE COURSES SET teacher_id = ?, course = ?, course_nr = ?, description = ?, cr_cost = ?, timeslots = ? WHERE id = ?"@,
                params: seq![
                    SqlValueView::Integer(self.teacher_id as int),
                    SqlValueView::Text(self.course),
                    SqlValueView::Text(self.course_nr),
                    SqlValueView::Text(self.description),
                    SqlValueView::Integer(self.cr_cost as int),
                    SqlValueView::Text(self.timeslots),
                    SqlValueView::Integer(self.id as int),
                ],
            },
            Action::Delete => StatementView {
                sql: "DELETE FROM COURSES WHERE id = ?"@,
                params: seq![SqlValueView::Integer(self.id as int)],
            },
        }
    }
}

impl ToSQL for Courses {
    open spec fn statement(&self, a: Action) -> StatementView {
        self@.statement(a)
    }

    fn to_sql(&self, a: Action) -> (r: Statement) {
        let mut params: Vec<SqlValue> = Vec::new();
        match a {
            Action::Insert => {
                params.push(SqlValue::Integer(self.teacher_id as i64));
                params.push(SqlValue::Text(self.course.clone()));
                params.push(SqlValue::Text(self.course_nr.clone()));
                params.push(SqlValue::Text(self.description.clone()));
                params.push(SqlValue::Integer(self.cr_cost as i64));
                params.push(SqlValue::Text(self.timeslots.clone()));
                assert(values_view(params@) =~= self.statement(a).params);
                Statement {
                    sql: String::from_str(
                        "INSERT INTO COURSES (teacher_id, course, course_nr, description, cr_cost, timeslots) VALUES (?, ?, ?, ?, ?, ?)",
                    ),
                    params,
                }
            },
            Action::Update => {
                params.push(SqlValue::Integer(self.teacher_id as i64));
                params.push(SqlValue::Text(self.course.clone()));
                params.push(SqlValue::Text(self.course_nr.clone()));
                params.push(SqlValue::Text(self.description.clone()));
                params.push(SqlValue::Integer(self.cr_cost as i64));
                params.push(SqlValue::Text(self.timeslots.clone()));
                params.push(SqlValue::Integer(self.id as i64));
                assert(values_view(params@) =~= self.statement(a).params);
                Statement {
                    sql: String::from_str(
                        "UPDATE COURSES SET teacher_id = ?, course = ?, course_nr = ?, description = ?, cr_cost = ?, timeslots = ? WHERE id = ?",
                    ),
                    params,
                }
            },
            Action::Delete => {
                params.push(SqlValue::Integer(self.id as i64));
                assert(values_view(params@) =~= self.statement(a).params);
                Statement { sql: String::from_str("DELETE FROM COURSES WHERE id = ?"), params }
            },
        }
    }
}

/// One enrollment of a student in a course. `grade` is held in thousandths of a
/// grade point; a negative grade means that none was given yet.
#[derive(Debug, PartialEq)]
pub struct StudentCourse {
    pub student_id: i32,
    pub course_id: i32,
    pub grade: i32,
    pub semester: String,
}

/// What a `StudentCourse` holds, as plain values.
pub struct StudentCourseView {
    pub student_id: i32,
    pub course_id: i32,
    pub grade: i32,
    pub semester: Seq<char>,
}

impl View for StudentCourse {
    type V = StudentCourseView;

    open spec fn view(&self) -> StudentCourseView {
        StudentCourseView {
            student_id: self.student_id,
            course_id: self.course_id,
            grade: self.grade,
            semester: self.semester@,
        }
    }
}

impl Clone for StudentCourse {
    fn clone(&self) -> (r: Self)
        ensures
            r == *self,
    {
        StudentCourse {
            student_id: self.student_id,
            course_id: self.course_id,
            grade: self.grade,
            semester: self.semester.clone(),
        }
    }
}

impl StudentCourseView {
    /// The statement that carries out `a` for a record with these values.
    pub open spec fn statement(self, a: Action) -> StatementView {
        match a {
            Action::Insert => StatementView {
                sql: "INSERT INTO STUDENT_COURSES (student_id, course_id, grade, semester) VALUES (?, ?, ?, ?)"@,
                params: seq![
                    SqlValueView::Integer(self.student_id as int),
                    SqlValueView::Integer(self.course_id as int),
                    SqlValueView::Real(self.grade as int),
                    SqlValueView::Text(self.semester),
                ],
            },
            Action::Update => StatementView {
                sql: "UPDATE STUDENT_COURSES SET student_id = ?, course_id = ?, grade = ?, semester = ? WHERE student_id = ? AND course_id = ?"@,
                params: seq![
                    SqlValueView::Integer(self.student_id as int),
                    SqlValueView::Integer(self.course_id as int),
                    SqlValueView::Real(self.grade as int),
                    SqlValueView::Text(self.semester),
                    SqlValueView::Integer(self.student_id as int),
                    SqlValueView::Integer(self.course_id as int),
                ],
            },
            Action::Delete => StatementView {
                sql: "DELETE FROM STUDENT_COURSES WHERE student_id = ? AND course_id = ?"@,
                params: seq![
                    SqlValueView::Integer(self.student_id as int),
                    SqlValueView::Integer(self.course_id as int),
                ],
            },
        }
    }
}

impl ToSQL for StudentCourse {
    open spec fn statement(&self, a: Action) -> StatementView {
        self@.statement(a)
    }

    fn to_sql(&self, a: Action) -> (r: Statement) {
        let mut params: Vec<SqlValue> = Vec::new();
        match a {
            Action::Insert => {
                params.push(SqlValue::Integer(self.student_id as i64));
                params.push(SqlValue::Integer(self.course_id as i64));
                params.push(SqlValue::Real(self.grade as i64));
                params.push(SqlValue::Text(self.semester.clone()));
                assert(values_view(params@) =~= self.statement(a).params);
                Statement {
                    sql: String::from_str(
                        "INSERT INTO STUDENT_COURSES (student_id, course_id, grade, semester) VALUES (?, ?, ?, ?)",
                    ),
                    params,
                }
            },
            Action::Update => {
                params.push(SqlValue::Integer(self.student_id as i64));
                params.push(SqlValue::Integer(self.course_id as i64));
                params.push(SqlValue::Real(self.grade as i64));
                params.push(SqlValue::Text(self.semester.clone()));
                params.push(SqlValue::Integer(self.student_id as i64));
                params.push(SqlValue::Integer(self.course_id as i64));
                assert(values_view(params@) =~= self.statement(a).params);
                Statement {
                    sql: String::from_str(
                        "UPDATE STUDENT_COURSES SET student_id = ?, course_id = ?, grade = ?, semester = ? WHERE student_id = ? AND course_id = ?",
                    ),
                    params,
                }
            },
            Action::Delete => {
                params.push(SqlValue::Integer(self.student_id as i64));
                params.push(SqlValue::Integer(self.course_id as i64));
                assert(values_view(params@) =~= self.statement(a).params);
                Statement {
                    sql: String::from_str("DELETE FROM STUDENT_COURSES WHERE student_id = ? AND course_id = ?"),
                    params,
                }
            },
        }
    }
}

/// A department.
#[derive(Debug, PartialEq)]
pub struct Departments {
    pub id: i32,
    pub name: String,
}

/// What a `Departments` holds, as plain values.
pub struct DepartmentsView {
    pub id: i32,
    pub name: Seq<char>,
}

impl View for Departments {
    type V = DepartmentsView;

    open spec fn view(&self) -> DepartmentsView {
        DepartmentsView {
            id: self.id,
            name: self.name@,
        }
    }
}

impl Clone for Departments {
    fn clone(&self) -> (r: Self)
        ensures
            r == *self,
    {
        Departments {
            id: self.id,
            name: self.name.clone(),
        }
    }
}

impl DepartmentsView {
    /// The statement that carries out `a` for a record with these values.
    pub open spec fn statement(self, a: Action) -> StatementView {
        match a {
            Action::Insert => StatementView {
                sql: "INSERT INTO DEPARTMENTS (name) VALUES (?)"@,
                params: seq![SqlValueView::Text(self.name)],
            },
            Action::Update => StatementView {
                sql: "UPDATE DEPARTMENTS SET name = ? WHERE id = ?"@,
                params: seq![SqlValueView::Text(self.name), SqlValueView::Integer(self.id as int)],
            },
            Action::Delete => StatementView {
                sql: "DELETE FROM DEPARTMENTS WHERE id = ?"@,
                params: seq![SqlValueView::Integer(self.id as int)],
            },
        }
    }
}

impl ToSQL for Departments {
    open spec fn statement(&self, a: Action) -> StatementView {
        self@.statement(a)
    }

    fn to_sql(&self, a: Action) -> (r: Statement) {
        let mut params: Vec<SqlValue> = Vec::new();
        match a {
            Action::Insert => {
                params.push(SqlValue::Text(self.name.clone()));
                assert(values_view(params@) =~= self.statement(a).params);
                Statement {
                    sql: String::from_str(
                        "INSERT INTO DEPARTMENTS (name) VALUES (?)",
                    ),
                    params,
                }
            },
            Action::Update => {
                params.push(SqlValue::Text(self.name.clone()));
                params.push(SqlValue::Integer(self.id as i64));
                assert(values_view(params@) =~= self.statement(a).params);
                Statement {
                    sql: String::from_str(
                        "UPDATE DEPARTMENTS SET name = ? WHERE id = ?",
                    ),
                    params,
                }
            },
            Action::Delete => {
                params.push(SqlValue::Integer(self.id as i64));
                assert(values_view(params@) =~= self.statement(a).params);
                Statement { sql: String::from_str("DELETE FROM DEPARTMENTS WHERE id = ?"), params }
            },
        }
    }
}

} // verus!
