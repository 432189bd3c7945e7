//! The model of the store: the records as sequences of plain values, and
//! what each command makes of them.

use crate::db_driver::ReceiverTypeView;
use crate::error::{ErrorKind, Operation};
use crate::filter::{Associativity, Filter};
use crate::statement::PendingView;
use crate::table_models::{
    Action, CoursesView, DepartmentsView, StudentAccountView, StudentCourseView, Table,
    TeacherAccountView, UserView,
};
use vstd::prelude::*;

verus! {

/// The credits that a student must have earned to graduate.
pub const GRADUATION_CREDITS: i32 = 120;

/// The failure of an insert into a table whose keys have run out.
pub open spec fn storage_full(table: Table) -> ErrorKind {
    ErrorKind::StorageFailure { table, operation: Operation::Insert }
}

/// The failure of a read from a table.
pub open spec fn unreadable(table: Table) -> ErrorKind {
    ErrorKind::StorageFailure { table, operation: Operation::Read }
}

/// No two rows have the same key.
pub open spec fn distinct_by<T, K>(rows: Seq<T>, key: spec_fn(T) -> K) -> bool {
    forall|i: int, j: int|
        0 <= i < j < rows.len() ==> key(#[trigger] rows[i]) != key(#[trigger] rows[j])
}

/// Some row has this key.
pub open spec fn has_key<T, K>(rows: Seq<T>, key: spec_fn(T) -> K, k: K) -> bool {
    exists|i: int| 0 <= i < rows.len() && key(#[trigger] rows[i]) == k
}

/// The largest key in use, or 0 where there is none above 0.
pub open spec fn top_key<T>(rows: Seq<T>, key: spec_fn(T) -> i32) -> int
    decreases rows.len(),
{
    if rows.len() == 0 {
        0
    } else {
        let rest = top_key(rows.drop_last(), key);
        if key(rows.last()) > rest {
            key(rows.last()) as int
        } else {
            rest
        }
    }
}

/// The rows whose key is not `k`.
pub open spec fn without_key<T, K>(rows: Seq<T>, key: spec_fn(T) -> K, k: K) -> Seq<T> {
    rows.filter(|r: T| key(r) != k)
}

/// The rows, with `row` in the place of each one that has its key.
pub open spec fn with_row<T, K>(rows: Seq<T>, key: spec_fn(T) -> K, row: T) -> Seq<T> {
    rows.map_values(
        |r: T|
            if key(r) == key(row) {
                row
            } else {
                r
            },
    )
}

/// Some row other than the one with `row`'s own key has the same second key.
pub open spec fn clashes<T, K, U>(
    rows: Seq<T>,
    key: spec_fn(T) -> K,
    unique: spec_fn(T) -> U,
    row: T,
) -> bool {
    exists|i: int|
        0 <= i < rows.len() && key(#[trigger] rows[i]) != key(row) && unique(rows[i]) == unique(
            row,
        )
}

/// The key of a user.
pub open spec fn user_id() -> spec_fn(UserView) -> i32 {
    |u: UserView| u.id
}

/// The email of a user.
pub open spec fn user_email() -> spec_fn(UserView) -> Seq<char> {
    |u: UserView| u.email
}

/// The key of a student account.
pub open spec fn student_account_id() -> spec_fn(StudentAccountView) -> i32 {
    |a: StudentAccountView| a.id
}

/// The student who owns a student account.
pub open spec fn student_account_owner() -> spec_fn(StudentAccountView) -> i32 {
    |a: StudentAccountView| a.student_id
}

/// The key of a teacher account.
pub open spec fn teacher_account_id() -> spec_fn(TeacherAccountView) -> i32 {
    |a: TeacherAccountView| a.id
}

/// The teacher who owns a teacher account.
pub open spec fn teacher_account_owner() -> spec_fn(TeacherAccountView) -> i32 {
    |a: TeacherAccountView| a.teacher_id
}

/// The key of a course.
pub open spec fn course_id() -> spec_fn(CoursesView) -> i32 {
    |c: CoursesView| c.id
}

/// The key of a department.
pub open spec fn department_id() -> spec_fn(DepartmentsView) -> i32 {
    |d: DepartmentsView| d.id
}

/// The key of an enrollment: the student and the course.
pub open spec fn enrollment_key() -> spec_fn(StudentCourseView) -> (i32, i32) {
    |e: StudentCourseView| (e.student_id, e.course_id)
}

/// The account that a new student gets: no advisor, no discipline, no
/// enrollment term, an average of zero, no credits, not ready to graduate.
pub open spec fn fresh_student_account(id: i32, student_id: i32) -> StudentAccountView {
    StudentAccountView {
        id,
        student_id,
        advisor_id: 0,
        discipline: Seq::empty(),
        enrollment: Seq::empty(),
        cgpa: 0,
        can_grad: false,
        cur_credit: 0,
        cum_credit: 0,
    }
}

/// The account that a new teacher gets: no department.
pub open spec fn fresh_teacher_account(id: i32, teacher_id: i32) -> TeacherAccountView {
    TeacherAccountView { id, teacher_id, dept_id: 0 }
}

/// The credit weight of the course with this id, or 0 where there is none.
pub open spec fn credit_weight(courses: Seq<CoursesView>, course: i32) -> int
    decreases courses.len(),
{
    if courses.len() == 0 {
        0
    } else if courses.last().id == course {
        courses.last().cr_cost as int
    } else {
        credit_weight(courses.drop_last(), course)
    }
}

/// Whether an enrollment counts towards a student's standing: it is the
/// student's, it has a grade, and its course exists with a positive credit
/// weight.
pub open spec fn counts_for(
    row: StudentCourseView,
    courses: Seq<CoursesView>,
    student: i32,
) -> bool {
    row.student_id == student && row.grade >= 0 && credit_weight(courses, row.course_id) > 0
}

/// The credits of the enrollments that count for a student.
pub open spec fn earned_credits(
    rows: Seq<StudentCourseView>,
    courses: Seq<CoursesView>,
    student: i32,
) -> int
    decreases rows.len(),
{
    if rows.len() == 0 {
        0
    } else {
        earned_credits(rows.drop_last(), courses, student) + if counts_for(
            rows.last(),
            courses,
            student,
        ) {
            credit_weight(courses, rows.last().course_id)
        } else {
            0
        }
    }
}

/// The sum of grade times credit weight over the enrollments that count for a
/// student, in thousandths of a grade point.
pub open spec fn grade_points(
    rows: Seq<StudentCourseView>,
    courses: Seq<CoursesView>,
    student: i32,
) -> int
    decreases rows.len(),
{
    if rows.len() == 0 {
        0
    } else {
        grade_points(rows.drop_last(), courses, student) + if counts_for(
            rows.last(),
            courses,
            student,
        ) {
            rows.last().grade * credit_weight(courses, rows.last().course_id)
        } else {
            0
        }
    }
}

/// The credit-weighted average grade, in thousandths of a grade point,
/// rounded down; 0 where no credits count.
pub open spec fn weighted_average(points: int, credits: int) -> int {
    if credits == 0 {
        0
    } else {
        points / credits
    }
}

/// What an update stores for a user: the row as given, but with the old
/// password kept where the new one is empty.
pub open spec fn merged_user(old_row: UserView, u: UserView) -> UserView {
    if u.password.len() == 0 {
        UserView { password: old_row.password, ..u }
    } else {
        u
    }
}

/// The users after an update of the one with `u`'s key.
pub open spec fn merged_users(rows: Seq<UserView>, u: UserView) -> Seq<UserView> {
    rows.map_values(
        |r: UserView|
            if r.id == u.id {
                merged_user(r, u)
            } else {
                r
            },
    )
}

/// The accounts, with a new average and a new answer to whether the student
/// may graduate in the account of one student. The rest of that account
/// stays, and so do the other accounts.
pub open spec fn restated(
    accounts: Seq<StudentAccountView>,
    student: i32,
    cgpa: i32,
    can_grad: bool,
) -> Seq<StudentAccountView> {
    accounts.map_values(
        |a: StudentAccountView|
            if a.student_id == student {
                StudentAccountView { cgpa, can_grad, ..a }
            } else {
                a
            },
    )
}

/// The first row, where there is one.
pub open spec fn first_of<T>(rows: Seq<T>) -> Option<T> {
    if rows.len() > 0 {
        Some(rows[0])
    } else {
        None
    }
}

/// Whether a record satisfies the predicates of a query: all of them under
/// `And`, one of them under `Or`. Every record satisfies an empty list.
pub open spec fn satisfies(
    record: ReceiverTypeView,
    filters: Seq<Filter>,
    assoc: Associativity,
) -> bool {
    filters.len() == 0 || match assoc {
        Associativity::And => forall|i: int|
            0 <= i < filters.len() ==> (#[trigger] filters[i]).holds(record),
        Associativity::Or => exists|i: int|
            0 <= i < filters.len() && (#[trigger] filters[i]).holds(record),
    }
}

/// The records that satisfy a query's predicates, as a predicate on records.
pub open spec fn selection(filters: Seq<Filter>, assoc: Associativity) -> spec_fn(
    ReceiverTypeView,
) -> bool {
    |r: ReceiverTypeView| satisfies(r, filters, assoc)
}

/// Every predicate is about this entity kind.
pub open spec fn filters_fit(table: Table, filters: Seq<Filter>) -> bool {
    forall|i: int| 0 <= i < filters.len() ==> (#[trigger] filters[i]).table_of() == table
}

/// Every predicate names a column that its table has.
pub open spec fn columns_exist(filters: Seq<Filter>) -> bool {
    forall|i: int| 0 <= i < filters.len() ==> (#[trigger] filters[i]).column_exists()
}

/// The records of the store: one sequence for each entity kind, in the order
/// in which the rows came, and the statements that the writes so far ask of
/// the backing store.
pub struct Database {
    pub users: Seq<UserView>,
    pub student_accounts: Seq<StudentAccountView>,
    pub teacher_accounts: Seq<TeacherAccountView>,
    pub courses: Seq<CoursesView>,
    pub student_courses: Seq<StudentCourseView>,
    pub departments: Seq<DepartmentsView>,
    pub journal: Seq<PendingView>,
}

impl Database {
    /// The store with no records.
    pub open spec fn empty() -> Database {
        Database {
            users: Seq::empty(),
            student_accounts: Seq::empty(),
            teacher_accounts: Seq::empty(),
            courses: Seq::empty(),
            student_courses: Seq::empty(),
            departments: Seq::empty(),
            journal: Seq::empty(),
        }
    }

    /// The uniqueness rules of the store: a primary key names one row, no
    /// two users share an email, a user owns at most one account of each
    /// kind, and a student is enrolled in a course at most once.
    pub open spec fn wf(self) -> bool {
        &&& distinct_by(self.users, user_id())
        &&& distinct_by(self.users, user_email())
        &&& distinct_by(self.student_accounts, student_account_id())
        &&& distinct_by(self.student_accounts, student_account_owner())
        &&& distinct_by(self.teacher_accounts, teacher_account_id())
        &&& distinct_by(self.teacher_accounts, teacher_account_owner())
        &&& distinct_by(self.courses, course_id())
        &&& distinct_by(self.departments, department_id())
        &&& distinct_by(self.student_courses, enrollment_key())
    }

    /// The records of one entity kind, each tagged with its kind.
    pub open spec fn records(self, table: Table) -> Seq<ReceiverTypeView> {
        match table {
            Table::Users => self.users.map_values(|x: UserView| ReceiverTypeView::User(x)),
            Table::StudentAccount => self.student_accounts.map_values(
                |x: StudentAccountView| ReceiverTypeView::StudentAccount(x),
            ),
            Table::TeacherAccount => self.teacher_accounts.map_values(
                |x: TeacherAccountView| ReceiverTypeView::TeacherAccount(x),
            ),
            Table::Courses => self.courses.map_values(|x: CoursesView| ReceiverTypeView::Course(x)),
            Table::StudentCourses => self.student_courses.map_values(
                |x: StudentCourseView| ReceiverTypeView::StudentCourse(x),
            ),
            Table::Departments => self.departments.map_values(
                |x: DepartmentsView| ReceiverTypeView::Department(x),
            ),
        }
    }

    /// The records of one entity kind that satisfy a query's predicates, in
    /// the order in which the store holds them.
    pub open spec fn select(
        self,
        table: Table,
        filters: Seq<Filter>,
        assoc: Associativity,
    ) -> Seq<ReceiverTypeView> {
        self.records(table).filter(selection(filters, assoc))
    }

    /// The users that satisfy a query's predicates, in the order in which
    /// the store holds them.
    pub open spec fn matching_users(self, filters: Seq<Filter>, assoc: Associativity) -> Seq<
        UserView,
    > {
        self.users.filter(|x: UserView| satisfies(ReceiverTypeView::User(x), filters, assoc))
    }

    /// The student accounts that satisfy a query's predicates, in the order in which
    /// the store holds them.
    pub open spec fn matching_student_accounts(
        self,
        filters: Seq<Filter>,
        assoc: Associativity,
    ) -> Seq<
        StudentAccountView,
    > {
        self.student_accounts.filter(
            |x: StudentAccountView| satisfies(ReceiverTypeView::StudentAccount(x), filters, assoc)
        )
    }

    /// The teacher accounts that satisfy a query's predicates, in the order in which
    /// the store holds them.
    pub open spec fn matching_teacher_accounts(
        self,
        filters: Seq<Filter>,
        assoc: Associativity,
    ) -> Seq<
        TeacherAccountView,
    > {
        self.teacher_accounts.filter(
            |x: TeacherAccountView| satisfies(ReceiverTypeView::TeacherAccount(x), filters, assoc)
        )
    }

    /// The courses that satisfy a query's predicates, in the order in which
    /// the store holds them.
    pub open spec fn matching_courses(self, filters: Seq<Filter>, assoc: Associativity) -> Seq<
        CoursesView,
    > {
        self.courses.filter(|x: CoursesView| satisfies(ReceiverTypeView::Course(x), filters, assoc))
    }

    /// The enrollments that satisfy a query's predicates, in the order in which
    /// the store holds them.
    pub open spec fn matching_student_courses(
        self,
        filters: Seq<Filter>,
        assoc: Associativity,
    ) -> Seq<
        StudentCourseView,
    > {
        self.student_courses.filter(
            |x: StudentCourseView| satisfies(ReceiverTypeView::StudentCourse(x), filters, assoc)
        )
    }

    /// The departments that satisfy a query's predicates, in the order in which
    /// the store holds them.
    pub open spec fn matching_departments(self, filters: Seq<Filter>, assoc: Associativity) -> Seq<
        DepartmentsView,
    > {
        self.departments.filter(
            |x: DepartmentsView| satisfies(ReceiverTypeView::Department(x), filters, assoc)
        )
    }

    /// The store after the accounts of one user were brought in line with
    /// the user's role: a student account exists exactly where the role is
    /// `student`, a teacher account exactly where it is `teacher`. An account
    /// that already fits is kept as it is. Fails, changing nothing, where a
    /// new account could get no key.
    pub open spec fn with_accounts_for(self, user: i32, role: Seq<char>) -> Result<
        Database,
        ErrorKind,
    > {
        let make_student = role == "student"@ && !has_key(
            self.student_accounts,
            student_account_owner(),
            user,
        );
        let make_teacher = role == "teacher"@ && !has_key(
            self.teacher_accounts,
            teacher_account_owner(),
            user,
        );
        if make_student && top_key(self.student_accounts, student_account_id()) >= i32::MAX {
            Err(storage_full(Table::StudentAccount))
        } else if make_teacher && top_key(self.teacher_accounts, teacher_account_id())
            >= i32::MAX {
            Err(storage_full(Table::TeacherAccount))
        } else {
            Ok(
                Database {
                    student_accounts: if role == "student"@ {
                        if make_student {
                            self.student_accounts.push(
                                fresh_student_account(
                                    (top_key(self.student_accounts, student_account_id())
                                        + 1) as i32,
                                    user,
                                ),
                            )
                        } else {
                            self.student_accounts
                        }
                    } else {
                        without_key(self.student_accounts, student_account_owner(), user)
                    },
                    teacher_accounts: if role == "teacher"@ {
                        if make_teacher {
                            self.teacher_accounts.push(
                                fresh_teacher_account(
                                    (top_key(self.teacher_accounts, teacher_account_id())
                                        + 1) as i32,
                                    user,
                                ),
                            )
                        } else {
                            self.teacher_accounts
                        }
                    } else {
                        without_key(self.teacher_accounts, teacher_account_owner(), user)
                    },
                    ..self
                },
            )
        }
    }

    /// A new user. The store gives the key, whatever `u.id` says, and brings
    /// the user's accounts in line with the role.
    pub open spec fn insert_user(self, u: UserView) -> Result<Database, ErrorKind> {
        if has_key(self.users, user_email(), u.email) {
            Err(ErrorKind::Conflict)
        } else if top_key(self.users, user_id()) >= i32::MAX {
            Err(storage_full(Table::Users))
        } else {
            let id = (top_key(self.users, user_id()) + 1) as i32;
            Database { users: self.users.push(UserView { id, ..u }), ..self }.with_accounts_for(
                id,
                u.role,
            )
        }
    }

    /// The user with this key is replaced, and the accounts follow the role.
    /// Where no user has the key, nothing changes.
    pub open spec fn update_user(self, u: UserView) -> Result<Database, ErrorKind> {
        if !has_key(self.users, user_id(), u.id) {
            Ok(self)
        } else if clashes(self.users, user_id(), user_email(), u) {
            Err(ErrorKind::Conflict)
        } else {
            Database { users: merged_users(self.users, u), ..self }.with_accounts_for(
                u.id,
                u.role,
            )
        }
    }

    /// The user with this key leaves, and so do both accounts of that user.
    pub open spec fn delete_user(self, u: UserView) -> Result<Database, ErrorKind> {
        Ok(
            Database {
                users: without_key(self.users, user_id(), u.id),
                student_accounts: without_key(
                    self.student_accounts,
                    student_account_owner(),
                    u.id,
                ),
                teacher_accounts: without_key(
                    self.teacher_accounts,
                    teacher_account_owner(),
                    u.id,
                ),
                ..self
            },
        )
    }

    /// A new student account. The store gives the key. Refused with `Conflict`
    /// where the student already has one.
    pub open spec fn insert_student_account(self, a: StudentAccountView) -> Result<
        Database,
        ErrorKind,
    > {
        if has_key(self.student_accounts, student_account_owner(), a.student_id) {
            Err(ErrorKind::Conflict)
        } else if top_key(self.student_accounts, student_account_id()) >= i32::MAX {
            Err(storage_full(Table::StudentAccount))
        } else {
            let id = (top_key(self.student_accounts, student_account_id()) + 1) as i32;
            Ok(
                Database {
                    student_accounts: self.student_accounts.push(StudentAccountView { id, ..a }),
                    ..self
                },
            )
        }
    }

    /// The student account with this key is replaced. Where none has the key,
    /// nothing changes. Refused with `Conflict` where another account is
    /// already that of the student.
    pub open spec fn update_student_account(self, a: StudentAccountView) -> Result<
        Database,
        ErrorKind,
    > {
        if !has_key(self.student_accounts, student_account_id(), a.id) {
            Ok(self)
        } else if clashes(
            self.student_accounts,
            student_account_id(),
            student_account_owner(),
            a,
        ) {
            Err(ErrorKind::Conflict)
        } else {
            Ok(
                Database {
                    student_accounts: with_row(self.student_accounts, student_account_id(), a),
                    ..self
                },
            )
        }
    }

    /// The student account with this key leaves.
    pub open spec fn delete_student_account(self, a: StudentAccountView) -> Result<
        Database,
        ErrorKind,
    > {
        Ok(
            Database {
                student_accounts: without_key(self.student_accounts, student_account_id(), a.id),
                ..self
            },
        )
    }

    /// A new teacher account. The store gives the key. Refused with `Conflict`
    /// where the teacher already has one.
    pub open spec fn insert_teacher_account(self, a: TeacherAccountView) -> Result<
        Database,
        ErrorKind,
    > {
        if has_key(self.teacher_accounts, teacher_account_owner(), a.teacher_id) {
            Err(ErrorKind::Conflict)
        } else if top_key(self.teacher_accounts, teacher_account_id()) >= i32::MAX {
            Err(storage_full(Table::TeacherAccount))
        } else {
            let id = (top_key(self.teacher_accounts, teacher_account_id()) + 1) as i32;
            Ok(
                Database {
                    teacher_accounts: self.teacher_accounts.push(TeacherAccountView { id, ..a }),
                    ..self
                },
            )
        }
    }

    /// The teacher account with this key is replaced. Where none has the key,
    /// nothing changes. Refused with `Conflict` where another account is
    /// already that of the teacher.
    pub open spec fn update_teacher_account(self, a: TeacherAccountView) -> Result<
        Database,
        ErrorKind,
    > {
        if !has_key(self.teacher_accounts, teacher_account_id(), a.id) {
            Ok(self)
        } else if clashes(
            self.teacher_accounts,
            teacher_account_id(),
            teacher_account_owner(),
            a,
        ) {
            Err(ErrorKind::Conflict)
        } else {
            Ok(
                Database {
                    teacher_accounts: with_row(self.teacher_accounts, teacher_account_id(), a),
                    ..self
                },
            )
        }
    }

    /// The teacher account with this key leaves.
    pub open spec fn delete_teacher_account(self, a: TeacherAccountView) -> Result<
        Database,
        ErrorKind,
    > {
        Ok(
            Database {
                teacher_accounts: without_key(self.teacher_accounts, teacher_account_id(), a.id),
                ..self
            },
        )
    }

    /// A new course. The store gives the key.
    pub open spec fn insert_course(self, c: CoursesView) -> Result<Database, ErrorKind> {
        if top_key(self.courses, course_id()) >= i32::MAX {
            Err(storage_full(Table::Courses))
        } else {
            let id = (top_key(self.courses, course_id()) + 1) as i32;
            Ok(Database { courses: self.courses.push(CoursesView { id, ..c }), ..self })
        }
    }

    /// The course with this key is replaced. Where none has the key, nothing
    /// changes.
    pub open spec fn update_course(self, c: CoursesView) -> Result<Database, ErrorKind> {
        Ok(Database { courses: with_row(self.courses, course_id(), c), ..self })
    }

    /// The course with this key leaves.
    pub open spec fn delete_course(self, c: CoursesView) -> Result<Database, ErrorKind> {
        Ok(Database { courses: without_key(self.courses, course_id(), c.id), ..self })
    }

    /// A new department. The store gives the key.
    pub open spec fn insert_department(self, d: DepartmentsView) -> Result<Database, ErrorKind> {
        if top_key(self.departments, department_id()) >= i32::MAX {
            Err(storage_full(Table::Departments))
        } else {
            let id = (top_key(self.departments, department_id()) + 1) as i32;
            Ok(
                Database {
                    departments: self.departments.push(DepartmentsView { id, ..d }),
                    ..self
                },
            )
        }
    }

    /// The department with this key is replaced. Where none has the key,
    /// nothing changes.
    pub open spec fn update_department(self, d: DepartmentsView) -> Result<Database, ErrorKind> {
        Ok(Database { departments: with_row(self.departments, department_id(), d), ..self })
    }

    /// The department with this key leaves.
    pub open spec fn delete_department(self, d: DepartmentsView) -> Result<Database, ErrorKind> {
        Ok(
            Database {
                departments: without_key(self.departments, department_id(), d.id),
                ..self
            },
        )
    }

    /// The average of one student, from the enrollments and courses that the
    /// store holds now.
    pub open spec fn average_of(self, student: i32) -> int {
        weighted_average(
            grade_points(self.student_courses, self.courses, student),
            earned_credits(self.student_courses, self.courses, student),
        )
    }

    /// The credits that one student has earned, from the enrollments and
    /// courses that the store holds now.
    pub open spec fn credits_of(self, student: i32) -> int {
        earned_credits(self.student_courses, self.courses, student)
    }

    /// The store after the standing of one student was computed anew: the
    /// student's account holds the average and whether the credits earned
    /// reach the threshold. The rest of the account stays.
    pub open spec fn with_standing_of(self, student: i32) -> Database {
        Database {
            student_accounts: restated(
                self.student_accounts,
                student,
                self.average_of(student) as i32,
                self.credits_of(student) >= GRADUATION_CREDITS,
            ),
            ..self
        }
    }

    /// A new enrollment, and the standing of its student computed anew.
    /// Refused with `Conflict` where the student is already enrolled in the
    /// course.
    pub open spec fn insert_student_course(self, e: StudentCourseView) -> Result<
        Database,
        ErrorKind,
    > {
        if has_key(self.student_courses, enrollment_key(), (e.student_id, e.course_id)) {
            Err(ErrorKind::Conflict)
        } else {
            Ok(
                Database {
                    student_courses: self.student_courses.push(e),
                    ..self
                }.with_standing_of(e.student_id),
            )
        }
    }

    /// The enrollment of this student in this course is replaced, and the
    /// standing of the student computed anew. Where there is no such
    /// enrollment, nothing changes.
    pub open spec fn update_student_course(self, e: StudentCourseView) -> Result<
        Database,
        ErrorKind,
    > {
        if !has_key(self.student_courses, enrollment_key(), (e.student_id, e.course_id)) {
            Ok(self)
        } else {
            Ok(
                Database {
                    student_courses: with_row(self.student_courses, enrollment_key(), e),
                    ..self
                }.with_standing_of(e.student_id),
            )
        }
    }

    /// The enrollment of this student in this course leaves, and the standing
    /// of the student is computed anew. Where there is no such enrollment,
    /// nothing changes.
    pub open spec fn delete_student_course(self, e: StudentCourseView) -> Result<
        Database,
        ErrorKind,
    > {
        if !has_key(self.student_courses, enrollment_key(), (e.student_id, e.course_id)) {
            Ok(self)
        } else {
            Ok(
                Database {
                    student_courses: without_key(
                        self.student_courses,
                        enrollment_key(),
                        (e.student_id, e.course_id),
                    ),
                    ..self
                }.with_standing_of(e.student_id),
            )
        }
    }

    /// What one command does to the records, whatever it asks of the backing
    /// store.
    pub open spec fn change(self, a: Action, record: ReceiverTypeView) -> Result<
        Database,
        ErrorKind,
    > {
        match (a, record) {
            (Action::Insert, ReceiverTypeView::User(x)) => self.insert_user(x),
            (Action::Update, ReceiverTypeView::User(x)) => self.update_user(x),
            (Action::Delete, ReceiverTypeView::User(x)) => self.delete_user(x),
            (Action::Insert, ReceiverTypeView::StudentAccount(x)) => self.insert_student_account(
                x,
            ),
            (Action::Update, ReceiverTypeView::StudentAccount(x)) => self.update_student_account(
                x,
            ),
            (Action::Delete, ReceiverTypeView::StudentAccount(x)) => self.delete_student_account(
                x,
            ),
            (Action::Insert, ReceiverTypeView::TeacherAccount(x)) => self.insert_teacher_account(
                x,
            ),
            (Action::Update, ReceiverTypeView::TeacherAccount(x)) => self.update_teacher_account(
                x,
            ),
            (Action::Delete, ReceiverTypeView::TeacherAccount(x)) => self.delete_teacher_account(
                x,
            ),
            (Action::Insert, ReceiverTypeView::Course(x)) => self.insert_course(x),
            (Action::Update, ReceiverTypeView::Course(x)) => self.update_course(x),
            (Action::Delete, ReceiverTypeView::Course(x)) => self.delete_course(x),
            (Action::Insert, ReceiverTypeView::StudentCourse(x)) => self.insert_student_course(x),
            (Action::Update, ReceiverTypeView::StudentCourse(x)) => self.update_student_course(x),
            (Action::Delete, ReceiverTypeView::StudentCourse(x)) => self.delete_student_course(x),
            (Action::Insert, ReceiverTypeView::Department(x)) => self.insert_department(x),
            (Action::Update, ReceiverTypeView::Department(x)) => self.update_department(x),
            (Action::Delete, ReceiverTypeView::Department(x)) => self.delete_department(x),
        }
    }

    /// One command: the change to the records and, where it succeeds, its
    /// statement at the end of the journal. A command that fails changes
    /// nothing.
    pub open spec fn apply(self, a: Action, record: ReceiverTypeView) -> Result<
        Database,
        ErrorKind,
    > {
        match self.change(a, record) {
            Ok(db) => Ok(
                Database {
                    journal: db.journal.push(
                        PendingView {
                            table: record.table_of(),
                            action: a,
                            statement: record.statement(a),
                        },
                    ),
                    ..db
                },
            ),
            Err(e) => Err(e),
        }
    }

    /// A list of commands of one kind, in order. The first that fails ends
    /// the list: what came before it stays done, and its error is handed
    /// back with the store as it then is.
    pub open spec fn apply_all(self, a: Action, records: Seq<ReceiverTypeView>) -> (
        Database,
        Option<ErrorKind>,
    )
        decreases records.len(),
    {
        if records.len() == 0 {
            (self, None)
        } else {
            match self.apply(a, records.first()) {
                Ok(db) => db.apply_all(a, records.drop_first()),
                Err(e) => (self, Some(e)),
            }
        }
    }

    /// The store with one more record, taken as it is, key and all, and
    /// nothing else done: no account follows, no standing is computed, no
    /// statement is written. Refused with `Conflict` where the record would
    /// break a uniqueness rule.
    pub open spec fn receive(self, record: ReceiverTypeView) -> Result<Database, ErrorKind> {
        match record {
            ReceiverTypeView::User(x) => if has_key(self.users, user_id(), x.id) || has_key(
                self.users,
                user_email(),
                x.email,
            ) {
                Err(ErrorKind::Conflict)
            } else {
                Ok(Database { users: self.users.push(x), ..self })
            },
            ReceiverTypeView::StudentAccount(x) => if has_key(
                self.student_accounts,
                student_account_id(),
                x.id,
            ) || has_key(self.student_accounts, student_account_owner(), x.student_id) {
                Err(ErrorKind::Conflict)
            } else {
                Ok(Database { student_accounts: self.student_accounts.push(x), ..self })
            },
            ReceiverTypeView::TeacherAccount(x) => if has_key(
                self.teacher_accounts,
                teacher_account_id(),
                x.id,
            ) || has_key(self.teacher_accounts, teacher_account_owner(), x.teacher_id) {
                Err(ErrorKind::Conflict)
            } else {
                Ok(Database { teacher_accounts: self.teacher_accounts.push(x), ..self })
            },
            ReceiverTypeView::Course(x) => if has_key(self.courses, course_id(), x.id) {
                Err(ErrorKind::Conflict)
            } else {
                Ok(Database { courses: self.courses.push(x), ..self })
            },
            ReceiverTypeView::StudentCourse(x) => if has_key(
                self.student_courses,
                enrollment_key(),
                (x.student_id, x.course_id),
            ) {
                Err(ErrorKind::Conflict)
            } else {
                Ok(Database { student_courses: self.student_courses.push(x), ..self })
            },
            ReceiverTypeView::Department(x) => if has_key(
                self.departments,
                department_id(),
                x.id,
            ) {
                Err(ErrorKind::Conflict)
            } else {
                Ok(Database { departments: self.departments.push(x), ..self })
            },
        }
    }

    /// The store with these records taken as they are, in order, or the
    /// error of the first that is refused.
    pub open spec fn receive_all(self, records: Seq<ReceiverTypeView>) -> Result<
        Database,
        ErrorKind,
    >
        decreases records.len(),
    {
        if records.len() == 0 {
            Ok(self)
        } else {
            match self.receive(records.first()) {
                Ok(db) => db.receive_all(records.drop_first()),
                Err(e) => Err(e),
            }
        }
    }
}

} // verus!
