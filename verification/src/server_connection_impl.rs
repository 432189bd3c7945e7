//! The session layer: who signed in, and what each role may do to the
//! records.

use chrono::Datelike;
use crate::db_driver::{DbDriver, ReceiverType, ReceiverTypeView, verdict};
use crate::error::ErrorKind;
use crate::filter::{
    Associativity, DepartmentsFilter, Filter, StudentAccountFilter, StudentCoursesFilter,
    UsersFilter,
};
use crate::lemmas::{
    lemma_filter_all, lemma_filter_nonempty, lemma_filter_same, lemma_views_push,
    lemma_views_step, lemma_views_whole, views_of,
};
use crate::model::{
    columns_exist, Database, filters_fit, first_of, has_key, satisfies, unreadable, user_email,
};
use crate::password::{argon2_hash, argon2_verifies, generate_salt, hash, verify};
use crate::statement::Pending;
use crate::table_models::{
    Action, Courses, CoursesView, Departments, DepartmentsView, StudentAccount,
    StudentAccountView, StudentCourse, StudentCourseView, Table, TeacherAccount,
    TeacherAccountView, UNGRADED, User, UserView,
};
use crate::text::{
    contains, decimal, has_prefix, is_substring, lowercase, render_int, same_text, starts_with,
    to_lowercase,
};
use crate::validation::{
    is_institutional_email, is_phone_number, is_strong_password, strong_password, valid_email,
    valid_phone,
};
use vstd::prelude::*;
use vstd::string::*;

verus! {

/// Counts over the store, for the administrators.
#[derive(Debug, Clone, Copy, PartialEq, Eq)]
pub struct Statistics {
    pub registered_users: i32,
    pub suspended_users: i32,
    pub faculty_members: i32,
    pub active_students: i32,
    pub graduated_students: i32,
    pub courses: i32,
    pub departments: i32,
}

/// Who acts: nobody that signed in, or a user in one of the three roles, or
/// a user whose role is none of them.
#[derive(Debug, Clone, Copy, PartialEq, Eq, Structural)]
pub enum Actor {
    Anonymous,
    Admin,
    Teacher,
    Student,
    Other,
}

/// Whether a role, whatever the case of its letters, is the one named.
pub open spec fn has_role(role: Seq<char>, name: Seq<char>) -> bool {
    lowercase(role) == name
}

/// Who acts under a session.
pub open spec fn actor_of(session: Option<UserView>) -> Actor {
    match session {
        None => Actor::Anonymous,
        Some(u) => if has_role(u.role, "admin"@) {
            Actor::Admin
        } else if has_role(u.role, "teacher"@) {
            Actor::Teacher
        } else if has_role(u.role, "student"@) {
            Actor::Student
        } else {
            Actor::Other
        },
    }
}

/// How a command of the session layer ends: the store after it, and what it
/// hands back.
pub struct Outcome {
    pub store: Database,
    pub result: Result<(), ErrorKind>,
}

/// A command that is refused: nothing changes.
pub open spec fn refused(store: Database, e: ErrorKind) -> Outcome {
    Outcome { store, result: Err(e) }
}

/// A command that is handed to the store: the store carries out the list up
/// to the first record that fails.
pub open spec fn attempted(store: Database, a: Action, records: Seq<ReceiverTypeView>) -> Outcome {
    Outcome { store: store.apply_all(a, records).0, result: verdict(store.apply_all(a, records).1) }
}

/// The characters of an optional string.
pub open spec fn text_of(s: Option<String>) -> Option<Seq<char>> {
    match s {
        Some(x) => Some(x@),
        None => None,
    }
}

/// The semester that begins in a month: `Fall` from June to December,
/// `Spring` in the other months.
pub open spec fn semester_of(month: int) -> Seq<char> {
    if 6 <= month <= 12 {
        "Fall"@
    } else {
        "Spring"@
    }
}

/// The enrollment of a student in a course, without a grade yet.
pub open spec fn enrollment_of(
    student: i32,
    course: CoursesView,
    semester: Seq<char>,
) -> StudentCourseView {
    StudentCourseView { student_id: student, course_id: course.id, grade: UNGRADED, semester }
}

/// Whether a user is one that a search for `query` finds: the query occurs
/// in the email or in the decimal text of the key.
pub open spec fn user_mentions(u: UserView, query: Seq<char>) -> bool {
    is_substring(query, u.email) || is_substring(query, decimal(u.id as int))
}

/// Whether a course is one that a search for `query` finds: the query occurs
/// in the decimal text of the key.
pub open spec fn course_mentions(c: CoursesView, query: Seq<char>) -> bool {
    is_substring(query, decimal(c.id as int))
}

/// A count as the statistics hold it: the number itself, or the largest
/// number they can hold where it is beyond that.
pub open spec fn clipped(n: int) -> int {
    if n > i32::MAX {
        i32::MAX as int
    } else {
        n
    }
}

/// The users who are suspended, as a predicate on users.
pub open spec fn under_suspension() -> spec_fn(UserView) -> bool {
    |u: UserView| u.suspended
}

/// The users with exactly this role, as a predicate on users.
pub open spec fn users_in_role(role: Seq<char>) -> spec_fn(UserView) -> bool {
    |u: UserView| u.role == role
}

/// The students who may graduate, as a predicate on their accounts.
pub open spec fn graduating() -> spec_fn(StudentAccountView) -> bool {
    |a: StudentAccountView| a.can_grad
}

/// The users that satisfy one predicate of a query, as a predicate on users.
pub open spec fn users_holding(filter: UsersFilter) -> spec_fn(UserView) -> bool {
    |u: UserView| filter.holds(u)
}

/// The counts over a store.
pub open spec fn statistics_of(store: Database) -> Statistics {
    let suspended = clipped(store.users.filter(under_suspension()).len() as int);
    Statistics {
        registered_users: clipped(store.users.len() as int) as i32,
        suspended_users: suspended as i32,
        faculty_members: clipped(
            store.users.filter(users_in_role("teacher"@)).len() as int,
        ) as i32,
        active_students: (clipped(store.users.filter(users_in_role("student"@)).len() as int)
            - suspended) as i32,
        graduated_students: clipped(
            store.student_accounts.filter(graduating()).len() as int,
        ) as i32,
        courses: clipped(store.courses.len() as int) as i32,
        departments: clipped(store.departments.len() as int) as i32,
    }
}

/// Why a registration is refused before anything is hashed, or `None` where
/// it is not: a session is bound; the email, in lower case, is taken; the
/// name is empty; the email is not one of the institution; a phone number is
/// given and is none; the password is too weak. The first that holds decides.
pub open spec fn registration_refusal(
    session: Option<UserView>,
    store: Database,
    user: UserView,
) -> Option<ErrorKind> {
    if session is Some {
        Some(ErrorKind::Forbidden)
    } else if has_key(store.users, user_email(), lowercase(user.email)) {
        Some(ErrorKind::Conflict)
    } else if user.username.len() == 0 {
        Some(ErrorKind::ValidationFailed)
    } else if !is_institutional_email(user.email) {
        Some(ErrorKind::ValidationFailed)
    } else if user.phone.len() > 0 && !is_phone_number(user.phone) {
        Some(ErrorKind::ValidationFailed)
    } else if !is_strong_password(user.password) {
        Some(ErrorKind::ValidationFailed)
    } else {
        None
    }
}

/// How a registration ends, given the hash of the password: refused as
/// `registration_refusal` says, refused with `ValidationFailed` where there
/// is no hash, else the user is inserted with the hash for a password.
pub open spec fn registered(
    session: Option<UserView>,
    store: Database,
    user: UserView,
    hashed: Option<Seq<char>>,
) -> Outcome {
    match registration_refusal(session, store, user) {
        Some(e) => refused(store, e),
        None => match hashed {
            None => refused(store, ErrorKind::ValidationFailed),
            Some(h) => attempted(
                store,
                Action::Insert,
                seq![ReceiverTypeView::User(UserView { password: h, ..user })],
            ),
        },
    }
}

/// Whether a user may sign in, given the user that the email names and
/// whether the secret verifies against that user's hash.
pub open spec fn login_verdict_of(found: Option<UserView>, password_ok: bool) -> Result<
    (),
    ErrorKind,
> {
    match found {
        None => Err(ErrorKind::NotFound),
        Some(u) => if u.suspended {
            Err(ErrorKind::Suspended)
        } else if u.forcenewpw {
            Err(ErrorKind::MustChangePassword)
        } else if !password_ok {
            Err(ErrorKind::InvalidCredential)
        } else {
            Ok(())
        },
    }
}

/// The users with this email.
pub open spec fn users_named(store: Database, email: String) -> Seq<UserView> {
    store.matching_users(seq![Filter::Users(UsersFilter::Email(email))], Associativity::And)
}

/// The users with this key.
pub open spec fn users_keyed(store: Database, id: i32) -> Seq<UserView> {
    store.matching_users(seq![Filter::Users(UsersFilter::Id(id))], Associativity::And)
}

/// Whether a submitted password leaves the stored one as it is: it is empty,
/// or it is itself a hash.
pub open spec fn keeps_password(submitted: Seq<char>) -> bool {
    submitted.len() == 0 || has_prefix(submitted, "$argon2id"@)
}

/// The row that an update of a user starts from, or why the update is
/// refused: nobody signed in; a user who is no administrator updates
/// another user; no user has the key; a user who is no administrator
/// changes the suspension, the verification or the role.
pub open spec fn update_prior(session: Option<UserView>, store: Database, user: UserView) -> Result<
    UserView,
    ErrorKind,
> {
    match actor_of(session) {
        Actor::Anonymous => Err(ErrorKind::Unauthenticated),
        Actor::Admin => match first_of(users_keyed(store, user.id)) {
            None => Err(ErrorKind::NotFound),
            Some(prior) => Ok(prior),
        },
        _ => if user.id != session->0.id {
            Err(ErrorKind::Forbidden)
        } else {
            match first_of(users_keyed(store, user.id)) {
                None => Err(ErrorKind::NotFound),
                Some(prior) => if user.suspended != prior.suspended || user.verified
                    != prior.verified || user.role != prior.role {
                    Err(ErrorKind::Forbidden)
                } else {
                    Ok(prior)
                },
            }
        },
    }
}

/// How an update of a user ends, given the hash of the submitted password:
/// refused as `update_prior` says; else the user is updated, with the stored
/// password where the submitted one keeps it, and with the hash otherwise,
/// and refused with `ValidationFailed` where there is no hash.
pub open spec fn user_updated(
    session: Option<UserView>,
    store: Database,
    user: UserView,
    hashed: Option<Seq<char>>,
) -> Outcome {
    match update_prior(session, store, user) {
        Err(e) => refused(store, e),
        Ok(prior) => if keeps_password(user.password) {
            attempted(
                store,
                Action::Update,
                seq![ReceiverTypeView::User(UserView { password: prior.password, ..user })],
            )
        } else {
            match hashed {
                None => refused(store, ErrorKind::ValidationFailed),
                Some(h) => attempted(
                    store,
                    Action::Update,
                    seq![ReceiverTypeView::User(UserView { password: h, ..user })],
                ),
            }
        },
    }
}

/// How the deletion of a user ends: an administrator deletes any user but
/// the administrator's own; every other user deletes only the user's own.
pub open spec fn user_deleted(
    session: Option<UserView>,
    store: Database,
    user: UserView,
) -> Outcome {
    match actor_of(session) {
        Actor::Anonymous => refused(store, ErrorKind::Unauthenticated),
        Actor::Admin => if user.id != session->0.id {
            attempted(store, Action::Delete, seq![ReceiverTypeView::User(user)])
        } else {
            refused(store, ErrorKind::Forbidden)
        },
        _ => if user.id == session->0.id {
            attempted(store, Action::Delete, seq![ReceiverTypeView::User(user)])
        } else {
            refused(store, ErrorKind::Forbidden)
        },
    }
}

/// The courses, each tagged as a course.
pub open spec fn as_course_records(courses: Seq<CoursesView>) -> Seq<ReceiverTypeView> {
    courses.map_values(|c: CoursesView| ReceiverTypeView::Course(c))
}

/// Every course is given by this teacher.
pub open spec fn all_given_by(courses: Seq<CoursesView>, teacher: i32) -> bool {
    forall|i: int| 0 <= i < courses.len() ==> (#[trigger] courses[i]).teacher_id == teacher
}

/// No course that the store holds under the key of one of these courses is
/// given by another teacher.
pub open spec fn none_of_another(
    stored: Seq<CoursesView>,
    courses: Seq<CoursesView>,
    teacher: i32,
) -> bool {
    forall|i: int, j: int|
        0 <= i < courses.len() && 0 <= j < stored.len() && (#[trigger] stored[j]).id
            == (#[trigger] courses[i]).id ==> stored[j].teacher_id == teacher
}

/// Whether a teacher may give a command on these courses: each must name
/// the teacher as the one who gives it, and a course that is updated or
/// deleted must be the teacher's own in the store too, whatever the command
/// says of it.
pub open spec fn teacher_may_write(
    store: Database,
    a: Action,
    courses: Seq<CoursesView>,
    teacher: i32,
) -> bool {
    all_given_by(courses, teacher) && (a == Action::Insert || none_of_another(
        store.courses,
        courses,
        teacher,
    ))
}

/// How a command on courses ends: an administrator's is handed to the
/// store; a teacher's too where the teacher may write every one of the
/// courses, and else none of it is; nobody else may.
pub open spec fn courses_written(
    session: Option<UserView>,
    store: Database,
    a: Action,
    courses: Seq<CoursesView>,
) -> Outcome {
    match actor_of(session) {
        Actor::Anonymous => refused(store, ErrorKind::Unauthenticated),
        Actor::Admin => attempted(store, a, as_course_records(courses)),
        Actor::Teacher => if teacher_may_write(store, a, courses, session->0.id) {
            attempted(store, a, as_course_records(courses))
        } else {
            refused(store, ErrorKind::Forbidden)
        },
        _ => refused(store, ErrorKind::Forbidden),
    }
}

/// A teacher's update or deletion that touches a course which the store
/// holds as another teacher's is refused with `Forbidden`, whatever the
/// command says of the course, and changes nothing.
pub proof fn lemma_anothers_course_is_safe(
    session: Option<UserView>,
    store: Database,
    a: Action,
    courses: Seq<CoursesView>,
    i: int,
    j: int,
)
    requires
        actor_of(session) == Actor::Teacher,
        a != Action::Insert,
        0 <= i < courses.len(),
        0 <= j < store.courses.len(),
        store.courses[j].id == courses[i].id,
        store.courses[j].teacher_id != session->0.id,
    ensures
        courses_written(session, store, a, courses) == refused(store, ErrorKind::Forbidden),
{
}

/// How a command that only administrators may give ends.
pub open spec fn admin_written(
    session: Option<UserView>,
    store: Database,
    a: Action,
    record: ReceiverTypeView,
) -> Outcome {
    match actor_of(session) {
        Actor::Anonymous => refused(store, ErrorKind::Unauthenticated),
        Actor::Admin => attempted(store, a, seq![record]),
        _ => refused(store, ErrorKind::Forbidden),
    }
}

/// The enrollments of one student in these courses, each tagged as an
/// enrollment.
pub open spec fn enrollments_in(
    student: i32,
    courses: Seq<CoursesView>,
    semester: Seq<char>,
) -> Seq<ReceiverTypeView> {
    courses.map_values(
        |c: CoursesView| ReceiverTypeView::StudentCourse(enrollment_of(student, c, semester)),
    )
}

/// How an enrollment or a withdrawal ends: only a student may, and only for
/// the student's own key, which comes from the session.
pub open spec fn enrollments_written(
    session: Option<UserView>,
    store: Database,
    a: Action,
    courses: Seq<CoursesView>,
    semester: Seq<char>,
) -> Outcome {
    match actor_of(session) {
        Actor::Anonymous => refused(store, ErrorKind::Unauthenticated),
        Actor::Student => attempted(store, a, enrollments_in(session->0.id, courses, semester)),
        _ => refused(store, ErrorKind::Forbidden),
    }
}

/// The month of the local date, by `chrono::Local::now()` and
/// `Datelike::month`: a number from 1 to 12, as the documentation of `month`
/// says. Which one depends on the clock and the time zone of the machine; a
/// clock that is set before 1970 is not provided for.
#[verifier::external_body]
fn current_month() -> (month: u32)
    ensures
        1 <= month <= 12,
{
    chrono::Local::now().month()
}

/// The semester that begins in a month.
pub fn semester_for(month: u32) -> (r: String)
    ensures
        r@ == semester_of(month as int),
{
    if 6 <= month && month <= 12 {
        String::from_str("Fall")
    } else {
        String::from_str("Spring")
    }
}

/// Whether a role, whatever the case of its letters, is the one named.
fn role_is(role: &String, name: &str) -> (r: bool)
    ensures
        r == has_role(role@, name@),
{
    let lower = to_lowercase(role.as_str());
    same_text(lower.as_str(), name)
}

/// Whether a user may sign in, given the user that the email names and
/// whether the secret verifies against that user's hash.
pub fn login_verdict(found: Option<&User>, password_ok: bool) -> (r: Result<(), ErrorKind>)
    ensures
        r == login_verdict_of(
            match found {
                Some(u) => Some(u@),
                None => None,
            },
            password_ok,
        ),
{
    match found {
        None => Err(ErrorKind::NotFound),
        Some(u) => {
            if u.suspended {
                Err(ErrorKind::Suspended)
            } else if u.forcenewpw {
                Err(ErrorKind::MustChangePassword)
            } else if !password_ok {
                Err(ErrorKind::InvalidCredential)
            } else {
                Ok(())
            }
        },
    }
}

/// A count as the statistics hold it.
fn clip(n: usize) -> (r: i32)
    ensures
        r == clipped(n as int),
{
    if n > 0x7fff_ffff {
        0x7fff_ffff
    } else {
        n as i32
    }
}

/// One interaction with the store: the store and, once somebody has signed
/// in, the user who did.
pub struct ServerConnection {
    db: DbDriver,
    session: Option<User>,
}

impl ServerConnection {
    /// The records of the store.
    pub closed spec fn store(&self) -> Database {
        self.db@
    }

    /// The user who signed in, where somebody did.
    pub closed spec fn session(&self) -> Option<UserView> {
        match self.session {
            Some(u) => Some(u@),
            None => None,
        }
    }

    /// Whether a command ended as `outcome` says, with the session as it
    /// was and the uniqueness rules of the store kept.
    pub open spec fn ends_as(
        &self,
        before: &ServerConnection,
        r: Result<(), ErrorKind>,
        outcome: Outcome,
    ) -> bool {
        &&& self.store() == outcome.store
        &&& r == outcome.result
        &&& self.session() == before.session()
        &&& before.store().wf() ==> self.store().wf()
    }

    /// A connection to an empty store, with nobody signed in.
    pub fn new() -> (r: Self)
        ensures
            r.store() == Database::empty(),
            r.session() is None,
    {
        ServerConnection { db: DbDriver::init(), session: None }
    }

    /// A connection to this store, with nobody signed in.
    pub fn over(db: DbDriver) -> (r: Self)
        ensures
            r.store() == db@,
            r.session() is None,
    {
        ServerConnection { db, session: None }
    }

    /// Who acts.
    pub fn actor(&self) -> (r: Actor)
        ensures
            r == actor_of(self.session()),
    {
        match &self.session {
            None => Actor::Anonymous,
            Some(u) => {
                if role_is(&u.role, "admin") {
                    Actor::Admin
                } else if role_is(&u.role, "teacher") {
                    Actor::Teacher
                } else if role_is(&u.role, "student") {
                    Actor::Student
                } else {
                    Actor::Other
                }
            },
        }
    }

    /// The key of the user who signed in, or 0 where nobody did.
    fn session_id(&self) -> (r: i32)
        ensures
            self.session() matches Some(u) ==> r == u.id,
    {
        match &self.session {
            Some(u) => u.id,
            None => 0,
        }
    }

    /// Whether the user who signed in is a student.
    pub fn is_student(&self) -> (r: bool)
        ensures
            r == (self.session() matches Some(u) && has_role(u.role, "student"@)),
    {
        match &self.session {
            Some(u) => role_is(&u.role, "student"),
            None => false,
        }
    }

    /// Whether the user who signed in is a teacher.
    pub fn is_teacher(&self) -> (r: bool)
        ensures
            r == (self.session() matches Some(u) && has_role(u.role, "teacher"@)),
    {
        match &self.session {
            Some(u) => role_is(&u.role, "teacher"),
            None => false,
        }
    }

    /// Whether the user who signed in is an administrator.
    pub fn is_admin(&self) -> (r: bool)
        ensures
            r == (self.session() matches Some(u) && has_role(u.role, "admin"@)),
    {
        match &self.session {
            Some(u) => role_is(&u.role, "admin"),
            None => false,
        }
    }

    /// The writes that the backing store has yet to carry out, oldest
    /// first. The journal is empty afterwards.
    pub fn take_statements(&mut self) -> (r: Vec<Pending>)
        ensures
            views_of(r@) == old(self).store().journal,
            final(self).store() == (Database { journal: Seq::empty(), ..old(self).store() }),
            final(self).session() == old(self).session(),
    {
        self.db.take_statements()
    }

    /// Every user.
    pub fn get_users(&self) -> (r: Result<Vec<User>, ErrorKind>)
        ensures
            r matches Ok(users) && views_of(users@) == self.store().users,
    {
        let filters: Vec<Filter> = Vec::new();
        proof {
            lemma_filter_all(
                self.db@.users,
                |x: UserView|
                    satisfies(
                        ReceiverTypeView::User(x),
                        filters@,
                        Associativity::And,
                    ),
            );
        }
        self.db.find_users(filters, None)
    }

    /// The users that satisfy all of the predicates.
    pub fn get_users_by_filters(&self, filters: Vec<Filter>) -> (r: Result<Vec<User>, ErrorKind>)
        ensures
            match r {
                Ok(found) => {
                    &&& filters_fit(Table::Users, filters@)
                    &&& columns_exist(filters@)
                    &&& views_of(found@) == self.store().matching_users(
                        filters@,
                        Associativity::And,
                    )
                },
                Err(e) => if filters_fit(
                    Table::Users,
                    filters@,
                ) {
                    e == unreadable(Table::Users) && !columns_exist(filters@)
                } else {
                    e == ErrorKind::InvalidFilter
                },
            },
    {
        self.db.find_users(filters, None)
    }
}

/// The users that a search for `query` finds, as a predicate on users.
pub open spec fn users_mentioning(query: Seq<char>) -> spec_fn(UserView) -> bool {
    |u: UserView| user_mentions(u, query)
}

/// The courses that a search for `query` finds, as a predicate on courses.
pub open spec fn courses_mentioning(query: Seq<char>) -> spec_fn(CoursesView) -> bool {
    |c: CoursesView| course_mentions(c, query)
}

/// The departments with this key.
pub open spec fn departments_keyed(store: Database, id: i32) -> Seq<DepartmentsView> {
    store.matching_departments(
        seq![Filter::Departments(DepartmentsFilter::Id(id))],
        Associativity::And,
    )
}

/// The enrollments of this student.
pub open spec fn enrollments_of_student(store: Database, student: i32) -> Seq<StudentCourseView> {
    store.matching_student_courses(
        seq![Filter::StudentCourses(StudentCoursesFilter::StudentId(student))],
        Associativity::And,
    )
}

/// The accounts of this student.
pub open spec fn accounts_of_student(store: Database, student: i32) -> Seq<StudentAccountView> {
    store.matching_student_accounts(
        seq![Filter::StudentAccount(StudentAccountFilter::StudentId(student))],
        Associativity::And,
    )
}

/// Whether every course is given by this teacher.
fn given_by(courses: &Vec<Courses>, teacher: i32) -> (r: bool)
    ensures
        r == all_given_by(views_of(courses@), teacher),
{
    let mut i: usize = 0;
    while i < courses.len()
        invariant
            i <= courses.len(),
            forall|j: int| 0 <= j < i ==> (#[trigger] views_of(courses@)[j]).teacher_id == teacher,
        decreases courses.len() - i,
    {
        if courses[i].teacher_id != teacher {
            assert(views_of(courses@)[i as int].teacher_id != teacher);
            return false;
        }
        i += 1;
    }
    true
}

/// Whether no course among `stored` with the key of `course` is given by
/// another teacher.
fn stored_is_own(stored: &Vec<Courses>, course: &Courses, teacher: i32) -> (r: bool)
    ensures
        r == (forall|j: int|
            0 <= j < stored@.len() && (#[trigger] views_of(stored@)[j]).id == course@.id
                ==> views_of(stored@)[j].teacher_id == teacher),
{
    let mut j: usize = 0;
    while j < stored.len()
        invariant
            j <= stored.len(),
            forall|k: int|
                0 <= k < j && (#[trigger] views_of(stored@)[k]).id == course@.id ==> views_of(
                    stored@,
                )[k].teacher_id == teacher,
        decreases stored.len() - j,
    {
        if stored[j].id == course.id && stored[j].teacher_id != teacher {
            assert(views_of(stored@)[j as int].id == course@.id);
            return false;
        }
        j += 1;
    }
    true
}

/// Whether no course among `stored` with the key of one of these courses is
/// given by another teacher.
fn all_stored_own(stored: &Vec<Courses>, courses: &Vec<Courses>, teacher: i32) -> (r: bool)
    ensures
        r == none_of_another(views_of(stored@), views_of(courses@), teacher),
{
    let mut i: usize = 0;
    assert(views_of(stored@).len() == stored@.len());
    while i < courses.len()
        invariant
            i <= courses.len(),
            views_of(stored@).len() == stored@.len(),
            forall|k: int, j: int|
                0 <= k < i && 0 <= j < stored@.len() && (#[trigger] views_of(stored@)[j]).id == (
                #[trigger] views_of(courses@)[k]).id ==> views_of(stored@)[j].teacher_id
                    == teacher,
        decreases courses.len() - i,
    {
        assert(views_of(courses@)[i as int] == courses@[i as int]@);
        if !stored_is_own(stored, &courses[i], teacher) {
            return false;
        }
        i += 1;
    }
    true
}

/// The courses, each tagged as a course.
fn course_records(courses: &Vec<Courses>) -> (out: Vec<ReceiverType>)
    ensures
        views_of(out@) == as_course_records(views_of(courses@)),
{
    let mut out: Vec<ReceiverType> = Vec::new();
    let mut i: usize = 0;
    while i < courses.len()
        invariant
            i <= courses.len(),
            out@.len() == i,
            forall|j: int|
                0 <= j < i ==> (#[trigger] out@[j])@ == ReceiverTypeView::Course(courses@[j]@),
        decreases courses.len() - i,
    {
        out.push(ReceiverType::Course(courses[i].clone()));
        i += 1;
    }
    assert(views_of(out@) =~= as_course_records(views_of(courses@)));
    out
}

/// The enrollments of one student in these courses, without grades.
fn enrollment_records(student: i32, courses: &Vec<Courses>, semester: &String) -> (out: Vec<
    ReceiverType,
>)
    ensures
        views_of(out@) == enrollments_in(student, views_of(courses@), semester@),
{
    let mut out: Vec<ReceiverType> = Vec::new();
    let mut i: usize = 0;
    while i < courses.len()
        invariant
            i <= courses.len(),
            out@.len() == i,
            forall|j: int|
                0 <= j < i ==> (#[trigger] out@[j])@ == ReceiverTypeView::StudentCourse(
                    enrollment_of(student, courses@[j]@, semester@),
                ),
        decreases courses.len() - i,
    {
        out.push(
            ReceiverType::StudentCourse(
                StudentCourse {
                    student_id: student,
                    course_id: courses[i].id,
                    grade: UNGRADED,
                    semester: semester.clone(),
                },
            ),
        );
        i += 1;
    }
    assert(views_of(out@) =~= enrollments_in(student, views_of(courses@), semester@));
    out
}

impl ServerConnection {
    /// Why a registration is refused before anything is hashed, or `None`
    /// where it is not.
    pub fn check_registration(&self, user: &User) -> (r: Option<ErrorKind>)
        ensures
            r == registration_refusal(self.session(), self.store(), user@),
    {
        if self.session.is_some() {
            return Some(ErrorKind::Forbidden);
        }
        let lower = to_lowercase(user.email.as_str());
        let ghost wanted = lower@;
        let mut filters: Vec<Filter> = Vec::new();
        filters.push(Filter::Users(UsersFilter::Email(lower)));
        let ghost asked = filters@;
        proof {
            lemma_filter_nonempty(
                self.db@.users,
                |x: UserView|
                    satisfies(ReceiverTypeView::User(x), asked, Associativity::And),
            );
            assert(asked[0].table_of() == Table::Users);
            assert(asked[0].column_exists());
            assert forall|x: UserView|
                satisfies(
                    ReceiverTypeView::User(x),
                    asked,
                    Associativity::And,
                ) == (x.email == wanted) by {
                assert(asked[0].holds(ReceiverTypeView::User(x)) == (x.email == wanted));
            }
            if has_key(self.db@.users, user_email(), wanted) {
                let i = choose|i: int|
                    0 <= i < self.db@.users.len() && user_email()(#[trigger] self.db@.users[i])
                        == wanted;
                assert(satisfies(
                    ReceiverTypeView::User(self.db@.users[i]),
                    asked,
                    Associativity::And,
                ));
            }
        }
        match self.db.find_users(filters, None) {
            Ok(found) => {
                if found.len() > 0 {
                    proof {
                        let i = choose|i: int|
                            0 <= i < self.db@.users.len() && satisfies(
                                ReceiverTypeView::User(#[trigger] self.db@.users[i]),
                                asked,
                                Associativity::And,
                            );
                        assert(user_email()(self.db@.users[i]) == wanted);
                    }
                    return Some(ErrorKind::Conflict);
                }
            },
            Err(e) => {
                return Some(e);
            },
        }
        if user.username.as_str().is_empty() {
            return Some(ErrorKind::ValidationFailed);
        }
        if !valid_email(user.email.as_str()) {
            return Some(ErrorKind::ValidationFailed);
        }
        if !user.phone.as_str().is_empty() && !valid_phone(user.phone.as_str()) {
            return Some(ErrorKind::ValidationFailed);
        }
        if !strong_password(user.password.as_str()) {
            return Some(ErrorKind::ValidationFailed);
        }
        None
    }

    /// Inserts a user whose registration was not refused, with the hash for
    /// a password.
    fn enter(&mut self, user: User, hashed: Option<String>) -> (r: Result<(), ErrorKind>)
        requires
            registration_refusal(old(self).session(), old(self).store(), user@) is None,
        ensures
            final(self).ends_as(
                old(self),
                r,
                registered(old(self).session(), old(self).store(), user@, text_of(hashed)),
            ),
    {
        match hashed {
            None => Err(ErrorKind::ValidationFailed),
            Some(h) => {
                let mut row = user;
                row.password = h;
                let mut data: Vec<ReceiverType> = Vec::new();
                data.push(ReceiverType::User(row));
                assert(views_of(data@) =~= seq![
                    ReceiverTypeView::User(UserView { password: h@, ..user@ }),
                ]);
                self.db.insert(data)
            },
        }
    }

    /// Registers a user, given the hash of the user's password. Nobody may
    /// be signed in; the email, in lower case, must be free; the name may
    /// not be empty; the email must be one of the institution; a phone
    /// number, where one is given, must be one; the password must be strong.
    /// The user is stored with the hash in the place of the password.
    pub fn finish_registration(&mut self, user: User, hashed: Option<String>) -> (r: Result<
        (),
        ErrorKind,
    >)
        ensures
            final(self).ends_as(
                old(self),
                r,
                registered(old(self).session(), old(self).store(), user@, text_of(hashed)),
            ),
    {
        match self.check_registration(&user) {
            Some(e) => Err(e),
            None => self.enter(user, hashed),
        }
    }

    /// Registers a user: as `finish_registration`, with the hash of the
    /// password under a fresh random salt.
    pub fn register_user(&mut self, user: User) -> (r: Result<(), ErrorKind>)
        ensures
            exists|salt: Seq<char>|
                final(self).ends_as(
                    old(self),
                    r,
                    registered(
                        old(self).session(),
                        old(self).store(),
                        user@,
                        #[trigger] argon2_hash(user@.password, salt),
                    ),
                ),
    {
        match self.check_registration(&user) {
            Some(e) => {
                assert(final(self).ends_as(
                    old(self),
                    Err(e),
                    registered(
                        old(self).session(),
                        old(self).store(),
                        user@,
                        argon2_hash(user@.password, Seq::empty()),
                    ),
                ));
                Err(e)
            },
            None => {
                let salt = generate_salt();
                let hashed = hash(user.password.as_str(), salt.as_str());
                assert(text_of(hashed) == argon2_hash(user@.password, salt@));
                self.enter(user, hashed)
            },
        }
    }

    /// Signs a user in. The user is the one with this email; the secret must
    /// verify against the stored hash. On success the session is that user.
    pub fn login(&mut self, email: String, password: String) -> (r: Result<(), ErrorKind>)
        ensures
            final(self).store() == old(self).store(),
            match login_verdict_of(
                first_of(users_named(old(self).store(), email)),
                first_of(users_named(old(self).store(), email)) matches Some(u)
                    && argon2_verifies(u.password, password@),
            ) {
                Ok(()) => r is Ok && final(self).session() == first_of(
                    users_named(old(self).store(), email),
                ),
                Err(
                    e
                ) => r == Err::<(), ErrorKind>(e) && final(self).session() == old(self).session(),
            },
    {
        let mut filters: Vec<Filter> = Vec::new();
        filters.push(Filter::Users(UsersFilter::Email(email)));
        assert(filters@ =~= seq![Filter::Users(UsersFilter::Email(email))]);
        assert(filters@[0].table_of() == Table::Users);
        assert(filters@[0].column_exists());
        let found = match self.db.find_users(filters, None) {
            Ok(found) => found,
            Err(e) => {
                return Err(e);
            },
        };
        if found.len() == 0 {
            return Err(ErrorKind::NotFound);
        }
        assert(views_of(found@)[0] == found@[0]@);
        let user = &found[0];
        let password_ok = if user.suspended || user.forcenewpw {
            false
        } else {
            verify(user.password.as_str(), password.as_str())
        };
        match login_verdict(Some(user), password_ok) {
            Ok(()) => {
                self.session = Some(user.clone());
                Ok(())
            },
            Err(e) => Err(e),
        }
    }

    /// The row that an update of a user starts from, or why the update is
    /// refused.
    fn prior_for_update(&self, user: &User) -> (r: Result<User, ErrorKind>)
        ensures
            match update_prior(self.session(), self.store(), user@) {
                Ok(prior) => r matches Ok(x) && x@ == prior,
                Err(e) => r matches Err(x) && x == e,
            },
    {
        let actor = self.actor();
        if actor == Actor::Anonymous {
            return Err(ErrorKind::Unauthenticated);
        }
        if actor != Actor::Admin && user.id != self.session_id() {
            return Err(ErrorKind::Forbidden);
        }
        let mut filters: Vec<Filter> = Vec::new();
        filters.push(Filter::Users(UsersFilter::Id(user.id)));
        assert(filters@ =~= seq![Filter::Users(UsersFilter::Id(user.id))]);
        assert(filters@[0].table_of() == Table::Users);
        assert(filters@[0].column_exists());
        let found = match self.db.find_users(filters, None) {
            Ok(found) => found,
            Err(e) => {
                return Err(e);
            },
        };
        if found.len() == 0 {
            return Err(ErrorKind::NotFound);
        }
        assert(views_of(found@)[0] == found@[0]@);
        let prior = &found[0];
        if actor != Actor::Admin {
            if user.suspended != prior.suspended || user.verified != prior.verified
                || user.role != prior.role {
                return Err(ErrorKind::Forbidden);
            }
        }
        Ok(prior.clone())
    }

    /// Hands the update of one user to the store, with this password.
    fn write_user(&mut self, user: User, password: String) -> (r: Result<(), ErrorKind>)
        ensures
            final(self).ends_as(
                old(self),
                r,
                attempted(
                    old(self).store(),
                    Action::Update,
                    seq![ReceiverTypeView::User(UserView { password: password@, ..user@ })],
                ),
            ),
    {
        let mut row = user;
        row.password = password;
        let mut data: Vec<ReceiverType> = Vec::new();
        data.push(ReceiverType::User(row));
        assert(views_of(data@) =~= seq![
            ReceiverTypeView::User(UserView { password: password@, ..user@ }),
        ]);
        self.db.update(data)
    }

    /// Whether a submitted password leaves the stored one as it is.
    pub fn leaves_password(submitted: &str) -> (r: bool)
        ensures
            r == keeps_password(submitted@),
    {
        submitted.is_empty() || starts_with(submitted, "$argon2id")
    }

    /// Updates a user, given the hash of the submitted password. An
    /// administrator may update any user. Every other user may update only
    /// the user's own row, and may change neither the suspension nor the
    /// verification nor the role. A submitted password that is empty, or
    /// that is itself a hash, leaves the stored one as it is.
    pub fn finish_user_update(&mut self, user: User, hashed: Option<String>) -> (r: Result<
        (),
        ErrorKind,
    >)
        ensures
            final(self).ends_as(
                old(self),
                r,
                user_updated(old(self).session(), old(self).store(), user@, text_of(hashed)),
            ),
    {
        let prior = match self.prior_for_update(&user) {
            Ok(prior) => prior,
            Err(e) => {
                return Err(e);
            },
        };
        if Self::leaves_password(user.password.as_str()) {
            self.write_user(user, prior.password)
        } else {
            match hashed {
                None => Err(ErrorKind::ValidationFailed),
                Some(h) => self.write_user(user, h),
            }
        }
    }

    /// Updates a user: as `finish_user_update`, with the hash of the
    /// submitted password under a fresh random salt.
    pub fn update_user(&mut self, user: User) -> (r: Result<(), ErrorKind>)
        ensures
            exists|salt: Seq<char>|
                final(self).ends_as(
                    old(self),
                    r,
                    user_updated(
                        old(self).session(),
                        old(self).store(),
                        user@,
                        #[trigger] argon2_hash(user@.password, salt),
                    ),
                ),
    {
        let ghost none = argon2_hash(user@.password, Seq::empty());
        let prior = match self.prior_for_update(&user) {
            Ok(prior) => prior,
            Err(e) => {
                assert(final(self).ends_as(
                    old(self),
                    Err(e),
                    user_updated(old(self).session(), old(self).store(), user@, none),
                ));
                return Err(e);
            },
        };
        if Self::leaves_password(user.password.as_str()) {
            let r = self.write_user(user, prior.password);
            assert(final(self).ends_as(
                old(self),
                r,
                user_updated(old(self).session(), old(self).store(), user@, none),
            ));
            r
        } else {
            let salt = generate_salt();
            let hashed = hash(user.password.as_str(), salt.as_str());
            assert(text_of(hashed) == argon2_hash(user@.password, salt@));
            match hashed {
                None => Err(ErrorKind::ValidationFailed),
                Some(h) => self.write_user(user, h),
            }
        }
    }

    /// Deletes a user. An administrator may delete any user but the
    /// administrator's own; every other user may delete only the user's own.
    /// The user's accounts go along.
    pub fn delete_user(&mut self, user: User) -> (r: Result<(), ErrorKind>)
        ensures
            final(self).ends_as(
                old(self),
                r,
                user_deleted(old(self).session(), old(self).store(), user@),
            ),
    {
        let actor = self.actor();
        if actor == Actor::Anonymous {
            return Err(ErrorKind::Unauthenticated);
        }
        let own = user.id == self.session_id();
        if (actor == Actor::Admin && own) || (actor != Actor::Admin && !own) {
            return Err(ErrorKind::Forbidden);
        }
        let mut data: Vec<ReceiverType> = Vec::new();
        data.push(ReceiverType::User(user));
        assert(views_of(data@) =~= seq![ReceiverTypeView::User(user@)]);
        self.db.delete(data)
    }

    /// Hands a command on courses to the store, where the session may give
    /// it.
    fn write_courses(&mut self, a: Action, courses: &Vec<Courses>) -> (r: Result<(), ErrorKind>)
        ensures
            final(self).ends_as(
                old(self),
                r,
                courses_written(old(self).session(), old(self).store(), a, views_of(courses@)),
            ),
    {
        let actor = self.actor();
        match actor {
            Actor::Anonymous => {
                return Err(ErrorKind::Unauthenticated);
            },
            Actor::Admin => {},
            Actor::Teacher => {
                if !given_by(courses, self.session_id()) {
                    return Err(ErrorKind::Forbidden);
                }
                if a != Action::Insert {
                    let every: Vec<Filter> = Vec::new();
                    proof {
                        lemma_filter_all(
                            self.db@.courses,
                            |x: CoursesView|
                                satisfies(
                                    ReceiverTypeView::Course(x),
                                    every@,
                                    Associativity::And,
                                ),
                        );
                    }
                    let stored = match self.db.find_courses(every, None) {
                        Ok(stored) => stored,
                        Err(e) => {
                            return Err(e);
                        },
                    };
                    if !all_stored_own(&stored, courses, self.session_id()) {
                        return Err(ErrorKind::Forbidden);
                    }
                }
            },
            _ => {
                return Err(ErrorKind::Forbidden);
            },
        }
        let data = course_records(courses);
        match a {
            Action::Insert => self.db.insert(data),
            Action::Update => self.db.update(data),
            Action::Delete => self.db.delete(data),
        }
    }

    /// Creates courses. An administrator may create any; a teacher only
    /// courses that name the teacher as the one who gives them, and where
    /// one of them names another, none is created.
    pub fn register_courses(&mut self, courses: Vec<Courses>) -> (r: Result<(), ErrorKind>)
        ensures
            final(self).ends_as(
                old(self),
                r,
                courses_written(
                    old(self).session(),
                    old(self).store(),
                    Action::Insert,
                    views_of(courses@),
                ),
            ),
    {
        self.write_courses(Action::Insert, &courses)
    }

    /// Deletes courses. An administrator may delete any; a teacher only
    /// courses of the teacher's own, both in the store and as the command
    /// names them, and where one of them is another teacher's, none is
    /// deleted.
    pub fn remove_courses(&mut self, courses: Vec<Courses>) -> (r: Result<(), ErrorKind>)
        ensures
            final(self).ends_as(
                old(self),
                r,
                courses_written(
                    old(self).session(),
                    old(self).store(),
                    Action::Delete,
                    views_of(courses@),
                ),
            ),
    {
        self.write_courses(Action::Delete, &courses)
    }

    /// Updates courses. An administrator may update any; a teacher only
    /// courses of the teacher's own, both in the store and as the command
    /// names them, and where one of them is another teacher's, none is
    /// updated.
    pub fn update_courses(&mut self, courses: Vec<Courses>) -> (r: Result<(), ErrorKind>)
        ensures
            final(self).ends_as(
                old(self),
                r,
                courses_written(
                    old(self).session(),
                    old(self).store(),
                    Action::Update,
                    views_of(courses@),
                ),
            ),
    {
        self.write_courses(Action::Update, &courses)
    }

    /// Hands one command to the store, where an administrator gives it.
    fn write_as_admin(&mut self, a: Action, record: ReceiverType) -> (r: Result<(), ErrorKind>)
        ensures
            final(self).ends_as(
                old(self),
                r,
                admin_written(old(self).session(), old(self).store(), a, record@),
            ),
    {
        match self.actor() {
            Actor::Anonymous => Err(ErrorKind::Unauthenticated),
            Actor::Admin => {
                let mut data: Vec<ReceiverType> = Vec::new();
                data.push(record);
                assert(views_of(data@) =~= seq![record@]);
                match a {
                    Action::Insert => self.db.insert(data),
                    Action::Update => self.db.update(data),
                    Action::Delete => self.db.delete(data),
                }
            },
            _ => Err(ErrorKind::Forbidden),
        }
    }

    /// Creates a department with this name. Only an administrator may.
    pub fn new_department(&mut self, department: &str) -> (r: Result<(), ErrorKind>)
        ensures
            final(self).ends_as(
                old(self),
                r,
                admin_written(
                    old(self).session(),
                    old(self).store(),
                    Action::Insert,
                    ReceiverTypeView::Department(DepartmentsView { id: 0, name: department@ }),
                ),
            ),
    {
        let row = Departments { id: 0, name: String::from_str(department) };
        self.write_as_admin(Action::Insert, ReceiverType::Department(row))
    }

    /// Deletes a department. Only an administrator may.
    pub fn remove_department(&mut self, department: Departments) -> (r: Result<(), ErrorKind>)
        ensures
            final(self).ends_as(
                old(self),
                r,
                admin_written(
                    old(self).session(),
                    old(self).store(),
                    Action::Delete,
                    ReceiverTypeView::Department(department@),
                ),
            ),
    {
        self.write_as_admin(Action::Delete, ReceiverType::Department(department))
    }

    /// Updates a teacher's account, which holds the department. Only an
    /// administrator may.
    pub fn update_teacher_account(&mut self, teacher_account: TeacherAccount) -> (r: Result<
        (),
        ErrorKind,
    >)
        ensures
            final(self).ends_as(
                old(self),
                r,
                admin_written(
                    old(self).session(),
                    old(self).store(),
                    Action::Update,
                    ReceiverTypeView::TeacherAccount(teacher_account@),
                ),
            ),
    {
        self.write_as_admin(Action::Update, ReceiverType::TeacherAccount(teacher_account))
    }

    /// Hands enrollments of the student who signed in to the store.
    fn write_enrollments(&mut self, a: Action, courses: &Vec<Courses>, semester: &String) -> (r:
        Result<(), ErrorKind>)
        ensures
            final(self).ends_as(
                old(self),
                r,
                enrollments_written(
                    old(self).session(),
                    old(self).store(),
                    a,
                    views_of(courses@),
                    semester@,
                ),
            ),
    {
        match self.actor() {
            Actor::Anonymous => Err(ErrorKind::Unauthenticated),
            Actor::Student => {
                let data = enrollment_records(self.session_id(), courses, semester);
                match a {
                    Action::Insert => self.db.insert(data),
                    Action::Update => self.db.update(data),
                    Action::Delete => self.db.delete(data),
                }
            },
            _ => Err(ErrorKind::Forbidden),
        }
    }

    /// Enrolls the student who signed in in these courses, in the semester
    /// that begins in this month. The student is the one of the session,
    /// whatever the caller holds; the enrollments have no grade yet.
    pub fn enroll_courses_in(&mut self, courses: Vec<Courses>, month: u32) -> (r: Result<
        (),
        ErrorKind,
    >)
        ensures
            final(self).ends_as(
                old(self),
                r,
                enrollments_written(
                    old(self).session(),
                    old(self).store(),
                    Action::Insert,
                    views_of(courses@),
                    semester_of(month as int),
                ),
            ),
    {
        let semester = semester_for(month);
        self.write_enrollments(Action::Insert, &courses, &semester)
    }

    /// Enrolls the student who signed in in these courses: as
    /// `enroll_courses_in`, with the month of today's local date.
    pub fn enroll_courses(&mut self, courses: Vec<Courses>) -> (r: Result<(), ErrorKind>)
        ensures
            exists|month: int|
                1 <= month <= 12 && final(self).ends_as(
                    old(self),
                    r,
                    enrollments_written(
                        old(self).session(),
                        old(self).store(),
                        Action::Insert,
                        views_of(courses@),
                        #[trigger] semester_of(month),
                    ),
                ),
    {
        let month = current_month();
        let r = self.enroll_courses_in(courses, month);
        assert(final(self).ends_as(
            old(self),
            r,
            enrollments_written(
                old(self).session(),
                old(self).store(),
                Action::Insert,
                views_of(courses@),
                semester_of(month as int),
            ),
        ));
        r
    }

    /// Withdraws the student who signed in from these courses.
    pub fn drop_courses(&mut self, courses: Vec<Courses>) -> (r: Result<(), ErrorKind>)
        ensures
            final(self).ends_as(
                old(self),
                r,
                enrollments_written(
                    old(self).session(),
                    old(self).store(),
                    Action::Delete,
                    views_of(courses@),
                    Seq::empty(),
                ),
            ),
    {
        let semester = String::new();
        self.write_enrollments(Action::Delete, &courses, &semester)
    }
}

/// What a student's question about the student's own records hands back:
/// refused for everybody but a student.
pub open spec fn for_student<T>(session: Option<UserView>, answer: Result<T, ErrorKind>) -> Result<
    T,
    ErrorKind,
> {
    match actor_of(session) {
        Actor::Anonymous => Err(ErrorKind::Unauthenticated),
        Actor::Student => answer,
        _ => Err(ErrorKind::Forbidden),
    }
}

/// The first row, or `NotFound` where there is none.
pub open spec fn first_or_not_found<T>(rows: Seq<T>) -> Result<T, ErrorKind> {
    match first_of(rows) {
        Some(x) => Ok(x),
        None => Err(ErrorKind::NotFound),
    }
}

impl ServerConnection {
    /// The users that a search for `query` finds: those with the query in
    /// their email or in the decimal text of their key.
    pub fn search_users(&self, query: String) -> (r: Result<Vec<User>, ErrorKind>)
        ensures
            r matches Ok(found) && views_of(found@) == self.store().users.filter(
                users_mentioning(query@),
            ),
    {
        let all = match self.get_users() {
            Ok(all) => all,
            Err(e) => {
                return Err(e);
            },
        };
        let mut out: Vec<User> = Vec::new();
        let mut i: usize = 0;
        proof {
            lemma_views_whole(all@);
            lemma_views_whole(out@);
            reveal(Seq::filter);
        }
        while i < all.len()
            invariant
                i <= all.len(),
                views_of(out@) == views_of(all@.take(i as int)).filter(users_mentioning(query@)),
                views_of(all@.take(all.len() as int)) == views_of(all@),
            decreases all.len() - i,
        {
            proof {
                lemma_views_step(all@, i as int);
                views_of(all@.take(i as int)).lemma_filter_push(
                    all@[i as int]@,
                    users_mentioning(query@),
                );
            }
            let key = render_int(all[i].id as i64);
            if contains(all[i].email.as_str(), query.as_str()) || contains(
                key.as_str(),
                query.as_str(),
            ) {
                proof {
                    lemma_views_push(out@, all@[i as int]);
                }
                out.push(all[i].clone());
            }
            i += 1;
        }
        Ok(out)
    }

    /// The courses that a search for `query` finds: those with the query in
    /// the decimal text of their key.
    pub fn search_courses(&self, query: String) -> (r: Result<Vec<Courses>, ErrorKind>)
        ensures
            r matches Ok(found) && views_of(found@) == self.store().courses.filter(
                courses_mentioning(query@),
            ),
    {
        let filters: Vec<Filter> = Vec::new();
        proof {
            lemma_filter_all(
                self.db@.courses,
                |x: CoursesView|
                    satisfies(
                        ReceiverTypeView::Course(x),
                        filters@,
                        Associativity::And,
                    ),
            );
        }
        let all = match self.db.find_courses(filters, None) {
            Ok(all) => all,
            Err(e) => {
                return Err(e);
            },
        };
        let mut out: Vec<Courses> = Vec::new();
        let mut i: usize = 0;
        proof {
            lemma_views_whole(all@);
            lemma_views_whole(out@);
            reveal(Seq::filter);
        }
        while i < all.len()
            invariant
                i <= all.len(),
                views_of(out@) == views_of(all@.take(i as int)).filter(
                    courses_mentioning(query@),
                ),
                views_of(all@.take(all.len() as int)) == views_of(all@),
            decreases all.len() - i,
        {
            proof {
                lemma_views_step(all@, i as int);
                views_of(all@.take(i as int)).lemma_filter_push(
                    all@[i as int]@,
                    courses_mentioning(query@),
                );
            }
            let key = render_int(all[i].id as i64);
            if contains(key.as_str(), query.as_str()) {
                proof {
                    lemma_views_push(out@, all@[i as int]);
                }
                out.push(all[i].clone());
            }
            i += 1;
        }
        Ok(out)
    }

    /// Every department.
    pub fn get_departments(&self) -> (r: Result<Vec<Departments>, ErrorKind>)
        ensures
            r matches Ok(found) && views_of(found@) == self.store().departments,
    {
        let filters: Vec<Filter> = Vec::new();
        proof {
            lemma_filter_all(
                self.db@.departments,
                |x: DepartmentsView|
                    satisfies(
                        ReceiverTypeView::Department(x),
                        filters@,
                        Associativity::And,
                    ),
            );
        }
        self.db.find_departments(filters, None)
    }

    /// The department with this key, or `NotFound`.
    pub fn get_department(&self, id: i32) -> (r: Result<Departments, ErrorKind>)
        ensures
            match first_or_not_found(departments_keyed(self.store(), id)) {
                Ok(d) => r matches Ok(x) && x@ == d,
                Err(e) => r matches Err(x) && x == e,
            },
    {
        let mut filters: Vec<Filter> = Vec::new();
        filters.push(Filter::Departments(DepartmentsFilter::Id(id)));
        assert(filters@ =~= seq![Filter::Departments(DepartmentsFilter::Id(id))]);
        assert(filters@[0].table_of() == Table::Departments);
        assert(filters@[0].column_exists());
        let found = match self.db.find_departments(filters, None) {
            Ok(found) => found,
            Err(e) => {
                return Err(e);
            },
        };
        if found.len() == 0 {
            return Err(ErrorKind::NotFound);
        }
        assert(views_of(found@)[0] == found@[0]@);
        Ok(found[0].clone())
    }

    /// Every teacher's account.
    pub fn get_teacher_accounts(&self) -> (r: Result<Vec<TeacherAccount>, ErrorKind>)
        ensures
            r matches Ok(found) && views_of(found@) == self.store().teacher_accounts,
    {
        let filters: Vec<Filter> = Vec::new();
        proof {
            lemma_filter_all(
                self.db@.teacher_accounts,
                |x: TeacherAccountView|
                    satisfies(
                        ReceiverTypeView::TeacherAccount(x),
                        filters@,
                        Associativity::And,
                    ),
            );
        }
        self.db.find_teacher_accounts(filters, None)
    }

    /// The enrollments of the student who signed in. Only a student may ask.
    pub fn list_enrollments(&self) -> (r: Result<Vec<StudentCourse>, ErrorKind>)
        ensures
            match for_student(
                self.session(),
                Ok(enrollments_of_student(self.store(), self.session()->0.id)),
            ) {
                Ok(rows) => r matches Ok(found) && views_of(found@) == rows,
                Err(e) => r matches Err(x) && x == e,
            },
    {
        match self.actor() {
            Actor::Anonymous => Err(ErrorKind::Unauthenticated),
            Actor::Student => {
                let student = self.session_id();
                let mut filters: Vec<Filter> = Vec::new();
                filters.push(Filter::StudentCourses(StudentCoursesFilter::StudentId(student)));
                assert(filters@ =~= seq![
                    Filter::StudentCourses(StudentCoursesFilter::StudentId(student)),
                ]);
                assert(filters@[0].table_of() == Table::StudentCourses);
                assert(filters@[0].column_exists());
                self.db.find_student_courses(filters, None)
            },
            _ => Err(ErrorKind::Forbidden),
        }
    }

    /// The account of the student who signed in, with the student's
    /// standing, or `NotFound` where the student has none. Only a student
    /// may ask.
    pub fn get_student_standing(&self) -> (r: Result<StudentAccount, ErrorKind>)
        ensures
            match for_student(
                self.session(),
                first_or_not_found(accounts_of_student(self.store(), self.session()->0.id)),
            ) {
                Ok(account) => r matches Ok(x) && x@ == account,
                Err(e) => r matches Err(x) && x == e,
            },
    {
        match self.actor() {
            Actor::Anonymous => Err(ErrorKind::Unauthenticated),
            Actor::Student => {
                let student = self.session_id();
                let mut filters: Vec<Filter> = Vec::new();
                filters.push(Filter::StudentAccount(StudentAccountFilter::StudentId(student)));
                assert(filters@ =~= seq![
                    Filter::StudentAccount(StudentAccountFilter::StudentId(student)),
                ]);
                assert(filters@[0].table_of() == Table::StudentAccount);
                assert(filters@[0].column_exists());
                let found = match self.db.find_student_accounts(filters, None) {
                    Ok(found) => found,
                    Err(e) => {
                        return Err(e);
                    },
                };
                if found.len() == 0 {
                    return Err(ErrorKind::NotFound);
                }
                assert(views_of(found@)[0] == found@[0]@);
                Ok(found[0].clone())
            },
            _ => Err(ErrorKind::Forbidden),
        }
    }

    /// How many users satisfy one predicate.
    fn count_users(&self, filter: UsersFilter) -> (r: i32)
        requires
            filter.column_exists(),
        ensures
            r == clipped(self.store().users.filter(users_holding(filter)).len() as int),
    {
        let mut filters: Vec<Filter> = Vec::new();
        filters.push(Filter::Users(filter));
        let ghost asked = filters@;
        proof {
            assert(asked[0].table_of() == Table::Users);
            assert(asked[0].column_exists());
            assert forall|x: UserView|
                #[trigger] satisfies(
                    ReceiverTypeView::User(x),
                    asked,
                    Associativity::And,
                ) == filter.holds(x) by {
                assert(asked[0].holds(ReceiverTypeView::User(x)) == filter.holds(x));
            }
            lemma_filter_same(
                self.db@.users,
                |x: UserView|
                    satisfies(ReceiverTypeView::User(x), asked, Associativity::And),
                users_holding(filter),
            );
        }
        match self.db.find_users(filters, None) {
            Ok(found) => {
                assert(views_of(found@).len() == found@.len());
                clip(found.len())
            },
            Err(_) => 0,
        }
    }

    /// The counts over the store: the users; the suspended users; the users
    /// whose role is `teacher`; the users whose role is `student`, less the
    /// suspended users; the students who may graduate; the courses; the
    /// departments.
    pub fn generate_statistics(&self) -> (r: Result<Statistics, ErrorKind>)
        ensures
            r matches Ok(statistics) && statistics == statistics_of(self.store()),
    {
        let users = match self.get_users() {
            Ok(users) => users,
            Err(e) => {
                return Err(e);
            },
        };
        assert(views_of(users@).len() == users@.len());
        let registered_users = clip(users.len());
        let suspended_users = self.count_users(UsersFilter::Suspended(true));
        let teacher = UsersFilter::Role(String::from_str("teacher"));
        let student = UsersFilter::Role(String::from_str("student"));
        proof {
            lemma_filter_same(
                self.db@.users,
                users_holding(UsersFilter::Suspended(true)),
                under_suspension(),
            );
            lemma_filter_same(self.db@.users, users_holding(teacher), users_in_role("teacher"@));
            lemma_filter_same(self.db@.users, users_holding(student), users_in_role("student"@));
        }
        let faculty_members = self.count_users(teacher);
        let students = self.count_users(student);
        let mut able: Vec<Filter> = Vec::new();
        able.push(Filter::StudentAccount(StudentAccountFilter::CanGrad(true)));
        let ghost asked = able@;
        proof {
            assert(asked[0].table_of() == Table::StudentAccount);
            assert(asked[0].column_exists());
            assert forall|x: StudentAccountView|
                #[trigger] satisfies(
                    ReceiverTypeView::StudentAccount(x),
                    asked,
                    Associativity::And,
                ) == x.can_grad by {
                assert(asked[0].holds(ReceiverTypeView::StudentAccount(x)) == x.can_grad);
            }
            lemma_filter_same(
                self.db@.student_accounts,
                |x: StudentAccountView|
                    satisfies(
                        ReceiverTypeView::StudentAccount(x),
                        asked,
                        Associativity::And,
                    ),
                graduating(),
            );
        }
        let graduated_students = match self.db.find_student_accounts(able, None) {
            Ok(found) => {
                assert(views_of(found@).len() == found@.len());
                clip(found.len())
            },
            Err(e) => {
                return Err(e);
            },
        };
        let every: Vec<Filter> = Vec::new();
        proof {
            lemma_filter_all(
                self.db@.courses,
                |x: CoursesView|
                    satisfies(
                        ReceiverTypeView::Course(x),
                        every@,
                        Associativity::And,
                    ),
            );
        }
        let courses = match self.db.find_courses(every, None) {
            Ok(found) => {
                assert(views_of(found@).len() == found@.len());
                clip(found.len())
            },
            Err(e) => {
                return Err(e);
            },
        };
        let departments = match self.get_departments() {
            Ok(found) => {
                assert(views_of(found@).len() == found@.len());
                clip(found.len())
            },
            Err(e) => {
                return Err(e);
            },
        };
        Ok(
            Statistics {
                registered_users,
                suspended_users,
                faculty_members,
                active_students: students - suspended_users,
                graduated_students,
                courses,
                departments,
            },
        )
    }
}

} // verus!
