//! The request layer: each request of the service as a function from the
//! plain values that the request carries to an answer or a refusal. Taking
//! requests apart and writing answers out is left to the caller.

use crate::db_driver::ReceiverTypeView;
use crate::error::ErrorKind;
use crate::filter::{Associativity, Filter, UsersFilter};
use crate::lemmas::{
    lemma_filter_all, lemma_filter_none, lemma_filter_same, lemma_first_kept, lemma_views_push,
    lemma_views_step, lemma_views_whole, views_of,
};
use crate::model::{Database, first_of, satisfies};
use crate::password::{argon2_hash, argon2_verifies};
use crate::server_connection_impl::{
    accounts_of_student, admin_written, courses_mentioning, courses_written, departments_keyed,
    enrollments_of_student, enrollments_written, has_role, login_verdict_of, Outcome, registered,
    semester_of, ServerConnection, Statistics, statistics_of, user_deleted, user_updated,
    users_in_role, users_mentioning, users_named,
};
use crate::table_models::{
    Action, Courses, CoursesView, Departments, DepartmentsView, StudentAccount,
    StudentAccountView, StudentCourse, StudentCourseView, Table, TeacherAccount,
    TeacherAccountView, User, UserView,
};
use crate::text::{
    decimal, lemma_empty_is_substring, parse_flag, parse_int, parsed_flag, parsed_int,
    render_int, same_text,
};
use vstd::prelude::*;
use vstd::string::*;

verus! {

/// The class of answer that a refused request gets.
#[derive(Debug, Clone, Copy, PartialEq, Eq, Structural)]
pub enum Status {
    BadRequest,
    Unauthorized,
    InternalServerError,
}

/// A refused request: the class of the answer and a sentence for the caller.
#[derive(Debug, PartialEq)]
pub struct Refusal {
    pub status: Status,
    pub message: String,
}

/// What a `Refusal` holds, as plain values.
pub struct RefusalView {
    pub status: Status,
    pub message: Seq<char>,
}

impl View for Refusal {
    type V = RefusalView;

    open spec fn view(&self) -> RefusalView {
        RefusalView { status: self.status, message: self.message@ }
    }
}

/// A request that is refused as malformed.
pub open spec fn bad_request(message: Seq<char>) -> RefusalView {
    RefusalView { status: Status::BadRequest, message }
}

/// A request that is refused because the session layer or the store
/// refused it: the sentence is the one of the error's kind.
pub open spec fn failure(e: ErrorKind) -> RefusalView {
    RefusalView { status: Status::InternalServerError, message: e.message_text() }
}

/// A request that only an administrator may make, from somebody else.
pub open spec fn unauthorized() -> RefusalView {
    RefusalView { status: Status::Unauthorized, message: "Unauthorized"@ }
}

/// A request that is refused with a sentence of the request layer's own.
pub open spec fn breakdown(message: Seq<char>) -> RefusalView {
    RefusalView { status: Status::InternalServerError, message }
}

fn refuse_bad(message: &str) -> (r: Refusal)
    ensures
        r@ == bad_request(message@),
{
    Refusal { status: Status::BadRequest, message: String::from_str(message) }
}

fn refuse_failure(e: ErrorKind) -> (r: Refusal)
    ensures
        r@ == failure(e),
{
    Refusal { status: Status::InternalServerError, message: String::from_str(e.message()) }
}

fn refuse_unauthorized() -> (r: Refusal)
    ensures
        r@ == unauthorized(),
{
    Refusal { status: Status::Unauthorized, message: String::from_str("Unauthorized") }
}

fn refuse_breakdown(message: &str) -> (r: Refusal)
    ensures
        r@ == breakdown(message@),
{
    Refusal { status: Status::InternalServerError, message: String::from_str(message) }
}

/// The integer that an optional text stands for, or 0 where there is no
/// text or it stands for none.
pub open spec fn int_or_zero(text: Option<Seq<char>>) -> int {
    match text {
        Some(s) => match parsed_int(s) {
            Some(n) => n,
            None => 0,
        },
        None => 0,
    }
}

/// The characters of an optional text.
pub open spec fn chars_of(text: Option<&str>) -> Option<Seq<char>> {
    match text {
        Some(s) => Some(s@),
        None => None,
    }
}

/// The integer that an optional text stands for, or 0.
pub fn number_or_zero(text: Option<&str>) -> (r: i32)
    ensures
        r == int_or_zero(chars_of(text)),
{
    match text {
        Some(s) => match parse_int(s) {
            Some(n) => n,
            None => 0,
        },
        None => 0,
    }
}

/// The user that signs in with these credentials, or why nobody does: the
/// password is missing; the email is missing; the session layer refuses the
/// two.
pub open spec fn signed_in(store: Database, email: Option<&str>, password: Option<&str>) -> Result<
    UserView,
    RefusalView,
> {
    match (email, password) {
        (Some(e), Some(p)) => {
            let found = first_of(named(store, e@));
            match login_verdict_of(
                found,
                found matches Some(u) && argon2_verifies(u.password, p@),
            ) {
                Ok(()) => Ok(found->0),
                Err(_) => Err(bad_request("Invalid login credentials."@)),
            }
        },
        (_, None) => Err(bad_request("Missing login password."@)),
        (None, _) => Err(bad_request("Missing login email."@)),
    }
}

/// The users with exactly this email.
pub open spec fn named(store: Database, email: Seq<char>) -> Seq<UserView> {
    store.users.filter(|u: UserView| u.email == email)
}

/// Signs in with the credentials of a request. On success the session is
/// the user with the email; the store stays as it is either way.
pub fn sign_in(conn: &mut ServerConnection, email: Option<&str>, password: Option<&str>) -> (r:
    Result<(), Refusal>)
    ensures
        final(conn).store() == old(conn).store(),
        match signed_in(old(conn).store(), email, password) {
            Ok(user) => r is Ok && final(conn).session() == Some(user),
            Err(x) => r matches Err(y) && y@ == x && final(conn).session() == old(conn).session(),
        },
{
    match (email, password) {
        (Some(e), Some(p)) => {
            let address = String::from_str(e);
            proof {
                lemma_named(conn.store(), address);
            }
            match conn.login(address, String::from_str(p)) {
                Ok(()) => Ok(()),
                Err(_) => Err(refuse_bad("Invalid login credentials.")),
            }
        },
        (_, None) => Err(refuse_bad("Missing login password.")),
        (None, _) => Err(refuse_bad("Missing login email.")),
    }
}

/// The users that a query for an email finds are the users with that email.
pub proof fn lemma_named(store: Database, email: String)
    ensures
        users_named(store, email) == named(store, email@),
{
    let asked = seq![Filter::Users(UsersFilter::Email(email))];
    assert forall|x: UserView|
        #[trigger] satisfies(
            ReceiverTypeView::User(x),
            asked,
            Associativity::And,
        ) == (x.email == email@) by {
        assert(asked[0].holds(ReceiverTypeView::User(x)) == (x.email
            == email@));
    }
    lemma_filter_same(
        store.users,
        |x: UserView|
            satisfies(
                ReceiverTypeView::User(x),
                asked,
                Associativity::And,
            ),
        |u: UserView| u.email == email@,
    );
}

/// Every user.
pub fn get_users(conn: &ServerConnection) -> (r: Result<Vec<User>, Refusal>)
    ensures
        r matches Ok(users) && views_of(users@) == conn.store().users,
{
    match conn.get_users() {
        Ok(users) => Ok(users),
        Err(e) => Err(refuse_failure(e)),
    }
}

/// The users with exactly this role.
pub fn users_with_role(conn: &ServerConnection, role: &str) -> (r: Result<Vec<User>, Refusal>)
    ensures
        r matches Ok(users) && views_of(users@) == conn.store().users.filter(
            users_in_role(role@),
        ),
{
    let wanted = UsersFilter::Role(String::from_str(role));
    let mut filters: Vec<Filter> = Vec::new();
    filters.push(Filter::Users(wanted));
    let ghost asked = filters@;
    proof {
        assert(asked[0].table_of() == Table::Users);
        assert(asked[0].column_exists());
        assert forall|x: UserView|
            #[trigger] satisfies(
                ReceiverTypeView::User(x),
                asked,
                Associativity::And,
            ) == (x.role == role@) by {
            assert(asked[0].holds(ReceiverTypeView::User(x)) == (x.role
                == role@));
        }
        lemma_filter_same(
            conn.store().users,
            |x: UserView|
                satisfies(
                    ReceiverTypeView::User(x),
                    asked,
                    Associativity::And,
                ),
            users_in_role(role@),
        );
    }
    match conn.get_users_by_filters(filters) {
        Ok(users) => Ok(users),
        Err(e) => Err(refuse_failure(e)),
    }
}

/// The users whose role is `student`.
pub fn get_students(conn: &ServerConnection) -> (r: Result<Vec<User>, Refusal>)
    ensures
        r matches Ok(users) && views_of(users@) == conn.store().users.filter(
            users_in_role("student"@),
        ),
{
    users_with_role(conn, "student")
}

/// The users whose role is `teacher`.
pub fn get_teachers(conn: &ServerConnection) -> (r: Result<Vec<User>, Refusal>)
    ensures
        r matches Ok(users) && views_of(users@) == conn.store().users.filter(
            users_in_role("teacher"@),
        ),
{
    users_with_role(conn, "teacher")
}

/// Every department.
pub fn get_departments(conn: &ServerConnection) -> (r: Result<Vec<Departments>, Refusal>)
    ensures
        r matches Ok(found) && views_of(found@) == conn.store().departments,
{
    match conn.get_departments() {
        Ok(found) => Ok(found),
        Err(e) => Err(refuse_failure(e)),
    }
}

/// The department that a request names by its key: refused where the key
/// is missing, where it is no integer, and where no department has it.
pub fn get_department(conn: &ServerConnection, id: Option<&str>) -> (r: Result<
    Departments,
    Refusal,
>)
    ensures
        match id {
            None => r matches Err(x) && x@ == bad_request("Missing department id."@),
            Some(text) => match parsed_int(text@) {
                None => r matches Err(x) && x@ == bad_request("Invalid department id."@),
                Some(n) => match first_of(departments_keyed(conn.store(), n as i32)) {
                    Some(d) => r matches Ok(x) && x@ == d,
                    None => r matches Err(x) && x@ == failure(ErrorKind::NotFound),
                },
            },
        },
{
    let text = match id {
        Some(text) => text,
        None => {
            return Err(refuse_bad("Missing department id."));
        },
    };
    let key = match parse_int(text) {
        Some(key) => key,
        None => {
            return Err(refuse_bad("Invalid department id."));
        },
    };
    match conn.get_department(key) {
        Ok(d) => Ok(d),
        Err(e) => Err(refuse_failure(e)),
    }
}

/// What a request for nothing but leave to act as an administrator gets.
pub fn admin(conn: &mut ServerConnection, email: Option<&str>, password: Option<&str>) -> (r:
    Result<(), Refusal>)
    ensures
        final(conn).store() == old(conn).store(),
        match signed_in(old(conn).store(), email, password) {
            Err(x) => r matches Err(y) && y@ == x,
            Ok(user) => if has_role(user.role, "admin"@) {
                r is Ok && final(conn).session() == Some(user)
            } else {
                r matches Err(y) && y@ == unauthorized()
            },
        },
{
    match sign_in(conn, email, password) {
        Ok(()) => {},
        Err(x) => {
            return Err(x);
        },
    }
    if !conn.is_admin() {
        return Err(refuse_unauthorized());
    }
    Ok(())
}

/// The counts over the store, for an administrator.
pub fn get_stats(conn: &mut ServerConnection, email: Option<&str>, password: Option<&str>) -> (r:
    Result<Statistics, Refusal>)
    ensures
        final(conn).store() == old(conn).store(),
        match signed_in(old(conn).store(), email, password) {
            Err(x) => r matches Err(y) && y@ == x,
            Ok(user) => if has_role(user.role, "admin"@) {
                r matches Ok(s) && s == statistics_of(old(conn).store())
            } else {
                r matches Err(y) && y@ == unauthorized()
            },
        },
{
    match admin(conn, email, password) {
        Ok(()) => {},
        Err(x) => {
            return Err(x);
        },
    }
    match conn.generate_statistics() {
        Ok(s) => Ok(s),
        Err(e) => Err(refuse_failure(e)),
    }
}

/// What a request to sign out gets. The session layer keeps no session
/// between requests, so there is nothing to end: a request that carries no
/// credentials is told so, and one that still carries both is refused.
pub fn logout(email: Option<&str>, password: Option<&str>) -> (r: Result<(), Refusal>)
    ensures
        match (email, password) {
            (Some(_), Some(_)) => r matches Err(x) && x@ == breakdown("Failed to logout."@),
            _ => r is Ok,
        },
{
    if email.is_none() || password.is_none() {
        Ok(())
    } else {
        Err(refuse_breakdown("Failed to logout."))
    }
}

/// Whether a request ended as a command of the session layer did: the store
/// is the one after the command, and the command's error, where it has one,
/// is handed on with the sentence of its kind.
pub open spec fn answered(
    after: &ServerConnection,
    r: Result<(),
    Refusal>,
    outcome: Outcome,
) -> bool {
    &&& after.store() == outcome.store
    &&& match outcome.result {
        Ok(()) => r is Ok,
        Err(e) => r matches Err(x) && x@ == failure(e),
    }
}

/// Whether a request was refused before anything was written.
pub open spec fn turned_away<T>(
    before: &ServerConnection,
    after: &ServerConnection,
    r: Result<T, Refusal>,
    x: RefusalView,
) -> bool {
    &&& after.store() == before.store()
    &&& r matches Err(y) && y@ == x
}

/// The administrator that signs in with these credentials, or why the
/// request is refused: as `signed_in` says, or because the user who signed
/// in is no administrator.
pub open spec fn signed_in_admin(
    store: Database,
    email: Option<&str>,
    password: Option<&str>,
) -> Result<
    UserView,
    RefusalView,
> {
    match signed_in(store, email, password) {
        Err(x) => Err(x),
        Ok(user) => if has_role(user.role, "admin"@) {
            Ok(user)
        } else {
            Err(unauthorized())
        },
    }
}

/// Hands on what a command of the session layer handed back.
fn pass_on(r: Result<(), ErrorKind>) -> (out: Result<(), Refusal>)
    ensures
        match r {
            Ok(()) => out is Ok,
            Err(e) => out matches Err(x) && x@ == failure(e),
        },
{
    match r {
        Ok(()) => Ok(()),
        Err(e) => Err(refuse_failure(e)),
    }
}

/// Creates a department with this name, for an administrator.
pub fn new_department(
    conn: &mut ServerConnection,
    email: Option<&str>,
    password: Option<&str>,
    name: &str,
) -> (r: Result<(), Refusal>)
    ensures
        match signed_in_admin(old(conn).store(), email, password) {
            Err(x) => turned_away(old(conn), final(conn), r, x),
            Ok(user) => answered(
                final(conn),
                r,
                admin_written(
                    Some(user),
                    old(conn).store(),
                    Action::Insert,
                    ReceiverTypeView::Department(
                        DepartmentsView { id: 0, name: name@ },
                    ),
                ),
            ),
        },
{
    match admin(conn, email, password) {
        Ok(()) => {},
        Err(x) => {
            return Err(x);
        },
    }
    pass_on(conn.new_department(name))
}

/// Deletes the department that a request names by its key, for an
/// administrator: refused where the key is missing or no number but 0, and
/// where no department has it.
pub fn delete_department(
    conn: &mut ServerConnection,
    email: Option<&str>,
    password: Option<&str>,
    id: Option<&str>,
) -> (r: Result<(), Refusal>)
    ensures
        match signed_in_admin(old(conn).store(), email, password) {
            Err(x) => turned_away(old(conn), final(conn), r, x),
            Ok(user) => if int_or_zero(chars_of(id)) == 0 {
                turned_away(old(conn), final(conn), r, bad_request("Missing department id."@))
            } else {
                match first_of(
                    departments_keyed(old(conn).store(), int_or_zero(chars_of(id)) as i32),
                ) {
                    None => turned_away(old(conn), final(conn), r, failure(ErrorKind::NotFound)),
                    Some(d) => answered(
                        final(conn),
                        r,
                        admin_written(
                            Some(user),
                            old(conn).store(),
                            Action::Delete,
                            ReceiverTypeView::Department(d),
                        ),
                    ),
                }
            },
        },
{
    match admin(conn, email, password) {
        Ok(()) => {},
        Err(x) => {
            return Err(x);
        },
    }
    let key = number_or_zero(id);
    if key == 0 {
        return Err(refuse_bad("Missing department id."));
    }
    let department = match conn.get_department(key) {
        Ok(d) => d,
        Err(e) => {
            return Err(refuse_failure(e));
        },
    };
    pass_on(conn.remove_department(department))
}

/// The accounts of this teacher, as a predicate on accounts.
pub open spec fn account_of_teacher(teacher: i32) -> spec_fn(TeacherAccountView) -> bool {
    |a: TeacherAccountView| a.teacher_id == teacher
}

/// The first account of this teacher.
pub fn teacher_account_of(accounts: &Vec<TeacherAccount>, teacher: i32) -> (r: Option<
    TeacherAccount,
>)
    ensures
        match first_of(views_of(accounts@).filter(account_of_teacher(teacher))) {
            Some(a) => r matches Some(x) && x@ == a,
            None => r is None,
        },
{
    let mut i: usize = 0;
    proof {
        lemma_views_whole(accounts@);
        lemma_filter_none(
            views_of(accounts@.take(0)),
            account_of_teacher(teacher),
        );
    }
    while i < accounts.len()
        invariant
            i <= accounts.len(),
            views_of(accounts@.take(i as int)).filter(account_of_teacher(teacher)).len() == 0,
            views_of(accounts@.take(accounts.len() as int)) == views_of(accounts@),
        decreases accounts.len() - i,
    {
        proof {
            lemma_views_step(accounts@, i as int);
            views_of(accounts@.take(i as int)).lemma_filter_push(
                accounts@[i as int]@,
                account_of_teacher(teacher),
            );
        }
        if accounts[i].teacher_id == teacher {
            proof {
                assert(views_of(accounts@).take(i as int) =~= views_of(
                    accounts@.take(i as int),
                ));
                assert(views_of(accounts@)[i as int] == accounts@[i as int]@);
                lemma_first_kept(
                    views_of(accounts@),
                    account_of_teacher(teacher),
                    i as int,
                );
            }
            return Some(accounts[i].clone());
        }
        i += 1;
    }
    None
}

/// The account that a request to assign a teacher to a department names,
/// with the department in it, or why the request is refused: the department
/// is missing or no number but 0; the teacher is missing; the teacher is no
/// number but 0; the department is looked up and no department has the key;
/// the teacher has no account. A request that takes the teacher out of the
/// department looks up none and assigns department 0.
pub open spec fn department_assignment(
    store: Database,
    department: Option<&str>,
    teacher: Option<&str>,
    join: bool,
) -> Result<TeacherAccountView, RefusalView> {
    let d = int_or_zero(chars_of(department)) as i32;
    let t = int_or_zero(chars_of(teacher)) as i32;
    if d == 0 {
        Err(bad_request("Missing department id."@))
    } else if teacher is None {
        Err(bad_request("Missing teacher id."@))
    } else if t == 0 {
        Err(bad_request("Invalid teacher id."@))
    } else if join && first_of(departments_keyed(store, d)) is None {
        Err(failure(ErrorKind::NotFound))
    } else {
        match first_of(store.teacher_accounts.filter(account_of_teacher(t))) {
            None => Err(bad_request("Teacher not found."@)),
            Some(account) => Ok(
                TeacherAccountView {
                    dept_id: if join {
                        first_of(departments_keyed(store, d))->0.id
                    } else {
                        0
                    },
                    ..account
                },
            ),
        }
    }
}

/// Assigns a teacher to a department, or takes the teacher out of it.
fn assign_department(
    conn: &mut ServerConnection,
    email: Option<&str>,
    password: Option<&str>,
    department: Option<&str>,
    teacher: Option<&str>,
    join: bool,
) -> (r: Result<(), Refusal>)
    ensures
        match signed_in_admin(old(conn).store(), email, password) {
            Err(x) => turned_away(old(conn), final(conn), r, x),
            Ok(user) => match department_assignment(
                old(conn).store(),
                department,
                teacher,
                join,
            ) {
                Err(x) => turned_away(old(conn), final(conn), r, x),
                Ok(account) => answered(
                    final(conn),
                    r,
                    admin_written(
                        Some(user),
                        old(conn).store(),
                        Action::Update,
                        ReceiverTypeView::TeacherAccount(account),
                    ),
                ),
            },
        },
{
    match admin(conn, email, password) {
        Ok(()) => {},
        Err(x) => {
            return Err(x);
        },
    }
    let d = number_or_zero(department);
    if d == 0 {
        return Err(refuse_bad("Missing department id."));
    }
    if teacher.is_none() {
        return Err(refuse_bad("Missing teacher id."));
    }
    let t = number_or_zero(teacher);
    if t == 0 {
        return Err(refuse_bad("Invalid teacher id."));
    }
    let mut assigned: i32 = 0;
    if join {
        match conn.get_department(d) {
            Ok(found) => {
                assigned = found.id;
            },
            Err(e) => {
                return Err(refuse_failure(e));
            },
        }
    }
    let accounts = match conn.get_teacher_accounts() {
        Ok(accounts) => accounts,
        Err(e) => {
            return Err(refuse_failure(e));
        },
    };
    let mut account = match teacher_account_of(&accounts, t) {
        Some(account) => account,
        None => {
            return Err(refuse_bad("Teacher not found."));
        },
    };
    account.dept_id = assigned;
    pass_on(conn.update_teacher_account(account))
}

/// Assigns a teacher to a department, for an administrator.
pub fn invite_to_department(
    conn: &mut ServerConnection,
    email: Option<&str>,
    password: Option<&str>,
    department: Option<&str>,
    teacher: Option<&str>,
) -> (r: Result<(), Refusal>)
    ensures
        match signed_in_admin(old(conn).store(), email, password) {
            Err(x) => turned_away(old(conn), final(conn), r, x),
            Ok(user) => match department_assignment(
                old(conn).store(),
                department,
                teacher,
                true,
            ) {
                Err(x) => turned_away(old(conn), final(conn), r, x),
                Ok(account) => answered(
                    final(conn),
                    r,
                    admin_written(
                        Some(user),
                        old(conn).store(),
                        Action::Update,
                        ReceiverTypeView::TeacherAccount(account),
                    ),
                ),
            },
        },
{
    assign_department(conn, email, password, department, teacher, true)
}

/// Takes a teacher out of the teacher's department, for an administrator.
pub fn kick_from_department(
    conn: &mut ServerConnection,
    email: Option<&str>,
    password: Option<&str>,
    department: Option<&str>,
    teacher: Option<&str>,
) -> (r: Result<(), Refusal>)
    ensures
        match signed_in_admin(old(conn).store(), email, password) {
            Err(x) => turned_away(old(conn), final(conn), r, x),
            Ok(user) => match department_assignment(
                old(conn).store(),
                department,
                teacher,
                false,
            ) {
                Err(x) => turned_away(old(conn), final(conn), r, x),
                Ok(account) => answered(
                    final(conn),
                    r,
                    admin_written(
                        Some(user),
                        old(conn).store(),
                        Action::Update,
                        ReceiverTypeView::TeacherAccount(account),
                    ),
                ),
            },
        },
{
    assign_department(conn, email, password, department, teacher, false)
}

/// The users with this key, as a predicate on users.
pub open spec fn user_keyed(id: i32) -> spec_fn(UserView) -> bool {
    |u: UserView| u.id == id
}

/// The departments with this key, as a predicate on departments.
pub open spec fn department_keyed(id: i32) -> spec_fn(DepartmentsView) -> bool {
    |d: DepartmentsView| d.id == id
}

/// The first user with this key.
pub fn user_keyed_in(users: &Vec<User>, id: i32) -> (r: Option<User>)
    ensures
        match first_of(views_of(users@).filter(user_keyed(id))) {
            Some(u) => r matches Some(x) && x@ == u,
            None => r is None,
        },
{
    let mut i: usize = 0;
    proof {
        lemma_views_whole(users@);
        lemma_filter_none(views_of(users@.take(0)), user_keyed(id));
    }
    while i < users.len()
        invariant
            i <= users.len(),
            views_of(users@.take(i as int)).filter(user_keyed(id)).len() == 0,
            views_of(users@.take(users.len() as int)) == views_of(users@),
        decreases users.len() - i,
    {
        proof {
            lemma_views_step(users@, i as int);
            views_of(users@.take(i as int)).lemma_filter_push(users@[i as int]@, user_keyed(id));
        }
        if users[i].id == id {
            proof {
                assert(views_of(users@).take(i as int) =~= views_of(users@.take(i as int)));
                assert(views_of(users@)[i as int] == users@[i as int]@);
                lemma_first_kept(views_of(users@), user_keyed(id), i as int);
            }
            return Some(users[i].clone());
        }
        i += 1;
    }
    None
}

/// The first department with this key.
pub fn department_keyed_in(departments: &Vec<Departments>, id: i32) -> (r: Option<Departments>)
    ensures
        match first_of(views_of(departments@).filter(department_keyed(id))) {
            Some(d) => r matches Some(x) && x@ == d,
            None => r is None,
        },
{
    let mut i: usize = 0;
    proof {
        lemma_views_whole(departments@);
        lemma_filter_none(views_of(departments@.take(0)), department_keyed(id));
    }
    while i < departments.len()
        invariant
            i <= departments.len(),
            views_of(departments@.take(i as int)).filter(department_keyed(id)).len() == 0,
            views_of(departments@.take(departments.len() as int)) == views_of(departments@),
        decreases departments.len() - i,
    {
        proof {
            lemma_views_step(departments@, i as int);
            views_of(departments@.take(i as int)).lemma_filter_push(
                departments@[i as int]@,
                department_keyed(id),
            );
        }
        if departments[i].id == id {
            proof {
                assert(views_of(departments@).take(i as int) =~= views_of(
                    departments@.take(i as int),
                ));
                assert(views_of(departments@)[i as int] == departments@[i as int]@);
                lemma_first_kept(views_of(departments@), department_keyed(id), i as int);
            }
            return Some(departments[i].clone());
        }
        i += 1;
    }
    None
}

/// The courses with the teachers who may give them, the teachers' accounts
/// and the departments.
#[derive(Debug, PartialEq)]
pub struct CourseCatalogue {
    pub courses: Vec<Courses>,
    pub users: Vec<User>,
    pub teacher_accounts: Vec<TeacherAccount>,
    pub departments: Vec<Departments>,
}

/// Every course, the users whose role is `teacher`, every teacher's account
/// and every department.
pub fn get_courses(conn: &ServerConnection) -> (r: Result<CourseCatalogue, Refusal>)
    ensures
        r matches Ok(all) && {
            &&& views_of(all.courses@) == conn.store().courses
            &&& views_of(all.users@) == conn.store().users.filter(
                users_in_role("teacher"@),
            )
            &&& views_of(all.teacher_accounts@) == conn.store().teacher_accounts
            &&& views_of(all.departments@) == conn.store().departments
        },
{
    proof {
        assert forall|i: int| 0 <= i < conn.store().courses.len() implies courses_mentioning(
            Seq::empty(),
        )(#[trigger] conn.store().courses[i]) by {
            lemma_empty_is_substring(
                decimal(conn.store().courses[i].id as int),
            );
        }
        lemma_filter_all(conn.store().courses, courses_mentioning(Seq::empty()));
    }
    let courses = match conn.search_courses(String::new()) {
        Ok(found) => found,
        Err(e) => {
            return Err(refuse_failure(e));
        },
    };
    let users = match get_teachers(conn) {
        Ok(found) => found,
        Err(x) => {
            return Err(x);
        },
    };
    let departments = match conn.get_departments() {
        Ok(found) => found,
        Err(e) => {
            return Err(refuse_failure(e));
        },
    };
    let teacher_accounts = match conn.get_teacher_accounts() {
        Ok(found) => found,
        Err(e) => {
            return Err(refuse_failure(e));
        },
    };
    Ok(CourseCatalogue { courses, users, teacher_accounts, departments })
}

/// A course with the teacher who gives it, the teacher's account and the
/// department of that account.
#[derive(Debug, PartialEq)]
pub struct CourseDetails {
    pub course: Courses,
    pub user: User,
    pub teacher_account: TeacherAccount,
    pub department: Departments,
}

/// What a `CourseDetails` holds, as plain values.
pub struct CourseDetailsView {
    pub course: CoursesView,
    pub user: UserView,
    pub teacher_account: TeacherAccountView,
    pub department: DepartmentsView,
}

impl View for CourseDetails {
    type V = CourseDetailsView;

    open spec fn view(&self) -> CourseDetailsView {
        CourseDetailsView {
            course: self.course@,
            user: self.user@,
            teacher_account: self.teacher_account@,
            department: self.department@,
        }
    }
}

/// The key that a request names a course by, or `0` where it names none.
pub open spec fn course_key(id: Option<&str>) -> Seq<char> {
    match id {
        Some(text) => text@,
        None => "0"@,
    }
}

/// The course that a request names, with its teacher, the teacher's account
/// and the department, or why the request is refused: it names no course;
/// no course has the key in the text of its own; the course's teacher is not
/// among the users whose role is `teacher`; the teacher has no account; the
/// account's department does not exist.
pub open spec fn course_details(store: Database, id: Option<&str>) -> Result<
    CourseDetailsView,
    RefusalView,
> {
    if course_key(id) == "0"@ {
        Err(bad_request("Missing course id."@))
    } else {
        match first_of(store.courses.filter(courses_mentioning(course_key(id)))) {
            None => Err(failure(ErrorKind::NotFound)),
            Some(course) => match first_of(
                store.users.filter(
                    users_in_role("teacher"@),
                ).filter(user_keyed(course.teacher_id)),
            ) {
                None => Err(breakdown("A teacher with this ID does not exist."@)),
                Some(user) => match first_of(
                    store.teacher_accounts.filter(account_of_teacher(course.teacher_id)),
                ) {
                    None => Err(
                        breakdown("A teacher account with this Teacher ID does not exist."@),
                    ),
                    Some(teacher_account) => match first_of(
                        store.departments.filter(department_keyed(teacher_account.dept_id)),
                    ) {
                        None => Err(breakdown("A department with such ID does not exist."@)),
                        Some(department) => Ok(
                            CourseDetailsView { course, user, teacher_account, department },
                        ),
                    },
                },
            },
        }
    }
}

/// The course that a request names, with its teacher, the teacher's account
/// and the department.
pub fn get_course(conn: &ServerConnection, id: Option<&str>) -> (r: Result<CourseDetails, Refusal>)
    ensures
        match course_details(conn.store(), id) {
            Ok(details) => r matches Ok(x) && x@ == details,
            Err(refusal) => r matches Err(x) && x@ == refusal,
        },
{
    let key = match id {
        Some(text) => text,
        None => "0",
    };
    if same_text(key, "0") {
        return Err(refuse_bad("Missing course id."));
    }
    let courses = match conn.search_courses(String::from_str(key)) {
        Ok(found) => found,
        Err(e) => {
            return Err(refuse_failure(e));
        },
    };
    if courses.len() == 0 {
        return Err(refuse_failure(ErrorKind::NotFound));
    }
    assert(views_of(courses@)[0] == courses@[0]@);
    let course = courses[0].clone();
    let teachers = match get_teachers(conn) {
        Ok(found) => found,
        Err(x) => {
            return Err(x);
        },
    };
    let user = match user_keyed_in(&teachers, course.teacher_id) {
        Some(u) => u,
        None => {
            return Err(refuse_breakdown("A teacher with this ID does not exist."));
        },
    };
    let accounts = match conn.get_teacher_accounts() {
        Ok(found) => found,
        Err(e) => {
            return Err(refuse_failure(e));
        },
    };
    let teacher_account = match teacher_account_of(&accounts, course.teacher_id) {
        Some(a) => a,
        None => {
            return Err(
                refuse_breakdown("A teacher account with this Teacher ID does not exist."),
            );
        },
    };
    let departments = match conn.get_departments() {
        Ok(found) => found,
        Err(e) => {
            return Err(refuse_failure(e));
        },
    };
    let department = match department_keyed_in(&departments, teacher_account.dept_id) {
        Some(d) => d,
        None => {
            return Err(refuse_breakdown("A department with such ID does not exist."));
        },
    };
    Ok(CourseDetails { course, user, teacher_account, department })
}

/// The fields of a course as a request carries them, each as text.
pub struct CourseFields<'a> {
    pub name: Option<&'a str>,
    pub description: Option<&'a str>,
    pub course_nr: Option<&'a str>,
    pub teacher_id: Option<&'a str>,
    pub cr_cost: Option<&'a str>,
    pub timeslots: Option<&'a str>,
}

impl<'a> CourseFields<'a> {
    /// Whether a field that a course cannot do without is missing: every
    /// field but the description is such a field.
    pub open spec fn incomplete(&self) -> bool {
        self.name is None || self.teacher_id is None || self.course_nr is None
            || self.cr_cost is None || self.timeslots is None
    }

    /// The description, or the words that stand for a missing one.
    pub open spec fn description_text(&self) -> Seq<char> {
        match self.description {
            Some(text) => text@,
            None => "No description."@,
        }
    }

    /// The course that the fields describe, or why they describe none: a
    /// field is missing; the teacher is no number but 0; the credit weight
    /// is no number but 0. The store gives the key.
    pub open spec fn drafted(&self) -> Result<CoursesView, RefusalView> {
        if self.incomplete() {
            Err(bad_request("Missing required data."@))
        } else if int_or_zero(chars_of(self.teacher_id)) == 0 {
            Err(bad_request("Invalid teacher id."@))
        } else if int_or_zero(chars_of(self.cr_cost)) == 0 {
            Err(bad_request("Invalid course cost."@))
        } else {
            Ok(
                CoursesView {
                    id: 0,
                    teacher_id: int_or_zero(chars_of(self.teacher_id)) as i32,
                    course: self.name->0@,
                    course_nr: self.course_nr->0@,
                    description: self.description_text(),
                    cr_cost: int_or_zero(chars_of(self.cr_cost)) as i32,
                    timeslots: self.timeslots->0@,
                },
            )
        }
    }

    /// A course with these fields in the place of its own, or why the
    /// fields will not do: one is missing; the credit weight is no number;
    /// the teacher is no number. The key stays.
    pub open spec fn revised(&self, prior: CoursesView) -> Result<CoursesView, RefusalView> {
        if self.incomplete() {
            Err(bad_request("Missing data."@))
        } else if parsed_int(self.cr_cost->0@) is None {
            Err(bad_request("Invalid course cost."@))
        } else if parsed_int(self.teacher_id->0@) is None {
            Err(bad_request("Invalid teacher id."@))
        } else {
            Ok(
                CoursesView {
                    id: prior.id,
                    teacher_id: parsed_int(self.teacher_id->0@)->0 as i32,
                    course: self.name->0@,
                    course_nr: self.course_nr->0@,
                    description: self.description_text(),
                    cr_cost: parsed_int(self.cr_cost->0@)->0 as i32,
                    timeslots: self.timeslots->0@,
                },
            )
        }
    }

    /// Whether a field that a course cannot do without is missing.
    pub fn is_incomplete(&self) -> (r: bool)
        ensures
            r == self.incomplete(),
    {
        self.name.is_none() || self.teacher_id.is_none() || self.course_nr.is_none()
            || self.cr_cost.is_none() || self.timeslots.is_none()
    }

    /// The description, or the words that stand for a missing one.
    fn described(&self) -> (r: String)
        ensures
            r@ == self.description_text(),
    {
        match self.description {
            Some(text) => String::from_str(text),
            None => String::from_str("No description."),
        }
    }

    /// The course that the fields describe.
    pub fn draft(&self) -> (r: Result<Courses, Refusal>)
        ensures
            match self.drafted() {
                Ok(course) => r matches Ok(x) && x@ == course,
                Err(refusal) => r matches Err(x) && x@ == refusal,
            },
    {
        match (self.name, self.teacher_id, self.course_nr, self.cr_cost, self.timeslots) {
            (Some(name), Some(teacher), Some(course_nr), Some(cost), Some(timeslots)) => {
                let teacher_id = number_or_zero(Some(teacher));
                let cr_cost = number_or_zero(Some(cost));
                if teacher_id == 0 {
                    return Err(refuse_bad("Invalid teacher id."));
                }
                if cr_cost == 0 {
                    return Err(refuse_bad("Invalid course cost."));
                }
                Ok(
                    Courses {
                        id: 0,
                        teacher_id,
                        course: String::from_str(name),
                        course_nr: String::from_str(course_nr),
                        description: self.described(),
                        cr_cost,
                        timeslots: String::from_str(timeslots),
                    },
                )
            },
            _ => Err(refuse_bad("Missing required data.")),
        }
    }

    /// A course with these fields in the place of its own.
    pub fn revise(&self, prior: &Courses) -> (r: Result<Courses, Refusal>)
        ensures
            match self.revised(prior@) {
                Ok(course) => r matches Ok(x) && x@ == course,
                Err(refusal) => r matches Err(x) && x@ == refusal,
            },
    {
        match (self.name, self.teacher_id, self.course_nr, self.cr_cost, self.timeslots) {
            (Some(name), Some(teacher), Some(course_nr), Some(cost), Some(timeslots)) => {
                let cr_cost = match parse_int(cost) {
                    Some(n) => n,
                    None => {
                        return Err(refuse_bad("Invalid course cost."));
                    },
                };
                let teacher_id = match parse_int(teacher) {
                    Some(n) => n,
                    None => {
                        return Err(refuse_bad("Invalid teacher id."));
                    },
                };
                Ok(
                    Courses {
                        id: prior.id,
                        teacher_id,
                        course: String::from_str(name),
                        course_nr: String::from_str(course_nr),
                        description: self.described(),
                        cr_cost,
                        timeslots: String::from_str(timeslots),
                    },
                )
            },
            _ => Err(refuse_bad("Missing data.")),
        }
    }
}

/// The one course that a request names by a key, or why there is none: no
/// course has the key in the text of its own, or more than one has.
pub open spec fn sole_course(store: Database, id: Seq<char>) -> Result<CoursesView, RefusalView> {
    let found = store.courses.filter(courses_mentioning(id));
    if found.len() == 0 {
        Err(bad_request("Course not found."@))
    } else if found.len() > 1 {
        Err(breakdown("Multiple courses found."@))
    } else {
        Ok(found[0])
    }
}

/// The one course that a request names by a key.
fn find_sole_course(conn: &ServerConnection, id: &str) -> (r: Result<Courses, Refusal>)
    ensures
        match sole_course(conn.store(), id@) {
            Ok(course) => r matches Ok(x) && x@ == course,
            Err(refusal) => r matches Err(x) && x@ == refusal,
        },
{
    let found = match conn.search_courses(String::from_str(id)) {
        Ok(found) => found,
        Err(e) => {
            return Err(refuse_failure(e));
        },
    };
    assert(views_of(found@).len() == found@.len());
    if found.len() == 0 {
        return Err(refuse_bad("Course not found."));
    }
    if found.len() > 1 {
        return Err(refuse_breakdown("Multiple courses found."));
    }
    assert(views_of(found@)[0] == found@[0]@);
    Ok(found[0].clone())
}

/// Creates the course that the fields of a request describe, for the user
/// who signs in with its credentials.
pub fn new_course(
    conn: &mut ServerConnection,
    email: Option<&str>,
    password: Option<&str>,
    fields: &CourseFields<'_>,
) -> (r: Result<(), Refusal>)
    ensures
        match signed_in(old(conn).store(), email, password) {
            Err(x) => turned_away(old(conn), final(conn), r, x),
            Ok(user) => match fields.drafted() {
                Err(x) => turned_away(old(conn), final(conn), r, x),
                Ok(course) => answered(
                    final(conn),
                    r,
                    courses_written(Some(user), old(conn).store(), Action::Insert, seq![course]),
                ),
            },
        },
{
    match sign_in(conn, email, password) {
        Ok(()) => {},
        Err(x) => {
            return Err(x);
        },
    }
    let course = match fields.draft() {
        Ok(course) => course,
        Err(x) => {
            return Err(x);
        },
    };
    let mut courses: Vec<Courses> = Vec::new();
    courses.push(course);
    assert(views_of(courses@) =~= seq![course@]);
    pass_on(conn.register_courses(courses))
}

/// Deletes the one course that a request names, for the user who signs in
/// with its credentials.
pub fn remove_course(
    conn: &mut ServerConnection,
    email: Option<&str>,
    password: Option<&str>,
    id: &str,
) -> (r: Result<(), Refusal>)
    ensures
        match signed_in(old(conn).store(), email, password) {
            Err(x) => turned_away(old(conn), final(conn), r, x),
            Ok(user) => match sole_course(old(conn).store(), id@) {
                Err(x) => turned_away(old(conn), final(conn), r, x),
                Ok(course) => answered(
                    final(conn),
                    r,
                    courses_written(Some(user), old(conn).store(), Action::Delete, seq![course]),
                ),
            },
        },
{
    match sign_in(conn, email, password) {
        Ok(()) => {},
        Err(x) => {
            return Err(x);
        },
    }
    let course = match find_sole_course(conn, id) {
        Ok(course) => course,
        Err(x) => {
            return Err(x);
        },
    };
    let mut courses: Vec<Courses> = Vec::new();
    courses.push(course);
    assert(views_of(courses@) =~= seq![course@]);
    pass_on(conn.remove_courses(courses))
}

/// Updates the one course that a request names with the fields that it
/// carries, for the user who signs in with its credentials. Missing fields
/// refuse the request before anybody signs in.
pub fn update_course(
    conn: &mut ServerConnection,
    email: Option<&str>,
    password: Option<&str>,
    id: &str,
    fields: &CourseFields<'_>,
) -> (r: Result<(), Refusal>)
    ensures
        if fields.incomplete() {
            turned_away(old(conn), final(conn), r, bad_request("Missing data."@))
        } else {
            match signed_in(old(conn).store(), email, password) {
                Err(x) => turned_away(old(conn), final(conn), r, x),
                Ok(user) => match sole_course(old(conn).store(), id@) {
                    Err(x) => turned_away(old(conn), final(conn), r, x),
                    Ok(prior) => match fields.revised(prior) {
                        Err(x) => turned_away(old(conn), final(conn), r, x),
                        Ok(course) => answered(
                            final(conn),
                            r,
                            courses_written(
                                Some(user),
                                old(conn).store(),
                                Action::Update,
                                seq![course],
                            ),
                        ),
                    },
                },
            }
        },
{
    if fields.is_incomplete() {
        return Err(refuse_bad("Missing data."));
    }
    match sign_in(conn, email, password) {
        Ok(()) => {},
        Err(x) => {
            return Err(x);
        },
    }
    let prior = match find_sole_course(conn, id) {
        Ok(course) => course,
        Err(x) => {
            return Err(x);
        },
    };
    let course = match fields.revise(&prior) {
        Ok(course) => course,
        Err(x) => {
            return Err(x);
        },
    };
    let mut courses: Vec<Courses> = Vec::new();
    courses.push(course);
    assert(views_of(courses@) =~= seq![course@]);
    pass_on(conn.update_courses(courses))
}

/// Whether a request that answers with a value ended as a command of the
/// session layer did.
pub open spec fn answered_with<T: View>(
    after: &ServerConnection,
    r: Result<T, Refusal>,
    outcome: Outcome,
    value: T::V,
) -> bool {
    &&& after.store() == outcome.store
    &&& match outcome.result {
        Ok(()) => r matches Ok(x) && x@ == value,
        Err(e) => r matches Err(x) && x@ == failure(e),
    }
}

/// The text of a field, or the fallback where the field is missing or
/// empty.
pub open spec fn text_or(field: Option<&str>, fallback: Seq<char>) -> Seq<char> {
    match field {
        Some(text) => if text@.len() == 0 {
            fallback
        } else {
            text@
        },
        None => fallback,
    }
}

/// The text of a field, or the empty text where the field is missing.
pub open spec fn text_or_empty(field: Option<&str>) -> Seq<char> {
    match field {
        Some(text) => text@,
        None => Seq::empty(),
    }
}

/// The text of a field, or the fallback where the field is missing or empty.
pub fn field_or(field: Option<&str>, fallback: &String) -> (r: String)
    ensures
        r@ == text_or(field, fallback@),
{
    match field {
        Some(text) => {
            if text.is_empty() {
                fallback.clone()
            } else {
                String::from_str(text)
            }
        },
        None => fallback.clone(),
    }
}

/// The text of a field, or the empty text where the field is missing.
pub fn field_or_empty(field: Option<&str>) -> (r: String)
    ensures
        r@ == text_or_empty(field),
{
    match field {
        Some(text) => String::from_str(text),
        None => String::new(),
    }
}

/// The truth value of a field: the fallback where the field is missing,
/// none where its text is neither `true` nor `false`.
pub open spec fn flag_or(field: Option<&str>, fallback: bool) -> Option<bool> {
    match field {
        Some(text) => parsed_flag(text@),
        None => Some(fallback),
    }
}

/// The truth value of a field.
pub fn field_flag(field: Option<&str>, fallback: bool) -> (r: Option<bool>)
    ensures
        r == flag_or(field, fallback),
{
    match field {
        Some(text) => parse_flag(text),
        None => Some(fallback),
    }
}

/// The changes to a user as a request carries them, each as text.
pub struct UserPatch<'a> {
    pub username: Option<&'a str>,
    pub password: Option<&'a str>,
    pub email: Option<&'a str>,
    pub phone: Option<&'a str>,
    pub verified: Option<&'a str>,
    pub suspended: Option<&'a str>,
    pub forcenewpw: Option<&'a str>,
    pub role: Option<&'a str>,
}

impl<'a> UserPatch<'a> {
    /// The user after an administrator's changes: a name, an email, a phone
    /// number or a role that is missing or empty leaves the one there is; a
    /// flag that is missing leaves the one there is; the password is the one
    /// submitted, or empty. Refused where a flag is neither `true` nor
    /// `false`.
    pub open spec fn merged(&self, prior: UserView) -> Result<UserView, RefusalView> {
        if flag_or(self.verified, prior.verified) is None {
            Err(bad_request("Invalid verified."@))
        } else if flag_or(self.suspended, prior.suspended) is None {
            Err(bad_request("Invalid suspended."@))
        } else if flag_or(self.forcenewpw, prior.forcenewpw) is None {
            Err(bad_request("Invalid forcenewpw."@))
        } else {
            Ok(
                UserView {
                    id: prior.id,
                    username: text_or(self.username, prior.username),
                    password: text_or_empty(self.password),
                    email: text_or(self.email, prior.email),
                    phone: text_or(self.phone, prior.phone),
                    verified: flag_or(self.verified, prior.verified)->0,
                    suspended: flag_or(self.suspended, prior.suspended)->0,
                    forcenewpw: flag_or(self.forcenewpw, prior.forcenewpw)->0,
                    role: text_or(self.role, prior.role),
                },
            )
        }
    }

    /// The user after the user's own changes: a name, an email or a phone
    /// number that is missing or empty leaves the one there is; the password
    /// is the one submitted, or empty; a submitted password ends the duty to
    /// change it. The flags and the role of the request count for nothing.
    pub open spec fn merged_own(&self, prior: UserView) -> UserView {
        UserView {
            username: text_or(self.username, prior.username),
            password: text_or_empty(self.password),
            email: text_or(self.email, prior.email),
            phone: text_or(self.phone, prior.phone),
            forcenewpw: if self.password is Some {
                false
            } else {
                prior.forcenewpw
            },
            ..prior
        }
    }

    /// The user after an administrator's changes.
    pub fn merge(&self, prior: &User) -> (r: Result<User, Refusal>)
        ensures
            match self.merged(prior@) {
                Ok(user) => r matches Ok(x) && x@ == user,
                Err(refusal) => r matches Err(x) && x@ == refusal,
            },
    {
        let verified = match field_flag(self.verified, prior.verified) {
            Some(b) => b,
            None => {
                return Err(refuse_bad("Invalid verified."));
            },
        };
        let suspended = match field_flag(self.suspended, prior.suspended) {
            Some(b) => b,
            None => {
                return Err(refuse_bad("Invalid suspended."));
            },
        };
        let forcenewpw = match field_flag(self.forcenewpw, prior.forcenewpw) {
            Some(b) => b,
            None => {
                return Err(refuse_bad("Invalid forcenewpw."));
            },
        };
        Ok(
            User {
                id: prior.id,
                username: field_or(self.username, &prior.username),
                password: field_or_empty(self.password),
                email: field_or(self.email, &prior.email),
                phone: field_or(self.phone, &prior.phone),
                verified,
                suspended,
                forcenewpw,
                role: field_or(self.role, &prior.role),
            },
        )
    }

    /// The user after the user's own changes.
    pub fn merge_own(&self, prior: &User) -> (r: User)
        ensures
            r@ == self.merged_own(prior@),
    {
        User {
            id: prior.id,
            username: field_or(self.username, &prior.username),
            password: field_or_empty(self.password),
            email: field_or(self.email, &prior.email),
            phone: field_or(self.phone, &prior.phone),
            verified: prior.verified,
            suspended: prior.suspended,
            forcenewpw: if self.password.is_some() {
                false
            } else {
                prior.forcenewpw
            },
            role: prior.role.clone(),
        }
    }
}

/// The first user that a search for a text finds.
pub open spec fn first_mentioning(store: Database, query: Seq<char>) -> Option<UserView> {
    first_of(store.users.filter(users_mentioning(query)))
}

/// The first user that a search for a text finds.
fn find_first_mentioning(conn: &ServerConnection, query: &str) -> (r: Option<User>)
    ensures
        match first_mentioning(conn.store(), query@) {
            Some(u) => r matches Some(x) && x@ == u,
            None => r is None,
        },
{
    match conn.search_users(String::from_str(query)) {
        Ok(found) => {
            assert(views_of(found@).len() == found@.len());
            if found.len() == 0 {
                None
            } else {
                assert(views_of(found@)[0] == found@[0]@);
                Some(found[0].clone())
            }
        },
        Err(_) => None,
    }
}

/// Updates the user that a request names by a key with the changes that it
/// carries, for an administrator, and answers with the user as the request
/// describes it. The user is the first with the key in the email or in the
/// text of the user's own key.
pub fn update_user(
    conn: &mut ServerConnection,
    email: Option<&str>,
    password: Option<&str>,
    id: &str,
    patch: &UserPatch<'_>,
) -> (r: Result<User, Refusal>)
    ensures
        match signed_in_admin(old(conn).store(), email, password) {
            Err(x) => turned_away(old(conn), final(conn), r, x),
            Ok(admin) => match parsed_int(id@) {
                None => turned_away(old(conn), final(conn), r, bad_request("Invalid id."@)),
                Some(key) => match first_mentioning(
                    old(conn).store(),
                    decimal(key),
                ) {
                    None => turned_away(
                        old(conn),
                        final(conn),
                        r,
                        bad_request("User not found."@),
                    ),
                    Some(prior) => match patch.merged(prior) {
                        Err(x) => turned_away(old(conn), final(conn), r, x),
                        Ok(user) => exists|salt: Seq<char>|
                            answered_with(
                                final(conn),
                                r,
                                user_updated(
                                    Some(admin),
                                    old(conn).store(),
                                    user,
                                    #[trigger] argon2_hash(user.password, salt),
                                ),
                                user,
                            ),
                    },
                },
            },
        },
{
    match admin(conn, email, password) {
        Ok(()) => {},
        Err(x) => {
            return Err(x);
        },
    }
    let key = match parse_int(id) {
        Some(key) => key,
        None => {
            return Err(refuse_bad("Invalid id."));
        },
    };
    let text = render_int(key as i64);
    let prior = match find_first_mentioning(conn, text.as_str()) {
        Some(prior) => prior,
        None => {
            return Err(refuse_bad("User not found."));
        },
    };
    let user = match patch.merge(&prior) {
        Ok(user) => user,
        Err(x) => {
            return Err(x);
        },
    };
    match conn.update_user(user.clone()) {
        Ok(()) => Ok(user),
        Err(e) => Err(refuse_failure(e)),
    }
}

/// Deletes the user that a request names, for the user who signs in with
/// its credentials. A request that names nobody is refused before anybody
/// signs in.
pub fn delete_user(
    conn: &mut ServerConnection,
    email: Option<&str>,
    password: Option<&str>,
    id: Option<&str>,
) -> (r: Result<(), Refusal>)
    ensures
        match id {
            None => turned_away(old(conn), final(conn), r, bad_request("Invalid id."@)),
            Some(text) => match signed_in(old(conn).store(), email, password) {
                Err(x) => turned_away(old(conn), final(conn), r, x),
                Ok(signed) => match first_mentioning(old(conn).store(), text@) {
                    None => turned_away(
                        old(conn),
                        final(conn),
                        r,
                        bad_request("User not found."@),
                    ),
                    Some(user) => answered(
                        final(conn),
                        r,
                        user_deleted(
                            Some(signed),
                            old(conn).store(),
                            user,
                        ),
                    ),
                },
            },
        },
{
    let text = match id {
        Some(text) => text,
        None => {
            return Err(refuse_bad("Invalid id."));
        },
    };
    match sign_in(conn, email, password) {
        Ok(()) => {},
        Err(x) => {
            return Err(x);
        },
    }
    let user = match find_first_mentioning(conn, text) {
        Some(user) => user,
        None => {
            return Err(refuse_bad("User not found."));
        },
    };
    pass_on(conn.delete_user(user))
}

/// Updates the user who signs in with the changes that a request carries.
/// The user is the first that a search for the email of the credentials
/// finds.
pub fn update_self(
    conn: &mut ServerConnection,
    email: Option<&str>,
    password: Option<&str>,
    patch: &UserPatch<'_>,
) -> (r: Result<(), Refusal>)
    ensures
        match signed_in(old(conn).store(), email, password) {
            Err(x) => turned_away(old(conn), final(conn), r, x),
            Ok(signed) => match first_mentioning(old(conn).store(), email->0@) {
                None => turned_away(old(conn), final(conn), r, breakdown("User not found."@)),
                Some(prior) => exists|salt: Seq<char>|
                    answered(
                        final(conn),
                        r,
                        user_updated(
                            Some(signed),
                            old(conn).store(),
                            patch.merged_own(prior),
                            #[trigger] argon2_hash(
                                patch.merged_own(prior).password,
                                salt,
                            ),
                        ),
                    ),
            },
        },
{
    match sign_in(conn, email, password) {
        Ok(()) => {},
        Err(x) => {
            return Err(x);
        },
    }
    let address = match email {
        Some(address) => address,
        None => {
            return Err(refuse_breakdown("User not found."));
        },
    };
    let prior = match find_first_mentioning(conn, address) {
        Some(prior) => prior,
        None => {
            return Err(refuse_breakdown("User not found."));
        },
    };
    let user = patch.merge_own(&prior);
    pass_on(conn.update_user(user))
}

/// Enrolls the student who signs in in the courses that a request names by
/// a key, and answers with the user: the first that a search for the email
/// of the credentials finds. The courses are those with the key in the text
/// of their own.
pub fn enroll(
    conn: &mut ServerConnection,
    email: Option<&str>,
    password: Option<&str>,
    course_id: Option<&str>,
) -> (r: Result<User, Refusal>)
    ensures
        match signed_in(old(conn).store(), email, password) {
            Err(x) => turned_away(old(conn), final(conn), r, x),
            Ok(signed) => match first_mentioning(old(conn).store(), email->0@) {
                None => turned_away(old(conn), final(conn), r, breakdown("User not found."@)),
                Some(user) => match course_id {
                    None => turned_away(
                        old(conn),
                        final(conn),
                        r,
                        bad_request("Missing course id"@),
                    ),
                    Some(key) => exists|month: int|
                        1 <= month <= 12 && answered_with(
                            final(conn),
                            r,
                            enrollments_written(
                                Some(signed),
                                old(conn).store(),
                                Action::Insert,
                                old(conn).store().courses.filter(courses_mentioning(key@)),
                                #[trigger] semester_of(month),
                            ),
                            user,
                        ),
                },
            },
        },
{
    match sign_in(conn, email, password) {
        Ok(()) => {},
        Err(x) => {
            return Err(x);
        },
    }
    let address = match email {
        Some(address) => address,
        None => {
            return Err(refuse_breakdown("User not found."));
        },
    };
    let user = match find_first_mentioning(conn, address) {
        Some(user) => user,
        None => {
            return Err(refuse_breakdown("User not found."));
        },
    };
    let key = match course_id {
        Some(key) => key,
        None => {
            return Err(refuse_bad("Missing course id"));
        },
    };
    let courses = match conn.search_courses(String::from_str(key)) {
        Ok(courses) => courses,
        Err(e) => {
            return Err(refuse_failure(e));
        },
    };
    match conn.enroll_courses(courses) {
        Ok(()) => Ok(user),
        Err(e) => Err(refuse_failure(e)),
    }
}

/// Withdraws the student who signs in from the courses that a request names
/// by a key, and answers with the user, as `enroll` does.
pub fn unenroll(
    conn: &mut ServerConnection,
    email: Option<&str>,
    password: Option<&str>,
    course_id: Option<&str>,
) -> (r: Result<User, Refusal>)
    ensures
        match signed_in(old(conn).store(), email, password) {
            Err(x) => turned_away(old(conn), final(conn), r, x),
            Ok(signed) => match first_mentioning(old(conn).store(), email->0@) {
                None => turned_away(old(conn), final(conn), r, breakdown("User not found."@)),
                Some(user) => match course_id {
                    None => turned_away(
                        old(conn),
                        final(conn),
                        r,
                        bad_request("Missing course id"@),
                    ),
                    Some(key) => answered_with(
                        final(conn),
                        r,
                        enrollments_written(
                            Some(signed),
                            old(conn).store(),
                            Action::Delete,
                            old(conn).store().courses.filter(courses_mentioning(key@)),
                            Seq::empty(),
                        ),
                        user,
                    ),
                },
            },
        },
{
    match sign_in(conn, email, password) {
        Ok(()) => {},
        Err(x) => {
            return Err(x);
        },
    }
    let address = match email {
        Some(address) => address,
        None => {
            return Err(refuse_breakdown("User not found."));
        },
    };
    let user = match find_first_mentioning(conn, address) {
        Some(user) => user,
        None => {
            return Err(refuse_breakdown("User not found."));
        },
    };
    let key = match course_id {
        Some(key) => key,
        None => {
            return Err(refuse_bad("Missing course id"));
        },
    };
    let courses = match conn.search_courses(String::from_str(key)) {
        Ok(courses) => courses,
        Err(e) => {
            return Err(refuse_failure(e));
        },
    };
    match conn.drop_courses(courses) {
        Ok(()) => Ok(user),
        Err(e) => Err(refuse_failure(e)),
    }
}

/// Signs a user in and answers with the first user that a search for the
/// email finds. Refused where the email or the password is missing, where
/// the search finds nobody, and where the session layer refuses the two.
pub fn login(conn: &mut ServerConnection, email: Option<&str>, password: Option<&str>) -> (r:
    Result<User, Refusal>)
    ensures
        final(conn).store() == old(conn).store(),
        match (email, password) {
            (Some(e), Some(p)) => match first_mentioning(old(conn).store(), e@) {
                None => r matches Err(x) && x@ == bad_request("User not found"@)
                    && final(conn).session() == old(conn).session(),
                Some(user) => {
                    let found = first_of(named(old(conn).store(), e@));
                    match login_verdict_of(
                        found,
                        found matches Some(u) && argon2_verifies(u.password, p@),
                    ) {
                        Ok(()) => r matches Ok(x) && x@ == user && final(conn).session()
                            == found,
                        Err(
                            kind
                        ) => r matches Err(
                            x
                        ) && x@ == failure(kind) && final(conn).session() == old(conn).session(),
                    }
                },
            },
            _ => r matches Err(x) && x@ == bad_request("Missing username or password"@)
                && final(conn).session() == old(conn).session(),
        },
{
    let (e, p) = match (email, password) {
        (Some(e), Some(p)) => (e, p),
        _ => {
            return Err(refuse_bad("Missing username or password"));
        },
    };
    let user = match find_first_mentioning(conn, e) {
        Some(user) => user,
        None => {
            return Err(refuse_bad("User not found"));
        },
    };
    let address = String::from_str(e);
    proof {
        lemma_named(conn.store(), address);
    }
    match conn.login(address, String::from_str(p)) {
        Ok(()) => Ok(user),
        Err(kind) => Err(refuse_failure(kind)),
    }
}

/// The user that a registration describes: the store gives the key; the
/// user is neither suspended nor bound to change the password; a missing
/// phone number is an empty one.
pub open spec fn candidate(
    username: Seq<char>,
    password: Seq<char>,
    email: Seq<char>,
    phone: Option<&str>,
    role: Seq<char>,
    verified: bool,
) -> UserView {
    UserView {
        id: 0,
        username,
        password,
        email,
        phone: text_or_empty(phone),
        verified,
        suspended: false,
        forcenewpw: false,
        role,
    }
}

/// Registers the user that a request describes, in a role.
fn enroll_user(
    conn: &mut ServerConnection,
    username: &str,
    password: &str,
    email: &str,
    phone: Option<&str>,
    role: &str,
    verified: bool,
) -> (r: Result<(), Refusal>)
    ensures
        exists|salt: Seq<char>|
            answered(
                final(conn),
                r,
                registered(
                    old(conn).session(),
                    old(conn).store(),
                    candidate(username@, password@, email@, phone, role@, verified),
                    #[trigger] argon2_hash(password@, salt),
                ),
            ),
{
    let user = User {
        id: 0,
        username: String::from_str(username),
        password: String::from_str(password),
        email: String::from_str(email),
        phone: field_or_empty(phone),
        verified,
        suspended: false,
        forcenewpw: false,
        role: String::from_str(role),
    };
    pass_on(conn.register_user(user))
}

/// Registers a student. Refused where the name, the password or the email
/// is missing, and where the session layer refuses the registration.
pub fn register(
    conn: &mut ServerConnection,
    username: Option<&str>,
    password: Option<&str>,
    email: Option<&str>,
    phone: Option<&str>,
) -> (r: Result<(), Refusal>)
    ensures
        match (username, password, email) {
            (Some(u), Some(p), Some(e)) => exists|salt: Seq<char>|
                answered(
                    final(conn),
                    r,
                    registered(
                        old(conn).session(),
                        old(conn).store(),
                        candidate(u@, p@, e@, phone, "student"@, false),
                        #[trigger] argon2_hash(p@, salt),
                    ),
                ),
            _ => turned_away(
                old(conn),
                final(conn),
                r,
                bad_request("Missing username, password, email, or role"@),
            ),
        },
{
    match (username, password, email) {
        (Some(u), Some(p), Some(e)) => enroll_user(conn, u, p, e, phone, "student", false),
        _ => Err(refuse_bad("Missing username, password, email, or role")),
    }
}

/// Registers an administrator, for a request that carries the access code.
/// Refused where the code is missing, where it is not the one expected,
/// where the name, the password or the email is missing, and where the
/// session layer refuses the registration.
pub fn register_admin(
    conn: &mut ServerConnection,
    access_code: Option<&str>,
    expected_code: &str,
    username: Option<&str>,
    password: Option<&str>,
    email: Option<&str>,
    phone: Option<&str>,
) -> (r: Result<(), Refusal>)
    ensures
        match access_code {
            None => turned_away(old(conn), final(conn), r, bad_request("Missing access code."@)),
            Some(code) => if code@ != expected_code@ {
                turned_away(old(conn), final(conn), r, bad_request("Invalid access code."@))
            } else {
                match (username, password, email) {
                    (Some(u), Some(p), Some(e)) => exists|salt: Seq<char>|
                        answered(
                            final(conn),
                            r,
                            registered(
                                old(conn).session(),
                                old(conn).store(),
                                candidate(u@, p@, e@, phone, "admin"@, true),
                                #[trigger] argon2_hash(p@, salt),
                            ),
                        ),
                    _ => turned_away(
                        old(conn),
                        final(conn),
                        r,
                        bad_request("Missing username, password or email."@),
                    ),
                }
            },
        },
{
    match access_code {
        None => {
            return Err(refuse_bad("Missing access code."));
        },
        Some(code) => {
            if !same_text(code, expected_code) {
                return Err(refuse_bad("Invalid access code."));
            }
        },
    }
    match (username, password, email) {
        (Some(u), Some(p), Some(e)) => enroll_user(conn, u, p, e, phone, "admin", true),
        _ => Err(refuse_bad("Missing username, password or email.")),
    }
}

/// The names of the three roles are three different texts.
pub proof fn lemma_roles_differ()
    ensures
        "admin"@ != "teacher"@,
        "admin"@ != "student"@,
        "teacher"@ != "student"@,
{
    reveal_strlit("admin");
    reveal_strlit("teacher");
    reveal_strlit("student");
    assert("admin"@.len() == 5);
    assert("teacher"@.len() == 7);
    assert("teacher"@[0] == 't');
    assert("student"@[0] == 's');
}

/// The courses that one of these enrollments is in, as a predicate on
/// courses.
pub open spec fn taken_in(enrollments: Seq<StudentCourseView>) -> spec_fn(CoursesView) -> bool {
    |c: CoursesView|
        exists|i: int| 0 <= i < enrollments.len() && (#[trigger] enrollments[i]).course_id == c.id
}

/// Whether one of these enrollments is in this course.
fn is_taken(enrollments: &Vec<StudentCourse>, course: &Courses) -> (r: bool)
    ensures
        r == taken_in(views_of(enrollments@))(course@),
{
    let mut i: usize = 0;
    while i < enrollments.len()
        invariant
            i <= enrollments.len(),
            forall|j: int| 0 <= j < i ==> (#[trigger] views_of(enrollments@)[j]).course_id
                != course.id,
        decreases enrollments.len() - i,
    {
        if enrollments[i].course_id == course.id {
            assert(views_of(enrollments@)[i as int].course_id == course@.id);
            return true;
        }
        i += 1;
    }
    false
}

/// The courses that one of these enrollments is in, in their order.
fn courses_taken(courses: &Vec<Courses>, enrollments: &Vec<StudentCourse>) -> (out: Vec<Courses>)
    ensures
        views_of(out@) == views_of(courses@).filter(taken_in(views_of(enrollments@))),
{
    let mut out: Vec<Courses> = Vec::new();
    let mut i: usize = 0;
    proof {
        lemma_views_whole(courses@);
        lemma_views_whole(out@);
        reveal(Seq::filter);
    }
    while i < courses.len()
        invariant
            i <= courses.len(),
            views_of(out@) == views_of(courses@.take(i as int)).filter(
                taken_in(views_of(enrollments@)),
            ),
            views_of(courses@.take(courses.len() as int)) == views_of(courses@),
        decreases courses.len() - i,
    {
        proof {
            lemma_views_step(courses@, i as int);
            views_of(courses@.take(i as int)).lemma_filter_push(
                courses@[i as int]@,
                taken_in(views_of(enrollments@)),
            );
        }
        if is_taken(enrollments, &courses[i]) {
            proof {
                lemma_views_push(out@, courses@[i as int]);
            }
            out.push(courses[i].clone());
        }
        i += 1;
    }
    out
}

/// What a user sees of the user's own records: a student the enrollments,
/// the standing and the courses enrolled in; a teacher the account with the
/// department; everybody else the user alone.
#[derive(Debug, PartialEq)]
pub enum OwnAccount {
    Student {
        user: User,
        enrollments: Vec<StudentCourse>,
        standing: StudentAccount,
        courses: Vec<Courses>,
    },
    Teacher { user: User, teacher_account: TeacherAccount },
    Other { user: User },
}

/// What an `OwnAccount` holds, as plain values.
pub enum OwnAccountView {
    Student {
        user: UserView,
        enrollments: Seq<StudentCourseView>,
        standing: StudentAccountView,
        courses: Seq<CoursesView>,
    },
    Teacher { user: UserView, teacher_account: TeacherAccountView },
    Other { user: UserView },
}

impl View for OwnAccount {
    type V = OwnAccountView;

    open spec fn view(&self) -> OwnAccountView {
        match self {
            OwnAccount::Student { user, enrollments, standing, courses } =>
                OwnAccountView::Student {
                user: user@,
                enrollments: views_of(enrollments@),
                standing: standing@,
                courses: views_of(courses@),
            },
            OwnAccount::Teacher { user, teacher_account } => OwnAccountView::Teacher {
                user: user@,
                teacher_account: teacher_account@,
            },
            OwnAccount::Other { user } => OwnAccountView::Other { user: user@ },
        }
    }
}

/// What the user who signed in sees, given the user that the answer shows:
/// for a student the enrollments, the standing and the courses enrolled in,
/// refused where the student has no account; for a teacher the account of
/// the user shown, refused where there is none; for everybody else the user
/// alone.
pub open spec fn own_account(store: Database, signed: UserView, user: UserView) -> Result<
    OwnAccountView,
    RefusalView,
> {
    if has_role(signed.role, "student"@) {
        match first_of(accounts_of_student(store, signed.id)) {
            None => Err(failure(ErrorKind::NotFound)),
            Some(standing) => Ok(
                OwnAccountView::Student {
                    user,
                    enrollments: enrollments_of_student(store, signed.id),
                    standing,
                    courses: store.courses.filter(
                        taken_in(enrollments_of_student(store, signed.id)),
                    ),
                },
            ),
        }
    } else if has_role(signed.role, "teacher"@) {
        match first_of(store.teacher_accounts.filter(account_of_teacher(user.id))) {
            None => Err(breakdown("A teacher account with this Teacher ID does not exist."@)),
            Some(teacher_account) => Ok(OwnAccountView::Teacher { user, teacher_account }),
        }
    } else {
        Ok(OwnAccountView::Other { user })
    }
}

/// What the user who signs in sees of the user's own records. The user
/// shown is the first that a search for the email of the credentials finds.
pub fn get_self(conn: &mut ServerConnection, email: Option<&str>, password: Option<&str>) -> (r:
    Result<OwnAccount, Refusal>)
    ensures
        final(conn).store() == old(conn).store(),
        match signed_in(old(conn).store(), email, password) {
            Err(x) => r matches Err(y) && y@ == x,
            Ok(signed) => match first_mentioning(old(conn).store(), email->0@) {
                None => r matches Err(y) && y@ == breakdown("User not found."@),
                Some(user) => match own_account(old(conn).store(), signed, user) {
                    Ok(account) => r matches Ok(x) && x@ == account,
                    Err(refusal) => r matches Err(y) && y@ == refusal,
                },
            },
        },
{
    match sign_in(conn, email, password) {
        Ok(()) => {},
        Err(x) => {
            return Err(x);
        },
    }
    let address = match email {
        Some(address) => address,
        None => {
            return Err(refuse_breakdown("User not found."));
        },
    };
    let user = match find_first_mentioning(conn, address) {
        Some(user) => user,
        None => {
            return Err(refuse_breakdown("User not found."));
        },
    };
    proof {
        lemma_roles_differ();
    }
    if conn.is_student() {
        let enrollments = match conn.list_enrollments() {
            Ok(enrollments) => enrollments,
            Err(e) => {
                return Err(refuse_failure(e));
            },
        };
        let all = match get_courses_of(conn) {
            Ok(all) => all,
            Err(x) => {
                return Err(x);
            },
        };
        let courses = courses_taken(&all, &enrollments);
        let standing = match conn.get_student_standing() {
            Ok(standing) => standing,
            Err(e) => {
                return Err(refuse_failure(e));
            },
        };
        Ok(OwnAccount::Student { user, enrollments, standing, courses })
    } else if conn.is_teacher() {
        let accounts = match conn.get_teacher_accounts() {
            Ok(accounts) => accounts,
            Err(e) => {
                return Err(refuse_failure(e));
            },
        };
        match teacher_account_of(&accounts, user.id) {
            Some(teacher_account) => Ok(OwnAccount::Teacher { user, teacher_account }),
            None => Err(
                refuse_breakdown("A teacher account with this Teacher ID does not exist."),
            ),
        }
    } else {
        Ok(OwnAccount::Other { user })
    }
}

/// Every course.
fn get_courses_of(conn: &ServerConnection) -> (r: Result<Vec<Courses>, Refusal>)
    ensures
        r matches Ok(all) && views_of(all@) == conn.store().courses,
{
    match get_courses(conn) {
        Ok(all) => Ok(all.courses),
        Err(x) => Err(x),
    }
}

} // verus!
