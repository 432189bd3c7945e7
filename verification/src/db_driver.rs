//! The record store: the six tables held in memory, a uniform `find`,
//! `insert`, `update` and `delete` over records of every kind, and a journal
//! of the statements that the writes ask of a backing store.

use crate::consistency::{merge_user, restate, standing_of};
use crate::error::{ErrorKind, Operation};
use crate::filter::{Associativity, associativity_or_default, Filter};
use crate::laws::{
    lemma_apply_all_keeps_wf, lemma_receive_all_keeps_wf, lemma_records_kind, lemma_select_sound,
    lemma_select_typed,
};
use crate::lemmas::{
    lemma_top_key_bound, lemma_views_push, lemma_views_step, lemma_views_whole, views_of,
};
use crate::model::{
    columns_exist, course_id, Database, department_id, filters_fit, satisfies, selection,
    storage_full, student_account_id, teacher_account_id, unreadable, user_id,
};
use crate::statement::{Pending, Statement, StatementView};
use crate::table_models::{
    Action, Courses, CoursesView, Departments, DepartmentsView, StudentAccount,
    StudentAccountView, StudentCourse, StudentCourseView, Table, TeacherAccount,
    TeacherAccountView, ToSQL, User, UserView,
};
use crate::tables::{
    courses_has_id, courses_with, courses_without_id, departments_has_id, departments_with,
    departments_without_id, student_accounts_clash, student_accounts_has_id,
    student_accounts_has_owner, student_accounts_with, student_accounts_without_id,
    student_accounts_without_owner, student_courses_has_key, student_courses_with,
    student_courses_without_key, tagged_courses, tagged_departments, tagged_student_accounts,
    tagged_student_courses, tagged_teacher_accounts, tagged_users, teacher_accounts_clash,
    teacher_accounts_has_id, teacher_accounts_has_owner, teacher_accounts_with,
    teacher_accounts_without_id, teacher_accounts_without_owner, top_course_id,
    top_department_id, top_student_account_id, top_teacher_account_id, top_user_id, users_clash,
    users_has_email, users_has_id, users_without_id,
};
use crate::text::same_text;
use vstd::prelude::*;
use vstd::string::*;

verus! {

/// How two tables are joined.
#[derive(Debug, Clone, Copy, PartialEq, Eq, Structural)]
pub enum Join {
    Inner,
    Left,
    Right,
    Full,
}

impl Join {
    /// The join's keyword, with a space before and after it.
    pub open spec fn keyword_text(&self) -> Seq<char> {
        match self {
            Join::Inner => " INNER JOIN "@,
            Join::Left => " LEFT OUTER JOIN "@,
            Join::Right => " RIGHT OUTER JOIN "@,
            Join::Full => " FULL OUTER JOIN "@,
        }
    }

    /// The join's keyword, with a space before and after it.
    pub fn keyword(&self) -> (r: &'static str)
        ensures
            r@ == self.keyword_text(),
    {
        match self {
            Join::Inner => " INNER JOIN ",
            Join::Left => " LEFT OUTER JOIN ",
            Join::Right => " RIGHT OUTER JOIN ",
            Join::Full => " FULL OUTER JOIN ",
        }
    }
}

/// A record of any of the six kinds, tagged by its kind.
#[derive(Debug, PartialEq)]
pub enum ReceiverType {
    User(User),
    StudentAccount(StudentAccount),
    TeacherAccount(TeacherAccount),
    Course(Courses),
    StudentCourse(StudentCourse),
    Department(Departments),
}

/// What a `ReceiverType` holds, as plain values.
pub enum ReceiverTypeView {
    User(UserView),
    StudentAccount(StudentAccountView),
    TeacherAccount(TeacherAccountView),
    Course(CoursesView),
    StudentCourse(StudentCourseView),
    Department(DepartmentsView),
}

impl ReceiverTypeView {
    /// The statement that carries out `a` for the record.
    pub open spec fn statement(self, a: Action) -> StatementView {
        match self {
            ReceiverTypeView::User(x) => x.statement(a),
            ReceiverTypeView::StudentAccount(x) => x.statement(a),
            ReceiverTypeView::TeacherAccount(x) => x.statement(a),
            ReceiverTypeView::Course(x) => x.statement(a),
            ReceiverTypeView::StudentCourse(x) => x.statement(a),
            ReceiverTypeView::Department(x) => x.statement(a),
        }
    }

    /// The entity kind of the record.
    pub open spec fn table_of(&self) -> Table {
        match self {
            ReceiverTypeView::User(_) => Table::Users,
            ReceiverTypeView::StudentAccount(_) => Table::StudentAccount,
            ReceiverTypeView::TeacherAccount(_) => Table::TeacherAccount,
            ReceiverTypeView::Course(_) => Table::Courses,
            ReceiverTypeView::StudentCourse(_) => Table::StudentCourses,
            ReceiverTypeView::Department(_) => Table::Departments,
        }
    }
}

impl View for ReceiverType {
    type V = ReceiverTypeView;

    open spec fn view(&self) -> ReceiverTypeView {
        match self {
            ReceiverType::User(x) => ReceiverTypeView::User(x@),
            ReceiverType::StudentAccount(x) => ReceiverTypeView::StudentAccount(x@),
            ReceiverType::TeacherAccount(x) => ReceiverTypeView::TeacherAccount(x@),
            ReceiverType::Course(x) => ReceiverTypeView::Course(x@),
            ReceiverType::StudentCourse(x) => ReceiverTypeView::StudentCourse(x@),
            ReceiverType::Department(x) => ReceiverTypeView::Department(x@),
        }
    }
}

impl ReceiverType {
    /// The entity kind of the record.
    pub fn table(&self) -> (r: Table)
        ensures
            r == self@.table_of(),
    {
        match self {
            ReceiverType::User(_) => Table::Users,
            ReceiverType::StudentAccount(_) => Table::StudentAccount,
            ReceiverType::TeacherAccount(_) => Table::TeacherAccount,
            ReceiverType::Course(_) => Table::Courses,
            ReceiverType::StudentCourse(_) => Table::StudentCourses,
            ReceiverType::Department(_) => Table::Departments,
        }
    }
}

impl Clone for ReceiverType {
    fn clone(&self) -> (r: Self)
        ensures
            r == *self,
    {
        match self {
            ReceiverType::User(x) => ReceiverType::User(x.clone()),
            ReceiverType::StudentAccount(x) => ReceiverType::StudentAccount(x.clone()),
            ReceiverType::TeacherAccount(x) => ReceiverType::TeacherAccount(x.clone()),
            ReceiverType::Course(x) => ReceiverType::Course(x.clone()),
            ReceiverType::StudentCourse(x) => ReceiverType::StudentCourse(x.clone()),
            ReceiverType::Department(x) => ReceiverType::Department(x.clone()),
        }
    }
}

impl ToSQL for ReceiverType {
    open spec fn statement(&self, a: Action) -> StatementView {
        self@.statement(a)
    }

    fn to_sql(&self, a: Action) -> (r: Statement) {
        match self {
            ReceiverType::User(x) => x.to_sql(a),
            ReceiverType::StudentAccount(x) => x.to_sql(a),
            ReceiverType::TeacherAccount(x) => x.to_sql(a),
            ReceiverType::Course(x) => x.to_sql(a),
            ReceiverType::StudentCourse(x) => x.to_sql(a),
            ReceiverType::Department(x) => x.to_sql(a),
        }
    }
}

/// The failure of an insert into a table whose keys have run out.
fn full(table: Table) -> (e: ErrorKind)
    ensures
        e == storage_full(table),
{
    ErrorKind::StorageFailure { table, operation: Operation::Insert }
}

/// Whether a command ended as the model says: done, with the store as the
/// model has it, or refused with the model's error and the store as it was.
pub open spec fn outcome_is(
    before: Database,
    after: Database,
    r: Result<(), ErrorKind>,
    expected: Result<Database, ErrorKind>,
) -> bool {
    match expected {
        Ok(db) => r is Ok && after == db,
        Err(e) => r == Err::<(), ErrorKind>(e) && after == before,
    }
}

/// Whether a record satisfies the predicates of a query.
pub fn satisfied(record: &ReceiverType, filters: &Vec<Filter>, assoc: Associativity) -> (b: bool)
    ensures
        b == satisfies(record@, filters@, assoc),
{
    if filters.len() == 0 {
        return true;
    }
    let mut i: usize = 0;
    match assoc {
        Associativity::And => {
            while i < filters.len()
                invariant
                    i <= filters.len(),
                    filters.len() > 0,
                    assoc == Associativity::And,
                    forall|j: int| 0 <= j < i ==> (#[trigger] filters@[j]).holds(record@),
                decreases filters.len() - i,
            {
                if !filters[i].matches(record) {
                    return false;
                }
                i += 1;
            }
            true
        },
        Associativity::Or => {
            while i < filters.len()
                invariant
                    i <= filters.len(),
                    filters.len() > 0,
                    assoc == Associativity::Or,
                    forall|j: int| 0 <= j < i ==> !(#[trigger] filters@[j]).holds(record@),
                decreases filters.len() - i,
            {
                if filters[i].matches(record) {
                    return true;
                }
                i += 1;
            }
            false
        },
    }
}

/// Whether every predicate is about this entity kind.
pub fn fits(table: Table, filters: &Vec<Filter>) -> (b: bool)
    ensures
        b == filters_fit(table, filters@),
{
    let mut i: usize = 0;
    while i < filters.len()
        invariant
            i <= filters.len(),
            forall|j: int| 0 <= j < i ==> (#[trigger] filters@[j]).table_of() == table,
        decreases filters.len() - i,
    {
        if filters[i].table() != table {
            return false;
        }
        i += 1;
    }
    true
}

/// Whether every predicate names a column that its table has.
pub fn columns_known(filters: &Vec<Filter>) -> (b: bool)
    ensures
        b == columns_exist(filters@),
{
    let mut i: usize = 0;
    while i < filters.len()
        invariant
            i <= filters.len(),
            forall|j: int| 0 <= j < i ==> (#[trigger] filters@[j]).column_exists(),
        decreases filters.len() - i,
    {
        if !filters[i].has_column() {
            return false;
        }
        i += 1;
    }
    true
}

/// The records that satisfy the predicates of a query, in their order.
fn chosen(all: &Vec<ReceiverType>, filters: &Vec<Filter>, assoc: Associativity) -> (out: Vec<
    ReceiverType,
>)
    ensures
        views_of(out@) == views_of(all@).filter(selection(filters@, assoc)),
{
    let mut out: Vec<ReceiverType> = Vec::new();
    let mut i: usize = 0;
    proof {
        lemma_views_whole(all@);
        lemma_views_whole(out@);
        reveal(Seq::filter);
    }
    while i < all.len()
        invariant
            i <= all.len(),
            views_of(out@) == views_of(all@.take(i as int)).filter(selection(filters@, assoc)),
            views_of(all@.take(all.len() as int)) == views_of(all@),
        decreases all.len() - i,
    {
        proof {
            lemma_views_step(all@, i as int);
            views_of(all@.take(i as int)).lemma_filter_push(
                all@[i as int]@,
                selection(filters@, assoc),
            );
        }
        if satisfied(&all[i], filters, assoc) {
            proof {
                lemma_views_push(out@, all@[i as int]);
            }
            out.push(all[i].clone());
        }
        i += 1;
    }
    out
}

/// The record store: the rows of the six tables, in the order in which they
/// came, and a journal of the statements that its writes ask of the backing
/// store.
pub struct DbDriver {
    users: Vec<User>,
    student_accounts: Vec<StudentAccount>,
    teacher_accounts: Vec<TeacherAccount>,
    courses: Vec<Courses>,
    student_courses: Vec<StudentCourse>,
    departments: Vec<Departments>,
    journal: Vec<Pending>,
}

impl View for DbDriver {
    type V = Database;

    closed spec fn view(&self) -> Database {
        Database {
            users: views_of(self.users@),
            student_accounts: views_of(self.student_accounts@),
            teacher_accounts: views_of(self.teacher_accounts@),
            courses: views_of(self.courses@),
            student_courses: views_of(self.student_courses@),
            departments: views_of(self.departments@),
            journal: views_of(self.journal@),
        }
    }
}

impl DbDriver {
    /// A store with no records and an empty journal.
    pub fn init() -> (r: DbDriver)
        ensures
            r@ == Database::empty(),
    {
        let r = DbDriver {
            users: Vec::new(),
            student_accounts: Vec::new(),
            teacher_accounts: Vec::new(),
            courses: Vec::new(),
            student_courses: Vec::new(),
            departments: Vec::new(),
            journal: Vec::new(),
        };
        proof {
            lemma_views_whole(r.users@);
            lemma_views_whole(r.student_accounts@);
            lemma_views_whole(r.teacher_accounts@);
            lemma_views_whole(r.courses@);
            lemma_views_whole(r.student_courses@);
            lemma_views_whole(r.departments@);
            lemma_views_whole(r.journal@);
        }
        r
    }

    /// The records of one entity kind, each tagged with its kind.
    pub(crate) fn records(&self, table: Table) -> (out: Vec<ReceiverType>)
        ensures
            views_of(out@) == self@.records(table),
    {
        match table {
            Table::Users => tagged_users(&self.users),
            Table::StudentAccount => tagged_student_accounts(&self.student_accounts),
            Table::TeacherAccount => tagged_teacher_accounts(&self.teacher_accounts),
            Table::Courses => tagged_courses(&self.courses),
            Table::StudentCourses => tagged_student_courses(&self.student_courses),
            Table::Departments => tagged_departments(&self.departments),
        }
    }

    /// The records of one entity kind that satisfy the predicates, in the
    /// order in which the store holds them. With no predicate, every record
    /// of the kind. The predicates combine under `join_mode`, or under `And`
    /// where none is given.
    ///
    /// A predicate on another entity kind refuses the whole query with
    /// `InvalidFilter`. A predicate on a column that the table does not have
    /// refuses it with `StorageFailure`.
    pub fn find(
        &self,
        table: Table,
        filters: Vec<Filter>,
        join_mode: Option<Associativity>,
    ) -> (r: Result<Vec<ReceiverType>, ErrorKind>)
        ensures
            match r {
                Ok(found) => {
                    &&& filters_fit(table, filters@)
                    &&& columns_exist(filters@)
                    &&& views_of(found@) == self@.select(
                        table,
                        filters@,
                        associativity_or_default(join_mode),
                    )
                    &&& forall|i: int|
                        0 <= i < found@.len() ==> satisfies(
                            (#[trigger] found@[i])@,
                            filters@,
                            associativity_or_default(join_mode),
                        )
                    &&& filters@.len() == 0 ==> views_of(found@) == self@.records(table)
                    &&& forall|i: int|
                        0 <= i < found@.len() ==> (#[trigger] found@[i])@.table_of() == table
                },
                Err(e) => if filters_fit(table, filters@) {
                    e == unreadable(table) && !columns_exist(filters@)
                } else {
                    e == ErrorKind::InvalidFilter
                },
            },
    {
        let assoc = match join_mode {
            Some(a) => a,
            None => Associativity::And,
        };
        if !fits(table, &filters) {
            return Err(ErrorKind::InvalidFilter);
        }
        if !columns_known(&filters) {
            return Err(ErrorKind::StorageFailure { table, operation: Operation::Read });
        }
        let all = self.records(table);
        let found = chosen(&all, &filters, assoc);
        proof {
            lemma_select_sound(self@, table, filters@, assoc);
            assert forall|i: int| 0 <= i < found@.len() implies satisfies(
                (#[trigger] found@[i])@,
                filters@,
                assoc,
            ) && found@[i]@.table_of() == table by {
                let kept = self@.select(table, filters@, assoc);
                assert(views_of(found@).len() == found@.len());
                assert(kept[i] == found@[i]@);
                assert(self@.records(table).contains(kept[i]));
                lemma_records_kind(self@, table);
                let n = choose|n: int|
                    0 <= n < self@.records(table).len() && self@.records(table)[n] == kept[i];
                assert(self@.records(table)[n].table_of() == table);
            }
        }
        Ok(found)
    }
}

impl DbDriver {
    /// Brings the accounts of one user in line with the user's role.
    fn sync_accounts(&mut self, user: i32, role: &String) -> (r: Result<(), ErrorKind>)
        ensures
            outcome_is(
                old(self)@,
                final(self)@,
                r,
                old(self)@.with_accounts_for(user, role@),
            ),
    {
        let is_student = same_text(role.as_str(), "student");
        let is_teacher = same_text(role.as_str(), "teacher");
        let make_student = is_student && !student_accounts_has_owner(
            &self.student_accounts,
            user,
        );
        let make_teacher = is_teacher && !teacher_accounts_has_owner(
            &self.teacher_accounts,
            user,
        );
        let top_student = top_student_account_id(&self.student_accounts);
        let top_teacher = top_teacher_account_id(&self.teacher_accounts);
        proof {
            lemma_top_key_bound(views_of(self.student_accounts@), student_account_id());
            lemma_top_key_bound(views_of(self.teacher_accounts@), teacher_account_id());
        }
        if make_student && top_student == i32::MAX {
            return Err(full(Table::StudentAccount));
        }
        if make_teacher && top_teacher == i32::MAX {
            return Err(full(Table::TeacherAccount));
        }
        if is_student {
            if make_student {
                let row = StudentAccount {
                    id: top_student + 1,
                    student_id: user,
                    advisor_id: 0,
                    discipline: String::new(),
                    enrollment: String::new(),
                    cgpa: 0,
                    can_grad: false,
                    cur_credit: 0,
                    cum_credit: 0,
                };
                proof {
                    lemma_views_push(self.student_accounts@, row);
                }
                self.student_accounts.push(row);
            }
        } else {
            self.student_accounts = student_accounts_without_owner(&self.student_accounts, user);
        }
        if is_teacher {
            if make_teacher {
                let row = TeacherAccount { id: top_teacher + 1, teacher_id: user, dept_id: 0 };
                proof {
                    lemma_views_push(self.teacher_accounts@, row);
                }
                self.teacher_accounts.push(row);
            }
        } else {
            self.teacher_accounts = teacher_accounts_without_owner(&self.teacher_accounts, user);
        }
        Ok(())
    }

    fn insert_user(&mut self, data: &User) -> (r: Result<(), ErrorKind>)
        ensures
            outcome_is(old(self)@, final(self)@, r, old(self)@.insert_user(data@)),
    {
        if users_has_email(&self.users, &data.email) {
            return Err(ErrorKind::Conflict);
        }
        let top = top_user_id(&self.users);
        proof {
            lemma_top_key_bound(views_of(self.users@), user_id());
        }
        if top == i32::MAX {
            return Err(full(Table::Users));
        }
        let mut row = data.clone();
        row.id = top + 1;
        match self.sync_accounts(row.id, &data.role) {
            Ok(()) => {},
            Err(e) => {
                return Err(e);
            },
        }
        proof {
            lemma_views_push(self.users@, row);
        }
        self.users.push(row);
        Ok(())
    }

    fn update_user(&mut self, data: &User) -> (r: Result<(), ErrorKind>)
        ensures
            outcome_is(old(self)@, final(self)@, r, old(self)@.update_user(data@)),
    {
        if !users_has_id(&self.users, data.id) {
            return Ok(());
        }
        if users_clash(&self.users, data) {
            return Err(ErrorKind::Conflict);
        }
        match self.sync_accounts(data.id, &data.role) {
            Ok(()) => {},
            Err(e) => {
                return Err(e);
            },
        }
        self.users = merge_user(&self.users, data);
        Ok(())
    }

    fn delete_user(&mut self, data: &User) -> (r: Result<(), ErrorKind>)
        ensures
            outcome_is(old(self)@, final(self)@, r, old(self)@.delete_user(data@)),
    {
        self.users = users_without_id(&self.users, data.id);
        self.student_accounts = student_accounts_without_owner(&self.student_accounts, data.id);
        self.teacher_accounts = teacher_accounts_without_owner(&self.teacher_accounts, data.id);
        Ok(())
    }

    fn insert_student_account(&mut self, data: &StudentAccount) -> (r: Result<(), ErrorKind>)
        ensures
            outcome_is(old(self)@, final(self)@, r, old(self)@.insert_student_account(data@)),
    {
        if student_accounts_has_owner(&self.student_accounts, data.student_id) {
            return Err(ErrorKind::Conflict);
        }
        let top = top_student_account_id(&self.student_accounts);
        proof {
            lemma_top_key_bound(views_of(self.student_accounts@), student_account_id());
        }
        if top == i32::MAX {
            return Err(full(Table::StudentAccount));
        }
        let mut row = data.clone();
        row.id = top + 1;
        proof {
            lemma_views_push(self.student_accounts@, row);
        }
        self.student_accounts.push(row);
        Ok(())
    }

    fn update_student_account(&mut self, data: &StudentAccount) -> (r: Result<(), ErrorKind>)
        ensures
            outcome_is(old(self)@, final(self)@, r, old(self)@.update_student_account(data@)),
    {
        if !student_accounts_has_id(&self.student_accounts, data.id) {
            return Ok(());
        }
        if student_accounts_clash(&self.student_accounts, data) {
            return Err(ErrorKind::Conflict);
        }
        self.student_accounts = student_accounts_with(&self.student_accounts, data);
        Ok(())
    }

    fn delete_student_account(&mut self, data: &StudentAccount) -> (r: Result<(), ErrorKind>)
        ensures
            outcome_is(old(self)@, final(self)@, r, old(self)@.delete_student_account(data@)),
    {
        self.student_accounts = student_accounts_without_id(&self.student_accounts, data.id);
        Ok(())
    }

    fn insert_teacher_account(&mut self, data: &TeacherAccount) -> (r: Result<(), ErrorKind>)
        ensures
            outcome_is(old(self)@, final(self)@, r, old(self)@.insert_teacher_account(data@)),
    {
        if teacher_accounts_has_owner(&self.teacher_accounts, data.teacher_id) {
            return Err(ErrorKind::Conflict);
        }
        let top = top_teacher_account_id(&self.teacher_accounts);
        proof {
            lemma_top_key_bound(views_of(self.teacher_accounts@), teacher_account_id());
        }
        if top == i32::MAX {
            return Err(full(Table::TeacherAccount));
        }
        let mut row = data.clone();
        row.id = top + 1;
        proof {
            lemma_views_push(self.teacher_accounts@, row);
        }
        self.teacher_accounts.push(row);
        Ok(())
    }

    fn update_teacher_account(&mut self, data: &TeacherAccount) -> (r: Result<(), ErrorKind>)
        ensures
            outcome_is(old(self)@, final(self)@, r, old(self)@.update_teacher_account(data@)),
    {
        if !teacher_accounts_has_id(&self.teacher_accounts, data.id) {
            return Ok(());
        }
        if teacher_accounts_clash(&self.teacher_accounts, data) {
            return Err(ErrorKind::Conflict);
        }
        self.teacher_accounts = teacher_accounts_with(&self.teacher_accounts, data);
        Ok(())
    }

    fn delete_teacher_account(&mut self, data: &TeacherAccount) -> (r: Result<(), ErrorKind>)
        ensures
            outcome_is(old(self)@, final(self)@, r, old(self)@.delete_teacher_account(data@)),
    {
        self.teacher_accounts = teacher_accounts_without_id(&self.teacher_accounts, data.id);
        Ok(())
    }

    fn insert_course(&mut self, data: &Courses) -> (r: Result<(), ErrorKind>)
        ensures
            outcome_is(old(self)@, final(self)@, r, old(self)@.insert_course(data@)),
    {
        let top = top_course_id(&self.courses);
        proof {
            lemma_top_key_bound(views_of(self.courses@), course_id());
        }
        if top == i32::MAX {
            return Err(full(Table::Courses));
        }
        let mut row = data.clone();
        row.id = top + 1;
        proof {
            lemma_views_push(self.courses@, row);
        }
        self.courses.push(row);
        Ok(())
    }

    fn update_course(&mut self, data: &Courses) -> (r: Result<(), ErrorKind>)
        ensures
            outcome_is(old(self)@, final(self)@, r, old(self)@.update_course(data@)),
    {
        self.courses = courses_with(&self.courses, data);
        Ok(())
    }

    fn delete_course(&mut self, data: &Courses) -> (r: Result<(), ErrorKind>)
        ensures
            outcome_is(old(self)@, final(self)@, r, old(self)@.delete_course(data@)),
    {
        self.courses = courses_without_id(&self.courses, data.id);
        Ok(())
    }

    fn insert_department(&mut self, data: &Departments) -> (r: Result<(), ErrorKind>)
        ensures
            outcome_is(old(self)@, final(self)@, r, old(self)@.insert_department(data@)),
    {
        let top = top_department_id(&self.departments);
        proof {
            lemma_top_key_bound(views_of(self.departments@), department_id());
        }
        if top == i32::MAX {
            return Err(full(Table::Departments));
        }
        let mut row = data.clone();
        row.id = top + 1;
        proof {
            lemma_views_push(self.departments@, row);
        }
        self.departments.push(row);
        Ok(())
    }

    fn update_department(&mut self, data: &Departments) -> (r: Result<(), ErrorKind>)
        ensures
            outcome_is(old(self)@, final(self)@, r, old(self)@.update_department(data@)),
    {
        self.departments = departments_with(&self.departments, data);
        Ok(())
    }

    fn delete_department(&mut self, data: &Departments) -> (r: Result<(), ErrorKind>)
        ensures
            outcome_is(old(self)@, final(self)@, r, old(self)@.delete_department(data@)),
    {
        self.departments = departments_without_id(&self.departments, data.id);
        Ok(())
    }

    /// Computes the standing of one student anew and writes it to the
    /// student's account.
    fn refresh_standing(&mut self, student: i32)
        ensures
            final(self)@ == old(self)@.with_standing_of(student),
    {
        let (cgpa, can_grad) = standing_of(&self.student_courses, &self.courses, student);
        self.student_accounts = restate(&self.student_accounts, student, cgpa, can_grad);
    }

    fn insert_student_course(&mut self, data: &StudentCourse) -> (r: Result<(), ErrorKind>)
        ensures
            outcome_is(old(self)@, final(self)@, r, old(self)@.insert_student_course(data@)),
    {
        if student_courses_has_key(&self.student_courses, data.student_id, data.course_id) {
            return Err(ErrorKind::Conflict);
        }
        let row = data.clone();
        proof {
            lemma_views_push(self.student_courses@, row);
        }
        self.student_courses.push(row);
        self.refresh_standing(data.student_id);
        Ok(())
    }

    fn update_student_course(&mut self, data: &StudentCourse) -> (r: Result<(), ErrorKind>)
        ensures
            outcome_is(old(self)@, final(self)@, r, old(self)@.update_student_course(data@)),
    {
        if !student_courses_has_key(&self.student_courses, data.student_id, data.course_id) {
            return Ok(());
        }
        self.student_courses = student_courses_with(&self.student_courses, data);
        self.refresh_standing(data.student_id);
        Ok(())
    }

    fn delete_student_course(&mut self, data: &StudentCourse) -> (r: Result<(), ErrorKind>)
        ensures
            outcome_is(old(self)@, final(self)@, r, old(self)@.delete_student_course(data@)),
    {
        if !student_courses_has_key(&self.student_courses, data.student_id, data.course_id) {
            return Ok(());
        }
        self.student_courses = student_courses_without_key(
            &self.student_courses,
            data.student_id,
            data.course_id,
        );
        self.refresh_standing(data.student_id);
        Ok(())
    }

    /// Carries out one command on the records.
    fn change(&mut self, a: Action, record: &ReceiverType) -> (r: Result<(), ErrorKind>)
        ensures
            outcome_is(old(self)@, final(self)@, r, old(self)@.change(a, record@)),
    {
        match record {
            ReceiverType::User(x) => match a {
                Action::Insert => self.insert_user(x),
                Action::Update => self.update_user(x),
                Action::Delete => self.delete_user(x),
            },
            ReceiverType::StudentAccount(x) => match a {
                Action::Insert => self.insert_student_account(x),
                Action::Update => self.update_student_account(x),
                Action::Delete => self.delete_student_account(x),
            },
            ReceiverType::TeacherAccount(x) => match a {
                Action::Insert => self.insert_teacher_account(x),
                Action::Update => self.update_teacher_account(x),
                Action::Delete => self.delete_teacher_account(x),
            },
            ReceiverType::Course(x) => match a {
                Action::Insert => self.insert_course(x),
                Action::Update => self.update_course(x),
                Action::Delete => self.delete_course(x),
            },
            ReceiverType::StudentCourse(x) => match a {
                Action::Insert => self.insert_student_course(x),
                Action::Update => self.update_student_course(x),
                Action::Delete => self.delete_student_course(x),
            },
            ReceiverType::Department(x) => match a {
                Action::Insert => self.insert_department(x),
                Action::Update => self.update_department(x),
                Action::Delete => self.delete_department(x),
            },
        }
    }

    /// Carries out one command and, where it succeeds, puts its statement at
    /// the end of the journal.
    fn apply(&mut self, a: Action, record: &ReceiverType) -> (r: Result<(), ErrorKind>)
        ensures
            outcome_is(old(self)@, final(self)@, r, old(self)@.apply(a, record@)),
    {
        match self.change(a, record) {
            Ok(()) => {
                let pending = Pending {
                    table: record.table(),
                    action: a,
                    statement: record.to_sql(a),
                };
                proof {
                    lemma_views_push(self.journal@, pending);
                }
                self.journal.push(pending);
                Ok(())
            },
            Err(e) => Err(e),
        }
    }

    /// Carries out a list of commands of one kind, in order, up to the first
    /// that fails.
    fn run(&mut self, a: Action, data: &Vec<ReceiverType>) -> (r: Result<(), ErrorKind>)
        ensures
            final(self)@ == old(self)@.apply_all(a, views_of(data@)).0,
            r == verdict(old(self)@.apply_all(a, views_of(data@)).1),
            old(self)@.wf() ==> final(self)@.wf(),
    {
        let mut i: usize = 0;
        proof {
            assert(views_of(data@).skip(0) =~= views_of(data@));
            lemma_apply_all_keeps_wf(self@, a, views_of(data@));
        }
        while i < data.len()
            invariant
                i <= data.len(),
                self@.apply_all(a, views_of(data@).skip(i as int)) == old(self)@.apply_all(
                    a,
                    views_of(data@),
                ),
                old(self)@.wf() ==> old(self)@.apply_all(a, views_of(data@)).0.wf(),
            decreases data.len() - i,
        {
            proof {
                let rest = views_of(data@).skip(i as int);
                assert(rest.first() == data@[i as int]@);
                assert(rest.drop_first() =~= views_of(data@).skip(i + 1));
            }
            match self.apply(a, &data[i]) {
                Ok(()) => {},
                Err(e) => {
                    return Err(e);
                },
            }
            i += 1;
        }
        Ok(())
    }

    /// Inserts the records, in order. The store gives each its primary key,
    /// whatever the record says. The first record that fails ends the call
    /// with its error; the records before it stay inserted.
    ///
    /// A new user gets the account that fits the role. A new enrollment has
    /// the student's standing computed anew.
    pub fn insert(&mut self, data: Vec<ReceiverType>) -> (r: Result<(), ErrorKind>)
        ensures
            final(self)@ == old(self)@.apply_all(Action::Insert, views_of(data@)).0,
            r == verdict(old(self)@.apply_all(Action::Insert, views_of(data@)).1),
            old(self)@.wf() ==> final(self)@.wf(),
    {
        self.run(Action::Insert, &data)
    }

    /// Updates the records, in order, each found by its primary key, an
    /// enrollment by its student and course. A record whose key no row has
    /// changes nothing. The first record that fails ends the call with its
    /// error; the records before it stay updated.
    ///
    /// An updated user has the accounts brought in line with the role, and
    /// keeps the old password where the new one is empty. An updated
    /// enrollment has the student's standing computed anew.
    pub fn update(&mut self, data: Vec<ReceiverType>) -> (r: Result<(), ErrorKind>)
        ensures
            final(self)@ == old(self)@.apply_all(Action::Update, views_of(data@)).0,
            r == verdict(old(self)@.apply_all(Action::Update, views_of(data@)).1),
            old(self)@.wf() ==> final(self)@.wf(),
    {
        self.run(Action::Update, &data)
    }

    /// Deletes the rows that have the keys of these records, in order.
    ///
    /// A deleted user takes both accounts along. A deleted enrollment has
    /// the student's standing computed anew.
    pub fn delete(&mut self, data: Vec<ReceiverType>) -> (r: Result<(), ErrorKind>)
        ensures
            final(self)@ == old(self)@.apply_all(Action::Delete, views_of(data@)).0,
            r == verdict(old(self)@.apply_all(Action::Delete, views_of(data@)).1),
            old(self)@.wf() ==> final(self)@.wf(),
    {
        self.run(Action::Delete, &data)
    }

    /// Hands out the writes that the backing store has yet to carry out,
    /// oldest first, and empties the journal.
    pub fn take_statements(&mut self) -> (r: Vec<Pending>)
        ensures
            views_of(r@) == old(self)@.journal,
            final(self)@ == (Database { journal: Seq::empty(), ..old(self)@ }),
    {
        let mut taken: Vec<Pending> = Vec::new();
        proof {
            lemma_views_whole(taken@);
        }
        std::mem::swap(&mut self.journal, &mut taken);
        taken
    }
}

impl DbDriver {
    /// The users that satisfy the predicates, as `find` gives them, without
    /// their tags.
    pub fn find_users(&self, filters: Vec<Filter>, join_mode: Option<Associativity>) -> (r: Result<
        Vec<User>,
        ErrorKind,
    >)
        ensures
            match r {
                Ok(found) => {
                    &&& filters_fit(Table::Users, filters@)
                    &&& columns_exist(filters@)
                    &&& views_of(found@) == self@.matching_users(
                        filters@,
                        associativity_or_default(join_mode),
                    )
                },
                Err(e) => if filters_fit(Table::Users, filters@) {
                    e == unreadable(Table::Users) && !columns_exist(filters@)
                } else {
                    e == ErrorKind::InvalidFilter
                },
            },
    {
        let ghost wanted = self@.matching_users(filters@, associativity_or_default(join_mode));
        proof {
            lemma_select_typed(self@, filters@, associativity_or_default(join_mode));
        }
        match self.find(Table::Users, filters, join_mode) {
            Ok(found) => {
                let mut out: Vec<User> = Vec::new();
                let mut i: usize = 0;
                while i < found.len()
                    invariant
                        i <= found.len(),
                        out@.len() == i,
                        forall|j: int|
                            0 <= j < found@.len() ==> (#[trigger] found@[j])@.table_of()
                                == Table::Users,
                        forall|j: int|
                            0 <= j < i ==> ReceiverTypeView::User((#[trigger] out@[j])@)
                                == found@[j]@,
                    decreases found.len() - i,
                {
                    assert(found@[i as int]@.table_of() == Table::Users);
                    if let ReceiverType::User(x) = &found[i] {
                        out.push(x.clone());
                    }
                    i += 1;
                }
                proof {
                    let tagged = wanted.map_values(|x: UserView| ReceiverTypeView::User(x));
                    assert(views_of(found@) == tagged);
                    assert(views_of(found@).len() == found@.len());
                    assert(tagged.len() == wanted.len());
                    assert(wanted.len() == out@.len());
                    assert forall|j: int| 0 <= j < out@.len() implies views_of(out@)[j]
                        == wanted[j] by {
                        assert(views_of(found@)[j] == found@[j]@);
                        assert(tagged[j] == ReceiverTypeView::User(wanted[j]));
                    }
                    assert(views_of(out@) =~= wanted);
                }
                Ok(out)
            },
            Err(e) => Err(e),
        }
    }

    /// The student accounts that satisfy the predicates, as `find` gives them, without
    /// their tags.
    pub fn find_student_accounts(
        &self,
        filters: Vec<Filter>,
        join_mode: Option<Associativity>,
    ) -> (r: Result<
        Vec<StudentAccount>,
        ErrorKind,
    >)
        ensures
            match r {
                Ok(found) => {
                    &&& filters_fit(Table::StudentAccount, filters@)
                    &&& columns_exist(filters@)
                    &&& views_of(found@) == self@.matching_student_accounts(
                        filters@,
                        associativity_or_default(join_mode),
                    )
                },
                Err(e) => if filters_fit(Table::StudentAccount, filters@) {
                    e == unreadable(Table::StudentAccount) && !columns_exist(filters@)
                } else {
                    e == ErrorKind::InvalidFilter
                },
            },
    {
        let ghost wanted = self@.matching_student_accounts(
            filters@,
            associativity_or_default(join_mode),
        );
        proof {
            lemma_select_typed(self@, filters@, associativity_or_default(join_mode));
        }
        match self.find(Table::StudentAccount, filters, join_mode) {
            Ok(found) => {
                let mut out: Vec<StudentAccount> = Vec::new();
                let mut i: usize = 0;
                while i < found.len()
                    invariant
                        i <= found.len(),
                        out@.len() == i,
                        forall|j: int|
                            0 <= j < found@.len() ==> (#[trigger] found@[j])@.table_of()
                                == Table::StudentAccount,
                        forall|j: int|
                            0 <= j < i ==> ReceiverTypeView::StudentAccount((#[trigger] out@[j])@)
                                == found@[j]@,
                    decreases found.len() - i,
                {
                    assert(found@[i as int]@.table_of() == Table::StudentAccount);
                    if let ReceiverType::StudentAccount(x) = &found[i] {
                        out.push(x.clone());
                    }
                    i += 1;
                }
                proof {
                    let tagged = wanted.map_values(
                        |x: StudentAccountView| ReceiverTypeView::StudentAccount(x)
                    );
                    assert(views_of(found@) == tagged);
                    assert(views_of(found@).len() == found@.len());
                    assert(tagged.len() == wanted.len());
                    assert(wanted.len() == out@.len());
                    assert forall|j: int| 0 <= j < out@.len() implies views_of(out@)[j]
                        == wanted[j] by {
                        assert(views_of(found@)[j] == found@[j]@);
                        assert(tagged[j] == ReceiverTypeView::StudentAccount(wanted[j]));
                    }
                    assert(views_of(out@) =~= wanted);
                }
                Ok(out)
            },
            Err(e) => Err(e),
        }
    }

    /// The teacher accounts that satisfy the predicates, as `find` gives them, without
    /// their tags.
    pub fn find_teacher_accounts(
        &self,
        filters: Vec<Filter>,
        join_mode: Option<Associativity>,
    ) -> (r: Result<
        Vec<TeacherAccount>,
        ErrorKind,
    >)
        ensures
            match r {
                Ok(found) => {
                    &&& filters_fit(Table::TeacherAccount, filters@)
                    &&& columns_exist(filters@)
                    &&& views_of(found@) == self@.matching_teacher_accounts(
                        filters@,
                        associativity_or_default(join_mode),
                    )
                },
                Err(e) => if filters_fit(Table::TeacherAccount, filters@) {
                    e == unreadable(Table::TeacherAccount) && !columns_exist(filters@)
                } else {
                    e == ErrorKind::InvalidFilter
                },
            },
    {
        let ghost wanted = self@.matching_teacher_accounts(
            filters@,
            associativity_or_default(join_mode),
        );
        proof {
            lemma_select_typed(self@, filters@, associativity_or_default(join_mode));
        }
        match self.find(Table::TeacherAccount, filters, join_mode) {
            Ok(found) => {
                let mut out: Vec<TeacherAccount> = Vec::new();
                let mut i: usize = 0;
                while i < found.len()
                    invariant
                        i <= found.len(),
                        out@.len() == i,
                        forall|j: int|
                            0 <= j < found@.len() ==> (#[trigger] found@[j])@.table_of()
                                == Table::TeacherAccount,
                        forall|j: int|
                            0 <= j < i ==> ReceiverTypeView::TeacherAccount((#[trigger] out@[j])@)
                                == found@[j]@,
                    decreases found.len() - i,
                {
                    assert(found@[i as int]@.table_of() == Table::TeacherAccount);
                    if let ReceiverType::TeacherAccount(x) = &found[i] {
                        out.push(x.clone());
                    }
                    i += 1;
                }
                proof {
                    let tagged = wanted.map_values(
                        |x: TeacherAccountView| ReceiverTypeView::TeacherAccount(x)
                    );
                    assert(views_of(found@) == tagged);
                    assert(views_of(found@).len() == found@.len());
                    assert(tagged.len() == wanted.len());
                    assert(wanted.len() == out@.len());
                    assert forall|j: int| 0 <= j < out@.len() implies views_of(out@)[j]
                        == wanted[j] by {
                        assert(views_of(found@)[j] == found@[j]@);
                        assert(tagged[j] == ReceiverTypeView::TeacherAccount(wanted[j]));
                    }
                    assert(views_of(out@) =~= wanted);
                }
                Ok(out)
            },
            Err(e) => Err(e),
        }
    }

    /// The courses that satisfy the predicates, as `find` gives them, without
    /// their tags.
    pub fn find_courses(
        &self,
        filters: Vec<Filter>,
        join_mode: Option<Associativity>,
    ) -> (r: Result<
        Vec<Courses>,
        ErrorKind,
    >)
        ensures
            match r {
                Ok(found) => {
                    &&& filters_fit(Table::Courses, filters@)
                    &&& columns_exist(filters@)
                    &&& views_of(found@) == self@.matching_courses(
                        filters@,
                        associativity_or_default(join_mode),
                    )
                },
                Err(e) => if filters_fit(Table::Courses, filters@) {
                    e == unreadable(Table::Courses) && !columns_exist(filters@)
                } else {
                    e == ErrorKind::InvalidFilter
                },
            },
    {
        let ghost wanted = self@.matching_courses(filters@, associativity_or_default(join_mode));
        proof {
            lemma_select_typed(self@, filters@, associativity_or_default(join_mode));
        }
        match self.find(Table::Courses, filters, join_mode) {
            Ok(found) => {
                let mut out: Vec<Courses> = Vec::new();
                let mut i: usize = 0;
                while i < found.len()
                    invariant
                        i <= found.len(),
                        out@.len() == i,
                        forall|j: int|
                            0 <= j < found@.len() ==> (#[trigger] found@[j])@.table_of()
                                == Table::Courses,
                        forall|j: int|
                            0 <= j < i ==> ReceiverTypeView::Course((#[trigger] out@[j])@)
                                == found@[j]@,
                    decreases found.len() - i,
                {
                    assert(found@[i as int]@.table_of() == Table::Courses);
                    if let ReceiverType::Course(x) = &found[i] {
                        out.push(x.clone());
                    }
                    i += 1;
                }
                proof {
                    let tagged = wanted.map_values(|x: CoursesView| ReceiverTypeView::Course(x));
                    assert(views_of(found@) == tagged);
                    assert(views_of(found@).len() == found@.len());
                    assert(tagged.len() == wanted.len());
                    assert(wanted.len() == out@.len());
                    assert forall|j: int| 0 <= j < out@.len() implies views_of(out@)[j]
                        == wanted[j] by {
                        assert(views_of(found@)[j] == found@[j]@);
                        assert(tagged[j] == ReceiverTypeView::Course(wanted[j]));
                    }
                    assert(views_of(out@) =~= wanted);
                }
                Ok(out)
            },
            Err(e) => Err(e),
        }
    }

    /// The enrollments that satisfy the predicates, as `find` gives them, without
    /// their tags.
    pub fn find_student_courses(
        &self,
        filters: Vec<Filter>,
        join_mode: Option<Associativity>,
    ) -> (r: Result<
        Vec<StudentCourse>,
        ErrorKind,
    >)
        ensures
            match r {
                Ok(found) => {
                    &&& filters_fit(Table::StudentCourses, filters@)
                    &&& columns_exist(filters@)
                    &&& views_of(found@) == self@.matching_student_courses(
                        filters@,
                        associativity_or_default(join_mode),
                    )
                },
                Err(e) => if filters_fit(Table::StudentCourses, filters@) {
                    e == unreadable(Table::StudentCourses) && !columns_exist(filters@)
                } else {
                    e == ErrorKind::InvalidFilter
                },
            },
    {
        let ghost wanted = self@.matching_student_courses(
            filters@,
            associativity_or_default(join_mode),
        );
        proof {
            lemma_select_typed(self@, filters@, associativity_or_default(join_mode));
        }
        match self.find(Table::StudentCourses, filters, join_mode) {
            Ok(found) => {
                let mut out: Vec<StudentCourse> = Vec::new();
                let mut i: usize = 0;
                while i < found.len()
                    invariant
                        i <= found.len(),
                        out@.len() == i,
                        forall|j: int|
                            0 <= j < found@.len() ==> (#[trigger] found@[j])@.table_of()
                                == Table::StudentCourses,
                        forall|j: int|
                            0 <= j < i ==> ReceiverTypeView::StudentCourse((#[trigger] out@[j])@)
                                == found@[j]@,
                    decreases found.len() - i,
                {
                    assert(found@[i as int]@.table_of() == Table::StudentCourses);
                    if let ReceiverType::StudentCourse(x) = &found[i] {
                        out.push(x.clone());
                    }
                    i += 1;
                }
                proof {
                    let tagged = wanted.map_values(
                        |x: StudentCourseView| ReceiverTypeView::StudentCourse(x)
                    );
                    assert(views_of(found@) == tagged);
                    assert(views_of(found@).len() == found@.len());
                    assert(tagged.len() == wanted.len());
                    assert(wanted.len() == out@.len());
                    assert forall|j: int| 0 <= j < out@.len() implies views_of(out@)[j]
                        == wanted[j] by {
                        assert(views_of(found@)[j] == found@[j]@);
                        assert(tagged[j] == ReceiverTypeView::StudentCourse(wanted[j]));
                    }
                    assert(views_of(out@) =~= wanted);
                }
                Ok(out)
            },
            Err(e) => Err(e),
        }
    }

    /// The departments that satisfy the predicates, as `find` gives them, without
    /// their tags.
    pub fn find_departments(
        &self,
        filters: Vec<Filter>,
        join_mode: Option<Associativity>,
    ) -> (r: Result<
        Vec<Departments>,
        ErrorKind,
    >)
        ensures
            match r {
                Ok(found) => {
                    &&& filters_fit(Table::Departments, filters@)
                    &&& columns_exist(filters@)
                    &&& views_of(found@) == self@.matching_departments(
                        filters@,
                        associativity_or_default(join_mode),
                    )
                },
                Err(e) => if filters_fit(Table::Departments, filters@) {
                    e == unreadable(Table::Departments) && !columns_exist(filters@)
                } else {
                    e == ErrorKind::InvalidFilter
                },
            },
    {
        let ghost wanted = self@.matching_departments(
            filters@,
            associativity_or_default(join_mode),
        );
        proof {
            lemma_select_typed(self@, filters@, associativity_or_default(join_mode));
        }
        match self.find(Table::Departments, filters, join_mode) {
            Ok(found) => {
                let mut out: Vec<Departments> = Vec::new();
                let mut i: usize = 0;
                while i < found.len()
                    invariant
                        i <= found.len(),
                        out@.len() == i,
                        forall|j: int|
                            0 <= j < found@.len() ==> (#[trigger] found@[j])@.table_of()
                                == Table::Departments,
                        forall|j: int|
                            0 <= j < i ==> ReceiverTypeView::Department((#[trigger] out@[j])@)
                                == found@[j]@,
                    decreases found.len() - i,
                {
                    assert(found@[i as int]@.table_of() == Table::Departments);
                    if let ReceiverType::Department(x) = &found[i] {
                        out.push(x.clone());
                    }
                    i += 1;
                }
                proof {
                    let tagged = wanted.map_values(
                        |x: DepartmentsView| ReceiverTypeView::Department(x)
                    );
                    assert(views_of(found@) == tagged);
                    assert(views_of(found@).len() == found@.len());
                    assert(tagged.len() == wanted.len());
                    assert(wanted.len() == out@.len());
                    assert forall|j: int| 0 <= j < out@.len() implies views_of(out@)[j]
                        == wanted[j] by {
                        assert(views_of(found@)[j] == found@[j]@);
                        assert(tagged[j] == ReceiverTypeView::Department(wanted[j]));
                    }
                    assert(views_of(out@) =~= wanted);
                }
                Ok(out)
            },
            Err(e) => Err(e),
        }
    }
}

impl DbDriver {
    /// Takes one record as it is, key and all.
    fn receive(&mut self, record: &ReceiverType) -> (r: Result<(), ErrorKind>)
        ensures
            outcome_is(old(self)@, final(self)@, r, old(self)@.receive(record@)),
    {
        match record {
            ReceiverType::User(x) => {
                if users_has_id(&self.users, x.id) || users_has_email(&self.users, &x.email) {
                    return Err(ErrorKind::Conflict);
                }
                proof {
                    lemma_views_push(self.users@, *x);
                }
                self.users.push(x.clone());
            },
            ReceiverType::StudentAccount(x) => {
                if student_accounts_has_id(&self.student_accounts, x.id)
                    || student_accounts_has_owner(&self.student_accounts, x.student_id) {
                    return Err(ErrorKind::Conflict);
                }
                proof {
                    lemma_views_push(self.student_accounts@, *x);
                }
                self.student_accounts.push(x.clone());
            },
            ReceiverType::TeacherAccount(x) => {
                if teacher_accounts_has_id(&self.teacher_accounts, x.id)
                    || teacher_accounts_has_owner(&self.teacher_accounts, x.teacher_id) {
                    return Err(ErrorKind::Conflict);
                }
                proof {
                    lemma_views_push(self.teacher_accounts@, *x);
                }
                self.teacher_accounts.push(x.clone());
            },
            ReceiverType::Course(x) => {
                if courses_has_id(&self.courses, x.id) {
                    return Err(ErrorKind::Conflict);
                }
                proof {
                    lemma_views_push(self.courses@, *x);
                }
                self.courses.push(x.clone());
            },
            ReceiverType::StudentCourse(x) => {
                if student_courses_has_key(&self.student_courses, x.student_id, x.course_id) {
                    return Err(ErrorKind::Conflict);
                }
                proof {
                    lemma_views_push(self.student_courses@, *x);
                }
                self.student_courses.push(x.clone());
            },
            ReceiverType::Department(x) => {
                if departments_has_id(&self.departments, x.id) {
                    return Err(ErrorKind::Conflict);
                }
                proof {
                    lemma_views_push(self.departments@, *x);
                }
                self.departments.push(x.clone());
            },
        }
        Ok(())
    }

    /// A store that holds these records as they are, each with the key it
    /// came with, in their order, and an empty journal: the records that a
    /// backing store handed out. No account is made and no standing is
    /// computed. Records that break a uniqueness rule refuse the whole with
    /// `Conflict`.
    pub fn restore(records: Vec<ReceiverType>) -> (r: Result<DbDriver, ErrorKind>)
        ensures
            match Database::empty().receive_all(views_of(records@)) {
                Ok(db) => r matches Ok(driver) && driver@ == db && driver@.wf(),
                Err(e) => r matches Err(x) && x == e,
            },
    {
        let mut driver = DbDriver::init();
        let mut i: usize = 0;
        proof {
            assert(views_of(records@).skip(0) =~= views_of(records@));
            lemma_receive_all_keeps_wf(Database::empty(), views_of(records@));
        }
        while i < records.len()
            invariant
                i <= records.len(),
                driver@.receive_all(
                    views_of(records@).skip(i as int)
                ) == Database::empty().receive_all(
                    views_of(records@),
                ),
                Database::empty().receive_all(views_of(records@)) matches Ok(after) ==> after.wf(),
            decreases records.len() - i,
        {
            proof {
                let rest = views_of(records@).skip(i as int);
                assert(rest.first() == records@[i as int]@);
                assert(rest.drop_first() =~= views_of(records@).skip(i + 1));
            }
            match driver.receive(&records[i]) {
                Ok(()) => {},
                Err(e) => {
                    return Err(e);
                },
            }
            i += 1;
        }
        Ok(driver)
    }
}

/// What a list of commands hands back: nothing where all were done, else
/// the error of the first that failed.
pub open spec fn verdict(failure: Option<ErrorKind>) -> Result<(), ErrorKind> {
    match failure {
        Some(e) => Err(e),
        None => Ok(()),
    }
}

} // verus!
