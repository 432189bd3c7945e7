//! What holds of the store's model: queries find what they should, a
//! record that was inserted is found again, commands keep the uniqueness
//! rules, accounts follow roles, and an update that is repeated changes
//! nothing.

use crate::db_driver::ReceiverTypeView;
use crate::error::ErrorKind;
use crate::filter::{
    Associativity, Filter, StudentAccountFilter, StudentCoursesFilter, TeacherAccountFilter,
    UsersFilter,
};
use crate::lemmas::{
    lemma_distinct_push, lemma_distinct_same_keys, lemma_distinct_with_row,
    lemma_distinct_without_key, lemma_filter_all, lemma_filter_none, lemma_filter_order,
    lemma_filter_tagged, lemma_fresh_key_unused, lemma_has_key_filter, lemma_has_key_push,
};
use crate::model::{
    clashes, course_id, Database, department_id, enrollment_key, fresh_student_account,
    fresh_teacher_account, has_key, merged_users, satisfies, selection, student_account_id,
    student_account_owner, teacher_account_id, teacher_account_owner, top_key, user_email,
    user_id, with_row, without_key,
};
use crate::table_models::{
    Action, CoursesView, DepartmentsView, StudentAccountView, StudentCourseView, Table,
    TeacherAccountView, UserView,
};
use vstd::prelude::*;

verus! {

/// A query hands back only records of the store that satisfy its predicates,
/// every such record, and with no predicate every record of the kind.
pub proof fn lemma_select_sound(
    db: Database,
    table: Table,
    filters: Seq<Filter>,
    assoc: Associativity,
)
    ensures
        forall|i: int|
            0 <= i < db.select(table, filters, assoc).len() ==> satisfies(
                #[trigger] db.select(table, filters, assoc)[i],
                filters,
                assoc,
            ) && db.records(table).contains(db.select(table, filters, assoc)[i]),
        forall|i: int|
            0 <= i < db.records(table).len() && satisfies(
                #[trigger] db.records(table)[i],
                filters,
                assoc,
            ) ==> db.select(table, filters, assoc).contains(db.records(table)[i]),
        filters.len() == 0 ==> db.select(table, filters, assoc) == db.records(table),
{
    let all = db.records(table);
    let keep = selection(filters, assoc);
    let at = lemma_filter_order(all, keep);
    let found = all.filter(keep);
    assert forall|i: int| 0 <= i < found.len() implies satisfies(
        #[trigger] found[i],
        filters,
        assoc,
    ) && all.contains(found[i]) by {
        assert(all[at[i]] == found[i]);
    }
    assert forall|i: int| 0 <= i < all.len() && satisfies(#[trigger] all[i], filters, assoc)
        implies found.contains(all[i]) by {
        assert(keep(all[i]));
        let n = choose|n: int| 0 <= n < at.len() && #[trigger] at[n] == i;
        assert(found[n] == all[i]);
    }
    if filters.len() == 0 {
        lemma_filter_all(all, keep);
    }
}

/// Every record of a table is of the table's kind.
pub proof fn lemma_records_kind(db: Database, table: Table)
    ensures
        forall|i: int|
            0 <= i < db.records(table).len() ==> (#[trigger] db.records(table)[i]).table_of()
                == table,
{
}

/// What a query finds in a table is what it finds among the table's rows,
/// each tagged with the table's kind.
pub proof fn lemma_select_typed(db: Database, filters: Seq<Filter>, assoc: Associativity)
    ensures
        db.select(Table::Users, filters, assoc) == db.matching_users(filters, assoc).map_values(
            |x: UserView| ReceiverTypeView::User(x),
        ),
        db.select(
            Table::StudentAccount,
            filters,
            assoc,
        ) == db.matching_student_accounts(filters, assoc).map_values(
            |x: StudentAccountView| ReceiverTypeView::StudentAccount(x),
        ),
        db.select(
            Table::TeacherAccount,
            filters,
            assoc,
        ) == db.matching_teacher_accounts(filters, assoc).map_values(
            |x: TeacherAccountView| ReceiverTypeView::TeacherAccount(x),
        ),
        db.select(Table::Courses, filters, assoc) == db.matching_courses(filters, assoc).map_values(
            |x: CoursesView| ReceiverTypeView::Course(x),
        ),
        db.select(
            Table::StudentCourses,
            filters,
            assoc,
        ) == db.matching_student_courses(filters, assoc).map_values(
            |x: StudentCourseView| ReceiverTypeView::StudentCourse(x),
        ),
        db.select(
            Table::Departments,
            filters,
            assoc,
        ) == db.matching_departments(filters, assoc).map_values(
            |x: DepartmentsView| ReceiverTypeView::Department(x),
        ),
{
    lemma_filter_tagged(
        db.users,
        |x: UserView| ReceiverTypeView::User(x),
        selection(filters, assoc),
        |x: UserView| satisfies(ReceiverTypeView::User(x), filters, assoc),
    );
    lemma_filter_tagged(
        db.student_accounts,
        |x: StudentAccountView| ReceiverTypeView::StudentAccount(x),
        selection(filters, assoc),
        |x: StudentAccountView| satisfies(ReceiverTypeView::StudentAccount(x), filters, assoc),
    );
    lemma_filter_tagged(
        db.teacher_accounts,
        |x: TeacherAccountView| ReceiverTypeView::TeacherAccount(x),
        selection(filters, assoc),
        |x: TeacherAccountView| satisfies(ReceiverTypeView::TeacherAccount(x), filters, assoc),
    );
    lemma_filter_tagged(
        db.courses,
        |x: CoursesView| ReceiverTypeView::Course(x),
        selection(filters, assoc),
        |x: CoursesView| satisfies(ReceiverTypeView::Course(x), filters, assoc),
    );
    lemma_filter_tagged(
        db.student_courses,
        |x: StudentCourseView| ReceiverTypeView::StudentCourse(x),
        selection(filters, assoc),
        |x: StudentCourseView| satisfies(ReceiverTypeView::StudentCourse(x), filters, assoc),
    );
    lemma_filter_tagged(
        db.departments,
        |x: DepartmentsView| ReceiverTypeView::Department(x),
        selection(filters, assoc),
        |x: DepartmentsView| satisfies(ReceiverTypeView::Department(x), filters, assoc),
    );
}

/// Bringing a user's accounts in line with the role keeps the uniqueness
/// rules of the store.
pub proof fn lemma_accounts_keep_wf(db: Database, user: i32, role: Seq<char>)
    requires
        db.wf(),
    ensures
        db.with_accounts_for(user, role) matches Ok(after) ==> after.wf(),
{
    if let Ok(after) = db.with_accounts_for(user, role) {
        if role == "student"@ {
            if !has_key(db.student_accounts, student_account_owner(), user) {
                let id = (top_key(db.student_accounts, student_account_id()) + 1) as i32;
                lemma_fresh_key_unused(db.student_accounts, student_account_id());
                lemma_distinct_push(
                    db.student_accounts,
                    student_account_id(),
                    fresh_student_account(id, user),
                );
                lemma_distinct_push(
                    db.student_accounts,
                    student_account_owner(),
                    fresh_student_account(id, user),
                );
            }
        } else {
            lemma_distinct_without_key(
                db.student_accounts,
                student_account_id(),
                student_account_owner(),
                user,
            );
            lemma_distinct_without_key(
                db.student_accounts,
                student_account_owner(),
                student_account_owner(),
                user,
            );
        }
        if role == "teacher"@ {
            if !has_key(db.teacher_accounts, teacher_account_owner(), user) {
                let id = (top_key(db.teacher_accounts, teacher_account_id()) + 1) as i32;
                lemma_fresh_key_unused(db.teacher_accounts, teacher_account_id());
                lemma_distinct_push(
                    db.teacher_accounts,
                    teacher_account_id(),
                    fresh_teacher_account(id, user),
                );
                lemma_distinct_push(
                    db.teacher_accounts,
                    teacher_account_owner(),
                    fresh_teacher_account(id, user),
                );
            }
        } else {
            lemma_distinct_without_key(
                db.teacher_accounts,
                teacher_account_id(),
                teacher_account_owner(),
                user,
            );
            lemma_distinct_without_key(
                db.teacher_accounts,
                teacher_account_owner(),
                teacher_account_owner(),
                user,
            );
        }
    }
}

/// A command on a user keeps the uniqueness rules of the store.
pub proof fn lemma_user_change_keeps_wf(db: Database, a: Action, u: UserView)
    requires
        db.wf(),
    ensures
        db.change(a, ReceiverTypeView::User(u)) matches Ok(after) ==> after.wf(),
{
    match a {
        Action::Insert => {
            if !has_key(db.users, user_email(), u.email) && top_key(db.users, user_id())
                < i32::MAX {
                let id = (top_key(db.users, user_id()) + 1) as i32;
                let row = UserView { id, ..u };
                lemma_fresh_key_unused(db.users, user_id());
                lemma_distinct_push(db.users, user_id(), row);
                lemma_distinct_push(db.users, user_email(), row);
                lemma_accounts_keep_wf(Database { users: db.users.push(row), ..db }, id, u.role);
            }
        },
        Action::Update => {
            if has_key(db.users, user_id(), u.id) && !clashes(
                db.users,
                user_id(),
                user_email(),
                u,
            ) {
                let after = merged_users(db.users, u);
                lemma_distinct_same_keys(db.users, after, user_id());
                assert forall|i: int, j: int| 0 <= i < j < after.len() implies user_email()(
                    #[trigger] after[i],
                ) != user_email()(#[trigger] after[j]) by {
                    assert(user_id()(db.users[i]) != user_id()(db.users[j]));
                    assert(user_email()(db.users[i]) != user_email()(db.users[j]));
                }
                lemma_accounts_keep_wf(Database { users: after, ..db }, u.id, u.role);
            }
        },
        Action::Delete => {
            lemma_distinct_without_key(db.users, user_id(), user_id(), u.id);
            lemma_distinct_without_key(db.users, user_email(), user_id(), u.id);
            lemma_distinct_without_key(
                db.student_accounts,
                student_account_id(),
                student_account_owner(),
                u.id,
            );
            lemma_distinct_without_key(
                db.student_accounts,
                student_account_owner(),
                student_account_owner(),
                u.id,
            );
            lemma_distinct_without_key(
                db.teacher_accounts,
                teacher_account_id(),
                teacher_account_owner(),
                u.id,
            );
            lemma_distinct_without_key(
                db.teacher_accounts,
                teacher_account_owner(),
                teacher_account_owner(),
                u.id,
            );
        },
    }
}

/// A command on an account keeps the uniqueness rules of the store.
pub proof fn lemma_account_change_keeps_wf(db: Database, a: Action, record: ReceiverTypeView)
    requires
        db.wf(),
        record is StudentAccount || record is TeacherAccount,
    ensures
        db.change(a, record) matches Ok(after) ==> after.wf(),
{
    match record {
        ReceiverTypeView::StudentAccount(x) => {
            match a {
                Action::Insert => {
                    if top_key(db.student_accounts, student_account_id()) < i32::MAX
                        && !has_key(db.student_accounts, student_account_owner(), x.student_id) {
                        let id = (top_key(db.student_accounts, student_account_id()) + 1) as i32;
                        let row = StudentAccountView { id, ..x };
                        lemma_fresh_key_unused(db.student_accounts, student_account_id());
                        lemma_distinct_push(db.student_accounts, student_account_id(), row);
                        lemma_distinct_push(db.student_accounts, student_account_owner(), row);
                    }
                },
                Action::Update => {
                    lemma_distinct_with_row(
                        db.student_accounts,
                        student_account_id(),
                        student_account_owner(),
                        x,
                    );
                },
                Action::Delete => {
                    lemma_distinct_without_key(
                        db.student_accounts,
                        student_account_id(),
                        student_account_id(),
                        x.id,
                    );
                    lemma_distinct_without_key(
                        db.student_accounts,
                        student_account_owner(),
                        student_account_id(),
                        x.id,
                    );
                },
            }
        },
        ReceiverTypeView::TeacherAccount(x) => {
            match a {
                Action::Insert => {
                    if top_key(db.teacher_accounts, teacher_account_id()) < i32::MAX
                        && !has_key(db.teacher_accounts, teacher_account_owner(), x.teacher_id) {
                        let id = (top_key(db.teacher_accounts, teacher_account_id()) + 1) as i32;
                        let row = TeacherAccountView { id, ..x };
                        lemma_fresh_key_unused(db.teacher_accounts, teacher_account_id());
                        lemma_distinct_push(db.teacher_accounts, teacher_account_id(), row);
                        lemma_distinct_push(db.teacher_accounts, teacher_account_owner(), row);
                    }
                },
                Action::Update => {
                    lemma_distinct_with_row(
                        db.teacher_accounts,
                        teacher_account_id(),
                        teacher_account_owner(),
                        x,
                    );
                },
                Action::Delete => {
                    lemma_distinct_without_key(
                        db.teacher_accounts,
                        teacher_account_id(),
                        teacher_account_id(),
                        x.id,
                    );
                    lemma_distinct_without_key(
                        db.teacher_accounts,
                        teacher_account_owner(),
                        teacher_account_id(),
                        x.id,
                    );
                },
            }
        },
        _ => {},
    }
}

/// A command on a course or a department keeps the uniqueness rules of the
/// store.
pub proof fn lemma_catalogue_change_keeps_wf(db: Database, a: Action, record: ReceiverTypeView)
    requires
        db.wf(),
        record is Course || record is Department,
    ensures
        db.change(a, record) matches Ok(after) ==> after.wf(),
{
    match record {
        ReceiverTypeView::Course(x) => {
            match a {
                Action::Insert => {
                    if top_key(db.courses, course_id()) < i32::MAX {
                        let id = (top_key(db.courses, course_id()) + 1) as i32;
                        lemma_fresh_key_unused(db.courses, course_id());
                        lemma_distinct_push(db.courses, course_id(), CoursesView { id, ..x });
                    }
                },
                Action::Update => {
                    lemma_distinct_with_row(db.courses, course_id(), course_id(), x);
                },
                Action::Delete => {
                    lemma_distinct_without_key(db.courses, course_id(), course_id(), x.id);
                },
            }
        },
        ReceiverTypeView::Department(x) => {
            match a {
                Action::Insert => {
                    if top_key(db.departments, department_id()) < i32::MAX {
                        let id = (top_key(db.departments, department_id()) + 1) as i32;
                        lemma_fresh_key_unused(db.departments, department_id());
                        lemma_distinct_push(
                            db.departments,
                            department_id(),
                            DepartmentsView { id, ..x },
                        );
                    }
                },
                Action::Update => {
                    lemma_distinct_with_row(db.departments, department_id(), department_id(), x);
                },
                Action::Delete => {
                    lemma_distinct_without_key(
                        db.departments,
                        department_id(),
                        department_id(),
                        x.id,
                    );
                },
            }
        },
        _ => {},
    }
}

/// Computing a standing anew keeps the uniqueness rules of the store.
pub proof fn lemma_standing_keeps_wf(db: Database, student: i32)
    requires
        db.wf(),
    ensures
        db.with_standing_of(student).wf(),
{
    let after = db.with_standing_of(student).student_accounts;
    lemma_distinct_same_keys(db.student_accounts, after, student_account_id());
    lemma_distinct_same_keys(db.student_accounts, after, student_account_owner());
}

/// A command on an enrollment keeps the uniqueness rules of the store.
pub proof fn lemma_enrollment_change_keeps_wf(db: Database, a: Action, e: StudentCourseView)
    requires
        db.wf(),
    ensures
        db.change(a, ReceiverTypeView::StudentCourse(e)) matches Ok(after) ==> after.wf(),
{
    let k = (e.student_id, e.course_id);
    if has_key(db.student_courses, enrollment_key(), k) {
        match a {
            Action::Insert => {},
            Action::Update => {
                lemma_distinct_with_row(db.student_courses, enrollment_key(), enrollment_key(), e);
                lemma_standing_keeps_wf(
                    Database {
                        student_courses: with_row(db.student_courses, enrollment_key(), e),
                        ..db
                    },
                    e.student_id,
                );
            },
            Action::Delete => {
                lemma_distinct_without_key(
                    db.student_courses,
                    enrollment_key(),
                    enrollment_key(),
                    k,
                );
                lemma_standing_keeps_wf(
                    Database {
                        student_courses: without_key(db.student_courses, enrollment_key(), k),
                        ..db
                    },
                    e.student_id,
                );
            },
        }
    } else if a == Action::Insert {
        lemma_distinct_push(db.student_courses, enrollment_key(), e);
        lemma_standing_keeps_wf(
            Database { student_courses: db.student_courses.push(e), ..db },
            e.student_id,
        );
    }
}

/// Every command keeps the uniqueness rules of the store.
pub proof fn lemma_change_keeps_wf(db: Database, a: Action, record: ReceiverTypeView)
    requires
        db.wf(),
    ensures
        db.change(a, record) matches Ok(after) ==> after.wf(),
        db.apply(a, record) matches Ok(after) ==> after.wf(),
{
    match record {
        ReceiverTypeView::User(x) => lemma_user_change_keeps_wf(db, a, x),
        ReceiverTypeView::StudentAccount(_) => lemma_account_change_keeps_wf(db, a, record),
        ReceiverTypeView::TeacherAccount(_) => lemma_account_change_keeps_wf(db, a, record),
        ReceiverTypeView::Course(_) => lemma_catalogue_change_keeps_wf(db, a, record),
        ReceiverTypeView::Department(_) => lemma_catalogue_change_keeps_wf(db, a, record),
        ReceiverTypeView::StudentCourse(x) => lemma_enrollment_change_keeps_wf(db, a, x),
    }
}

/// After a user was inserted, a query for the user's email finds that user
/// and no other: the record as it was handed in, but for the key that the
/// store gave it.
pub proof fn lemma_insert_then_find_user(
    db: Database,
    u: UserView,
    email: String,
    assoc: Associativity,
)
    requires
        db.wf(),
        email@ == u.email,
        db.apply(Action::Insert, ReceiverTypeView::User(u)) is Ok,
    ensures
        db.apply(Action::Insert, ReceiverTypeView::User(u))->Ok_0.select(
            Table::Users,
            seq![Filter::Users(UsersFilter::Email(email))],
            assoc,
        ) == seq![
            ReceiverTypeView::User(
                UserView { id: (top_key(db.users, user_id()) + 1) as i32, ..u },
            ),
        ],
{
    let after = db.apply(Action::Insert, ReceiverTypeView::User(u))->Ok_0;
    let row = UserView { id: (top_key(db.users, user_id()) + 1) as i32, ..u };
    let filters = seq![Filter::Users(UsersFilter::Email(email))];
    let keep = selection(filters, assoc);
    let tag = |x: UserView| ReceiverTypeView::User(x);
    assert(after.users == db.users.push(row));
    let before = db.users.map_values(tag);
    assert(after.records(Table::Users) =~= before.push(tag(row)));
    assert(filters[0].holds(tag(row)));
    assert(keep(tag(row)));
    assert forall|i: int| 0 <= i < before.len() implies !keep(#[trigger] before[i]) by {
        assert(user_email()(db.users[i]) != u.email);
        assert(!filters[0].holds(before[i]));
    }
    lemma_filter_none(before, keep);
    before.lemma_filter_push(tag(row), keep);
}

/// The store with no records keeps the uniqueness rules.
pub proof fn lemma_empty_is_wf()
    ensures
        Database::empty().wf(),
{
}

/// After a student account was inserted, a query for its student finds the
/// account as it was handed in, but for the key that the store gave it, and
/// no other.
pub proof fn lemma_insert_then_find_student_account(
    db: Database,
    a: StudentAccountView,
    assoc: Associativity,
)
    requires
        db.wf(),
        db.apply(Action::Insert, ReceiverTypeView::StudentAccount(a)) is Ok,
    ensures
        db.apply(Action::Insert, ReceiverTypeView::StudentAccount(a))->Ok_0.select(
            Table::StudentAccount,
            seq![Filter::StudentAccount(StudentAccountFilter::StudentId(a.student_id))],
            assoc,
        ) == seq![
            ReceiverTypeView::StudentAccount(
                StudentAccountView {
                    id: (top_key(db.student_accounts, student_account_id()) + 1) as i32,
                    ..a
                },
            ),
        ],
{
    let after = db.apply(Action::Insert, ReceiverTypeView::StudentAccount(a))->Ok_0;
    let row = StudentAccountView {
        id: (top_key(db.student_accounts, student_account_id()) + 1) as i32,
        ..a
    };
    let filters = seq![Filter::StudentAccount(StudentAccountFilter::StudentId(a.student_id))];
    let keep = selection(filters, assoc);
    let tag = |x: StudentAccountView| ReceiverTypeView::StudentAccount(x);
    assert(after.student_accounts == db.student_accounts.push(row));
    let before = db.student_accounts.map_values(tag);
    assert(after.records(Table::StudentAccount) =~= before.push(tag(row)));
    assert(filters[0].holds(tag(row)));
    assert(keep(tag(row)));
    assert forall|i: int| 0 <= i < before.len() implies !keep(#[trigger] before[i]) by {
        assert(student_account_owner()(db.student_accounts[i]) != a.student_id);
        assert(!filters[0].holds(before[i]));
    }
    lemma_filter_none(before, keep);
    before.lemma_filter_push(tag(row), keep);
}

/// After a teacher account was inserted, a query for its teacher finds the
/// account as it was handed in, but for the key that the store gave it, and
/// no other.
pub proof fn lemma_insert_then_find_teacher_account(
    db: Database,
    a: TeacherAccountView,
    assoc: Associativity,
)
    requires
        db.wf(),
        db.apply(Action::Insert, ReceiverTypeView::TeacherAccount(a)) is Ok,
    ensures
        db.apply(Action::Insert, ReceiverTypeView::TeacherAccount(a))->Ok_0.select(
            Table::TeacherAccount,
            seq![Filter::TeacherAccount(TeacherAccountFilter::TeacherId(a.teacher_id))],
            assoc,
        ) == seq![
            ReceiverTypeView::TeacherAccount(
                TeacherAccountView {
                    id: (top_key(db.teacher_accounts, teacher_account_id()) + 1) as i32,
                    ..a
                },
            ),
        ],
{
    let after = db.apply(Action::Insert, ReceiverTypeView::TeacherAccount(a))->Ok_0;
    let row = TeacherAccountView {
        id: (top_key(db.teacher_accounts, teacher_account_id()) + 1) as i32,
        ..a
    };
    let filters = seq![Filter::TeacherAccount(TeacherAccountFilter::TeacherId(a.teacher_id))];
    let keep = selection(filters, assoc);
    let tag = |x: TeacherAccountView| ReceiverTypeView::TeacherAccount(x);
    assert(after.teacher_accounts == db.teacher_accounts.push(row));
    let before = db.teacher_accounts.map_values(tag);
    assert(after.records(Table::TeacherAccount) =~= before.push(tag(row)));
    assert(filters[0].holds(tag(row)));
    assert(keep(tag(row)));
    assert forall|i: int| 0 <= i < before.len() implies !keep(#[trigger] before[i]) by {
        assert(teacher_account_owner()(db.teacher_accounts[i]) != a.teacher_id);
        assert(!filters[0].holds(before[i]));
    }
    lemma_filter_none(before, keep);
    before.lemma_filter_push(tag(row), keep);
}

/// After a student was enrolled in a course, a query for that student and
/// that course finds the enrollment as it was handed in, and no other.
pub proof fn lemma_insert_then_find_enrollment(db: Database, e: StudentCourseView)
    requires
        db.wf(),
        db.apply(Action::Insert, ReceiverTypeView::StudentCourse(e)) is Ok,
    ensures
        db.apply(Action::Insert, ReceiverTypeView::StudentCourse(e))->Ok_0.select(
            Table::StudentCourses,
            seq![
                Filter::StudentCourses(StudentCoursesFilter::StudentId(e.student_id)),
                Filter::StudentCourses(StudentCoursesFilter::CourseId(e.course_id)),
            ],
            Associativity::And,
        ) == seq![ReceiverTypeView::StudentCourse(e)],
{
    let after = db.apply(Action::Insert, ReceiverTypeView::StudentCourse(e))->Ok_0;
    let filters = seq![
        Filter::StudentCourses(StudentCoursesFilter::StudentId(e.student_id)),
        Filter::StudentCourses(StudentCoursesFilter::CourseId(e.course_id)),
    ];
    let keep = selection(filters, Associativity::And);
    let tag = |x: StudentCourseView| ReceiverTypeView::StudentCourse(x);
    assert(after.student_courses == db.student_courses.push(e));
    let before = db.student_courses.map_values(tag);
    assert(after.records(Table::StudentCourses) =~= before.push(tag(e)));
    assert(filters[0].holds(tag(e)));
    assert(filters[1].holds(tag(e)));
    assert(keep(tag(e)));
    assert forall|i: int| 0 <= i < before.len() implies !keep(#[trigger] before[i]) by {
        assert(enrollment_key()(db.student_courses[i]) != (e.student_id, e.course_id));
        if db.student_courses[i].student_id != e.student_id {
            assert(!filters[0].holds(before[i]));
        } else {
            assert(!filters[1].holds(before[i]));
        }
    }
    lemma_filter_none(before, keep);
    before.lemma_filter_push(tag(e), keep);
}

/// Updating an enrollment a second time with the same values changes
/// nothing: the records, and with them the student's average, are as after
/// the first update.
pub proof fn lemma_update_enrollment_idempotent(db: Database, e: StudentCourseView)
    ensures
        db.update_student_course(e) matches Ok(once) ==> once.update_student_course(e) == Ok::<
            Database,
            ErrorKind,
        >(once),
{
    let k = (e.student_id, e.course_id);
    if has_key(db.student_courses, enrollment_key(), k) {
        let rows = with_row(db.student_courses, enrollment_key(), e);
        let once = db.update_student_course(e)->Ok_0;
        let i = choose|i: int|
            0 <= i < db.student_courses.len() && enrollment_key()(
                #[trigger] db.student_courses[i],
            ) == k;
        assert(enrollment_key()(rows[i]) == k);
        assert(with_row(rows, enrollment_key(), e) =~= rows);
        let twice = once.update_student_course(e)->Ok_0;
        assert(twice.student_accounts =~= once.student_accounts);
    }
}

/// After the accounts of a user were brought in line with a role, the user
/// has a student account exactly where the role is `student`, and a teacher
/// account exactly where it is `teacher`.
pub proof fn lemma_accounts_follow_role(db: Database, user: i32, role: Seq<char>)
    ensures
        db.with_accounts_for(user, role) matches Ok(after) ==> {
            &&& has_key(after.student_accounts, student_account_owner(), user) == (role
                == "student"@)
            &&& has_key(after.teacher_accounts, teacher_account_owner(), user) == (role
                == "teacher"@)
        },
{
    if let Ok(after) = db.with_accounts_for(user, role) {
        if role == "student"@ {
            if !has_key(db.student_accounts, student_account_owner(), user) {
                let id = (top_key(db.student_accounts, student_account_id()) + 1) as i32;
                lemma_has_key_push(
                    db.student_accounts,
                    student_account_owner(),
                    fresh_student_account(id, user),
                    user,
                );
            }
        } else {
            lemma_has_key_filter(
                db.student_accounts,
                student_account_owner(),
                |r: StudentAccountView| student_account_owner()(r) != user,
                user,
            );
        }
        if role == "teacher"@ {
            if !has_key(db.teacher_accounts, teacher_account_owner(), user) {
                let id = (top_key(db.teacher_accounts, teacher_account_id()) + 1) as i32;
                lemma_has_key_push(
                    db.teacher_accounts,
                    teacher_account_owner(),
                    fresh_teacher_account(id, user),
                    user,
                );
            }
        } else {
            lemma_has_key_filter(
                db.teacher_accounts,
                teacher_account_owner(),
                |r: TeacherAccountView| teacher_account_owner()(r) != user,
                user,
            );
        }
    }
}

/// After a user was inserted or updated, the user's accounts fit the role;
/// after a user was deleted, the user has no account.
pub proof fn lemma_user_accounts_fit(db: Database, a: Action, u: UserView)
    ensures
        a == Action::Insert ==> (db.insert_user(u) matches Ok(after) ==> {
            let id = (top_key(db.users, user_id()) + 1) as i32;
            &&& has_key(after.student_accounts, student_account_owner(), id) == (u.role
                == "student"@)
            &&& has_key(after.teacher_accounts, teacher_account_owner(), id) == (u.role
                == "teacher"@)
        }),
        a == Action::Update && has_key(db.users, user_id(), u.id) ==> (db.update_user(
            u,
        ) matches Ok(after) ==> {
            &&& has_key(after.student_accounts, student_account_owner(), u.id) == (u.role
                == "student"@)
            &&& has_key(after.teacher_accounts, teacher_account_owner(), u.id) == (u.role
                == "teacher"@)
        }),
        a == Action::Delete ==> (db.delete_user(u) matches Ok(after) ==> {
            &&& !has_key(after.users, user_id(), u.id)
            &&& !has_key(after.student_accounts, student_account_owner(), u.id)
            &&& !has_key(after.teacher_accounts, teacher_account_owner(), u.id)
        }),
{
    match a {
        Action::Insert => {
            let id = (top_key(db.users, user_id()) + 1) as i32;
            lemma_accounts_follow_role(
                Database { users: db.users.push(UserView { id, ..u }), ..db },
                id,
                u.role,
            );
        },
        Action::Update => {
            lemma_accounts_follow_role(
                Database { users: merged_users(db.users, u), ..db },
                u.id,
                u.role,
            );
        },
        Action::Delete => {
            lemma_has_key_filter(db.users, user_id(), |r: UserView| user_id()(r) != u.id, u.id);
            lemma_has_key_filter(
                db.student_accounts,
                student_account_owner(),
                |r: StudentAccountView| student_account_owner()(r) != u.id,
                u.id,
            );
            lemma_has_key_filter(
                db.teacher_accounts,
                teacher_account_owner(),
                |r: TeacherAccountView| teacher_account_owner()(r) != u.id,
                u.id,
            );
        },
    }
}

/// Taking records as they are keeps the uniqueness rules of the store.
pub proof fn lemma_receive_all_keeps_wf(db: Database, records: Seq<ReceiverTypeView>)
    requires
        db.wf(),
    ensures
        db.receive_all(records) matches Ok(after) ==> after.wf(),
    decreases records.len(),
{
    if records.len() > 0 {
        if let Ok(next) = db.receive(records.first()) {
            match records.first() {
                ReceiverTypeView::User(x) => {
                    lemma_distinct_push(db.users, user_id(), x);
                    lemma_distinct_push(db.users, user_email(), x);
                },
                ReceiverTypeView::StudentAccount(x) => {
                    lemma_distinct_push(db.student_accounts, student_account_id(), x);
                    lemma_distinct_push(db.student_accounts, student_account_owner(), x);
                },
                ReceiverTypeView::TeacherAccount(x) => {
                    lemma_distinct_push(db.teacher_accounts, teacher_account_id(), x);
                    lemma_distinct_push(db.teacher_accounts, teacher_account_owner(), x);
                },
                ReceiverTypeView::Course(x) => {
                    lemma_distinct_push(db.courses, course_id(), x);
                },
                ReceiverTypeView::StudentCourse(x) => {
                    lemma_distinct_push(db.student_courses, enrollment_key(), x);
                },
                ReceiverTypeView::Department(x) => {
                    lemma_distinct_push(db.departments, department_id(), x);
                },
            }
            lemma_receive_all_keeps_wf(next, records.drop_first());
        }
    }
}

/// A list of commands keeps the uniqueness rules of the store, wherever it
/// ends.
pub proof fn lemma_apply_all_keeps_wf(db: Database, a: Action, records: Seq<ReceiverTypeView>)
    ensures
        db.wf() ==> db.apply_all(a, records).0.wf(),
    decreases records.len(),
{
    if db.wf() && records.len() > 0 {
        lemma_change_keeps_wf(db, a, records.first());
        match db.apply(a, records.first()) {
            Ok(after) => {
                lemma_apply_all_keeps_wf(after, a, records.drop_first());
            },
            Err(_) => {},
        }
    }
}

} // verus!
