use academic_records::db_driver::{DbDriver, ReceiverType};
use academic_records::error::{ErrorKind, Operation};
use academic_records::filter::{
    Associativity, CoursesFilter, DepartmentsFilter, Filter, StudentAccountFilter,
    StudentCoursesFilter, TeacherAccountFilter, UsersFilter,
};
use academic_records::table_models::{
    Courses, Departments, StudentAccount, StudentCourse, Table, TeacherAccount, User,
};

fn user(name: &str, email: &str, role: &str) -> User {
    User {
        id: 0,
        username: name.to_string(),
        password: "Abcd123!".to_string(),
        email: email.to_string(),
        phone: String::new(),
        verified: false,
        suspended: false,
        forcenewpw: false,
        role: role.to_string(),
    }
}

fn course(teacher: i32, name: &str, credits: i32) -> Courses {
    Courses {
        id: 0,
        teacher_id: teacher,
        course: name.to_string(),
        course_nr: "C101".to_string(),
        description: "An introduction.".to_string(),
        cr_cost: credits,
        timeslots: "Mon 9-11".to_string(),
    }
}

fn enrollment(student: i32, course: i32, grade: i32) -> StudentCourse {
    StudentCourse { student_id: student, course_id: course, grade, semester: "Fall".to_string() }
}

fn users_of(db: &DbDriver, filters: Vec<Filter>, assoc: Option<Associativity>) -> Vec<User> {
    db.find_users(filters, assoc).unwrap()
}

fn student_account_of(db: &DbDriver, student: i32) -> Option<StudentAccount> {
    db.find_student_accounts(
        vec![Filter::StudentAccount(StudentAccountFilter::StudentId(student))],
        None,
    )
    .unwrap()
    .into_iter()
    .next()
}

fn teacher_account_of(db: &DbDriver, teacher: i32) -> Option<TeacherAccount> {
    db.find_teacher_accounts(
        vec![Filter::TeacherAccount(TeacherAccountFilter::TeacherId(teacher))],
        None,
    )
    .unwrap()
    .into_iter()
    .next()
}

#[test]
fn new_student_gets_a_student_account() {
    let mut db = DbDriver::init();
    db.insert(vec![ReceiverType::User(user("ann", "a@inst.edu", "student"))]).unwrap();
    let users = users_of(&db, vec![], None);
    assert_eq!(users.len(), 1);
    let id = users[0].id;
    assert_eq!(id, 1);
    let account = student_account_of(&db, id).expect("a student account");
    assert_eq!(account.cgpa, 0);
    assert!(!account.can_grad);
    assert_eq!(account.advisor_id, 0);
    assert_eq!(account.discipline, "");
    assert_eq!(account.enrollment, "");
    assert_eq!(account.cur_credit, 0);
    assert_eq!(account.cum_credit, 0);
    assert!(teacher_account_of(&db, id).is_none());
}

#[test]
fn role_change_swaps_the_account() {
    let mut db = DbDriver::init();
    db.insert(vec![ReceiverType::User(user("ann", "a@inst.edu", "student"))]).unwrap();
    let mut ann = users_of(&db, vec![], None).remove(0);
    ann.role = "teacher".to_string();
    db.update(vec![ReceiverType::User(ann.clone())]).unwrap();
    assert!(student_account_of(&db, ann.id).is_none());
    let account = teacher_account_of(&db, ann.id).expect("a teacher account");
    assert_eq!(account.dept_id, 0);
    assert_eq!(account.teacher_id, ann.id);
}

#[test]
fn admin_role_leaves_no_account() {
    let mut db = DbDriver::init();
    db.insert(vec![ReceiverType::User(user("ann", "a@inst.edu", "teacher"))]).unwrap();
    let mut ann = users_of(&db, vec![], None).remove(0);
    assert!(teacher_account_of(&db, ann.id).is_some());
    ann.role = "admin".to_string();
    db.update(vec![ReceiverType::User(ann.clone())]).unwrap();
    assert!(student_account_of(&db, ann.id).is_none());
    assert!(teacher_account_of(&db, ann.id).is_none());
}

#[test]
fn update_of_a_student_keeps_the_standing() {
    let mut db = DbDriver::init();
    db.insert(vec![ReceiverType::User(user("ann", "a@inst.edu", "student"))]).unwrap();
    db.insert(vec![ReceiverType::Course(course(9, "Logic", 3))]).unwrap();
    db.insert(vec![ReceiverType::StudentCourse(enrollment(1, 1, 3500))]).unwrap();
    let before = student_account_of(&db, 1).unwrap();
    assert_eq!(before.cgpa, 3500);
    let mut ann = users_of(&db, vec![], None).remove(0);
    ann.phone = "+12 3456 7890".to_string();
    db.update(vec![ReceiverType::User(ann)]).unwrap();
    assert_eq!(student_account_of(&db, 1).unwrap(), before);
}

#[test]
fn average_is_weighted_by_credits() {
    let mut db = DbDriver::init();
    db.insert(vec![ReceiverType::User(user("ann", "a@inst.edu", "student"))]).unwrap();
    db.insert(vec![
        ReceiverType::Course(course(9, "Logic", 3)),
        ReceiverType::Course(course(9, "Algebra", 3)),
    ])
    .unwrap();
    db.insert(vec![ReceiverType::StudentCourse(enrollment(1, 1, 3500))]).unwrap();
    assert_eq!(student_account_of(&db, 1).unwrap().cgpa, 3500);
    db.insert(vec![ReceiverType::StudentCourse(enrollment(1, 2, 4000))]).unwrap();
    let account = student_account_of(&db, 1).unwrap();
    assert_eq!(account.cgpa, 3750);
    assert_eq!(account.cgpa as f64 / 1000.0, (3.5 * 3.0 + 4.0 * 3.0) / 6.0);
    assert!(!account.can_grad);
}

#[test]
fn ungraded_enrollments_do_not_count() {
    let mut db = DbDriver::init();
    db.insert(vec![ReceiverType::User(user("ann", "a@inst.edu", "student"))]).unwrap();
    db.insert(vec![
        ReceiverType::Course(course(9, "Logic", 4)),
        ReceiverType::Course(course(9, "Algebra", 2)),
    ])
    .unwrap();
    db.insert(vec![ReceiverType::StudentCourse(enrollment(1, 1, -1000))]).unwrap();
    let account = student_account_of(&db, 1).unwrap();
    assert_eq!(account.cgpa, 0);
    db.insert(vec![ReceiverType::StudentCourse(enrollment(1, 2, 3000))]).unwrap();
    assert_eq!(student_account_of(&db, 1).unwrap().cgpa, 3000);
}

#[test]
fn average_is_rounded_down_to_thousandths() {
    let mut db = DbDriver::init();
    db.insert(vec![ReceiverType::User(user("ann", "a@inst.edu", "student"))]).unwrap();
    db.insert(vec![
        ReceiverType::Course(course(9, "Logic", 1)),
        ReceiverType::Course(course(9, "Algebra", 2)),
    ])
    .unwrap();
    db.insert(vec![
        ReceiverType::StudentCourse(enrollment(1, 1, 4000)),
        ReceiverType::StudentCourse(enrollment(1, 2, 3000)),
    ])
    .unwrap();
    // (4.0 * 1 + 3.0 * 2) / 3 = 3.333...
    assert_eq!(student_account_of(&db, 1).unwrap().cgpa, 3333);
}

#[test]
fn graduation_needs_120_credits() {
    let mut db = DbDriver::init();
    db.insert(vec![ReceiverType::User(user("ann", "a@inst.edu", "student"))]).unwrap();
    db.insert(vec![
        ReceiverType::Course(course(9, "Thesis", 119)),
        ReceiverType::Course(course(9, "Seminar", 1)),
    ])
    .unwrap();
    db.insert(vec![ReceiverType::StudentCourse(enrollment(1, 1, 2000))]).unwrap();
    assert!(!student_account_of(&db, 1).unwrap().can_grad);
    db.insert(vec![ReceiverType::StudentCourse(enrollment(1, 2, 2000))]).unwrap();
    assert!(student_account_of(&db, 1).unwrap().can_grad);
    db.delete(vec![ReceiverType::StudentCourse(enrollment(1, 2, 0))]).unwrap();
    assert!(!student_account_of(&db, 1).unwrap().can_grad);
}

#[test]
fn update_of_a_grade_is_idempotent() {
    let mut db = DbDriver::init();
    db.insert(vec![ReceiverType::User(user("ann", "a@inst.edu", "student"))]).unwrap();
    db.insert(vec![ReceiverType::Course(course(9, "Logic", 3))]).unwrap();
    db.insert(vec![ReceiverType::StudentCourse(enrollment(1, 1, -1000))]).unwrap();
    db.update(vec![ReceiverType::StudentCourse(enrollment(1, 1, 2700))]).unwrap();
    let once = student_account_of(&db, 1).unwrap();
    assert_eq!(once.cgpa, 2700);
    db.update(vec![ReceiverType::StudentCourse(enrollment(1, 1, 2700))]).unwrap();
    assert_eq!(student_account_of(&db, 1).unwrap(), once);
    let rows = db.find(Table::StudentCourses, vec![], None).unwrap();
    assert_eq!(rows, vec![ReceiverType::StudentCourse(enrollment(1, 1, 2700))]);
}

#[test]
fn update_of_a_missing_enrollment_changes_nothing() {
    let mut db = DbDriver::init();
    db.insert(vec![ReceiverType::User(user("ann", "a@inst.edu", "student"))]).unwrap();
    db.update(vec![ReceiverType::StudentCourse(enrollment(1, 7, 2700))]).unwrap();
    assert!(db.find(Table::StudentCourses, vec![], None).unwrap().is_empty());
    assert_eq!(student_account_of(&db, 1).unwrap().cgpa, 0);
}

#[test]
fn find_returns_only_what_satisfies_the_filters() {
    let mut db = DbDriver::init();
    db.insert(vec![
        ReceiverType::User(user("ann", "a@inst.edu", "student")),
        ReceiverType::User(user("bob", "b@inst.edu", "teacher")),
        ReceiverType::User(user("ann", "c@inst.edu", "teacher")),
    ])
    .unwrap();
    let both = users_of(
        &db,
        vec![
            Filter::Users(UsersFilter::Username("ann".to_string())),
            Filter::Users(UsersFilter::Role("teacher".to_string())),
        ],
        Some(Associativity::And),
    );
    assert_eq!(both.len(), 1);
    assert_eq!(both[0].email, "c@inst.edu");
    let either = users_of(
        &db,
        vec![
            Filter::Users(UsersFilter::Username("ann".to_string())),
            Filter::Users(UsersFilter::Role("teacher".to_string())),
        ],
        Some(Associativity::Or),
    );
    assert_eq!(either.len(), 3);
    let default = users_of(
        &db,
        vec![
            Filter::Users(UsersFilter::Username("ann".to_string())),
            Filter::Users(UsersFilter::Role("teacher".to_string())),
        ],
        None,
    );
    assert_eq!(default, both);
    let by_id = users_of(&db, vec![Filter::Users(UsersFilter::Id(2))], None);
    assert_eq!(by_id.len(), 1);
    assert_eq!(by_id[0].username, "bob");
    let nobody = users_of(&db, vec![Filter::Users(UsersFilter::Suspended(true))], None);
    assert!(nobody.is_empty());
}

#[test]
fn find_without_filters_returns_every_record() {
    let mut db = DbDriver::init();
    db.insert(vec![
        ReceiverType::User(user("ann", "a@inst.edu", "student")),
        ReceiverType::User(user("bob", "b@inst.edu", "teacher")),
    ])
    .unwrap();
    for assoc in [None, Some(Associativity::And), Some(Associativity::Or)] {
        let all = db.find(Table::Users, vec![], assoc).unwrap();
        assert_eq!(all.len(), 2);
    }
    let all = db.find(Table::Users, vec![Filter::Users(UsersFilter::All)], None).unwrap();
    assert_eq!(all.len(), 2);
    assert!(db.find(Table::Departments, vec![], None).unwrap().is_empty());
}

fn one_filter_of(kind: usize) -> Filter {
    match kind {
        0 => Filter::Users(UsersFilter::All),
        1 => Filter::StudentAccount(StudentAccountFilter::All),
        2 => Filter::TeacherAccount(TeacherAccountFilter::All),
        3 => Filter::Courses(CoursesFilter::All),
        4 => Filter::StudentCourses(StudentCoursesFilter::All),
        _ => Filter::Departments(DepartmentsFilter::All),
    }
}

#[test]
fn a_filter_of_another_kind_is_an_invalid_filter() {
    let tables = [
        Table::Users,
        Table::StudentAccount,
        Table::TeacherAccount,
        Table::Courses,
        Table::StudentCourses,
        Table::Departments,
    ];
    let db = DbDriver::init();
    for (t, table) in tables.iter().enumerate() {
        for kind in 0..6 {
            let found = db.find(*table, vec![one_filter_of(kind)], None);
            if kind == t {
                assert_eq!(found, Ok(vec![]));
            } else {
                assert_eq!(found, Err(ErrorKind::InvalidFilter));
            }
            // One filter of the right kind does not excuse one of another.
            let mixed = db.find(*table, vec![one_filter_of(t), one_filter_of(kind)], None);
            assert_eq!(mixed.is_err(), kind != t);
        }
    }
}

#[test]
fn a_filter_on_a_column_that_is_not_there_is_a_storage_failure() {
    let db = DbDriver::init();
    assert_eq!(
        db.find(
            Table::TeacherAccount,
            vec![Filter::TeacherAccount(TeacherAccountFilter::Dept("Maths".to_string()))],
            None
        ),
        Err(ErrorKind::StorageFailure { table: Table::TeacherAccount, operation: Operation::Read })
    );
    assert_eq!(
        db.find(Table::Departments, vec![Filter::Departments(DepartmentsFilter::DeptHead(1))], None),
        Err(ErrorKind::StorageFailure { table: Table::Departments, operation: Operation::Read })
    );
    assert_eq!(
        db.find(
            Table::StudentCourses,
            vec![Filter::StudentCourses(StudentCoursesFilter::Id(1))],
            None
        ),
        Err(ErrorKind::StorageFailure { table: Table::StudentCourses, operation: Operation::Read })
    );
    assert_eq!(
        db.find(
            Table::Courses,
            vec![Filter::Courses(CoursesFilter::CreatedAt("today".to_string()))],
            None
        ),
        Err(ErrorKind::StorageFailure { table: Table::Courses, operation: Operation::Read })
    );
}

#[test]
fn insert_then_find_by_email_round_trips() {
    let mut db = DbDriver::init();
    db.insert(vec![ReceiverType::User(user("zed", "z@inst.edu", "admin"))]).unwrap();
    let mut bob = user("bob", "b@inst.edu", "teacher");
    bob.id = 77;
    bob.phone = "12-3456-7890".to_string();
    bob.verified = true;
    db.insert(vec![ReceiverType::User(bob.clone())]).unwrap();
    let found = users_of(&db, vec![Filter::Users(UsersFilter::Email("b@inst.edu".to_string()))], None);
    assert_eq!(found.len(), 1);
    let mut expected = bob;
    expected.id = 2;
    assert_eq!(found[0], expected);
}

#[test]
fn insert_then_find_enrollment_round_trips() {
    let mut db = DbDriver::init();
    let e = enrollment(4, 9, 3100);
    db.insert(vec![
        ReceiverType::StudentCourse(enrollment(4, 8, 1000)),
        ReceiverType::StudentCourse(e.clone()),
        ReceiverType::StudentCourse(enrollment(5, 9, 2000)),
    ])
    .unwrap();
    let found = db
        .find_student_courses(
            vec![
                Filter::StudentCourses(StudentCoursesFilter::StudentId(4)),
                Filter::StudentCourses(StudentCoursesFilter::CourseId(9)),
            ],
            Some(Associativity::And),
        )
        .unwrap();
    assert_eq!(found, vec![e]);
}

#[test]
fn duplicate_email_is_a_conflict() {
    let mut db = DbDriver::init();
    db.insert(vec![ReceiverType::User(user("ann", "a@inst.edu", "student"))]).unwrap();
    let again = db.insert(vec![ReceiverType::User(user("other", "a@inst.edu", "teacher"))]);
    assert_eq!(again, Err(ErrorKind::Conflict));
    assert_eq!(users_of(&db, vec![], None).len(), 1);
    assert!(teacher_account_of(&db, 2).is_none());
}

#[test]
fn update_to_a_taken_email_is_a_conflict() {
    let mut db = DbDriver::init();
    db.insert(vec![
        ReceiverType::User(user("ann", "a@inst.edu", "student")),
        ReceiverType::User(user("bob", "b@inst.edu", "student")),
    ])
    .unwrap();
    let mut bob = users_of(&db, vec![Filter::Users(UsersFilter::Id(2))], None).remove(0);
    bob.email = "a@inst.edu".to_string();
    assert_eq!(db.update(vec![ReceiverType::User(bob)]), Err(ErrorKind::Conflict));
    let bob = users_of(&db, vec![Filter::Users(UsersFilter::Id(2))], None).remove(0);
    assert_eq!(bob.email, "b@inst.edu");
}

#[test]
fn duplicate_enrollment_is_a_conflict() {
    let mut db = DbDriver::init();
    db.insert(vec![ReceiverType::StudentCourse(enrollment(1, 1, -1000))]).unwrap();
    assert_eq!(
        db.insert(vec![ReceiverType::StudentCourse(enrollment(1, 1, 3000))]),
        Err(ErrorKind::Conflict)
    );
}

#[test]
fn second_account_for_one_student_is_a_conflict() {
    let mut db = DbDriver::init();
    db.insert(vec![ReceiverType::User(user("ann", "a@inst.edu", "student"))]).unwrap();
    let account = student_account_of(&db, 1).unwrap();
    assert_eq!(db.insert(vec![ReceiverType::StudentAccount(account)]), Err(ErrorKind::Conflict));
}

#[test]
fn insert_stops_at_the_first_failure() {
    let mut db = DbDriver::init();
    let r = db.insert(vec![
        ReceiverType::User(user("ann", "a@inst.edu", "student")),
        ReceiverType::User(user("ann2", "a@inst.edu", "student")),
        ReceiverType::User(user("bob", "b@inst.edu", "student")),
    ]);
    assert_eq!(r, Err(ErrorKind::Conflict));
    let users = users_of(&db, vec![], None);
    assert_eq!(users.len(), 1);
    assert_eq!(users[0].username, "ann");
    // The journal holds the statement of the record that was inserted, and no other.
    assert_eq!(db.take_statements().len(), 1);
}

#[test]
fn insert_ignores_the_given_key() {
    let mut db = DbDriver::init();
    let mut c = course(3, "Logic", 3);
    c.id = 500;
    db.insert(vec![ReceiverType::Course(c.clone()), ReceiverType::Course(c.clone())]).unwrap();
    let found = db.find_courses(vec![], None).unwrap();
    assert_eq!(found.iter().map(|c| c.id).collect::<Vec<i32>>(), vec![1, 2]);
    db.delete(vec![ReceiverType::Course(found[0].clone())]).unwrap();
    db.insert(vec![ReceiverType::Course(c)]).unwrap();
    let found = db.find_courses(vec![], None).unwrap();
    assert_eq!(found.iter().map(|c| c.id).collect::<Vec<i32>>(), vec![2, 3]);
}

#[test]
fn update_with_an_empty_password_keeps_the_old_one() {
    let mut db = DbDriver::init();
    db.insert(vec![ReceiverType::User(user("ann", "a@inst.edu", "student"))]).unwrap();
    let mut ann = users_of(&db, vec![], None).remove(0);
    ann.password = String::new();
    ann.username = "anna".to_string();
    db.update(vec![ReceiverType::User(ann)]).unwrap();
    let ann = users_of(&db, vec![], None).remove(0);
    assert_eq!(ann.username, "anna");
    assert_eq!(ann.password, "Abcd123!");
    let mut ann2 = ann.clone();
    ann2.password = "other".to_string();
    db.update(vec![ReceiverType::User(ann2)]).unwrap();
    assert_eq!(users_of(&db, vec![], None)[0].password, "other");
}

#[test]
fn delete_of_a_user_takes_the_account_along() {
    let mut db = DbDriver::init();
    db.insert(vec![
        ReceiverType::User(user("ann", "a@inst.edu", "student")),
        ReceiverType::User(user("bob", "b@inst.edu", "teacher")),
    ])
    .unwrap();
    let bob = users_of(&db, vec![Filter::Users(UsersFilter::Id(2))], None).remove(0);
    db.delete(vec![ReceiverType::User(bob)]).unwrap();
    assert!(teacher_account_of(&db, 2).is_none());
    assert!(student_account_of(&db, 1).is_some());
    assert_eq!(users_of(&db, vec![], None).len(), 1);
}

#[test]
fn departments_and_teacher_accounts_can_be_written() {
    let mut db = DbDriver::init();
    db.insert(vec![
        ReceiverType::Department(Departments { id: 0, name: "Maths".to_string() }),
        ReceiverType::Department(Departments { id: 0, name: "Physics".to_string() }),
    ])
    .unwrap();
    db.update(vec![ReceiverType::Department(Departments { id: 2, name: "Chemistry".to_string() })])
        .unwrap();
    let found = db
        .find_departments(vec![Filter::Departments(DepartmentsFilter::Name("Chemistry".to_string()))], None)
        .unwrap();
    assert_eq!(found, vec![Departments { id: 2, name: "Chemistry".to_string() }]);
    db.insert(vec![ReceiverType::User(user("bob", "b@inst.edu", "teacher"))]).unwrap();
    let mut account = teacher_account_of(&db, 1).unwrap();
    account.dept_id = 2;
    db.update(vec![ReceiverType::TeacherAccount(account.clone())]).unwrap();
    assert_eq!(
        db.find_teacher_accounts(vec![Filter::TeacherAccount(TeacherAccountFilter::DeptId(2))], None)
            .unwrap(),
        vec![account.clone()]
    );
    db.delete(vec![ReceiverType::TeacherAccount(account)]).unwrap();
    assert!(teacher_account_of(&db, 1).is_none());
    db.delete(vec![ReceiverType::Department(Departments { id: 1, name: String::new() })]).unwrap();
    assert_eq!(db.find_departments(vec![], None).unwrap().len(), 1);
}

#[test]
fn restore_takes_records_with_their_keys() {
    let mut ann = user("ann", "a@inst.edu", "student");
    ann.id = 40;
    let mut logic = course(3, "Logic", 3);
    logic.id = 7;
    let db = DbDriver::restore(vec![
        ReceiverType::User(ann.clone()),
        ReceiverType::Course(logic.clone()),
        ReceiverType::StudentCourse(enrollment(40, 7, 3000)),
    ])
    .unwrap();
    assert_eq!(users_of(&db, vec![], None), vec![ann.clone()]);
    assert_eq!(db.find_courses(vec![], None).unwrap(), vec![logic]);
    // Nothing follows from a restored record.
    assert!(student_account_of(&db, 40).is_none());
    let mut db = db;
    assert!(db.take_statements().is_empty());
    db.insert(vec![ReceiverType::User(user("bob", "b@inst.edu", "admin"))]).unwrap();
    assert_eq!(users_of(&db, vec![Filter::Users(UsersFilter::Username("bob".to_string()))], None)[0].id, 41);
    let mut twin = ann.clone();
    twin.email = "other@inst.edu".to_string();
    assert_eq!(
        DbDriver::restore(vec![ReceiverType::User(ann), ReceiverType::User(twin)]).err(),
        Some(ErrorKind::Conflict)
    );
}

#[test]
fn keys_run_out_with_a_storage_failure() {
    let mut last = course(3, "Logic", 3);
    last.id = i32::MAX;
    let mut db = DbDriver::restore(vec![ReceiverType::Course(last)]).unwrap();
    assert_eq!(
        db.insert(vec![ReceiverType::Course(course(3, "Algebra", 3))]),
        Err(ErrorKind::StorageFailure { table: Table::Courses, operation: Operation::Insert })
    );
    assert_eq!(db.find_courses(vec![], None).unwrap().len(), 1);
    // A user whose account can get no key is not inserted either.
    let mut db = DbDriver::restore(vec![ReceiverType::StudentAccount(StudentAccount {
        id: i32::MAX,
        student_id: 50,
        advisor_id: 0,
        discipline: String::new(),
        enrollment: String::new(),
        cgpa: 0,
        can_grad: false,
        cur_credit: 0,
        cum_credit: 0,
    })])
    .unwrap();
    assert_eq!(
        db.insert(vec![ReceiverType::User(user("ann", "a@inst.edu", "student"))]),
        Err(ErrorKind::StorageFailure { table: Table::StudentAccount, operation: Operation::Insert })
    );
    assert!(users_of(&db, vec![], None).is_empty());
    assert!(db.take_statements().is_empty());
}
