use academic_records::db_driver::{DbDriver, Join, ReceiverType};
use academic_records::error::{ErrorKind, Operation};
use academic_records::filter::{Associativity, CoursesFilter, DepartmentsFilter, Filter, TeacherAccountFilter, UsersFilter};
use academic_records::table_models::{Courses, Departments, Table, TeacherAccount};

fn department(name: &str) -> ReceiverType {
    ReceiverType::Department(Departments { id: 0, name: name.to_string() })
}

fn lecture(teacher: i32, name: &str) -> ReceiverType {
    ReceiverType::Course(Courses {
        id: 0,
        teacher_id: teacher,
        course: name.to_string(),
        course_nr: "N".to_string(),
        description: String::new(),
        cr_cost: 3,
        timeslots: String::new(),
    })
}

fn pair(name: &str, text: &str) -> (String, String) {
    (name.to_string(), text.to_string())
}

fn faculty() -> DbDriver {
    let mut db = DbDriver::init();
    db.insert(vec![
        department("Maths"),
        department("Physics"),
        ReceiverType::TeacherAccount(TeacherAccount { id: 0, teacher_id: 7, dept_id: 1 }),
        ReceiverType::TeacherAccount(TeacherAccount { id: 0, teacher_id: 8, dept_id: 2 }),
        ReceiverType::TeacherAccount(TeacherAccount { id: 0, teacher_id: 9, dept_id: 0 }),
    ])
    .unwrap();
    db
}

#[test]
fn join_pairs_every_record_with_every_record() {
    let db = faculty();
    let tables = [Table::TeacherAccount, Table::Departments];
    for join in [Join::Inner, Join::Left, Join::Right, Join::Full] {
        let rows = db.join_find(&tables, vec![], join, None).unwrap();
        assert_eq!(rows.len(), 6);
        assert_eq!(
            rows[0],
            vec![pair("id", "1"), pair("teacher_id", "7"), pair("dept_id", "1"), pair("id", "1"), pair("name", "Maths")]
        );
        assert_eq!(
            rows[1],
            vec![pair("id", "1"), pair("teacher_id", "7"), pair("dept_id", "1"), pair("id", "2"), pair("name", "Physics")]
        );
        assert_eq!(rows[5][1], pair("teacher_id", "9"));
        assert_eq!(rows[5][4], pair("name", "Physics"));
    }
}

#[test]
fn join_filters_choose_among_the_pairings() {
    let db = faculty();
    let tables = [Table::TeacherAccount, Table::Departments];
    let both = vec![
        Filter::TeacherAccount(TeacherAccountFilter::DeptId(2)),
        Filter::Departments(DepartmentsFilter::Id(2)),
    ];
    let rows = db.join_find(&tables, both, Join::Inner, Some(Associativity::And)).unwrap();
    assert_eq!(
        rows,
        vec![vec![pair("id", "2"), pair("teacher_id", "8"), pair("dept_id", "2"), pair("id", "2"), pair("name", "Physics")]]
    );
    let either = vec![
        Filter::TeacherAccount(TeacherAccountFilter::DeptId(2)),
        Filter::Departments(DepartmentsFilter::Name("Maths".to_string())),
    ];
    let rows = db.join_find(&tables, either, Join::Inner, Some(Associativity::Or)).unwrap();
    assert_eq!(rows.len(), 4);
    let all = db
        .join_find(&tables, vec![Filter::Departments(DepartmentsFilter::All)], Join::Inner, None)
        .unwrap();
    assert_eq!(all.len(), 6);
}

#[test]
fn outer_joins_keep_records_that_meet_nothing() {
    let mut db = DbDriver::init();
    db.insert(vec![department("Maths"), department("Physics")]).unwrap();
    let tables = [Table::Departments, Table::Courses];
    assert!(db.join_find(&tables, vec![], Join::Inner, None).unwrap().is_empty());
    assert!(db.join_find(&tables, vec![], Join::Right, None).unwrap().is_empty());
    for join in [Join::Left, Join::Full] {
        let rows = db.join_find(&tables, vec![], join, None).unwrap();
        assert_eq!(rows.len(), 2);
        assert_eq!(
            rows[1],
            vec![
                pair("id", "2"),
                pair("name", "Physics"),
                pair("id", "NULL"),
                pair("teacher_id", "NULL"),
                pair("course", "NULL"),
                pair("course_nr", "NULL"),
                pair("description", "NULL"),
                pair("cr_cost", "NULL"),
                pair("timeslots", "NULL"),
            ]
        );
        // A predicate on the table that has no record holds of nothing, but for the
        // one that holds of everything.
        assert!(db
            .join_find(&tables, vec![Filter::Courses(CoursesFilter::CrCost(3))], join, None)
            .unwrap()
            .is_empty());
        assert_eq!(db.join_find(&tables, vec![Filter::Courses(CoursesFilter::All)], join, None).unwrap().len(), 2);
        assert_eq!(
            db.join_find(&tables, vec![Filter::Departments(DepartmentsFilter::Id(1))], join, None).unwrap().len(),
            1
        );
    }
    let other = [Table::Courses, Table::Departments];
    assert!(db.join_find(&other, vec![], Join::Left, None).unwrap().is_empty());
    for join in [Join::Right, Join::Full] {
        let rows = db.join_find(&other, vec![], join, None).unwrap();
        assert_eq!(rows.len(), 2);
        assert_eq!(rows[0][0], pair("id", "NULL"));
        assert_eq!(rows[0][7], pair("id", "1"));
        assert_eq!(rows[0][8], pair("name", "Maths"));
    }
}

#[test]
fn join_renders_every_value_as_text() {
    let mut db = DbDriver::init();
    db.insert(vec![
        ReceiverType::User(academic_records::table_models::User {
            id: 0,
            username: "ann".to_string(),
            password: "$h".to_string(),
            email: "a@aubg.edu".to_string(),
            phone: String::new(),
            verified: true,
            suspended: false,
            forcenewpw: false,
            role: "student".to_string(),
        }),
        lecture(1, "Logic"),
    ])
    .unwrap();
    db.insert(vec![ReceiverType::StudentCourse(academic_records::table_models::StudentCourse {
        student_id: 1,
        course_id: 1,
        grade: 3750,
        semester: "Fall".to_string(),
    })])
    .unwrap();
    let rows = db.join_find(&[Table::StudentAccount, Table::StudentCourses], vec![], Join::Inner, None).unwrap();
    assert_eq!(
        rows,
        vec![vec![
            pair("id", "1"),
            pair("student_id", "1"),
            pair("advisor_id", "0"),
            pair("discipline", ""),
            pair("enrollment", ""),
            pair("cgpa", "3.75"),
            pair("can_grad", "0"),
            pair("cur_credit", "0"),
            pair("cum_credit", "0"),
            pair("student_id", "1"),
            pair("course_id", "1"),
            pair("grade", "3.75"),
            pair("semester", "Fall"),
        ]]
    );
    let users = db.join_find(&[Table::Users, Table::Courses], vec![], Join::Inner, None).unwrap();
    assert_eq!(users[0][5], pair("verified", "1"));
    assert_eq!(users[0][6], pair("suspended", "0"));
}

#[test]
fn join_refuses_filters_of_a_third_kind() {
    let db = faculty();
    let tables = [Table::TeacherAccount, Table::Departments];
    assert_eq!(
        db.join_find(&tables, vec![Filter::Users(UsersFilter::All)], Join::Inner, None),
        Err(ErrorKind::InvalidFilter)
    );
    assert_eq!(
        db.join_find(
            &tables,
            vec![Filter::Departments(DepartmentsFilter::All), Filter::Courses(CoursesFilter::All)],
            Join::Full,
            Some(Associativity::Or)
        ),
        Err(ErrorKind::InvalidFilter)
    );
    assert_eq!(
        db.join_find(&tables, vec![Filter::Departments(DepartmentsFilter::DeptHead(1))], Join::Inner, None),
        Err(ErrorKind::StorageFailure { table: Table::Departments, operation: Operation::Read })
    );
    assert_eq!(
        db.join_find(
            &tables,
            vec![
                Filter::Departments(DepartmentsFilter::Id(1)),
                Filter::TeacherAccount(TeacherAccountFilter::Dept("x".to_string())),
                Filter::Departments(DepartmentsFilter::DeptHead(1)),
            ],
            Join::Inner,
            None
        ),
        Err(ErrorKind::StorageFailure { table: Table::TeacherAccount, operation: Operation::Read })
    );
    assert!(Filter::Users(UsersFilter::All).is_all());
    assert!(!Filter::Users(UsersFilter::Id(1)).is_all());
}
