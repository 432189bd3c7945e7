use academic_records::db_driver::{DbDriver, Join, ReceiverType};
use academic_records::error::{ErrorKind, Operation};
use academic_records::filter::{
    Associativity, CoursesFilter, DepartmentsFilter, Filter, Filterable, StudentAccountFilter,
    StudentCoursesFilter, TeacherAccountFilter, UsersFilter,
};
use academic_records::query::{join_statement, select_statement};
use academic_records::rows::{columns, decode_rows, loose_row, render_thousandths, render_value};
use academic_records::statement::{Pending, SqlValue, Statement};
use academic_records::table_models::{
    Action, Courses, Departments, StudentAccount, StudentCourse, Table, TeacherAccount, ToSQL, User,
};

fn text(s: &str) -> SqlValue {
    SqlValue::Text(s.to_string())
}

fn ann() -> User {
    User {
        id: 7,
        username: "ann".to_string(),
        password: "$hash".to_string(),
        email: "a@aubg.edu".to_string(),
        phone: "12 3456 7890".to_string(),
        verified: true,
        suspended: false,
        forcenewpw: false,
        role: "student".to_string(),
    }
}

#[test]
fn user_statements() {
    let u = ann();
    assert_eq!(
        u.to_sql(Action::Insert),
        Statement {
            sql: "INSERT INTO USERS (username, password, email, phone, verified, suspended, forcenewpw, role) VALUES (?, ?, ?, ?, ?, ?, ?, ?)".to_string(),
            params: vec![
                text("ann"),
                text("$hash"),
                text("a@aubg.edu"),
                text("12 3456 7890"),
                SqlValue::Integer(1),
                SqlValue::Integer(0),
                SqlValue::Integer(0),
                text("student"),
            ],
        }
    );
    assert_eq!(
        u.to_sql(Action::Update),
        Statement {
            sql: "UPDATE USERS SET username = ?, password = ?, email = ?, phone = ?, verified = ?, suspended = ?, forcenewpw = ?, role = ? WHERE id = ?".to_string(),
            params: vec![
                text("ann"),
                text("$hash"),
                text("a@aubg.edu"),
                text("12 3456 7890"),
                SqlValue::Integer(1),
                SqlValue::Integer(0),
                SqlValue::Integer(0),
                text("student"),
                SqlValue::Integer(7),
            ],
        }
    );
    assert_eq!(
        u.to_sql(Action::Delete),
        Statement { sql: "DELETE FROM USERS WHERE id = ?".to_string(), params: vec![SqlValue::Integer(7)] }
    );
}

#[test]
fn user_update_without_a_password_leaves_the_column_out() {
    let mut u = ann();
    u.password = String::new();
    let s = u.to_sql(Action::Update);
    assert_eq!(
        s.sql,
        "UPDATE USERS SET username = ?, email = ?, phone = ?, verified = ?, suspended = ?, forcenewpw = ?, role = ? WHERE id = ?"
    );
    assert_eq!(s.params.len(), 8);
    assert_eq!(s.params[7], SqlValue::Integer(7));
}

#[test]
fn no_value_is_spliced_into_a_statement() {
    let mut u = ann();
    u.username = "x'; DROP TABLE USERS; --".to_string();
    for action in [Action::Insert, Action::Update, Action::Delete] {
        let s = u.to_sql(action);
        assert!(!s.sql.contains("DROP"));
        assert!(!s.sql.contains('\''));
        assert_eq!(s.sql.matches('?').count(), s.params.len());
    }
    let f = Filter::Users(UsersFilter::Username(u.username.clone())).to_sql();
    assert_eq!(f.sql, "username = ?");
    assert_eq!(f.params, vec![SqlValue::Text(u.username)]);
}

#[test]
fn account_statements() {
    let a = StudentAccount {
        id: 3,
        student_id: 7,
        advisor_id: 2,
        discipline: "Maths".to_string(),
        enrollment: "Fall".to_string(),
        cgpa: 3750,
        can_grad: true,
        cur_credit: 12,
        cum_credit: 90,
    };
    assert_eq!(
        a.to_sql(Action::Insert),
        Statement {
            sql: "INSERT INTO STUDENT_ACCOUNT (student_id, advisor_id, discipline, enrollment, cgpa, can_grad, cur_credit, cum_credit) VALUES (?, ?, ?, ?, ?, ?, ?, ?)".to_string(),
            params: vec![
                SqlValue::Integer(7),
                SqlValue::Integer(2),
                text("Maths"),
                text("Fall"),
                SqlValue::Real(3750),
                SqlValue::Integer(1),
                SqlValue::Integer(12),
                SqlValue::Integer(90),
            ],
        }
    );
    assert_eq!(
        a.to_sql(Action::Update).sql,
        "UPDATE STUDENT_ACCOUNT SET student_id = ?, advisor_id = ?, discipline = ?, enrollment = ?, cgpa = ?, can_grad = ?, cur_credit = ?, cum_credit = ? WHERE id = ?"
    );
    assert_eq!(a.to_sql(Action::Update).params[8], SqlValue::Integer(3));
    assert_eq!(a.to_sql(Action::Delete).sql, "DELETE FROM STUDENT_ACCOUNT WHERE id = ?");
    let t = TeacherAccount { id: 4, teacher_id: 9, dept_id: 2 };
    assert_eq!(
        t.to_sql(Action::Insert),
        Statement {
            sql: "INSERT INTO TEACHER_ACCOUNT (teacher_id, dept_id) VALUES (?, ?)".to_string(),
            params: vec![SqlValue::Integer(9), SqlValue::Integer(2)],
        }
    );
    assert_eq!(
        t.to_sql(Action::Update),
        Statement {
            sql: "UPDATE TEACHER_ACCOUNT SET teacher_id = ?, dept_id = ? WHERE id = ?".to_string(),
            params: vec![SqlValue::Integer(9), SqlValue::Integer(2), SqlValue::Integer(4)],
        }
    );
    assert_eq!(
        t.to_sql(Action::Delete),
        Statement {
            sql: "DELETE FROM TEACHER_ACCOUNT WHERE id = ?".to_string(),
            params: vec![SqlValue::Integer(4)],
        }
    );
}

#[test]
fn course_department_and_enrollment_statements() {
    let c = Courses {
        id: 5,
        teacher_id: 9,
        course: "Logic".to_string(),
        course_nr: "L1".to_string(),
        description: "Proofs".to_string(),
        cr_cost: 3,
        timeslots: "Mon".to_string(),
    };
    assert_eq!(
        c.to_sql(Action::Insert),
        Statement {
            sql: "INSERT INTO COURSES (teacher_id, course, course_nr, description, cr_cost, timeslots) VALUES (?, ?, ?, ?, ?, ?)".to_string(),
            params: vec![
                SqlValue::Integer(9),
                text("Logic"),
                text("L1"),
                text("Proofs"),
                SqlValue::Integer(3),
                text("Mon"),
            ],
        }
    );
    assert_eq!(
        c.to_sql(Action::Update).sql,
        "UPDATE COURSES SET teacher_id = ?, course = ?, course_nr = ?, description = ?, cr_cost = ?, timeslots = ? WHERE id = ?"
    );
    assert_eq!(c.to_sql(Action::Delete).sql, "DELETE FROM COURSES WHERE id = ?");
    let d = Departments { id: 2, name: "Maths".to_string() };
    assert_eq!(
        d.to_sql(Action::Insert),
        Statement { sql: "INSERT INTO DEPARTMENTS (name) VALUES (?)".to_string(), params: vec![text("Maths")] }
    );
    assert_eq!(
        d.to_sql(Action::Update),
        Statement {
            sql: "UPDATE DEPARTMENTS SET name = ? WHERE id = ?".to_string(),
            params: vec![text("Maths"), SqlValue::Integer(2)],
        }
    );
    assert_eq!(d.to_sql(Action::Delete).sql, "DELETE FROM DEPARTMENTS WHERE id = ?");
    let e = StudentCourse { student_id: 7, course_id: 5, grade: -1000, semester: "Fall".to_string() };
    assert_eq!(
        e.to_sql(Action::Insert),
        Statement {
            sql: "INSERT INTO STUDENT_COURSES (student_id, course_id, grade, semester) VALUES (?, ?, ?, ?)".to_string(),
            params: vec![SqlValue::Integer(7), SqlValue::Integer(5), SqlValue::Real(-1000), text("Fall")],
        }
    );
    assert_eq!(
        e.to_sql(Action::Update),
        Statement {
            sql: "UPDATE STUDENT_COURSES SET student_id = ?, course_id = ?, grade = ?, semester = ? WHERE student_id = ? AND course_id = ?".to_string(),
            params: vec![
                SqlValue::Integer(7),
                SqlValue::Integer(5),
                SqlValue::Real(-1000),
                text("Fall"),
                SqlValue::Integer(7),
                SqlValue::Integer(5),
            ],
        }
    );
    assert_eq!(
        e.to_sql(Action::Delete),
        Statement {
            sql: "DELETE FROM STUDENT_COURSES WHERE student_id = ? AND course_id = ?".to_string(),
            params: vec![SqlValue::Integer(7), SqlValue::Integer(5)],
        }
    );
    assert_eq!(ReceiverType::StudentCourse(e.clone()).to_sql(Action::Delete), e.to_sql(Action::Delete));
}

fn condition(f: Filter) -> (String, Vec<SqlValue>) {
    let s = f.to_sql();
    (s.sql, s.params)
}

#[test]
fn filter_conditions() {
    assert_eq!(condition(Filter::Users(UsersFilter::Email("a@b".to_string()))), ("email = ?".to_string(), vec![text("a@b")]));
    assert_eq!(condition(Filter::Users(UsersFilter::Phone("1".to_string()))), ("phone = ?".to_string(), vec![text("1")]));
    assert_eq!(condition(Filter::Users(UsersFilter::Role("admin".to_string()))), ("role = ?".to_string(), vec![text("admin")]));
    assert_eq!(condition(Filter::Users(UsersFilter::Verified(true))), ("verified = ?".to_string(), vec![SqlValue::Integer(1)]));
    assert_eq!(condition(Filter::Users(UsersFilter::Suspended(false))), ("suspended = ?".to_string(), vec![SqlValue::Integer(0)]));
    assert_eq!(condition(Filter::Users(UsersFilter::Forcenewpw(true))), ("forcenewpw = ?".to_string(), vec![SqlValue::Integer(1)]));
    assert_eq!(condition(Filter::Users(UsersFilter::Id(-3))), ("id = ?".to_string(), vec![SqlValue::Integer(-3)]));
    assert_eq!(condition(Filter::Users(UsersFilter::All)), ("1 = 1".to_string(), vec![]));
    assert_eq!(condition(Filter::StudentAccount(StudentAccountFilter::Cgpa(3750))), ("cgpa = ?".to_string(), vec![SqlValue::Real(3750)]));
    assert_eq!(condition(Filter::StudentAccount(StudentAccountFilter::CanGrad(true))), ("can_grad = ?".to_string(), vec![SqlValue::Integer(1)]));
    assert_eq!(condition(Filter::StudentAccount(StudentAccountFilter::AdvisorId(2))), ("advisor_id = ?".to_string(), vec![SqlValue::Integer(2)]));
    assert_eq!(condition(Filter::TeacherAccount(TeacherAccountFilter::Dept("M".to_string()))), ("dept = ?".to_string(), vec![text("M")]));
    assert_eq!(condition(Filter::TeacherAccount(TeacherAccountFilter::DeptId(2))), ("dept_id = ?".to_string(), vec![SqlValue::Integer(2)]));
    assert_eq!(condition(Filter::Courses(CoursesFilter::CrCost(3))), ("cr_cost = ?".to_string(), vec![SqlValue::Integer(3)]));
    assert_eq!(condition(Filter::Courses(CoursesFilter::UpdatedAt("t".to_string()))), ("updated_at = ?".to_string(), vec![text("t")]));
    assert_eq!(condition(Filter::Departments(DepartmentsFilter::DeptHead(1))), ("dept_head = ?".to_string(), vec![SqlValue::Integer(1)]));
    assert_eq!(condition(Filter::StudentCourses(StudentCoursesFilter::Grade(-1000))), ("grade = ?".to_string(), vec![SqlValue::Real(-1000)]));
    assert_eq!(condition(Filter::StudentCourses(StudentCoursesFilter::Semester("Fall".to_string()))), ("semester = ?".to_string(), vec![text("Fall")]));
    assert_eq!(Filter::Courses(CoursesFilter::All).table(), Table::Courses);
    assert!(!Filter::StudentCourses(StudentCoursesFilter::Id(1)).has_column());
    assert!(Filter::StudentCourses(StudentCoursesFilter::CourseId(1)).has_column());
}

#[test]
fn filters_match_their_records() {
    let u = ann();
    assert!(UsersFilter::Email("a@aubg.edu".to_string()).matches(&u));
    assert!(!UsersFilter::Email("A@aubg.edu".to_string()).matches(&u));
    assert!(UsersFilter::Verified(true).matches(&u));
    assert!(!UsersFilter::Id(8).matches(&u));
    assert!(UsersFilter::All.matches(&u));
    let record = ReceiverType::User(u);
    assert!(Filter::Users(UsersFilter::Role("student".to_string())).matches(&record));
    assert!(!Filter::Courses(CoursesFilter::All).matches(&record));
    assert!(!TeacherAccountFilter::Dept("x".to_string()).matches(&TeacherAccount { id: 1, teacher_id: 1, dept_id: 1 }));
}

#[test]
fn select_statements() {
    assert_eq!(
        select_statement(Table::Users, &vec![], None),
        Ok(Statement { sql: "SELECT * FROM USERS".to_string(), params: vec![] })
    );
    assert_eq!(
        select_statement(Table::StudentAccount, &vec![], Some(Associativity::Or)).unwrap().sql,
        "SELECT * FROM STUDENT_ACCOUNT"
    );
    let filters = vec![
        Filter::Users(UsersFilter::Role("teacher".to_string())),
        Filter::Users(UsersFilter::Suspended(false)),
        Filter::Users(UsersFilter::All),
    ];
    assert_eq!(
        select_statement(Table::Users, &filters, None),
        Ok(Statement {
            sql: "SELECT * FROM USERS WHERE role = ? AND suspended = ? AND 1 = 1".to_string(),
            params: vec![text("teacher"), SqlValue::Integer(0)],
        })
    );
    assert_eq!(
        select_statement(Table::Users, &filters, Some(Associativity::Or)).unwrap().sql,
        "SELECT * FROM USERS WHERE role = ? OR suspended = ? OR 1 = 1"
    );
    assert_eq!(
        select_statement(Table::Courses, &vec![Filter::Courses(CoursesFilter::Id(4))], Some(Associativity::Or)),
        Ok(Statement { sql: "SELECT * FROM COURSES WHERE id = ?".to_string(), params: vec![SqlValue::Integer(4)] })
    );
    assert_eq!(select_statement(Table::Courses, &filters, None), Err(ErrorKind::InvalidFilter));
}

#[test]
fn join_texts_and_statements() {
    assert_eq!(Table::Users.join(&Table::Courses, Join::Inner), "\"USERS\"  INNER JOIN  \"COURSES\"");
    assert_eq!(
        Table::StudentAccount.join(&Table::TeacherAccount, Join::Left),
        "\"STUDENT_ACCOUNT\"  LEFT OUTER JOIN  \"TEACHER_ACCOUNT\""
    );
    assert_eq!(
        Table::StudentCourses.join(&Table::Departments, Join::Right),
        "\"STUDENT_COURSES\"  RIGHT OUTER JOIN  \"DEPARTMENTS\""
    );
    assert_eq!(Table::Users.join(&Table::Users, Join::Full), "\"USERS\"  FULL OUTER JOIN  \"USERS\"");
    assert_eq!(Join::Inner.keyword(), " INNER JOIN ");
    assert_eq!(Associativity::And.keyword(), " AND ");
    assert_eq!(Associativity::Or.keyword(), " OR ");
    let filters = vec![
        Filter::Users(UsersFilter::Role("teacher".to_string())),
        Filter::Courses(CoursesFilter::CrCost(3)),
    ];
    assert_eq!(
        join_statement(&[Table::Users, Table::Courses], &filters, Join::Inner, Some(Associativity::Or)),
        Ok(Statement {
            sql: "SELECT * FROM \"USERS\"  INNER JOIN  \"COURSES\" WHERE role = ? OR cr_cost = ?".to_string(),
            params: vec![text("teacher"), SqlValue::Integer(3)],
        })
    );
    assert_eq!(
        join_statement(&[Table::Users, Table::Courses], &vec![], Join::Full, None).unwrap().sql,
        "SELECT * FROM \"USERS\"  FULL OUTER JOIN  \"COURSES\""
    );
    assert_eq!(
        join_statement(&[Table::Users, Table::Departments], &filters, Join::Inner, None),
        Err(ErrorKind::InvalidFilter)
    );
}

#[test]
fn journal_holds_the_statements_of_the_writes() {
    let mut db = DbDriver::init();
    let d = Departments { id: 0, name: "Maths".to_string() };
    db.insert(vec![ReceiverType::Department(d.clone()), ReceiverType::User(ann())]).unwrap();
    let stored = Departments { id: 1, name: "Algebra".to_string() };
    db.update(vec![ReceiverType::Department(stored.clone())]).unwrap();
    db.delete(vec![ReceiverType::Department(stored.clone())]).unwrap();
    assert_eq!(
        db.take_statements(),
        vec![
            Pending { table: Table::Departments, action: Action::Insert, statement: d.to_sql(Action::Insert) },
            Pending { table: Table::Users, action: Action::Insert, statement: ann().to_sql(Action::Insert) },
            Pending { table: Table::Departments, action: Action::Update, statement: stored.to_sql(Action::Update) },
            Pending { table: Table::Departments, action: Action::Delete, statement: stored.to_sql(Action::Delete) },
        ]
    );
    assert!(db.take_statements().is_empty());
    assert_eq!(db.find_users(vec![], None).unwrap().len(), 1);
}

#[test]
fn rows_decode_in_column_order() {
    let row = vec![
        SqlValue::Integer(7),
        text("ann"),
        text("$hash"),
        text("a@aubg.edu"),
        text("12 3456 7890"),
        SqlValue::Integer(1),
        SqlValue::Integer(0),
        SqlValue::Integer(0),
        text("student"),
    ];
    assert_eq!(User::from_row(&row), Some(ann()));
    assert_eq!(ann().to_row(), row);
    assert_eq!(decode_rows(Table::Users, &vec![row.clone(), row.clone()]).unwrap().len(), 2);
    assert_eq!(ReceiverType::from_row(Table::Users, &row), Ok(ReceiverType::User(ann())));
    let mut longer = row.clone();
    longer.push(SqlValue::Null);
    assert_eq!(User::from_row(&longer), Some(ann()));
    let mut flag = row.clone();
    flag[5] = SqlValue::Integer(-4);
    assert_eq!(User::from_row(&flag), Some(ann()));
    assert_eq!(
        StudentCourse::from_row(&vec![SqlValue::Integer(1), SqlValue::Integer(2), SqlValue::Integer(3), text("Fall")]),
        Some(StudentCourse { student_id: 1, course_id: 2, grade: 3000, semester: "Fall".to_string() })
    );
    assert_eq!(
        StudentCourse::from_row(&vec![SqlValue::Integer(1), SqlValue::Integer(2), SqlValue::Real(3500), text("Fall")]),
        Some(StudentCourse { student_id: 1, course_id: 2, grade: 3500, semester: "Fall".to_string() })
    );
}

#[test]
fn a_row_that_does_not_suit_fails_the_whole_read() {
    let good = vec![SqlValue::Integer(1), text("Maths")];
    let short = vec![SqlValue::Integer(2)];
    let null = vec![SqlValue::Integer(2), SqlValue::Null];
    let wrong = vec![text("2"), text("Physics")];
    let wide = vec![SqlValue::Integer(1 << 31), text("Physics")];
    assert_eq!(
        decode_rows(Table::Departments, &vec![good.clone()]),
        Ok(vec![ReceiverType::Department(Departments { id: 1, name: "Maths".to_string() })])
    );
    assert_eq!(decode_rows(Table::Departments, &vec![]), Ok(vec![]));
    for bad in [short, null, wrong, wide] {
        assert_eq!(Departments::from_row(&bad), None);
        assert_eq!(
            decode_rows(Table::Departments, &vec![good.clone(), bad.clone(), good.clone()]),
            Err(ErrorKind::StorageFailure { table: Table::Departments, operation: Operation::Read })
        );
    }
    assert_eq!(
        decode_rows(Table::Users, &vec![good]),
        Err(ErrorKind::StorageFailure { table: Table::Users, operation: Operation::Read })
    );
    assert_eq!(
        StudentCourse::from_row(&vec![SqlValue::Integer(1), SqlValue::Integer(2), SqlValue::Integer(3_000_000), text("Fall")]),
        None
    );
    assert_eq!(
        StudentCourse::from_row(&vec![SqlValue::Integer(1), SqlValue::Integer(2), text("3.5"), text("Fall")]),
        None
    );
}

#[test]
fn values_render_as_text() {
    assert_eq!(render_value(&SqlValue::Null), "NULL");
    assert_eq!(render_value(&SqlValue::Integer(0)), "0");
    assert_eq!(render_value(&SqlValue::Integer(-120)), "-120");
    assert_eq!(render_value(&SqlValue::Integer(i64::MAX)), "9223372036854775807");
    assert_eq!(render_value(&SqlValue::Integer(i64::MIN)), "-9223372036854775808");
    assert_eq!(render_value(&text("NULL?")), "NULL?");
    assert_eq!(render_value(&SqlValue::Real(3750)), "3.75");
    for (m, expected) in [
        (0, "0"),
        (1000, "1"),
        (-1000, "-1"),
        (3500, "3.5"),
        (3750, "3.75"),
        (3333, "3.333"),
        (5, "0.005"),
        (50, "0.05"),
        (-500, "-0.5"),
        (12010, "12.01"),
        (-1, "-0.001"),
    ] {
        assert_eq!(render_thousandths(m), expected);
        assert_eq!(render_thousandths(m), (m as f64 / 1000.0).to_string());
    }
}

#[test]
fn loose_rows_name_every_column() {
    let names = columns(Table::Departments);
    assert_eq!(names, vec!["id".to_string(), "name".to_string()]);
    assert_eq!(
        loose_row(&names, &vec![SqlValue::Integer(4), text("Maths")]),
        vec![("id".to_string(), "4".to_string()), ("name".to_string(), "Maths".to_string())]
    );
    assert_eq!(
        loose_row(&names, &vec![SqlValue::Null]),
        vec![("id".to_string(), "NULL".to_string()), ("name".to_string(), "NULL".to_string())]
    );
    assert_eq!(
        columns(Table::Users),
        vec!["id", "username", "password", "email", "phone", "verified", "suspended", "forcenewpw", "role"]
    );
    assert_eq!(columns(Table::StudentCourses), vec!["student_id", "course_id", "grade", "semester"]);
    assert_eq!(columns(Table::TeacherAccount), vec!["id", "teacher_id", "dept_id"]);
    assert_eq!(columns(Table::Courses).len(), 7);
    assert_eq!(columns(Table::StudentAccount).len(), 9);
    assert_eq!(Table::StudentAccount.name(), "STUDENT_ACCOUNT");
}
