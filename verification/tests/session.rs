use academic_records::db_driver::{DbDriver, ReceiverType};
use academic_records::error::ErrorKind;
use academic_records::filter::{Filter, StudentAccountFilter, UsersFilter};
use academic_records::password::{generate_salt, hash, verify};
use academic_records::server_connection_impl::{
    login_verdict, semester_for, Actor, ServerConnection, Statistics,
};
use academic_records::table_models::{Courses, Departments, StudentCourse, TeacherAccount, User};

const SECRET: &str = "Abcd123!";

fn person(name: &str, email: &str, role: &str) -> User {
    User {
        id: 0,
        username: name.to_string(),
        password: SECRET.to_string(),
        email: email.to_string(),
        phone: String::new(),
        verified: false,
        suspended: false,
        forcenewpw: false,
        role: role.to_string(),
    }
}

fn lecture(teacher: i32, name: &str, credits: i32) -> Courses {
    Courses {
        id: 0,
        teacher_id: teacher,
        course: name.to_string(),
        course_nr: "C1".to_string(),
        description: String::new(),
        cr_cost: credits,
        timeslots: "Tue".to_string(),
    }
}

/// A store with an administrator (key 1), two teachers (2 and 3) and two
/// students (4 and 5), all with the same password, hashed once.
fn campus() -> ServerConnection {
    let hashed = hash(SECRET, &generate_salt()).expect("a hash");
    let mut records = Vec::new();
    for (name, email, role) in [
        ("root", "root@aubg.edu", "admin"),
        ("tina", "tina@aubg.edu", "teacher"),
        ("theo", "theo@aubg.edu", "Teacher"),
        ("sam", "sam@aubg.edu", "student"),
        ("sue", "sue@aubg.edu", "STUDENT"),
    ] {
        let mut u = person(name, email, role);
        u.password = hashed.clone();
        records.push(ReceiverType::User(u));
    }
    let mut db = DbDriver::init();
    db.insert(records).unwrap();
    db.take_statements();
    ServerConnection::over(db)
}

fn signed_in(email: &str) -> ServerConnection {
    let mut conn = campus();
    conn.login(email.to_string(), SECRET.to_string()).unwrap();
    conn
}

fn user_named(conn: &ServerConnection, name: &str) -> User {
    conn.get_users_by_filters(vec![Filter::Users(UsersFilter::Username(name.to_string()))])
        .unwrap()
        .remove(0)
}

#[test]
fn hash_is_no_copy_of_the_password_and_verifies() {
    let salt = generate_salt();
    let hashed = hash(SECRET, &salt).expect("a hash");
    assert_ne!(hashed, SECRET);
    assert_ne!(hashed, salt);
    assert!(hashed.starts_with("$argon2id$"));
    assert!(hashed.contains(&salt));
    assert!(verify(&hashed, SECRET));
    assert!(!verify(&hashed, "Abcd123?"));
    assert!(!verify(SECRET, SECRET));
    assert!(!verify("", SECRET));
}

#[test]
fn hash_depends_on_the_salt_alone() {
    let salt = generate_salt();
    assert_eq!(hash(SECRET, &salt), hash(SECRET, &salt));
    let other = generate_salt();
    assert_ne!(salt, other);
    assert_ne!(hash(SECRET, &salt), hash(SECRET, &other));
    assert_eq!(hash(SECRET, "no salt!"), None);
    assert_eq!(hash(SECRET, "abcd"), None);
}

#[test]
fn registration_checks_the_email() {
    let mut conn = ServerConnection::new();
    assert_eq!(
        conn.register_user(person("x", "x@other.com", "student")),
        Err(ErrorKind::ValidationFailed)
    );
    assert!(conn.get_users().unwrap().is_empty());
    assert_eq!(conn.register_user(person("ann", "a@aubg.edu", "student")), Ok(()));
    assert_eq!(
        conn.register_user(person("other", "a@aubg.edu", "student")),
        Err(ErrorKind::Conflict)
    );
    assert_eq!(
        conn.register_user(person("other", "A@AUBG.EDU", "student")),
        Err(ErrorKind::Conflict)
    );
    assert_eq!(conn.get_users().unwrap().len(), 1);
}

#[test]
fn registration_stores_a_hash_and_makes_the_account() {
    let mut conn = ServerConnection::new();
    let mut ann = person("ann", "a@aubg.edu", "student");
    ann.id = 99;
    ann.phone = "+35 9888 1234".to_string();
    conn.register_user(ann.clone()).unwrap();
    let stored = conn.get_users().unwrap().remove(0);
    assert_eq!(stored.id, 1);
    assert_ne!(stored.password, SECRET);
    assert!(verify(&stored.password, SECRET));
    let mut expected = ann;
    expected.id = 1;
    expected.password = stored.password.clone();
    assert_eq!(stored, expected);
    conn.login("a@aubg.edu".to_string(), SECRET.to_string()).unwrap();
    let standing = conn.get_student_standing().unwrap();
    assert_eq!(standing.student_id, 1);
    assert_eq!(standing.cgpa, 0);
    assert!(!standing.can_grad);
    let statements = conn.take_statements();
    assert_eq!(statements.len(), 1);
    assert!(statements[0].statement.sql.starts_with("INSERT INTO USERS "));
}

#[test]
fn registration_refusals_come_in_order() {
    let mut conn = ServerConnection::new();
    let mut bad = person("", "nobody", "student");
    bad.password = "weak".to_string();
    bad.phone = "12".to_string();
    assert_eq!(conn.check_registration(&bad), Some(ErrorKind::ValidationFailed));
    let mut no_name = person("", "a@aubg.edu", "student");
    assert_eq!(conn.check_registration(&no_name), Some(ErrorKind::ValidationFailed));
    no_name.username = "ann".to_string();
    assert_eq!(conn.check_registration(&no_name), None);
    let mut phone = no_name.clone();
    phone.phone = "12345".to_string();
    assert_eq!(conn.check_registration(&phone), Some(ErrorKind::ValidationFailed));
    phone.phone = "12 3456 7890".to_string();
    assert_eq!(conn.check_registration(&phone), None);
    for weak in ["Abcd12!", "abcd123!", "ABCD123!", "Abcdefg!", "Abcd1234"] {
        let mut u = no_name.clone();
        u.password = weak.to_string();
        assert_eq!(conn.check_registration(&u), Some(ErrorKind::ValidationFailed), "{}", weak);
    }
    assert_eq!(
        conn.finish_registration(no_name.clone(), None),
        Err(ErrorKind::ValidationFailed)
    );
    assert_eq!(conn.finish_registration(no_name.clone(), Some("$hash".to_string())), Ok(()));
    assert_eq!(conn.get_users().unwrap()[0].password, "$hash");
    // A taken email is reported before anything else is looked at.
    let mut taken = bad;
    taken.email = "a@aubg.edu".to_string();
    assert_eq!(conn.check_registration(&taken), Some(ErrorKind::Conflict));
}

#[test]
fn registration_is_for_those_who_are_signed_out() {
    let mut conn = signed_in("sam@aubg.edu");
    assert_eq!(
        conn.register_user(person("new", "new@aubg.edu", "student")),
        Err(ErrorKind::Forbidden)
    );
    assert_eq!(conn.get_users().unwrap().len(), 5);
}

#[test]
fn login_binds_the_session() {
    let mut conn = campus();
    assert_eq!(conn.actor(), Actor::Anonymous);
    assert!(!conn.is_admin() && !conn.is_teacher() && !conn.is_student());
    assert_eq!(conn.login("root@aubg.edu".to_string(), SECRET.to_string()), Ok(()));
    assert_eq!(conn.actor(), Actor::Admin);
    assert!(conn.is_admin() && !conn.is_teacher() && !conn.is_student());
}

#[test]
fn roles_are_read_whatever_their_case() {
    let conn = signed_in("theo@aubg.edu");
    assert!(conn.is_teacher());
    assert_eq!(conn.actor(), Actor::Teacher);
    let conn = signed_in("sue@aubg.edu");
    assert!(conn.is_student());
    assert_eq!(conn.actor(), Actor::Student);
}

#[test]
fn login_refusals() {
    let mut conn = campus();
    assert_eq!(
        conn.login("nobody@aubg.edu".to_string(), SECRET.to_string()),
        Err(ErrorKind::NotFound)
    );
    assert_eq!(
        conn.login("sam@aubg.edu".to_string(), "Wrong123!".to_string()),
        Err(ErrorKind::InvalidCredential)
    );
    assert_eq!(conn.actor(), Actor::Anonymous);
    conn.login("root@aubg.edu".to_string(), SECRET.to_string()).unwrap();
    let mut sam = user_named(&conn, "sam");
    sam.suspended = true;
    sam.forcenewpw = true;
    conn.update_user(sam.clone()).unwrap();
    let mut sue = user_named(&conn, "sue");
    sue.forcenewpw = true;
    conn.update_user(sue).unwrap();
    let mut fresh = ServerConnection::over(
        DbDriver::restore(conn.get_users().unwrap().into_iter().map(ReceiverType::User).collect())
            .unwrap(),
    );
    assert_eq!(
        fresh.login("sam@aubg.edu".to_string(), SECRET.to_string()),
        Err(ErrorKind::Suspended)
    );
    assert_eq!(
        fresh.login("sue@aubg.edu".to_string(), SECRET.to_string()),
        Err(ErrorKind::MustChangePassword)
    );
    assert_eq!(fresh.actor(), Actor::Anonymous);
}

#[test]
fn login_verdict_for_each_case() {
    let mut u = person("ann", "a@aubg.edu", "student");
    assert_eq!(login_verdict(None, true), Err(ErrorKind::NotFound));
    assert_eq!(login_verdict(Some(&u), true), Ok(()));
    assert_eq!(login_verdict(Some(&u), false), Err(ErrorKind::InvalidCredential));
    u.forcenewpw = true;
    assert_eq!(login_verdict(Some(&u), true), Err(ErrorKind::MustChangePassword));
    u.suspended = true;
    assert_eq!(login_verdict(Some(&u), true), Err(ErrorKind::Suspended));
}

#[test]
fn teacher_cannot_touch_anothers_course() {
    let mut conn = signed_in("root@aubg.edu");
    conn.register_courses(vec![lecture(2, "Logic", 3), lecture(3, "Algebra", 4)]).unwrap();
    let mut conn = {
        let db = DbDriver::restore(
            conn.get_users()
                .unwrap()
                .into_iter()
                .map(ReceiverType::User)
                .chain(conn.search_courses(String::new()).unwrap().into_iter().map(ReceiverType::Course))
                .collect(),
        )
        .unwrap();
        ServerConnection::over(db)
    };
    conn.login("tina@aubg.edu".to_string(), SECRET.to_string()).unwrap();
    let before = conn.search_courses(String::new()).unwrap();
    let mut algebra = before[1].clone();
    assert_eq!(algebra.teacher_id, 3);
    algebra.course = "Mine now".to_string();
    assert_eq!(conn.update_courses(vec![algebra.clone()]), Err(ErrorKind::Forbidden));
    assert_eq!(conn.search_courses(String::new()).unwrap(), before);
    // One course of another teacher refuses the whole batch.
    let mut logic = before[0].clone();
    logic.course = "Logic II".to_string();
    assert_eq!(conn.update_courses(vec![logic.clone(), algebra.clone()]), Err(ErrorKind::Forbidden));
    assert_eq!(conn.search_courses(String::new()).unwrap(), before);
    assert_eq!(conn.remove_courses(vec![algebra.clone()]), Err(ErrorKind::Forbidden));
    // Naming oneself as the teacher of another's course does not make it one's own.
    let mut claimed = algebra;
    claimed.teacher_id = 2;
    assert_eq!(conn.update_courses(vec![claimed.clone()]), Err(ErrorKind::Forbidden));
    assert_eq!(conn.remove_courses(vec![claimed]), Err(ErrorKind::Forbidden));
    assert_eq!(conn.search_courses(String::new()).unwrap(), before);
    assert_eq!(conn.register_courses(vec![lecture(3, "Sets", 2)]), Err(ErrorKind::Forbidden));
    assert_eq!(conn.search_courses(String::new()).unwrap(), before);
    assert!(conn.take_statements().is_empty());
    // The teacher's own course can be updated.
    assert_eq!(conn.update_courses(vec![logic]), Ok(()));
    assert_eq!(conn.search_courses(String::new()).unwrap()[0].course, "Logic II");
}

#[test]
fn courses_are_for_administrators_and_teachers() {
    let mut conn = campus();
    assert_eq!(conn.register_courses(vec![lecture(2, "Logic", 3)]), Err(ErrorKind::Unauthenticated));
    assert_eq!(conn.update_courses(vec![]), Err(ErrorKind::Unauthenticated));
    assert_eq!(conn.remove_courses(vec![]), Err(ErrorKind::Unauthenticated));
    let mut conn = signed_in("sam@aubg.edu");
    assert_eq!(conn.register_courses(vec![lecture(4, "Logic", 3)]), Err(ErrorKind::Forbidden));
    assert_eq!(conn.remove_courses(vec![]), Err(ErrorKind::Forbidden));
    let mut conn = signed_in("tina@aubg.edu");
    assert_eq!(conn.register_courses(vec![lecture(2, "Logic", 3)]), Ok(()));
    let logic = conn.search_courses("1".to_string()).unwrap().remove(0);
    assert_eq!(conn.remove_courses(vec![logic]), Ok(()));
    assert!(conn.search_courses(String::new()).unwrap().is_empty());
}

#[test]
fn admin_cannot_delete_the_own_user() {
    let mut conn = signed_in("root@aubg.edu");
    let root = user_named(&conn, "root");
    assert_eq!(conn.delete_user(root), Err(ErrorKind::Forbidden));
    assert_eq!(conn.get_users().unwrap().len(), 5);
    let tina = user_named(&conn, "tina");
    let sam = user_named(&conn, "sam");
    let accounts = conn.get_teacher_accounts().unwrap();
    assert_eq!(accounts.len(), 1);
    assert_eq!(accounts[0].teacher_id, tina.id);
    assert_eq!(conn.delete_user(tina.clone()), Ok(()));
    assert_eq!(conn.delete_user(sam.clone()), Ok(()));
    assert_eq!(conn.get_users().unwrap().len(), 3);
    assert!(conn.get_teacher_accounts().unwrap().is_empty());
    assert_eq!(conn.generate_statistics().unwrap().registered_users, 3);
    conn.login("sam@aubg.edu".to_string(), SECRET.to_string()).unwrap_err();
}

#[test]
fn others_delete_only_themselves() {
    let mut conn = campus();
    let sam = user_named(&conn, "sam");
    let sue = user_named(&conn, "sue");
    assert_eq!(conn.delete_user(sam.clone()), Err(ErrorKind::Unauthenticated));
    conn.login("sam@aubg.edu".to_string(), SECRET.to_string()).unwrap();
    assert_eq!(conn.delete_user(sue), Err(ErrorKind::Forbidden));
    assert_eq!(conn.get_users().unwrap().len(), 5);
    assert_eq!(conn.delete_user(sam), Ok(()));
    assert_eq!(conn.get_users().unwrap().len(), 4);
    assert_eq!(conn.get_student_standing(), Err(ErrorKind::NotFound));
}

#[test]
fn own_profile_update_keeps_protected_fields() {
    let mut conn = campus();
    let sam = user_named(&conn, "sam");
    assert_eq!(conn.update_user(sam.clone()), Err(ErrorKind::Unauthenticated));
    conn.login("sam@aubg.edu".to_string(), SECRET.to_string()).unwrap();
    for change in 0..3 {
        let mut u = sam.clone();
        match change {
            0 => u.role = "admin".to_string(),
            1 => u.verified = true,
            _ => u.suspended = true,
        }
        assert_eq!(conn.update_user(u), Err(ErrorKind::Forbidden));
    }
    assert_eq!(user_named(&conn, "sam"), sam);
    let sue = user_named(&conn, "sue");
    assert_eq!(conn.update_user(sue), Err(ErrorKind::Forbidden));
    let mut renamed = sam.clone();
    renamed.username = "samuel".to_string();
    renamed.password = String::new();
    assert_eq!(conn.update_user(renamed.clone()), Ok(()));
    renamed.password = sam.password.clone();
    assert_eq!(user_named(&conn, "samuel"), renamed);
}

#[test]
fn a_submitted_hash_or_nothing_keeps_the_password() {
    let mut conn = signed_in("root@aubg.edu");
    let sam = user_named(&conn, "sam");
    let mut u = sam.clone();
    u.password = "$argon2id$v=19$something".to_string();
    conn.update_user(u).unwrap();
    assert_eq!(user_named(&conn, "sam").password, sam.password);
    let mut u = sam.clone();
    u.password = "Newer123!".to_string();
    conn.update_user(u).unwrap();
    let stored = user_named(&conn, "sam").password;
    assert_ne!(stored, sam.password);
    assert_ne!(stored, "Newer123!");
    assert!(verify(&stored, "Newer123!"));
    assert!(ServerConnection::leaves_password(""));
    assert!(ServerConnection::leaves_password("$argon2id"));
    assert!(!ServerConnection::leaves_password("$argon2i"));
    assert!(!ServerConnection::leaves_password("x$argon2id"));
}

#[test]
fn user_update_with_a_given_hash() {
    let mut conn = signed_in("root@aubg.edu");
    let mut sam = user_named(&conn, "sam");
    sam.password = "Newer123!".to_string();
    sam.role = "teacher".to_string();
    assert_eq!(conn.finish_user_update(sam.clone(), None), Err(ErrorKind::ValidationFailed));
    assert_eq!(conn.finish_user_update(sam.clone(), Some("$h".to_string())), Ok(()));
    let stored = user_named(&conn, "sam");
    assert_eq!(stored.password, "$h");
    assert_eq!(stored.role, "teacher");
    let accounts = conn.get_teacher_accounts().unwrap();
    assert_eq!(accounts.len(), 2);
    assert_eq!(accounts[1].teacher_id, stored.id);
    assert_eq!(accounts[1].dept_id, 0);
    let mut ghost = sam;
    ghost.id = 1000;
    assert_eq!(conn.finish_user_update(ghost, Some("$h".to_string())), Err(ErrorKind::NotFound));
}

#[test]
fn departments_are_for_administrators() {
    let mut conn = campus();
    assert_eq!(conn.new_department("Maths"), Err(ErrorKind::Unauthenticated));
    let mut conn = signed_in("tina@aubg.edu");
    assert_eq!(conn.new_department("Maths"), Err(ErrorKind::Forbidden));
    assert_eq!(
        conn.update_teacher_account(TeacherAccount { id: 1, teacher_id: 2, dept_id: 1 }),
        Err(ErrorKind::Forbidden)
    );
    let mut conn = signed_in("root@aubg.edu");
    assert_eq!(conn.new_department("Maths"), Ok(()));
    assert_eq!(conn.new_department("Physics"), Ok(()));
    assert_eq!(conn.get_department(2), Ok(Departments { id: 2, name: "Physics".to_string() }));
    assert_eq!(conn.get_department(3), Err(ErrorKind::NotFound));
    assert_eq!(
        conn.update_teacher_account(TeacherAccount { id: 1, teacher_id: 2, dept_id: 2 }),
        Ok(())
    );
    assert_eq!(conn.get_teacher_accounts().unwrap()[0].dept_id, 2);
    assert_eq!(conn.remove_department(Departments { id: 1, name: "Maths".to_string() }), Ok(()));
    assert_eq!(conn.get_departments().unwrap().len(), 1);
}

#[test]
fn students_enroll_and_drop_for_themselves() {
    let mut conn = signed_in("root@aubg.edu");
    conn.register_courses(vec![lecture(2, "Logic", 3), lecture(3, "Algebra", 4)]).unwrap();
    let courses = conn.search_courses(String::new()).unwrap();
    assert_eq!(conn.enroll_courses(courses.clone()), Err(ErrorKind::Forbidden));
    assert_eq!(conn.drop_courses(courses.clone()), Err(ErrorKind::Forbidden));
    assert_eq!(conn.list_enrollments(), Err(ErrorKind::Forbidden));
    assert_eq!(conn.get_student_standing(), Err(ErrorKind::Forbidden));
    conn.login("sam@aubg.edu".to_string(), SECRET.to_string()).unwrap();
    assert_eq!(conn.enroll_courses_in(vec![courses[0].clone()], 9), Ok(()));
    assert_eq!(conn.enroll_courses_in(vec![courses[1].clone()], 2), Ok(()));
    assert_eq!(
        conn.list_enrollments(),
        Ok(vec![
            StudentCourse { student_id: 4, course_id: 1, grade: -1000, semester: "Fall".to_string() },
            StudentCourse { student_id: 4, course_id: 2, grade: -1000, semester: "Spring".to_string() },
        ])
    );
    assert_eq!(conn.enroll_courses_in(vec![courses[0].clone()], 9), Err(ErrorKind::Conflict));
    assert_eq!(conn.drop_courses(vec![courses[0].clone()]), Ok(()));
    assert_eq!(conn.list_enrollments().unwrap().len(), 1);
    let standing = conn.get_student_standing().unwrap();
    assert_eq!(standing.student_id, 4);
    assert_eq!(standing.cgpa, 0);
}

#[test]
fn enrollment_takes_the_semester_from_today() {
    let mut conn = signed_in("root@aubg.edu");
    conn.register_courses(vec![lecture(2, "Logic", 3)]).unwrap();
    let courses = conn.search_courses(String::new()).unwrap();
    conn.login("sue@aubg.edu".to_string(), SECRET.to_string()).unwrap();
    assert_eq!(conn.enroll_courses(courses), Ok(()));
    let mine = conn.list_enrollments().unwrap();
    assert_eq!(mine.len(), 1);
    assert_eq!(mine[0].student_id, 5);
    assert_eq!(mine[0].grade, -1000);
    assert!(mine[0].semester == "Fall" || mine[0].semester == "Spring");
}

#[test]
fn semester_rule() {
    for month in 1..=5 {
        assert_eq!(semester_for(month), "Spring");
    }
    for month in 6..=12 {
        assert_eq!(semester_for(month), "Fall");
    }
    assert_eq!(semester_for(0), "Spring");
    assert_eq!(semester_for(13), "Spring");
}

#[test]
fn anonymous_cannot_ask_for_enrollments() {
    let mut conn = campus();
    assert_eq!(conn.list_enrollments(), Err(ErrorKind::Unauthenticated));
    assert_eq!(conn.get_student_standing(), Err(ErrorKind::Unauthenticated));
    assert_eq!(conn.enroll_courses(vec![]), Err(ErrorKind::Unauthenticated));
    assert_eq!(conn.drop_courses(vec![]), Err(ErrorKind::Unauthenticated));
    assert_eq!(conn.new_department("x"), Err(ErrorKind::Unauthenticated));
}

#[test]
fn search_looks_in_emails_and_keys() {
    let conn = campus();
    let names = |found: Vec<User>| found.into_iter().map(|u| u.username).collect::<Vec<String>>();
    assert_eq!(names(conn.search_users("t".to_string()).unwrap()), vec!["root", "tina", "theo"]);
    assert_eq!(names(conn.search_users("4".to_string()).unwrap()), vec!["sam"]);
    assert_eq!(names(conn.search_users("sue@aubg.edu".to_string()).unwrap()), vec!["sue"]);
    assert_eq!(conn.search_users(String::new()).unwrap().len(), 5);
    assert!(conn.search_users("zz".to_string()).unwrap().is_empty());
}

#[test]
fn course_search_looks_in_keys() {
    let mut conn = signed_in("root@aubg.edu");
    let many: Vec<Courses> = (0..12).map(|i| lecture(2, &format!("Course {}", i), 1)).collect();
    conn.register_courses(many).unwrap();
    let keys = |found: Vec<Courses>| found.into_iter().map(|c| c.id).collect::<Vec<i32>>();
    assert_eq!(keys(conn.search_courses("1".to_string()).unwrap()), vec![1, 10, 11, 12]);
    assert_eq!(keys(conn.search_courses("12".to_string()).unwrap()), vec![12]);
    assert_eq!(conn.search_courses(String::new()).unwrap().len(), 12);
    assert!(conn.search_courses("Course".to_string()).unwrap().is_empty());
}

#[test]
fn users_by_filters_checks_the_kind() {
    let conn = campus();
    assert_eq!(
        conn.get_users_by_filters(vec![Filter::StudentAccount(StudentAccountFilter::CanGrad(true))]),
        Err(ErrorKind::InvalidFilter)
    );
    assert_eq!(
        conn.get_users_by_filters(vec![Filter::Users(UsersFilter::Role("teacher".to_string()))])
            .unwrap()
            .len(),
        1
    );
}

#[test]
fn statistics_count_the_store() {
    let mut conn = signed_in("root@aubg.edu");
    conn.register_courses(vec![lecture(2, "Thesis", 120), lecture(2, "Logic", 3)]).unwrap();
    conn.new_department("Maths").unwrap();
    let mut theo = user_named(&conn, "theo");
    theo.suspended = true;
    conn.update_user(theo).unwrap();
    let thesis = conn.search_courses("1".to_string()).unwrap();
    conn.login("sam@aubg.edu".to_string(), SECRET.to_string()).unwrap();
    conn.enroll_courses_in(thesis, 10).unwrap();
    assert_eq!(
        conn.generate_statistics(),
        Ok(Statistics {
            registered_users: 5,
            suspended_users: 1,
            faculty_members: 1,
            active_students: 0,
            graduated_students: 0,
            courses: 2,
            departments: 1,
        })
    );
}
