use academic_records::db_driver::{DbDriver, ReceiverType};
use academic_records::password::{generate_salt, hash};
use academic_records::rest_api::{
    admin, delete_department, delete_user, enroll, get_course, get_courses, get_department,
    get_departments, get_self, get_stats, get_students, get_teachers, get_users,
    invite_to_department, kick_from_department, login, logout, new_course, new_department,
    number_or_zero, register, register_admin, remove_course, sign_in, unenroll, update_course,
    update_self, update_user, CourseFields, OwnAccount, Refusal, Status, UserPatch,
};
use academic_records::server_connection_impl::ServerConnection;
use academic_records::table_models::{Courses, Departments, TeacherAccount, User};

const WORD: &str = "Abcd123!";

fn member(name: &str, email: &str, role: &str, hashed: &str) -> ReceiverType {
    ReceiverType::User(User {
        id: 0,
        username: name.to_string(),
        password: hashed.to_string(),
        email: email.to_string(),
        phone: String::new(),
        verified: false,
        suspended: false,
        forcenewpw: false,
        role: role.to_string(),
    })
}

/// An administrator (1), two teachers (2, 3) and a student (4); two
/// departments; one course of each teacher.
fn school() -> ServerConnection {
    let hashed = hash(WORD, &generate_salt()).unwrap();
    let mut db = DbDriver::init();
    db.insert(vec![
        member("root", "root@aubg.edu", "admin", &hashed),
        member("tina", "tina@aubg.edu", "teacher", &hashed),
        member("theo", "theo@aubg.edu", "teacher", &hashed),
        member("sam", "sam@aubg.edu", "student", &hashed),
        ReceiverType::Department(Departments { id: 0, name: "Maths".to_string() }),
        ReceiverType::Department(Departments { id: 0, name: "Physics".to_string() }),
        ReceiverType::Course(Courses {
            id: 0,
            teacher_id: 2,
            course: "Logic".to_string(),
            course_nr: "L1".to_string(),
            description: String::new(),
            cr_cost: 3,
            timeslots: "Mon".to_string(),
        }),
        ReceiverType::Course(Courses {
            id: 0,
            teacher_id: 3,
            course: "Optics".to_string(),
            course_nr: "O1".to_string(),
            description: String::new(),
            cr_cost: 4,
            timeslots: "Tue".to_string(),
        }),
    ])
    .unwrap();
    db.update(vec![ReceiverType::TeacherAccount(TeacherAccount { id: 1, teacher_id: 2, dept_id: 1 })])
        .unwrap();
    db.take_statements();
    ServerConnection::over(db)
}

fn bad(message: &str) -> Refusal {
    Refusal { status: Status::BadRequest, message: message.to_string() }
}

fn broken(message: &str) -> Refusal {
    Refusal { status: Status::InternalServerError, message: message.to_string() }
}

fn unauthorized() -> Refusal {
    Refusal { status: Status::Unauthorized, message: "Unauthorized".to_string() }
}

const ROOT: (Option<&str>, Option<&str>) = (Some("root@aubg.edu"), Some(WORD));
const TINA: (Option<&str>, Option<&str>) = (Some("tina@aubg.edu"), Some(WORD));
const SAM: (Option<&str>, Option<&str>) = (Some("sam@aubg.edu"), Some(WORD));

fn no_fields<'a>() -> CourseFields<'a> {
    CourseFields { name: None, description: None, course_nr: None, teacher_id: None, cr_cost: None, timeslots: None }
}

fn no_patch<'a>() -> UserPatch<'a> {
    UserPatch {
        username: None,
        password: None,
        email: None,
        phone: None,
        verified: None,
        suspended: None,
        forcenewpw: None,
        role: None,
    }
}

#[test]
fn sign_in_refusals() {
    let mut conn = school();
    assert_eq!(sign_in(&mut conn, Some("root@aubg.edu"), None), Err(bad("Missing login password.")));
    assert_eq!(sign_in(&mut conn, None, None), Err(bad("Missing login password.")));
    assert_eq!(sign_in(&mut conn, None, Some(WORD)), Err(bad("Missing login email.")));
    assert_eq!(sign_in(&mut conn, Some("root@aubg.edu"), Some("nope")), Err(bad("Invalid login credentials.")));
    assert_eq!(sign_in(&mut conn, Some("who@aubg.edu"), Some(WORD)), Err(bad("Invalid login credentials.")));
    assert!(!conn.is_admin());
    assert_eq!(sign_in(&mut conn, ROOT.0, ROOT.1), Ok(()));
    assert!(conn.is_admin());
}

#[test]
fn admin_gate() {
    assert_eq!(admin(&mut school(), ROOT.0, ROOT.1), Ok(()));
    assert_eq!(admin(&mut school(), TINA.0, TINA.1), Err(unauthorized()));
    assert_eq!(admin(&mut school(), SAM.0, SAM.1), Err(unauthorized()));
    assert_eq!(admin(&mut school(), None, Some(WORD)), Err(bad("Missing login email.")));
}

#[test]
fn lists_without_a_session() {
    let conn = school();
    assert_eq!(get_users(&conn).unwrap().len(), 4);
    assert_eq!(get_students(&conn).unwrap().len(), 1);
    assert_eq!(get_teachers(&conn).unwrap().iter().map(|u| u.id).collect::<Vec<i32>>(), vec![2, 3]);
    assert_eq!(get_departments(&conn).unwrap().len(), 2);
    let all = get_courses(&conn).unwrap();
    assert_eq!(all.courses.len(), 2);
    assert_eq!(all.users.len(), 2);
    assert_eq!(all.teacher_accounts.len(), 2);
    assert_eq!(all.departments.len(), 2);
}

#[test]
fn department_by_key() {
    let conn = school();
    assert_eq!(get_department(&conn, None), Err(bad("Missing department id.")));
    assert_eq!(get_department(&conn, Some("two")), Err(bad("Invalid department id.")));
    assert_eq!(get_department(&conn, Some("2")), Ok(Departments { id: 2, name: "Physics".to_string() }));
    assert_eq!(get_department(&conn, Some("9")), Err(broken("Not found.")));
}

#[test]
fn numbers_in_requests() {
    assert_eq!(number_or_zero(None), 0);
    assert_eq!(number_or_zero(Some("")), 0);
    assert_eq!(number_or_zero(Some("x")), 0);
    assert_eq!(number_or_zero(Some("12")), 12);
    assert_eq!(number_or_zero(Some("-3")), -3);
}

#[test]
fn departments_are_created_and_deleted_by_administrators() {
    let mut conn = school();
    assert_eq!(new_department(&mut conn, TINA.0, TINA.1, "Arts"), Err(unauthorized()));
    assert_eq!(get_departments(&conn).unwrap().len(), 2);
    assert_eq!(new_department(&mut conn, ROOT.0, ROOT.1, "Arts"), Ok(()));
    assert_eq!(get_departments(&conn).unwrap()[2], Departments { id: 3, name: "Arts".to_string() });
    assert_eq!(delete_department(&mut conn, ROOT.0, ROOT.1, None), Err(bad("Missing department id.")));
    assert_eq!(delete_department(&mut conn, ROOT.0, ROOT.1, Some("0")), Err(bad("Missing department id.")));
    assert_eq!(delete_department(&mut conn, ROOT.0, ROOT.1, Some("x")), Err(bad("Missing department id.")));
    assert_eq!(delete_department(&mut conn, ROOT.0, ROOT.1, Some("8")), Err(broken("Not found.")));
    assert_eq!(delete_department(&mut conn, SAM.0, SAM.1, Some("3")), Err(unauthorized()));
    assert_eq!(delete_department(&mut conn, ROOT.0, ROOT.1, Some("3")), Ok(()));
    assert_eq!(get_departments(&conn).unwrap().len(), 2);
}

#[test]
fn teachers_join_and_leave_departments() {
    let mut conn = school();
    let (e, p) = ROOT;
    assert_eq!(invite_to_department(&mut conn, e, p, Some("x"), Some("3")), Err(bad("Missing department id.")));
    assert_eq!(invite_to_department(&mut conn, e, p, Some("2"), None), Err(bad("Missing teacher id.")));
    assert_eq!(invite_to_department(&mut conn, e, p, Some("2"), Some("0")), Err(bad("Invalid teacher id.")));
    assert_eq!(invite_to_department(&mut conn, e, p, Some("7"), Some("3")), Err(broken("Not found.")));
    assert_eq!(invite_to_department(&mut conn, e, p, Some("2"), Some("4")), Err(bad("Teacher not found.")));
    assert_eq!(invite_to_department(&mut conn, TINA.0, TINA.1, Some("2"), Some("3")), Err(unauthorized()));
    assert_eq!(conn.get_teacher_accounts().unwrap()[1].dept_id, 0);
    assert_eq!(invite_to_department(&mut conn, e, p, Some("2"), Some("3")), Ok(()));
    assert_eq!(
        conn.get_teacher_accounts().unwrap(),
        vec![
            TeacherAccount { id: 1, teacher_id: 2, dept_id: 1 },
            TeacherAccount { id: 2, teacher_id: 3, dept_id: 2 },
        ]
    );
    assert_eq!(kick_from_department(&mut conn, e, p, Some("0"), Some("2")), Err(bad("Missing department id.")));
    // The department that a teacher leaves is not looked up.
    assert_eq!(kick_from_department(&mut conn, e, p, Some("77"), Some("2")), Ok(()));
    assert_eq!(conn.get_teacher_accounts().unwrap()[0].dept_id, 0);
    assert_eq!(conn.get_teacher_accounts().unwrap()[1].dept_id, 2);
}

#[test]
fn course_with_teacher_and_department() {
    let conn = school();
    assert_eq!(get_course(&conn, None), Err(bad("Missing course id.")));
    assert_eq!(get_course(&conn, Some("0")), Err(bad("Missing course id.")));
    assert_eq!(get_course(&conn, Some("9")), Err(broken("Not found.")));
    let details = get_course(&conn, Some("1")).unwrap();
    assert_eq!(details.course.course, "Logic");
    assert_eq!(details.user.username, "tina");
    assert_eq!(details.teacher_account, TeacherAccount { id: 1, teacher_id: 2, dept_id: 1 });
    assert_eq!(details.department, Departments { id: 1, name: "Maths".to_string() });
    // The teacher of the second course is in no department.
    assert_eq!(get_course(&conn, Some("2")), Err(broken("A department with such ID does not exist.")));
}

#[test]
fn course_of_a_teacher_who_is_gone() {
    let mut conn = school();
    delete_user(&mut conn, ROOT.0, ROOT.1, Some("tina@")).unwrap();
    assert_eq!(get_course(&conn, Some("1")), Err(broken("A teacher with this ID does not exist.")));
    let mut conn = school();
    let patch = UserPatch { role: Some("admin"), ..no_patch() };
    update_user(&mut conn, ROOT.0, ROOT.1, "3", &patch).unwrap();
    assert_eq!(get_course(&conn, Some("2")), Err(broken("A teacher with this ID does not exist.")));
}

#[test]
fn course_drafts() {
    let full = CourseFields {
        name: Some("Sets"),
        description: Some("All about sets"),
        course_nr: Some("S1"),
        teacher_id: Some("2"),
        cr_cost: Some("5"),
        timeslots: Some("Fri"),
    };
    assert_eq!(
        full.draft(),
        Ok(Courses {
            id: 0,
            teacher_id: 2,
            course: "Sets".to_string(),
            course_nr: "S1".to_string(),
            description: "All about sets".to_string(),
            cr_cost: 5,
            timeslots: "Fri".to_string(),
        })
    );
    assert_eq!(CourseFields { description: None, ..full }.draft().unwrap().description, "No description.");
    assert_eq!(CourseFields { name: None, ..full }.draft(), Err(bad("Missing required data.")));
    assert_eq!(CourseFields { timeslots: None, ..full }.draft(), Err(bad("Missing required data.")));
    assert_eq!(CourseFields { teacher_id: Some("x"), ..full }.draft(), Err(bad("Invalid teacher id.")));
    assert_eq!(CourseFields { teacher_id: Some("0"), cr_cost: Some("0"), ..full }.draft(), Err(bad("Invalid teacher id.")));
    assert_eq!(CourseFields { cr_cost: Some("many"), ..full }.draft(), Err(bad("Invalid course cost.")));
    assert!(no_fields().is_incomplete());
    assert!(!full.is_incomplete());
    let prior = Courses {
        id: 9,
        teacher_id: 1,
        course: String::new(),
        course_nr: String::new(),
        description: String::new(),
        cr_cost: 1,
        timeslots: String::new(),
    };
    let revised = full.revise(&prior).unwrap();
    assert_eq!(revised.id, 9);
    assert_eq!(revised.cr_cost, 5);
    assert_eq!(revised.course, "Sets");
    assert_eq!(CourseFields { course_nr: None, ..full }.revise(&prior), Err(bad("Missing data.")));
    assert_eq!(CourseFields { cr_cost: Some("x"), teacher_id: Some("y"), ..full }.revise(&prior), Err(bad("Invalid course cost.")));
    assert_eq!(CourseFields { teacher_id: Some("y"), ..full }.revise(&prior), Err(bad("Invalid teacher id.")));
    assert_eq!(CourseFields { cr_cost: Some("0"), ..full }.revise(&prior).unwrap().cr_cost, 0);
}

#[test]
fn courses_are_written_by_those_who_may() {
    let mut conn = school();
    let sets = CourseFields {
        name: Some("Sets"),
        description: None,
        course_nr: Some("S1"),
        teacher_id: Some("2"),
        cr_cost: Some("5"),
        timeslots: Some("Fri"),
    };
    assert_eq!(new_course(&mut conn, None, None, &sets), Err(bad("Missing login password.")));
    assert_eq!(new_course(&mut conn, TINA.0, TINA.1, &no_fields()), Err(bad("Missing required data.")));
    assert_eq!(new_course(&mut conn, SAM.0, SAM.1, &sets), Err(broken("You do not have permission to do this.")));
    assert_eq!(new_course(&mut conn, Some("theo@aubg.edu"), Some(WORD), &sets), Err(broken("You do not have permission to do this.")));
    assert_eq!(conn.search_courses(String::new()).unwrap().len(), 2);
    assert_eq!(new_course(&mut conn, TINA.0, TINA.1, &sets), Ok(()));
    assert_eq!(conn.search_courses("3".to_string()).unwrap()[0].course, "Sets");
    // Missing fields are reported before anybody signs in.
    assert_eq!(update_course(&mut conn, None, None, "3", &no_fields()), Err(bad("Missing data.")));
    assert_eq!(update_course(&mut conn, None, Some(WORD), "3", &sets), Err(bad("Missing login email.")));
    assert_eq!(update_course(&mut conn, TINA.0, TINA.1, "8", &sets), Err(bad("Course not found.")));
    assert_eq!(update_course(&mut conn, TINA.0, TINA.1, "", &sets), Err(broken("Multiple courses found.")));
    let renamed = CourseFields { name: Some("Set theory"), ..sets };
    assert_eq!(update_course(&mut conn, TINA.0, TINA.1, "3", &renamed), Ok(()));
    assert_eq!(conn.search_courses("3".to_string()).unwrap()[0].course, "Set theory");
    assert_eq!(update_course(&mut conn, TINA.0, TINA.1, "2", &sets), Err(broken("You do not have permission to do this.")));
    assert_eq!(conn.search_courses("2".to_string()).unwrap()[0].course, "Optics");
    let given_away = CourseFields { teacher_id: Some("3"), ..sets };
    assert_eq!(update_course(&mut conn, TINA.0, TINA.1, "3", &given_away), Err(broken("You do not have permission to do this.")));
    assert_eq!(remove_course(&mut conn, TINA.0, TINA.1, "2"), Err(broken("You do not have permission to do this.")));
    assert_eq!(remove_course(&mut conn, TINA.0, TINA.1, "9"), Err(bad("Course not found.")));
    assert_eq!(remove_course(&mut conn, TINA.0, TINA.1, "3"), Ok(()));
    assert_eq!(remove_course(&mut conn, ROOT.0, ROOT.1, "2"), Ok(()));
    assert_eq!(conn.search_courses(String::new()).unwrap().len(), 1);
}

#[test]
fn patches_merge_into_users() {
    let prior = User {
        id: 4,
        username: "sam".to_string(),
        password: "$old".to_string(),
        email: "sam@aubg.edu".to_string(),
        phone: "12 3456 7890".to_string(),
        verified: false,
        suspended: false,
        forcenewpw: true,
        role: "student".to_string(),
    };
    let same = no_patch().merge(&prior).unwrap();
    assert_eq!(same, User { password: String::new(), ..prior.clone() });
    let patch = UserPatch {
        username: Some("samuel"),
        password: Some("Newer123!"),
        email: Some(""),
        phone: Some("+12 3456 7890"),
        verified: Some("true"),
        suspended: None,
        forcenewpw: Some("false"),
        role: Some("teacher"),
    };
    assert_eq!(
        patch.merge(&prior),
        Ok(User {
            id: 4,
            username: "samuel".to_string(),
            password: "Newer123!".to_string(),
            email: "sam@aubg.edu".to_string(),
            phone: "+12 3456 7890".to_string(),
            verified: true,
            suspended: false,
            forcenewpw: false,
            role: "teacher".to_string(),
        })
    );
    assert_eq!(UserPatch { verified: Some("yes"), suspended: Some("no"), ..no_patch() }.merge(&prior), Err(bad("Invalid verified.")));
    assert_eq!(UserPatch { suspended: Some("no"), forcenewpw: Some("?"), ..no_patch() }.merge(&prior), Err(bad("Invalid suspended.")));
    assert_eq!(UserPatch { forcenewpw: Some("TRUE"), ..no_patch() }.merge(&prior), Err(bad("Invalid forcenewpw.")));
    let own = patch.merge_own(&prior);
    assert_eq!(
        own,
        User {
            username: "samuel".to_string(),
            password: "Newer123!".to_string(),
            phone: "+12 3456 7890".to_string(),
            forcenewpw: false,
            ..prior.clone()
        }
    );
    assert_eq!(no_patch().merge_own(&prior), User { password: String::new(), ..prior });
}

#[test]
fn administrators_update_users() {
    let mut conn = school();
    let patch = UserPatch { username: Some("samuel"), suspended: Some("true"), ..no_patch() };
    assert_eq!(update_user(&mut conn, TINA.0, TINA.1, "4", &patch), Err(unauthorized()));
    assert_eq!(update_user(&mut conn, ROOT.0, ROOT.1, "four", &patch), Err(bad("Invalid id.")));
    assert_eq!(update_user(&mut conn, ROOT.0, ROOT.1, "9", &patch), Err(bad("User not found.")));
    let wrong = UserPatch { verified: Some("maybe"), ..no_patch() };
    assert_eq!(update_user(&mut conn, ROOT.0, ROOT.1, "4", &wrong), Err(bad("Invalid verified.")));
    let answer = update_user(&mut conn, ROOT.0, ROOT.1, "4", &patch).unwrap();
    assert_eq!(answer.username, "samuel");
    assert!(answer.suspended);
    assert_eq!(answer.password, "");
    let stored = conn.search_users("4".to_string()).unwrap().remove(0);
    assert_eq!(stored.username, "samuel");
    assert!(stored.suspended);
    assert!(stored.password.starts_with("$argon2id$"));
    let taken = UserPatch { email: Some("root@aubg.edu"), ..no_patch() };
    assert_eq!(update_user(&mut conn, ROOT.0, ROOT.1, "4", &taken), Err(broken("A record with this key already exists.")));
}

#[test]
fn users_are_deleted_by_those_who_may() {
    let mut conn = school();
    assert_eq!(delete_user(&mut conn, ROOT.0, ROOT.1, None), Err(bad("Invalid id.")));
    assert_eq!(delete_user(&mut conn, None, None, None), Err(bad("Invalid id.")));
    assert_eq!(delete_user(&mut conn, None, None, Some("4")), Err(bad("Missing login password.")));
    assert_eq!(delete_user(&mut conn, ROOT.0, ROOT.1, Some("9")), Err(bad("User not found.")));
    assert_eq!(delete_user(&mut conn, ROOT.0, ROOT.1, Some("1")), Err(broken("You do not have permission to do this.")));
    assert_eq!(delete_user(&mut conn, SAM.0, SAM.1, Some("2")), Err(broken("You do not have permission to do this.")));
    assert_eq!(get_users(&conn).unwrap().len(), 4);
    assert_eq!(delete_user(&mut conn, SAM.0, SAM.1, Some("4")), Ok(()));
    assert_eq!(delete_user(&mut conn, ROOT.0, ROOT.1, Some("2")), Ok(()));
    assert_eq!(get_users(&conn).unwrap().iter().map(|u| u.id).collect::<Vec<i32>>(), vec![1, 3]);
    assert_eq!(conn.get_teacher_accounts().unwrap().len(), 1);
}

#[test]
fn students_see_their_own_records() {
    let mut conn = school();
    assert_eq!(enroll(&mut conn, SAM.0, SAM.1, None), Err(bad("Missing course id")));
    assert_eq!(enroll(&mut conn, TINA.0, TINA.1, Some("1")), Err(broken("You do not have permission to do this.")));
    let sam = enroll(&mut conn, SAM.0, SAM.1, Some("2")).unwrap();
    assert_eq!(sam.username, "sam");
    assert_eq!(enroll(&mut conn, SAM.0, SAM.1, Some("2")), Err(broken("A record with this key already exists.")));
    match get_self(&mut conn, SAM.0, SAM.1).unwrap() {
        OwnAccount::Student { user, enrollments, standing, courses } => {
            assert_eq!(user, sam);
            assert_eq!(enrollments.len(), 1);
            assert_eq!(enrollments[0].course_id, 2);
            assert_eq!(enrollments[0].student_id, 4);
            assert_eq!(standing.student_id, 4);
            assert_eq!(courses.len(), 1);
            assert_eq!(courses[0].course, "Optics");
        }
        other => panic!("{:?}", other),
    }
    assert_eq!(unenroll(&mut conn, SAM.0, SAM.1, None), Err(bad("Missing course id")));
    assert_eq!(unenroll(&mut conn, SAM.0, SAM.1, Some("2")), Ok(sam));
    match get_self(&mut conn, SAM.0, SAM.1).unwrap() {
        OwnAccount::Student { enrollments, courses, .. } => {
            assert!(enrollments.is_empty());
            assert!(courses.is_empty());
        }
        other => panic!("{:?}", other),
    }
}

#[test]
fn teachers_and_others_see_their_own_records() {
    let mut conn = school();
    match get_self(&mut conn, TINA.0, TINA.1).unwrap() {
        OwnAccount::Teacher { user, teacher_account } => {
            assert_eq!(user.username, "tina");
            assert_eq!(teacher_account, TeacherAccount { id: 1, teacher_id: 2, dept_id: 1 });
        }
        other => panic!("{:?}", other),
    }
    match get_self(&mut conn, ROOT.0, ROOT.1).unwrap() {
        OwnAccount::Other { user } => assert_eq!(user.username, "root"),
        other => panic!("{:?}", other),
    }
    assert_eq!(get_self(&mut conn, ROOT.0, None), Err(bad("Missing login password.")));
}

#[test]
fn users_update_themselves() {
    let mut conn = school();
    let patch = UserPatch { username: Some("samuel"), phone: Some("12 3456 7890"), role: Some("admin"), ..no_patch() };
    assert_eq!(update_self(&mut conn, SAM.0, SAM.1, &patch), Ok(()));
    let sam = conn.search_users("sam@".to_string()).unwrap().remove(0);
    assert_eq!(sam.username, "samuel");
    assert_eq!(sam.phone, "12 3456 7890");
    assert_eq!(sam.role, "student");
    let patch = UserPatch { password: Some("Newer123!"), ..no_patch() };
    assert_eq!(update_self(&mut conn, SAM.0, SAM.1, &patch), Ok(()));
    assert_eq!(sign_in(&mut conn, SAM.0, SAM.1), Err(bad("Invalid login credentials.")));
    assert_eq!(sign_in(&mut conn, SAM.0, Some("Newer123!")), Ok(()));
    assert_eq!(update_self(&mut conn, SAM.0, None, &patch), Err(bad("Missing login password.")));
}

#[test]
fn login_answers_with_the_user() {
    let mut conn = school();
    assert_eq!(login(&mut conn, None, Some(WORD)), Err(bad("Missing username or password")));
    assert_eq!(login(&mut conn, Some("sam@aubg.edu"), None), Err(bad("Missing username or password")));
    assert_eq!(login(&mut conn, Some("who@aubg.edu"), Some(WORD)), Err(bad("User not found")));
    assert_eq!(login(&mut conn, Some("sam@aubg.edu"), Some("nope")), Err(broken("Invalid username or password.")));
    // A part of an email finds a user, but signs nobody in.
    assert_eq!(login(&mut conn, Some("sam@"), Some(WORD)), Err(broken("Not found.")));
    assert!(!conn.is_student());
    let sam = login(&mut conn, SAM.0, SAM.1).unwrap();
    assert_eq!(sam.id, 4);
    assert!(conn.is_student());
}

#[test]
fn logout_is_an_acknowledgement() {
    assert_eq!(logout(None, None), Ok(()));
    assert_eq!(logout(Some("a"), None), Ok(()));
    assert_eq!(logout(None, Some("b")), Ok(()));
    assert_eq!(logout(Some("a"), Some("b")), Err(broken("Failed to logout.")));
}

#[test]
fn students_register_themselves() {
    let mut conn = school();
    assert_eq!(register(&mut conn, None, Some(WORD), Some("new@aubg.edu"), None), Err(bad("Missing username, password, email, or role")));
    assert_eq!(register(&mut conn, Some("new"), None, Some("new@aubg.edu"), None), Err(bad("Missing username, password, email, or role")));
    assert_eq!(register(&mut conn, Some("new"), Some(WORD), None, None), Err(bad("Missing username, password, email, or role")));
    assert_eq!(register(&mut conn, Some("new"), Some(WORD), Some("new@other.com"), None), Err(broken("A field is missing or malformed.")));
    assert_eq!(register(&mut conn, Some("new"), Some(WORD), Some("sam@aubg.edu"), None), Err(broken("A record with this key already exists.")));
    assert_eq!(register(&mut conn, Some("new"), Some(WORD), Some("new@aubg.edu"), Some("12345")), Err(broken("A field is missing or malformed.")));
    assert_eq!(register(&mut conn, Some("new"), Some(WORD), Some("new@aubg.edu"), Some("12 3456 7890")), Ok(()));
    let new = conn.search_users("new@".to_string()).unwrap().remove(0);
    assert_eq!(new.role, "student");
    assert!(!new.verified && !new.suspended && !new.forcenewpw);
    assert_eq!(new.phone, "12 3456 7890");
    assert_eq!(new.id, 5);
    assert_eq!(sign_in(&mut conn, Some("new@aubg.edu"), Some(WORD)), Ok(()));
    assert_eq!(register(&mut conn, Some("more"), Some(WORD), Some("more@aubg.edu"), None), Err(broken("You do not have permission to do this.")));
}

#[test]
fn administrators_register_with_the_access_code() {
    let mut conn = school();
    let code = "open sesame";
    assert_eq!(register_admin(&mut conn, None, code, Some("a"), Some(WORD), Some("adm@aubg.edu"), None), Err(bad("Missing access code.")));
    assert_eq!(register_admin(&mut conn, Some("open"), code, None, None, None, None), Err(bad("Invalid access code.")));
    assert_eq!(register_admin(&mut conn, Some(code), code, None, Some(WORD), Some("adm@aubg.edu"), None), Err(bad("Missing username, password or email.")));
    assert_eq!(register_admin(&mut conn, Some(code), code, Some("adm"), Some(WORD), Some("adm@aubg.edu"), None), Ok(()));
    let adm = conn.search_users("adm@".to_string()).unwrap().remove(0);
    assert_eq!(adm.role, "admin");
    assert!(adm.verified);
    assert_eq!(adm.phone, "");
    assert_eq!(admin(&mut conn, Some("adm@aubg.edu"), Some(WORD)), Ok(()));
}

#[test]
fn statistics_are_for_administrators() {
    let mut conn = school();
    assert_eq!(get_stats(&mut conn, SAM.0, SAM.1), Err(unauthorized()));
    let stats = get_stats(&mut conn, ROOT.0, ROOT.1).unwrap();
    assert_eq!(stats.registered_users, 4);
    assert_eq!(stats.suspended_users, 0);
    assert_eq!(stats.faculty_members, 2);
    assert_eq!(stats.active_students, 1);
    assert_eq!(stats.graduated_students, 0);
    assert_eq!(stats.courses, 2);
    assert_eq!(stats.departments, 2);
}
