//! The derived state of a student: the credit-weighted average and the
//! credits earned, computed from the enrollments and the courses; and the
//! merge of an update into the users.

use crate::lemmas::{lemma_views_step, lemma_views_whole, views_of};
use crate::model::{
    counts_for, credit_weight, earned_credits, grade_points, GRADUATION_CREDITS, merged_user,
    merged_users, restated, weighted_average,
};
use crate::table_models::{
    Courses, CoursesView, StudentAccount, StudentCourse, StudentCourseView, User,
};
use vstd::prelude::*;

verus! {

/// The credit weight of the course with this id, or 0 where there is none.
pub(crate) fn credit_weight_of(courses: &Vec<Courses>, course: i32) -> (w: i32)
    ensures
        w == credit_weight(views_of(courses@), course),
{
    let mut w: i32 = 0;
    let mut i: usize = 0;
    proof {
        lemma_views_whole(courses@);
    }
    while i < courses.len()
        invariant
            i <= courses.len(),
            w == credit_weight(views_of(courses@.take(i as int)), course),
            views_of(courses@.take(courses.len() as int)) == views_of(courses@),
        decreases courses.len() - i,
    {
        proof {
            lemma_views_step(courses@, i as int);
        }
        if courses[i].id == course {
            w = courses[i].cr_cost;
        }
        i += 1;
    }
    w
}

/// The points of enrollments that count are at most the largest grade times
/// their credits, and neither is negative.
pub proof fn lemma_points_bounded(
    rows: Seq<StudentCourseView>,
    courses: Seq<CoursesView>,
    student: i32,
)
    ensures
        0 <= earned_credits(rows, courses, student) <= rows.len() * 0x8000_0000,
        0 <= grade_points(rows, courses, student) <= i32::MAX * earned_credits(
            rows,
            courses,
            student,
        ),
        0 <= weighted_average(
            grade_points(rows, courses, student),
            earned_credits(rows, courses, student),
        ) <= i32::MAX,
    decreases rows.len(),
{
    if rows.len() > 0 {
        lemma_points_bounded(rows.drop_last(), courses, student);
        let g = rows.last().grade as int;
        let w = credit_weight(courses, rows.last().course_id);
        lemma_credit_weight_bound(courses, rows.last().course_id);
        if counts_for(rows.last(), courses, student) {
            assert(0 <= g * w <= i32::MAX * w) by (nonlinear_arith)
                requires
                    0 <= g <= i32::MAX,
                    0 < w,
            ;
        }
        let c = earned_credits(rows.drop_last(), courses, student);
        assert(i32::MAX * (c + w) == i32::MAX * c + i32::MAX * w) by (nonlinear_arith);
    }
    let p = grade_points(rows, courses, student);
    let c = earned_credits(rows, courses, student);
    if c != 0 {
        assert(0 <= p / c <= i32::MAX) by (nonlinear_arith)
            requires
                0 <= p <= i32::MAX * c,
                0 < c,
        ;
    }
}

/// A credit weight is some course's, or 0.
pub proof fn lemma_credit_weight_bound(
    courses: Seq<CoursesView>,
    course: i32,
)
    ensures
        i32::MIN <= credit_weight(courses, course) <= i32::MAX,
    decreases courses.len(),
{
    if courses.len() > 0 {
        lemma_credit_weight_bound(courses.drop_last(), course);
    }
}

/// The standing of one student: the credit-weighted average of the grades
/// that count, in thousandths of a grade point, and whether the credits
/// earned reach the threshold for graduation.
pub(crate) fn standing_of(
    enrollments: &Vec<StudentCourse>,
    courses: &Vec<Courses>,
    student: i32,
) -> (r: (i32, bool))
    ensures
        r.0 == weighted_average(
            grade_points(views_of(enrollments@), views_of(courses@), student),
            earned_credits(views_of(enrollments@), views_of(courses@), student),
        ),
        r.1 == (earned_credits(views_of(enrollments@), views_of(courses@), student)
            >= GRADUATION_CREDITS),
{
    let mut points: i128 = 0;
    let mut credits: i128 = 0;
    let mut i: usize = 0;
    proof {
        lemma_views_whole(enrollments@);
    }
    while i < enrollments.len()
        invariant
            i <= enrollments.len(),
            points == grade_points(
                views_of(enrollments@.take(i as int)),
                views_of(courses@),
                student,
            ),
            credits == earned_credits(
                views_of(enrollments@.take(i as int)),
                views_of(courses@),
                student,
            ),
            views_of(enrollments@.take(enrollments.len() as int)) == views_of(enrollments@),
        decreases enrollments.len() - i,
    {
        proof {
            lemma_views_step(enrollments@, i as int);
            lemma_points_bounded(
                views_of(enrollments@.take(i as int)),
                views_of(courses@),
                student,
            );
            lemma_points_bounded(
                views_of(enrollments@.take(i + 1)),
                views_of(courses@),
                student,
            );
            assert(i32::MAX * ((i + 1) * 0x8000_0000) <= 0x7fff_ffff * (0x1_0000_0000_0000_0000
                * 0x8000_0000)) by (nonlinear_arith)
                requires
                    0 <= i + 1 <= 0x1_0000_0000_0000_0000,
            ;
            assert(i32::MAX * earned_credits(
                views_of(enrollments@.take(i + 1)),
                views_of(courses@),
                student,
            ) <= i32::MAX * ((i + 1) * 0x8000_0000)) by (nonlinear_arith)
                requires
                    earned_credits(
                        views_of(enrollments@.take(i + 1)),
                        views_of(courses@),
                        student,
                    ) <= (i + 1) * 0x8000_0000,
            ;
        }
        let row = &enrollments[i];
        if row.student_id == student && row.grade >= 0 {
            let w = credit_weight_of(courses, row.course_id);
            if w > 0 {
                assert(0 <= row.grade * w <= 0x7fff_ffff * 0x7fff_ffff) by (nonlinear_arith)
                    requires
                        0 <= row.grade <= 0x7fff_ffff,
                        0 < w <= 0x7fff_ffff,
                ;
                points = points + (row.grade as i128) * (w as i128);
                credits = credits + (w as i128);
            }
        }
        i += 1;
    }
    proof {
        lemma_points_bounded(views_of(enrollments@), views_of(courses@), student);
    }
    let average: i32 = if credits == 0 {
        0
    } else {
        (points / credits) as i32
    };
    (average, credits >= 120)
}

/// The accounts, with a new standing in the account of one student.
pub(crate) fn restate(
    accounts: &Vec<StudentAccount>,
    student: i32,
    cgpa: i32,
    can_grad: bool,
) -> (out: Vec<StudentAccount>)
    ensures
        views_of(out@) == restated(views_of(accounts@), student, cgpa, can_grad),
{
    let mut out: Vec<StudentAccount> = Vec::new();
    let mut i: usize = 0;
    while i < accounts.len()
        invariant
            i <= accounts.len(),
            out@.len() == i,
            forall|j: int|
                0 <= j < i ==> (#[trigger] out@[j])@ == restated(
                    views_of(accounts@),
                    student,
                    cgpa,
                    can_grad,
                )[j],
        decreases accounts.len() - i,
    {
        let mut row = accounts[i].clone();
        if row.student_id == student {
            row.cgpa = cgpa;
            row.can_grad = can_grad;
        }
        out.push(row);
        i += 1;
    }
    assert(views_of(out@) =~= restated(views_of(accounts@), student, cgpa, can_grad));
    out
}

/// The users after an update of the one with `u`'s key: the row as given,
/// but with the old password kept where the new one is empty.
pub(crate) fn merge_user(users: &Vec<User>, u: &User) -> (out: Vec<User>)
    ensures
        views_of(out@) == merged_users(views_of(users@), u@),
{
    let mut out: Vec<User> = Vec::new();
    let mut i: usize = 0;
    while i < users.len()
        invariant
            i <= users.len(),
            out@.len() == i,
            forall|j: int|
                0 <= j < i ==> (#[trigger] out@[j])@ == merged_users(views_of(users@), u@)[j],
        decreases users.len() - i,
    {
        if users[i].id == u.id {
            let mut row = u.clone();
            if u.password.as_str().is_empty() {
                row.password = users[i].password.clone();
            }
            assert(row@ == merged_user(users@[i as int]@, u@));
            out.push(row);
        } else {
            out.push(users[i].clone());
        }
        i += 1;
    }
    assert(views_of(out@) =~= merged_users(views_of(users@), u@));
    out
}

} // verus!
