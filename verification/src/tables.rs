//! Loops over the rows of one table: the largest key, whether a key is in
//! use, the rows without a key, the rows with one replaced.

use crate::db_driver::{ReceiverType, ReceiverTypeView};
use crate::lemmas::{
    lemma_clashes_push, lemma_has_key_push, lemma_top_key_push, lemma_views_push,
    lemma_views_step, lemma_views_whole, lemma_with_row_push, lemma_without_key_empty,
    lemma_without_key_push, views_of,
};
use crate::model::{
    clashes, course_id, department_id, enrollment_key, has_key, student_account_id,
    student_account_owner, teacher_account_id, teacher_account_owner, top_key, user_email,
    user_id, with_row, without_key,
};
use crate::table_models::{
    Courses, Departments, StudentAccount, StudentCourse, TeacherAccount, User,
};
use vstd::prelude::*;

verus! {

/// The largest key among these rows, or 0.
pub(crate) fn top_user_id(rows: &Vec<User>) -> (r: i32)
    ensures
        r == top_key(views_of(rows@), user_id()),
{
    let mut top: i32 = 0;
    let mut i: usize = 0;
    proof {
        lemma_views_whole(rows@);
    }
    while i < rows.len()
        invariant
            i <= rows.len(),
            top == top_key(views_of(rows@.take(i as int)), user_id()),
            views_of(rows@.take(rows.len() as int)) == views_of(rows@),
        decreases rows.len() - i,
    {
        proof {
            lemma_views_step(rows@, i as int);
            lemma_top_key_push(views_of(rows@.take(i as int)), user_id(), rows@[i as int]@);
        }
        if rows[i].id > top {
            top = rows[i].id;
        }
        i += 1;
    }
    top
}

/// Whether one of these rows has this key.
pub(crate) fn users_has_id(rows: &Vec<User>, k: i32) -> (r: bool)
    ensures
        r == has_key(views_of(rows@), user_id(), k),
{
    let mut i: usize = 0;
    proof {
        lemma_views_whole(rows@);
    }
    while i < rows.len()
        invariant
            i <= rows.len(),
            !has_key(views_of(rows@.take(i as int)), user_id(), k),
            views_of(rows@.take(rows.len() as int)) == views_of(rows@),
        decreases rows.len() - i,
    {
        proof {
            lemma_views_step(rows@, i as int);
            lemma_has_key_push(
                views_of(rows@.take(i as int)),
                user_id(),
                rows@[i as int]@,
                k,
            );
        }
        if rows[i].id == k {
            assert(user_id()(views_of(rows@)[i as int]) == k);
            return true;
        }
        i += 1;
    }
    false
}

/// Whether one of these rows has this email.
pub(crate) fn users_has_email(rows: &Vec<User>, k: &String) -> (r: bool)
    ensures
        r == has_key(views_of(rows@), user_email(), k@),
{
    let mut i: usize = 0;
    proof {
        lemma_views_whole(rows@);
    }
    while i < rows.len()
        invariant
            i <= rows.len(),
            !has_key(views_of(rows@.take(i as int)), user_email(), k@),
            views_of(rows@.take(rows.len() as int)) == views_of(rows@),
        decreases rows.len() - i,
    {
        proof {
            lemma_views_step(rows@, i as int);
            lemma_has_key_push(
                views_of(rows@.take(i as int)),
                user_email(),
                rows@[i as int]@,
                k@,
            );
        }
        if rows[i].email == *k {
            assert(user_email()(views_of(rows@)[i as int]) == k@);
            return true;
        }
        i += 1;
    }
    false
}

/// Whether another of these rows, one with another key, already has what
/// must be unique of `row`.
pub(crate) fn users_clash(rows: &Vec<User>, row: &User) -> (r: bool)
    ensures
        r == clashes(views_of(rows@), user_id(), user_email(), row@),
{
    let mut i: usize = 0;
    proof {
        lemma_views_whole(rows@);
    }
    while i < rows.len()
        invariant
            i <= rows.len(),
            !clashes(views_of(rows@.take(i as int)), user_id(), user_email(), row@),
            views_of(rows@.take(rows.len() as int)) == views_of(rows@),
        decreases rows.len() - i,
    {
        proof {
            lemma_views_step(rows@, i as int);
            lemma_clashes_push(
                views_of(rows@.take(i as int)),
                user_id(),
                user_email(),
                rows@[i as int]@,
                row@,
            );
        }
        if rows[i].id != row.id && rows[i].email == row.email {
            assert(user_id()(views_of(rows@)[i as int]) != user_id()(row@) && user_email()(
                views_of(rows@)[i as int],
            ) == user_email()(row@));
            return true;
        }
        i += 1;
    }
    false
}

/// These rows but for those with this key.
pub(crate) fn users_without_id(rows: &Vec<User>, k: i32) -> (out: Vec<User>)
    ensures
        views_of(out@) == without_key(views_of(rows@), user_id(), k),
{
    let mut out: Vec<User> = Vec::new();
    let mut i: usize = 0;
    proof {
        lemma_views_whole(rows@);
        lemma_views_whole(out@);
        lemma_without_key_empty::<<User as View>::V, _>(user_id(), k);
    }
    while i < rows.len()
        invariant
            i <= rows.len(),
            views_of(out@) == without_key(
                views_of(rows@.take(i as int)),
                user_id(),
                k,
            ),
            views_of(rows@.take(rows.len() as int)) == views_of(rows@),
        decreases rows.len() - i,
    {
        proof {
            lemma_views_step(rows@, i as int);
            lemma_without_key_push(
                views_of(rows@.take(i as int)),
                user_id(),
                rows@[i as int]@,
                k,
            );
        }
        if rows[i].id != k {
            proof {
                lemma_views_push(out@, rows@[i as int]);
            }
            out.push(rows[i].clone());
        }
        i += 1;
    }
    out
}

/// The largest key among these rows, or 0.
pub(crate) fn top_student_account_id(rows: &Vec<StudentAccount>) -> (r: i32)
    ensures
        r == top_key(views_of(rows@), student_account_id()),
{
    let mut top: i32 = 0;
    let mut i: usize = 0;
    proof {
        lemma_views_whole(rows@);
    }
    while i < rows.len()
        invariant
            i <= rows.len(),
            top == top_key(views_of(rows@.take(i as int)), student_account_id()),
            views_of(rows@.take(rows.len() as int)) == views_of(rows@),
        decreases rows.len() - i,
    {
        proof {
            lemma_views_step(rows@, i as int);
            lemma_top_key_push(
                views_of(rows@.take(i as int)),
                student_account_id(),
                rows@[i as int]@,
            );
        }
        if rows[i].id > top {
            top = rows[i].id;
        }
        i += 1;
    }
    top
}

/// Whether one of these rows has this key.
pub(crate) fn student_accounts_has_id(rows: &Vec<StudentAccount>, k: i32) -> (r: bool)
    ensures
        r == has_key(views_of(rows@), student_account_id(), k),
{
    let mut i: usize = 0;
    proof {
        lemma_views_whole(rows@);
    }
    while i < rows.len()
        invariant
            i <= rows.len(),
            !has_key(views_of(rows@.take(i as int)), student_account_id(), k),
            views_of(rows@.take(rows.len() as int)) == views_of(rows@),
        decreases rows.len() - i,
    {
        proof {
            lemma_views_step(rows@, i as int);
            lemma_has_key_push(
                views_of(rows@.take(i as int)),
                student_account_id(),
                rows@[i as int]@,
                k,
            );
        }
        if rows[i].id == k {
            assert(student_account_id()(views_of(rows@)[i as int]) == k);
            return true;
        }
        i += 1;
    }
    false
}

/// Whether one of these rows has this owner.
pub(crate) fn student_accounts_has_owner(rows: &Vec<StudentAccount>, k: i32) -> (r: bool)
    ensures
        r == has_key(views_of(rows@), student_account_owner(), k),
{
    let mut i: usize = 0;
    proof {
        lemma_views_whole(rows@);
    }
    while i < rows.len()
        invariant
            i <= rows.len(),
            !has_key(views_of(rows@.take(i as int)), student_account_owner(), k),
            views_of(rows@.take(rows.len() as int)) == views_of(rows@),
        decreases rows.len() - i,
    {
        proof {
            lemma_views_step(rows@, i as int);
            lemma_has_key_push(
                views_of(rows@.take(i as int)),
                student_account_owner(),
                rows@[i as int]@,
                k,
            );
        }
        if rows[i].student_id == k {
            assert(student_account_owner()(views_of(rows@)[i as int]) == k);
            return true;
        }
        i += 1;
    }
    false
}

/// Whether another of these rows, one with another key, already has what
/// must be unique of `row`.
pub(crate) fn student_accounts_clash(rows: &Vec<StudentAccount>, row: &StudentAccount) -> (r: bool)
    ensures
        r == clashes(views_of(rows@), student_account_id(), student_account_owner(), row@),
{
    let mut i: usize = 0;
    proof {
        lemma_views_whole(rows@);
    }
    while i < rows.len()
        invariant
            i <= rows.len(),
            !clashes(
                views_of(rows@.take(i as int)),
                student_account_id(),
                student_account_owner(),
                row@,
            ),
            views_of(rows@.take(rows.len() as int)) == views_of(rows@),
        decreases rows.len() - i,
    {
        proof {
            lemma_views_step(rows@, i as int);
            lemma_clashes_push(
                views_of(rows@.take(i as int)),
                student_account_id(),
                student_account_owner(),
                rows@[i as int]@,
                row@,
            );
        }
        if rows[i].id != row.id && rows[i].student_id == row.student_id {
            assert(student_account_id()(
                views_of(rows@)[i as int]
            ) != student_account_id()(row@) && student_account_owner()(
                views_of(rows@)[i as int],
            ) == student_account_owner()(row@));
            return true;
        }
        i += 1;
    }
    false
}

/// These rows but for those with this key.
pub(crate) fn student_accounts_without_id(
    rows: &Vec<StudentAccount>,
    k: i32,
) -> (out: Vec<StudentAccount>)
    ensures
        views_of(out@) == without_key(views_of(rows@), student_account_id(), k),
{
    let mut out: Vec<StudentAccount> = Vec::new();
    let mut i: usize = 0;
    proof {
        lemma_views_whole(rows@);
        lemma_views_whole(out@);
        lemma_without_key_empty::<<StudentAccount as View>::V, _>(student_account_id(), k);
    }
    while i < rows.len()
        invariant
            i <= rows.len(),
            views_of(out@) == without_key(
                views_of(rows@.take(i as int)),
                student_account_id(),
                k,
            ),
            views_of(rows@.take(rows.len() as int)) == views_of(rows@),
        decreases rows.len() - i,
    {
        proof {
            lemma_views_step(rows@, i as int);
            lemma_without_key_push(
                views_of(rows@.take(i as int)),
                student_account_id(),
                rows@[i as int]@,
                k,
            );
        }
        if rows[i].id != k {
            proof {
                lemma_views_push(out@, rows@[i as int]);
            }
            out.push(rows[i].clone());
        }
        i += 1;
    }
    out
}

/// These rows but for those with this owner.
pub(crate) fn student_accounts_without_owner(
    rows: &Vec<StudentAccount>,
    k: i32,
) -> (out: Vec<StudentAccount>)
    ensures
        views_of(out@) == without_key(views_of(rows@), student_account_owner(), k),
{
    let mut out: Vec<StudentAccount> = Vec::new();
    let mut i: usize = 0;
    proof {
        lemma_views_whole(rows@);
        lemma_views_whole(out@);
        lemma_without_key_empty::<<StudentAccount as View>::V, _>(student_account_owner(), k);
    }
    while i < rows.len()
        invariant
            i <= rows.len(),
            views_of(out@) == without_key(
                views_of(rows@.take(i as int)),
                student_account_owner(),
                k,
            ),
            views_of(rows@.take(rows.len() as int)) == views_of(rows@),
        decreases rows.len() - i,
    {
        proof {
            lemma_views_step(rows@, i as int);
            lemma_without_key_push(
                views_of(rows@.take(i as int)),
                student_account_owner(),
                rows@[i as int]@,
                k,
            );
        }
        if rows[i].student_id != k {
            proof {
                lemma_views_push(out@, rows@[i as int]);
            }
            out.push(rows[i].clone());
        }
        i += 1;
    }
    out
}

/// These rows, with `row` in the place of the one that has its key.
pub(crate) fn student_accounts_with(
    rows: &Vec<StudentAccount>,
    row: &StudentAccount,
) -> (out: Vec<StudentAccount>)
    ensures
        views_of(out@) == with_row(views_of(rows@), student_account_id(), row@),
{
    let mut out: Vec<StudentAccount> = Vec::new();
    let mut i: usize = 0;
    proof {
        lemma_views_whole(rows@);
        lemma_views_whole(out@);
        assert(
            with_row(
                Seq::<<StudentAccount as View>::V>::empty(),
                student_account_id(),
                row@,
            ) =~= Seq::empty()
        );
    }
    while i < rows.len()
        invariant
            i <= rows.len(),
            views_of(out@) == with_row(views_of(rows@.take(i as int)), student_account_id(), row@),
            views_of(rows@.take(rows.len() as int)) == views_of(rows@),
        decreases rows.len() - i,
    {
        proof {
            lemma_views_step(rows@, i as int);
            lemma_with_row_push(
                views_of(rows@.take(i as int)),
                student_account_id(),
                rows@[i as int]@,
                row@,
            );
        }
        if rows[i].id == row.id {
            proof {
                lemma_views_push(out@, *row);
            }
            out.push(row.clone());
        } else {
            proof {
                lemma_views_push(out@, rows@[i as int]);
            }
            out.push(rows[i].clone());
        }
        i += 1;
    }
    out
}

/// The largest key among these rows, or 0.
pub(crate) fn top_teacher_account_id(rows: &Vec<TeacherAccount>) -> (r: i32)
    ensures
        r == top_key(views_of(rows@), teacher_account_id()),
{
    let mut top: i32 = 0;
    let mut i: usize = 0;
    proof {
        lemma_views_whole(rows@);
    }
    while i < rows.len()
        invariant
            i <= rows.len(),
            top == top_key(views_of(rows@.take(i as int)), teacher_account_id()),
            views_of(rows@.take(rows.len() as int)) == views_of(rows@),
        decreases rows.len() - i,
    {
        proof {
            lemma_views_step(rows@, i as int);
            lemma_top_key_push(
                views_of(rows@.take(i as int)),
                teacher_account_id(),
                rows@[i as int]@,
            );
        }
        if rows[i].id > top {
            top = rows[i].id;
        }
        i += 1;
    }
    top
}

/// Whether one of these rows has this key.
pub(crate) fn teacher_accounts_has_id(rows: &Vec<TeacherAccount>, k: i32) -> (r: bool)
    ensures
        r == has_key(views_of(rows@), teacher_account_id(), k),
{
    let mut i: usize = 0;
    proof {
        lemma_views_whole(rows@);
    }
    while i < rows.len()
        invariant
            i <= rows.len(),
            !has_key(views_of(rows@.take(i as int)), teacher_account_id(), k),
            views_of(rows@.take(rows.len() as int)) == views_of(rows@),
        decreases rows.len() - i,
    {
        proof {
            lemma_views_step(rows@, i as int);
            lemma_has_key_push(
                views_of(rows@.take(i as int)),
                teacher_account_id(),
                rows@[i as int]@,
                k,
            );
        }
        if rows[i].id == k {
            assert(teacher_account_id()(views_of(rows@)[i as int]) == k);
            return true;
        }
        i += 1;
    }
    false
}

/// Whether one of these rows has this owner.
pub(crate) fn teacher_accounts_has_owner(rows: &Vec<TeacherAccount>, k: i32) -> (r: bool)
    ensures
        r == has_key(views_of(rows@), teacher_account_owner(), k),
{
    let mut i: usize = 0;
    proof {
        lemma_views_whole(rows@);
    }
    while i < rows.len()
        invariant
            i <= rows.len(),
            !has_key(views_of(rows@.take(i as int)), teacher_account_owner(), k),
            views_of(rows@.take(rows.len() as int)) == views_of(rows@),
        decreases rows.len() - i,
    {
        proof {
            lemma_views_step(rows@, i as int);
            lemma_has_key_push(
                views_of(rows@.take(i as int)),
                teacher_account_owner(),
                rows@[i as int]@,
                k,
            );
        }
        if rows[i].teacher_id == k {
            assert(teacher_account_owner()(views_of(rows@)[i as int]) == k);
            return true;
        }
        i += 1;
    }
    false
}

/// Whether another of these rows, one with another key, already has what
/// must be unique of `row`.
pub(crate) fn teacher_accounts_clash(rows: &Vec<TeacherAccount>, row: &TeacherAccount) -> (r: bool)
    ensures
        r == clashes(views_of(rows@), teacher_account_id(), teacher_account_owner(), row@),
{
    let mut i: usize = 0;
    proof {
        lemma_views_whole(rows@);
    }
    while i < rows.len()
        invariant
            i <= rows.len(),
            !clashes(
                views_of(rows@.take(i as int)),
                teacher_account_id(),
                teacher_account_owner(),
                row@,
            ),
            views_of(rows@.take(rows.len() as int)) == views_of(rows@),
        decreases rows.len() - i,
    {
        proof {
            lemma_views_step(rows@, i as int);
            lemma_clashes_push(
                views_of(rows@.take(i as int)),
                teacher_account_id(),
                teacher_account_owner(),
                rows@[i as int]@,
                row@,
            );
        }
        if rows[i].id != row.id && rows[i].teacher_id == row.teacher_id {
            assert(teacher_account_id()(
                views_of(rows@)[i as int]
            ) != teacher_account_id()(row@) && teacher_account_owner()(
                views_of(rows@)[i as int],
            ) == teacher_account_owner()(row@));
            return true;
        }
        i += 1;
    }
    false
}

/// These rows but for those with this key.
pub(crate) fn teacher_accounts_without_id(
    rows: &Vec<TeacherAccount>,
    k: i32,
) -> (out: Vec<TeacherAccount>)
    ensures
        views_of(out@) == without_key(views_of(rows@), teacher_account_id(), k),
{
    let mut out: Vec<TeacherAccount> = Vec::new();
    let mut i: usize = 0;
    proof {
        lemma_views_whole(rows@);
        lemma_views_whole(out@);
        lemma_without_key_empty::<<TeacherAccount as View>::V, _>(teacher_account_id(), k);
    }
    while i < rows.len()
        invariant
            i <= rows.len(),
            views_of(out@) == without_key(
                views_of(rows@.take(i as int)),
                teacher_account_id(),
                k,
            ),
            views_of(rows@.take(rows.len() as int)) == views_of(rows@),
        decreases rows.len() - i,
    {
        proof {
            lemma_views_step(rows@, i as int);
            lemma_without_key_push(
                views_of(rows@.take(i as int)),
                teacher_account_id(),
                rows@[i as int]@,
                k,
            );
        }
        if rows[i].id != k {
            proof {
                lemma_views_push(out@, rows@[i as int]);
            }
            out.push(rows[i].clone());
        }
        i += 1;
    }
    out
}

/// These rows but for those with this owner.
pub(crate) fn teacher_accounts_without_owner(
    rows: &Vec<TeacherAccount>,
    k: i32,
) -> (out: Vec<TeacherAccount>)
    ensures
        views_of(out@) == without_key(views_of(rows@), teacher_account_owner(), k),
{
    let mut out: Vec<TeacherAccount> = Vec::new();
    let mut i: usize = 0;
    proof {
        lemma_views_whole(rows@);
        lemma_views_whole(out@);
        lemma_without_key_empty::<<TeacherAccount as View>::V, _>(teacher_account_owner(), k);
    }
    while i < rows.len()
        invariant
            i <= rows.len(),
            views_of(out@) == without_key(
                views_of(rows@.take(i as int)),
                teacher_account_owner(),
                k,
            ),
            views_of(rows@.take(rows.len() as int)) == views_of(rows@),
        decreases rows.len() - i,
    {
        proof {
            lemma_views_step(rows@, i as int);
            lemma_without_key_push(
                views_of(rows@.take(i as int)),
                teacher_account_owner(),
                rows@[i as int]@,
                k,
            );
        }
        if rows[i].teacher_id != k {
            proof {
                lemma_views_push(out@, rows@[i as int]);
            }
            out.push(rows[i].clone());
        }
        i += 1;
    }
    out
}

/// These rows, with `row` in the place of the one that has its key.
pub(crate) fn teacher_accounts_with(
    rows: &Vec<TeacherAccount>,
    row: &TeacherAccount,
) -> (out: Vec<TeacherAccount>)
    ensures
        views_of(out@) == with_row(views_of(rows@), teacher_account_id(), row@),
{
    let mut out: Vec<TeacherAccount> = Vec::new();
    let mut i: usize = 0;
    proof {
        lemma_views_whole(rows@);
        lemma_views_whole(out@);
        assert(
            with_row(
                Seq::<<TeacherAccount as View>::V>::empty(),
                teacher_account_id(),
                row@,
            ) =~= Seq::empty()
        );
    }
    while i < rows.len()
        invariant
            i <= rows.len(),
            views_of(out@) == with_row(views_of(rows@.take(i as int)), teacher_account_id(), row@),
            views_of(rows@.take(rows.len() as int)) == views_of(rows@),
        decreases rows.len() - i,
    {
        proof {
            lemma_views_step(rows@, i as int);
            lemma_with_row_push(
                views_of(rows@.take(i as int)),
                teacher_account_id(),
                rows@[i as int]@,
                row@,
            );
        }
        if rows[i].id == row.id {
            proof {
                lemma_views_push(out@, *row);
            }
            out.push(row.clone());
        } else {
            proof {
                lemma_views_push(out@, rows@[i as int]);
            }
            out.push(rows[i].clone());
        }
        i += 1;
    }
    out
}

/// The largest key among these rows, or 0.
pub(crate) fn top_course_id(rows: &Vec<Courses>) -> (r: i32)
    ensures
        r == top_key(views_of(rows@), course_id()),
{
    let mut top: i32 = 0;
    let mut i: usize = 0;
    proof {
        lemma_views_whole(rows@);
    }
    while i < rows.len()
        invariant
            i <= rows.len(),
            top == top_key(views_of(rows@.take(i as int)), course_id()),
            views_of(rows@.take(rows.len() as int)) == views_of(rows@),
        decreases rows.len() - i,
    {
        proof {
            lemma_views_step(rows@, i as int);
            lemma_top_key_push(views_of(rows@.take(i as int)), course_id(), rows@[i as int]@);
        }
        if rows[i].id > top {
            top = rows[i].id;
        }
        i += 1;
    }
    top
}

/// These rows but for those with this key.
pub(crate) fn courses_without_id(rows: &Vec<Courses>, k: i32) -> (out: Vec<Courses>)
    ensures
        views_of(out@) == without_key(views_of(rows@), course_id(), k),
{
    let mut out: Vec<Courses> = Vec::new();
    let mut i: usize = 0;
    proof {
        lemma_views_whole(rows@);
        lemma_views_whole(out@);
        lemma_without_key_empty::<<Courses as View>::V, _>(course_id(), k);
    }
    while i < rows.len()
        invariant
            i <= rows.len(),
            views_of(out@) == without_key(
                views_of(rows@.take(i as int)),
                course_id(),
                k,
            ),
            views_of(rows@.take(rows.len() as int)) == views_of(rows@),
        decreases rows.len() - i,
    {
        proof {
            lemma_views_step(rows@, i as int);
            lemma_without_key_push(
                views_of(rows@.take(i as int)),
                course_id(),
                rows@[i as int]@,
                k,
            );
        }
        if rows[i].id != k {
            proof {
                lemma_views_push(out@, rows@[i as int]);
            }
            out.push(rows[i].clone());
        }
        i += 1;
    }
    out
}

/// These rows, with `row` in the place of the one that has its key.
pub(crate) fn courses_with(rows: &Vec<Courses>, row: &Courses) -> (out: Vec<Courses>)
    ensures
        views_of(out@) == with_row(views_of(rows@), course_id(), row@),
{
    let mut out: Vec<Courses> = Vec::new();
    let mut i: usize = 0;
    proof {
        lemma_views_whole(rows@);
        lemma_views_whole(out@);
        assert(with_row(Seq::<<Courses as View>::V>::empty(), course_id(), row@) =~= Seq::empty());
    }
    while i < rows.len()
        invariant
            i <= rows.len(),
            views_of(out@) == with_row(views_of(rows@.take(i as int)), course_id(), row@),
            views_of(rows@.take(rows.len() as int)) == views_of(rows@),
        decreases rows.len() - i,
    {
        proof {
            lemma_views_step(rows@, i as int);
            lemma_with_row_push(
                views_of(rows@.take(i as int)),
                course_id(),
                rows@[i as int]@,
                row@,
            );
        }
        if rows[i].id == row.id {
            proof {
                lemma_views_push(out@, *row);
            }
            out.push(row.clone());
        } else {
            proof {
                lemma_views_push(out@, rows@[i as int]);
            }
            out.push(rows[i].clone());
        }
        i += 1;
    }
    out
}

/// The largest key among these rows, or 0.
pub(crate) fn top_department_id(rows: &Vec<Departments>) -> (r: i32)
    ensures
        r == top_key(views_of(rows@), department_id()),
{
    let mut top: i32 = 0;
    let mut i: usize = 0;
    proof {
        lemma_views_whole(rows@);
    }
    while i < rows.len()
        invariant
            i <= rows.len(),
            top == top_key(views_of(rows@.take(i as int)), department_id()),
            views_of(rows@.take(rows.len() as int)) == views_of(rows@),
        decreases rows.len() - i,
    {
        proof {
            lemma_views_step(rows@, i as int);
            lemma_top_key_push(views_of(rows@.take(i as int)), department_id(), rows@[i as int]@);
        }
        if rows[i].id > top {
            top = rows[i].id;
        }
        i += 1;
    }
    top
}

/// These rows but for those with this key.
pub(crate) fn departments_without_id(rows: &Vec<Departments>, k: i32) -> (out: Vec<Departments>)
    ensures
        views_of(out@) == without_key(views_of(rows@), department_id(), k),
{
    let mut out: Vec<Departments> = Vec::new();
    let mut i: usize = 0;
    proof {
        lemma_views_whole(rows@);
        lemma_views_whole(out@);
        lemma_without_key_empty::<<Departments as View>::V, _>(department_id(), k);
    }
    while i < rows.len()
        invariant
            i <= rows.len(),
            views_of(out@) == without_key(
                views_of(rows@.take(i as int)),
                department_id(),
                k,
            ),
            views_of(rows@.take(rows.len() as int)) == views_of(rows@),
        decreases rows.len() - i,
    {
        proof {
            lemma_views_step(rows@, i as int);
            lemma_without_key_push(
                views_of(rows@.take(i as int)),
                department_id(),
                rows@[i as int]@,
                k,
            );
        }
        if rows[i].id != k {
            proof {
                lemma_views_push(out@, rows@[i as int]);
            }
            out.push(rows[i].clone());
        }
        i += 1;
    }
    out
}

/// These rows, with `row` in the place of the one that has its key.
pub(crate) fn departments_with(
    rows: &Vec<Departments>,
    row: &Departments,
) -> (out: Vec<Departments>)
    ensures
        views_of(out@) == with_row(views_of(rows@), department_id(), row@),
{
    let mut out: Vec<Departments> = Vec::new();
    let mut i: usize = 0;
    proof {
        lemma_views_whole(rows@);
        lemma_views_whole(out@);
        assert(
            with_row(
                Seq::<<Departments as View>::V>::empty(),
                department_id(),
                row@,
            ) =~= Seq::empty()
        );
    }
    while i < rows.len()
        invariant
            i <= rows.len(),
            views_of(out@) == with_row(views_of(rows@.take(i as int)), department_id(), row@),
            views_of(rows@.take(rows.len() as int)) == views_of(rows@),
        decreases rows.len() - i,
    {
        proof {
            lemma_views_step(rows@, i as int);
            lemma_with_row_push(
                views_of(rows@.take(i as int)),
                department_id(),
                rows@[i as int]@,
                row@,
            );
        }
        if rows[i].id == row.id {
            proof {
                lemma_views_push(out@, *row);
            }
            out.push(row.clone());
        } else {
            proof {
                lemma_views_push(out@, rows@[i as int]);
            }
            out.push(rows[i].clone());
        }
        i += 1;
    }
    out
}

/// Whether one of these rows has this student and course.
pub(crate) fn student_courses_has_key(
    rows: &Vec<StudentCourse>,
    student: i32,
    course: i32,
) -> (r: bool)
    ensures
        r == has_key(views_of(rows@), enrollment_key(), (student, course)),
{
    let mut i: usize = 0;
    proof {
        lemma_views_whole(rows@);
    }
    while i < rows.len()
        invariant
            i <= rows.len(),
            !has_key(views_of(rows@.take(i as int)), enrollment_key(), (student, course)),
            views_of(rows@.take(rows.len() as int)) == views_of(rows@),
        decreases rows.len() - i,
    {
        proof {
            lemma_views_step(rows@, i as int);
            lemma_has_key_push(
                views_of(rows@.take(i as int)),
                enrollment_key(),
                rows@[i as int]@,
                (student, course),
            );
        }
        if rows[i].student_id == student && rows[i].course_id == course {
            assert(enrollment_key()(views_of(rows@)[i as int]) == (student, course));
            return true;
        }
        i += 1;
    }
    false
}

/// These rows but for those with this student and course.
pub(crate) fn student_courses_without_key(
    rows: &Vec<StudentCourse>,
    student: i32,
    course: i32,
) -> (out: Vec<StudentCourse>)
    ensures
        views_of(out@) == without_key(views_of(rows@), enrollment_key(), (student, course)),
{
    let mut out: Vec<StudentCourse> = Vec::new();
    let mut i: usize = 0;
    proof {
        lemma_views_whole(rows@);
        lemma_views_whole(out@);
        lemma_without_key_empty::<<StudentCourse as View>::V, _>(
            enrollment_key(),
            (student, course),
        );
    }
    while i < rows.len()
        invariant
            i <= rows.len(),
            views_of(out@) == without_key(
                views_of(rows@.take(i as int)),
                enrollment_key(),
                (student, course),
            ),
            views_of(rows@.take(rows.len() as int)) == views_of(rows@),
        decreases rows.len() - i,
    {
        proof {
            lemma_views_step(rows@, i as int);
            lemma_without_key_push(
                views_of(rows@.take(i as int)),
                enrollment_key(),
                rows@[i as int]@,
                (student, course),
            );
        }
        if !(rows[i].student_id == student && rows[i].course_id == course) {
            proof {
                lemma_views_push(out@, rows@[i as int]);
            }
            out.push(rows[i].clone());
        }
        i += 1;
    }
    out
}

/// These rows, with `row` in the place of the one that has its key.
pub(crate) fn student_courses_with(
    rows: &Vec<StudentCourse>,
    row: &StudentCourse,
) -> (out: Vec<StudentCourse>)
    ensures
        views_of(out@) == with_row(views_of(rows@), enrollment_key(), row@),
{
    let mut out: Vec<StudentCourse> = Vec::new();
    let mut i: usize = 0;
    proof {
        lemma_views_whole(rows@);
        lemma_views_whole(out@);
        assert(
            with_row(
                Seq::<<StudentCourse as View>::V>::empty(),
                enrollment_key(),
                row@,
            ) =~= Seq::empty()
        );
    }
    while i < rows.len()
        invariant
            i <= rows.len(),
            views_of(out@) == with_row(views_of(rows@.take(i as int)), enrollment_key(), row@),
            views_of(rows@.take(rows.len() as int)) == views_of(rows@),
        decreases rows.len() - i,
    {
        proof {
            lemma_views_step(rows@, i as int);
            lemma_with_row_push(
                views_of(rows@.take(i as int)),
                enrollment_key(),
                rows@[i as int]@,
                row@,
            );
        }
        if rows[i].student_id == row.student_id && rows[i].course_id == row.course_id {
            proof {
                lemma_views_push(out@, *row);
            }
            out.push(row.clone());
        } else {
            proof {
                lemma_views_push(out@, rows@[i as int]);
            }
            out.push(rows[i].clone());
        }
        i += 1;
    }
    out
}

/// Whether one of these rows has this key.
pub(crate) fn courses_has_id(rows: &Vec<Courses>, k: i32) -> (r: bool)
    ensures
        r == has_key(views_of(rows@), course_id(), k),
{
    let mut i: usize = 0;
    proof {
        lemma_views_whole(rows@);
    }
    while i < rows.len()
        invariant
            i <= rows.len(),
            !has_key(views_of(rows@.take(i as int)), course_id(), k),
            views_of(rows@.take(rows.len() as int)) == views_of(rows@),
        decreases rows.len() - i,
    {
        proof {
            lemma_views_step(rows@, i as int);
            lemma_has_key_push(
                views_of(rows@.take(i as int)),
                course_id(),
                rows@[i as int]@,
                k,
            );
        }
        if rows[i].id == k {
            assert(course_id()(views_of(rows@)[i as int]) == k);
            return true;
        }
        i += 1;
    }
    false
}

/// Whether one of these rows has this key.
pub(crate) fn departments_has_id(rows: &Vec<Departments>, k: i32) -> (r: bool)
    ensures
        r == has_key(views_of(rows@), department_id(), k),
{
    let mut i: usize = 0;
    proof {
        lemma_views_whole(rows@);
    }
    while i < rows.len()
        invariant
            i <= rows.len(),
            !has_key(views_of(rows@.take(i as int)), department_id(), k),
            views_of(rows@.take(rows.len() as int)) == views_of(rows@),
        decreases rows.len() - i,
    {
        proof {
            lemma_views_step(rows@, i as int);
            lemma_has_key_push(
                views_of(rows@.take(i as int)),
                department_id(),
                rows@[i as int]@,
                k,
            );
        }
        if rows[i].id == k {
            assert(department_id()(views_of(rows@)[i as int]) == k);
            return true;
        }
        i += 1;
    }
    false
}

/// These users, each tagged with its kind.
pub(crate) fn tagged_users(rows: &Vec<User>) -> (out: Vec<ReceiverType>)
    ensures
        views_of(out@) == views_of(rows@).map_values(
            |x: <User as View>::V| ReceiverTypeView::User(x),
        ),
{
    let mut out: Vec<ReceiverType> = Vec::new();
    let mut i: usize = 0;
    while i < rows.len()
        invariant
            i <= rows.len(),
            out@.len() == i,
            forall|j: int| 0 <= j < i ==>
                (#[trigger] out@[j])@ == ReceiverTypeView::User(rows@[j]@),
        decreases rows.len() - i,
    {
        out.push(ReceiverType::User(rows[i].clone()));
        i += 1;
    }
    assert(views_of(out@) =~= views_of(rows@).map_values(
        |x: <User as View>::V| ReceiverTypeView::User(x),
    ));
    out
}

/// These student accounts, each tagged with its kind.
pub(crate) fn tagged_student_accounts(rows: &Vec<StudentAccount>) -> (out: Vec<ReceiverType>)
    ensures
        views_of(out@) == views_of(rows@).map_values(
            |x: <StudentAccount as View>::V| ReceiverTypeView::StudentAccount(x),
        ),
{
    let mut out: Vec<ReceiverType> = Vec::new();
    let mut i: usize = 0;
    while i < rows.len()
        invariant
            i <= rows.len(),
            out@.len() == i,
            forall|j: int| 0 <= j < i ==>
                (#[trigger] out@[j])@ == ReceiverTypeView::StudentAccount(rows@[j]@),
        decreases rows.len() - i,
    {
        out.push(ReceiverType::StudentAccount(rows[i].clone()));
        i += 1;
    }
    assert(views_of(out@) =~= views_of(rows@).map_values(
        |x: <StudentAccount as View>::V| ReceiverTypeView::StudentAccount(x),
    ));
    out
}

/// These teacher accounts, each tagged with its kind.
pub(crate) fn tagged_teacher_accounts(rows: &Vec<TeacherAccount>) -> (out: Vec<ReceiverType>)
    ensures
        views_of(out@) == views_of(rows@).map_values(
            |x: <TeacherAccount as View>::V| ReceiverTypeView::TeacherAccount(x),
        ),
{
    let mut out: Vec<ReceiverType> = Vec::new();
    let mut i: usize = 0;
    while i < rows.len()
        invariant
            i <= rows.len(),
            out@.len() == i,
            forall|j: int| 0 <= j < i ==>
                (#[trigger] out@[j])@ == ReceiverTypeView::TeacherAccount(rows@[j]@),
        decreases rows.len() - i,
    {
        out.push(ReceiverType::TeacherAccount(rows[i].clone()));
        i += 1;
    }
    assert(views_of(out@) =~= views_of(rows@).map_values(
        |x: <TeacherAccount as View>::V| ReceiverTypeView::TeacherAccount(x),
    ));
    out
}

/// These courses, each tagged with its kind.
pub(crate) fn tagged_courses(rows: &Vec<Courses>) -> (out: Vec<ReceiverType>)
    ensures
        views_of(out@) == views_of(rows@).map_values(
            |x: <Courses as View>::V| ReceiverTypeView::Course(x),
        ),
{
    let mut out: Vec<ReceiverType> = Vec::new();
    let mut i: usize = 0;
    while i < rows.len()
        invariant
            i <= rows.len(),
            out@.len() == i,
            forall|j: int| 0 <= j < i ==>
                (#[trigger] out@[j])@ == ReceiverTypeView::Course(rows@[j]@),
        decreases rows.len() - i,
    {
        out.push(ReceiverType::Course(rows[i].clone()));
        i += 1;
    }
    assert(views_of(out@) =~= views_of(rows@).map_values(
        |x: <Courses as View>::V| ReceiverTypeView::Course(x),
    ));
    out
}

/// These enrollments, each tagged with its kind.
pub(crate) fn tagged_student_courses(rows: &Vec<StudentCourse>) -> (out: Vec<ReceiverType>)
    ensures
        views_of(out@) == views_of(rows@).map_values(
            |x: <StudentCourse as View>::V| ReceiverTypeView::StudentCourse(x),
        ),
{
    let mut out: Vec<ReceiverType> = Vec::new();
    let mut i: usize = 0;
    while i < rows.len()
        invariant
            i <= rows.len(),
            out@.len() == i,
            forall|j: int| 0 <= j < i ==>
                (#[trigger] out@[j])@ == ReceiverTypeView::StudentCourse(rows@[j]@),
        decreases rows.len() - i,
    {
        out.push(ReceiverType::StudentCourse(rows[i].clone()));
        i += 1;
    }
    assert(views_of(out@) =~= views_of(rows@).map_values(
        |x: <StudentCourse as View>::V| ReceiverTypeView::StudentCourse(x),
    ));
    out
}

/// These departments, each tagged with its kind.
pub(crate) fn tagged_departments(rows: &Vec<Departments>) -> (out: Vec<ReceiverType>)
    ensures
        views_of(out@) == views_of(rows@).map_values(
            |x: <Departments as View>::V| ReceiverTypeView::Department(x),
        ),
{
    let mut out: Vec<ReceiverType> = Vec::new();
    let mut i: usize = 0;
    while i < rows.len()
        invariant
            i <= rows.len(),
            out@.len() == i,
            forall|j: int| 0 <= j < i ==>
                (#[trigger] out@[j])@ == ReceiverTypeView::Department(rows@[j]@),
        decreases rows.len() - i,
    {
        out.push(ReceiverType::Department(rows[i].clone()));
        i += 1;
    }
    assert(views_of(out@) =~= views_of(rows@).map_values(
        |x: <Departments as View>::V| ReceiverTypeView::Department(x),
    ));
    out
}

} // verus!
