use academic_records::error::{ErrorKind, Operation};
use academic_records::table_models::{Action, Table};
use academic_records::text::{contains, parse_flag, parse_int, render_int, same_text, starts_with, to_chars};
use academic_records::validation::{strong_password, valid_email, valid_phone};
use regex::Regex;

#[test]
fn emails_of_the_institution() {
    for good in ["a@aubg.edu", "ab@aubg.edu", "a.b@aubg.edu", "a_+9@aubg.edu", "x..y@aubg.edu", "0@aubg.edu"] {
        assert!(valid_email(good), "{}", good);
    }
    for bad in [
        "",
        "@aubg.edu",
        "x@other.com",
        "a@aubg.edu ",
        " a@aubg.edu",
        ".a@aubg.edu",
        "a.@aubg.edu",
        ".@aubg.edu",
        "A@aubg.edu",
        "a@AUBG.edu",
        "a@aubgxedu",
        "a b@aubg.edu",
        "a@b@aubg.edu",
        "a@aubg.edu\n",
        "é@aubg.edu",
        "aubg.edu",
    ] {
        assert!(!valid_email(bad), "{:?}", bad);
    }
}

#[test]
fn phone_numbers() {
    for good in ["1234567890", "+1234567890", "12-3456-7890", "12.3456 7890", "+12 3456.7890", "12 34567890", "123456-7890"] {
        assert!(valid_phone(good), "{}", good);
    }
    for bad in [
        "",
        "+",
        "123456789",
        "12345678901",
        "12--3456-7890",
        "12-3456--7890",
        "-1234567890",
        "1-234567890",
        "++1234567890",
        "12 3456 789a",
        "12 3456 7890 ",
        "12/3456/7890",
        "１２34567890",
    ] {
        assert!(!valid_phone(bad), "{:?}", bad);
    }
}

#[test]
fn strong_passwords() {
    assert!(strong_password("Abcd123!"));
    assert!(strong_password("aB3$aB3$aB3$"));
    assert!(strong_password("Ünïcödé1aB&"));
    for weak in ["", "Abcd12!", "abcd123!", "ABCD123!", "Abcdefg!", "Abcd1234", "Abcd123#", "Ab1!Ab1"] {
        assert!(!strong_password(weak), "{}", weak);
    }
    for symbol in "@$!%*?&".chars() {
        assert!(strong_password(&format!("Abcd123{}", symbol)));
    }
    // Eight characters count, not eight bytes.
    assert!(!strong_password("Aé1!é"));
    assert!(strong_password("Aa1!éééé"));
}

fn samples() -> Vec<String> {
    let alphabet = ['a', 'z', 'A', '0', '9', '.', '_', '+', '-', ' ', '@'];
    let mut out = vec![String::new()];
    let mut layer = vec![String::new()];
    for _ in 0..3 {
        let mut next = Vec::new();
        for s in &layer {
            for c in alphabet {
                let mut t = s.clone();
                t.push(c);
                next.push(t);
            }
        }
        out.extend(next.iter().cloned());
        layer = next;
    }
    out
}

#[test]
fn emails_agree_with_the_pattern() {
    let pattern = Regex::new(r"^([a-z0-9_+]([a-z0-9_+.]*[a-z0-9_+])?)@aubg\.edu$").unwrap();
    for local in samples() {
        for tail in ["@aubg.edu", "@aubg.ed", "@aubg.edu ", "@aubgxedu", "aubg.edu", "@aubg.edu@aubg.edu"] {
            let candidate = format!("{}{}", local, tail);
            assert_eq!(valid_email(&candidate), pattern.is_match(&candidate), "{:?}", candidate);
        }
    }
}

#[test]
fn phone_numbers_agree_with_the_pattern() {
    let pattern = Regex::new(r#"^\+?[0-9]{2}[-. ]?[0-9]{4}[-. ]?[0-9]{4}$"#).unwrap();
    let pieces = ["", "+", "-", ".", " ", "1", "12", "123", "1234", "12345", "a", "--"];
    for a in pieces {
        for b in pieces {
            for c in pieces {
                for d in pieces {
                    for e in ["", "1234", "5678 ", "567", "\n"] {
                        let candidate = format!("{}{}{}{}{}", a, b, c, d, e);
                        assert_eq!(valid_phone(&candidate), pattern.is_match(&candidate), "{:?}", candidate);
                    }
                }
            }
        }
    }
}

#[test]
fn integers_parse_as_the_standard_library_parses_them() {
    for text in [
        "0", "7", "-7", "+7", "007", "-0", "2147483647", "2147483648", "-2147483648", "-2147483649",
        "99999999999999999999", "", "-", "+", "1 ", " 1", "1a", "--1", "+-1", "1.0", "١٢", "0x10",
        "000000000000000000000000012",
    ] {
        assert_eq!(parse_int(text), text.parse::<i32>().ok(), "{:?}", text);
    }
    assert_eq!(parse_int("42"), Some(42));
    assert_eq!(parse_int("-2147483648"), Some(i32::MIN));
    assert_eq!(parse_int("2147483648"), None);
}

#[test]
fn flags_parse_as_the_standard_library_parses_them() {
    for text in ["true", "false", "True", "", "1", "0", "true ", "yes"] {
        assert_eq!(parse_flag(text), text.parse::<bool>().ok(), "{:?}", text);
    }
}

#[test]
fn integers_render_in_decimal() {
    for n in [0i64, 1, 9, 10, 11, 99, 100, 101, -1, -10, 1234567890, i64::MAX, i64::MIN, i32::MIN as i64] {
        assert_eq!(render_int(n), n.to_string());
    }
}

#[test]
fn substrings_and_prefixes() {
    assert!(contains("a@aubg.edu", "@aubg"));
    assert!(contains("a@aubg.edu", ""));
    assert!(contains("", ""));
    assert!(contains("abc", "abc"));
    assert!(contains("aab", "ab"));
    assert!(!contains("abc", "abcd"));
    assert!(!contains("abc", "ac"));
    assert!(!contains("", "a"));
    assert!(contains("héllo wörld", "o wö"));
    assert!(starts_with("$argon2id$v=19", "$argon2id"));
    assert!(starts_with("abc", ""));
    assert!(starts_with("abc", "abc"));
    assert!(!starts_with("ab", "abc"));
    assert!(!starts_with("xabc", "abc"));
    assert!(same_text("abc", "abc"));
    assert!(!same_text("abc", "abd"));
    assert!(!same_text("abc", "ab"));
    assert_eq!(to_chars("aé€"), vec!['a', 'é', '€']);
    for (hay, needle) in [("banana", "nan"), ("banana", "nab"), ("ééé", "éé"), ("abcabc", "cab")] {
        assert_eq!(contains(hay, needle), hay.contains(needle));
    }
}

#[test]
fn every_kind_has_its_sentence() {
    let kinds = [
        ErrorKind::NotFound,
        ErrorKind::Conflict,
        ErrorKind::Unauthenticated,
        ErrorKind::Forbidden,
        ErrorKind::ValidationFailed,
        ErrorKind::InvalidFilter,
        ErrorKind::StorageFailure { table: Table::Users, operation: Operation::Read },
        ErrorKind::Suspended,
        ErrorKind::MustChangePassword,
        ErrorKind::InvalidCredential,
    ];
    for (i, a) in kinds.iter().enumerate() {
        assert!(!a.message().is_empty());
        for b in &kinds[i + 1..] {
            assert_ne!(a.message(), b.message());
        }
    }
    assert_eq!(ErrorKind::Unauthenticated.message(), "Must be signed in.");
    assert_eq!(ErrorKind::Suspended.message(), "User is suspended.");
    assert_eq!(ErrorKind::MustChangePassword.message(), "User must change password.");
    assert_eq!(ErrorKind::InvalidCredential.message(), "Invalid username or password.");
    assert_eq!(ErrorKind::InvalidFilter.message(), "Invalid filter for table.");
    assert_eq!(
        ErrorKind::StorageFailure { table: Table::Courses, operation: Operation::Insert }.message(),
        ErrorKind::StorageFailure { table: Table::Users, operation: Operation::Read }.message()
    );
    assert_eq!(Operation::writing(Action::Insert), Operation::Insert);
    assert_eq!(Operation::writing(Action::Update), Operation::Update);
    assert_eq!(Operation::writing(Action::Delete), Operation::Delete);
}
