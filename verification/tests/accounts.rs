use content_engine::auth::UserClaims;
use content_engine::logger::{blue, get_colored, log, Color};
use content_engine::user::{AccountError, User, UserIdReq, SALT_CHARS};

#[test]
fn handle_validation_cases() {
    assert_eq!(User::handle_valid("ok.name", false), Ok(()));
    assert_eq!(User::handle_valid("ab", false), Err(AccountError::HandleTooShort));
    assert_eq!(
        User::handle_valid("abcdefghijklmnopqrstuvwxyz", false),
        Err(AccountError::HandleTooLong)
    );
    assert_eq!(User::handle_valid("Bad", false), Err(AccountError::HandleBadChar));
    assert_eq!(User::handle_valid("with space", false), Err(AccountError::HandleBadChar));
    assert_eq!(User::handle_valid("ok.name", true), Err(AccountError::HandleOccupied));
}

#[test]
fn displayname_validation_cases() {
    assert_eq!(User::displayname_valid("A"), Ok(()));
    assert_eq!(User::displayname_valid(""), Err(AccountError::DisplaynameTooShort));
    let long = "x".repeat(51);
    assert_eq!(User::displayname_valid(&long), Err(AccountError::DisplaynameTooLong));
    assert_eq!(User::displayname_valid(&"x".repeat(50)), Ok(()));
}

#[test]
fn password_validation_cases() {
    assert_eq!(User::password_valid("seven77"), Ok(()));
    assert_eq!(User::password_valid("sixsix"), Err(AccountError::PasswordTooShort));
    let long = "p".repeat(46);
    assert_eq!(User::password_valid(&long), Err(AccountError::PasswordTooLong));
    assert_eq!(User::password_valid(&"p".repeat(45)), Ok(()));
}

#[test]
fn email_validation_cases() {
    assert_eq!(User::email_valid("user@example.com", false), Ok(()));
    assert_eq!(User::email_valid("u.s-er@sub.domain.org", false), Ok(()));
    assert_eq!(User::email_valid("u@e.c", false), Ok(()));
    assert_eq!(User::email_valid("userexample.com", false), Err(AccountError::EmailInvalid));
    assert_eq!(User::email_valid("user@example", false), Err(AccountError::EmailInvalid));
    assert_eq!(User::email_valid("user@.com", false), Err(AccountError::EmailInvalid));
    assert_eq!(User::email_valid("@example.com", false), Err(AccountError::EmailInvalid));
    assert_eq!(User::email_valid("us er@example.com", false), Err(AccountError::EmailInvalid));
    assert_eq!(User::email_valid("user@exam ple.com", false), Err(AccountError::EmailInvalid));
    assert_eq!(User::email_valid("user@example.c-m", false), Err(AccountError::EmailInvalid));
    assert_eq!(User::email_valid("user@example.com.", false), Err(AccountError::EmailInvalid));
    assert_eq!(User::email_valid("two@at@example.com", false), Err(AccountError::EmailInvalid));
    assert_eq!(User::email_valid("user@example.com", true), Err(AccountError::EmailOccupied));
}

#[test]
fn hash_password_is_sha256_of_concatenation() {
    // SHA-256 of the empty string.
    let expected: [u8; 32] = [
        0xe3, 0xb0, 0xc4, 0x42, 0x98, 0xfc, 0x1c, 0x14, 0x9a, 0xfb, 0xf4, 0xc8, 0x99, 0x6f, 0xb9,
        0x24, 0x27, 0xae, 0x41, 0xe4, 0x64, 0x9b, 0x93, 0x4c, 0xa4, 0x95, 0x99, 0x1b, 0x78, 0x52,
        0xb8, 0x55,
    ];
    assert_eq!(User::hash_password("", "", ""), expected.to_vec());
    // Concatenation order matters: "abc" split across the three parts.
    let abc: [u8; 32] = [
        0xba, 0x78, 0x16, 0xbf, 0x8f, 0x01, 0xcf, 0xea, 0x41, 0x41, 0x40, 0xde, 0x5d, 0xae, 0x22,
        0x23, 0xb0, 0x03, 0x61, 0xa3, 0x96, 0x17, 0x7a, 0x9c, 0xb4, 0x10, 0xff, 0x61, 0xf2, 0x00,
        0x15, 0xad,
    ];
    assert_eq!(User::hash_password("a", "b", "c"), abc.to_vec());
    assert_ne!(User::hash_password("a", "b", "c"), User::hash_password("c", "b", "a"));
}

#[test]
fn generate_salt_draws_from_alphabet() {
    for _ in 0..20 {
        let salt = User::generate_salt();
        let n = salt.chars().count();
        assert!(25 <= n && n <= 35);
        for c in salt.chars() {
            assert!(SALT_CHARS.contains(c));
        }
    }
}

#[test]
fn try_create_builds_account() {
    let user = User::try_create(
        "artur",
        "Artur",
        "artur@example.com",
        "long enough password",
        "pepper",
        false,
        false,
        777,
    )
    .unwrap();
    assert_eq!(user.id, 0);
    assert_eq!(user.handle, "artur");
    assert_eq!(user.displayname, "Artur");
    assert_eq!(user.email, "artur@example.com");
    assert_eq!(user.hash.len(), 32);
    assert_eq!(user.tomatoes, 5);
    assert_eq!(user.last_tomato_reset, 777);
    assert_eq!(user.followers, 0);
    assert_eq!(user.following, 0);
    assert!(user.verify_password("long enough password", "pepper"));
    assert!(!user.verify_password("long enough password", "other"));
    assert!(!user.verify_password("wrong password!", "pepper"));
}

#[test]
fn try_create_reports_first_failure() {
    let r = User::try_create("x", "Artur", "bad", "short", "p", false, false, 0);
    assert_eq!(r.err(), Some(AccountError::HandleTooShort));
    let r = User::try_create("good.handle", "", "bad", "short", "p", false, false, 0);
    assert_eq!(r.err(), Some(AccountError::DisplaynameTooShort));
    let r = User::try_create("good.handle", "Artur", "bad", "short", "p", false, false, 0);
    assert_eq!(r.err(), Some(AccountError::EmailInvalid));
    let r = User::try_create("good.handle", "Artur", "a@b.c", "short", "p", false, false, 0);
    assert_eq!(r.err(), Some(AccountError::PasswordTooShort));
}

#[test]
fn login_checks_credentials() {
    let user =
        User::try_create("artur", "Artur", "a@b.c", "long enough password", "pep", false, false, 0)
            .unwrap();
    assert_eq!(User::login(Some(&user), "long enough password", "pep"), Ok(UserIdReq(0)));
    assert_eq!(
        User::login(Some(&user), "wrong password!", "pep"),
        Err(AccountError::BadCredentials)
    );
    assert_eq!(
        User::login(None, "long enough password", "pep"),
        Err(AccountError::BadCredentials)
    );
}

#[test]
fn to_non_sensitive_drops_credentials() {
    let user =
        User::try_create("artur", "Artur", "a@b.c", "long enough password", "pep", false, false, 0)
            .unwrap();
    let info = user.to_non_sensitive();
    assert_eq!(info.user_id, 0);
    assert_eq!(info.handle, "artur");
    assert_eq!(info.displayname, "Artur");
    assert_eq!(info.followers, 0);
    assert_eq!(info.following, 0);
    assert!(!info.is_followed);
}

#[test]
fn user_getters() {
    let user =
        User::try_create("artur", "Artur", "a@b.c", "long enough password", "pep", false, false, 0)
            .unwrap();
    assert_eq!(user.id(), 0);
    assert_eq!(user.handle(), "artur");
    assert_eq!(user.displayname(), "Artur");
}

#[test]
fn claims_expiry_arithmetic() {
    let claims = UserClaims::new("artur".to_string(), 42, 1000, 2);
    assert_eq!(claims.handle, "artur");
    assert_eq!(claims.id, 42);
    assert_eq!(claims.exp, 1000 + 2 * 86400);
    assert!(!claims.expired(claims.exp));
    assert!(claims.expired(claims.exp + 1));
}

#[test]
fn colored_text_wraps_in_escape_codes() {
    assert_eq!(get_colored(Color::Red, "x"), "\u{1b}[31mx\u{1b}[0m");
    assert_eq!(get_colored(Color::BrightGreen, "ok"), "\u{1b}[92mok\u{1b}[0m");
}

#[test]
fn log_line_pads_title_column() {
    let line = log(Color::Blue, "init", "hello");
    assert_eq!(line, format!("[{}]{} hello", "\u{1b}[34minit\u{1b}[0m", " ".repeat(10)));
    assert_eq!(blue("init", "hello"), line);
    // An oversized title gets no padding.
    let wide = log(Color::Red, "a-very-long-title", "x");
    assert_eq!(wide, format!("[{}] x", "\u{1b}[31ma-very-long-title\u{1b}[0m"));
}
