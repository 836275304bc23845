//! User accounts: validation of the fields an account is created from,
//! password hashing, salt generation, and the follow toggle.
//!
//! The account checks are pure functions of the submitted values plus the
//! store's answer to "is this handle/email taken", which the caller reads in
//! the same transaction that inserts the account.

use vstd::prelude::*;

verus! {

use vstd::string::StringSliceAdditionalSpecFns;
use crate::opinion::{count_graphemes, grapheme_count};
use crate::toggle::{toggle_post, ToggleKind, ToggleStore};

/// Shortest allowed handle, in bytes.
pub const HANDLE_MIN_LEN: usize = 3;

/// Longest allowed handle, in bytes.
pub const HANDLE_MAX_LEN: usize = 25;

/// Shortest allowed displayname, in grapheme clusters.
pub const DISPLAYNAME_MIN_LEN: usize = 1;

/// Longest allowed displayname, in grapheme clusters.
pub const DISPLAYNAME_MAX_LEN: usize = 50;

/// Shortest allowed password, in grapheme clusters.
pub const PASSWORD_MIN_LEN: usize = 7;

/// Longest allowed password, in grapheme clusters.
pub const PASSWORD_MAX_LEN: usize = 45;

/// The characters a salt is drawn from.
pub const SALT_CHARS: &'static str = "abcdefghijklmnopqrstuvwxyz1234567890+-.,;:!\"#\u{20ac}%&/()=?*";

/// Why an account could not be created or signed in.
#[derive(Clone, Copy, Debug, PartialEq, Eq, Structural)]
pub enum AccountError {
    HandleTooShort,
    HandleTooLong,
    HandleBadChar,
    HandleOccupied,
    DisplaynameTooShort,
    DisplaynameTooLong,
    EmailInvalid,
    EmailOccupied,
    PasswordTooShort,
    PasswordTooLong,
    /// Unknown email, or wrong password: the two are deliberately not told
    /// apart.
    BadCredentials,
}

/// One user account row.
#[derive(Debug)]
pub struct User {
    pub id: i64,
    /// The @username handle.
    pub handle: String,
    /// The displayname, free to contain any text.
    pub displayname: String,
    /// When the account was created, milliseconds since the Unix epoch.
    pub joined: i64,
    pub email: String,
    /// The salted, peppered password digest.
    pub hash: Vec<u8>,
    pub salt: String,
    pub followers: i32,
    pub following: i32,
    pub tomatoes: i32,
    /// When the tomato allowance was last refilled, milliseconds since the
    /// Unix epoch.
    pub last_tomato_reset: i64,
}

/// The public view of a user: no credentials, no quota bookkeeping.
#[derive(Debug)]
pub struct UserInfo {
    pub user_id: i64,
    pub handle: String,
    pub displayname: String,
    pub followers: i32,
    pub following: i32,
    /// Whether the requesting user follows this one.
    pub is_followed: bool,
}

/// An authenticated caller, reduced to the user id.
#[derive(Clone, Copy, Debug, PartialEq, Eq, Structural)]
pub struct UserIdReq(pub i64);

/// What `SHA-256` digests a byte string to: a function of the bytes alone.
pub uninterp spec fn sha256_of(data: Seq<u8>) -> Seq<u8>;

/// Relies on `sha2::Sha256` via the `Digest` trait: the SHA-256 digest of the
/// input bytes, 32 bytes long, a function of the input alone.
#[verifier::external_body]
fn sha256(data: &[u8]) -> (r: Vec<u8>)
    ensures
        r@ == sha256_of(data@),
        r@.len() == 32,
{
    <sha2::Sha256 as sha2::Digest>::digest(data)[..].to_vec()
}

/// Relies on `rand::random_range`: a value below `bound` from the thread's
/// generator. Nothing can be promised about which one.
#[verifier::external_body]
fn random_below(bound: usize) -> (r: usize)
    requires
        bound > 0,
    ensures
        r < bound,
{
    rand::random_range(0..bound)
}

/// A handle character: ASCII lowercase letters, digits, or a dot.
pub open spec fn is_handle_char(c: char) -> bool {
    ('a' <= c && c <= 'z') || ('0' <= c && c <= '9') || c == '.'
}

/// A word character: ASCII letters, digits, or underscore.
pub open spec fn is_word_char(c: char) -> bool {
    crate::spec_is_token_char(c) || c == '_'
}

/// A character allowed around the `@` of an email: word characters, dots and
/// hyphens.
pub open spec fn is_mail_char(c: char) -> bool {
    is_word_char(c) || c == '.' || c == '-'
}

/// `a` is the `@` of a well-formed email and `p` the dot that starts its
/// final label: mail characters before and between, at least one word
/// character at the end.
pub open spec fn is_email_shape(s: Seq<char>, a: int, p: int) -> bool {
    &&& 0 < a
    &&& a + 2 <= p <= s.len() - 2
    &&& s[a] == '@'
    &&& s[p] == '.'
    &&& forall|i: int| 0 <= i < a ==> is_mail_char(#[trigger] s[i])
    &&& forall|i: int| a < i < p ==> is_mail_char(#[trigger] s[i])
    &&& forall|i: int| p < i < s.len() ==> is_word_char(#[trigger] s[i])
}

/// A well-formed email: a non-empty run of mail characters, an `@`, another
/// non-empty run of mail characters, a dot, and a non-empty run of word
/// characters.
pub open spec fn spec_email_valid(s: Seq<char>) -> bool {
    exists|a: int, p: int| is_email_shape(s, a, p)
}

fn is_handle_char_exec(c: char) -> (r: bool)
    ensures
        r == is_handle_char(c),
{
    ('a' <= c && c <= 'z') || ('0' <= c && c <= '9') || c == '.'
}

fn is_mail_char_exec(c: char) -> (r: bool)
    ensures
        r == is_mail_char(c),
{
    crate::is_token_char(c) || c == '_' || c == '.' || c == '-'
}

fn is_word_char_exec(c: char) -> (r: bool)
    ensures
        r == is_word_char(c),
{
    crate::is_token_char(c) || c == '_'
}

/// The outcome handle validation owes: the length checks in bytes, then the
/// character check, then occupancy.
pub open spec fn spec_handle_check(handle: &str, occupied: bool) -> Result<(), AccountError> {
    if handle.len() < HANDLE_MIN_LEN {
        Err(AccountError::HandleTooShort)
    } else if handle.len() > HANDLE_MAX_LEN {
        Err(AccountError::HandleTooLong)
    } else if !(forall|i: int| 0 <= i < handle@.len() ==> is_handle_char(#[trigger] handle@[i])) {
        Err(AccountError::HandleBadChar)
    } else if occupied {
        Err(AccountError::HandleOccupied)
    } else {
        Ok(())
    }
}

/// The outcome displayname validation owes: grapheme-cluster length bounds.
pub open spec fn spec_displayname_check(s: Seq<char>) -> Result<(), AccountError> {
    if grapheme_count(s) < DISPLAYNAME_MIN_LEN {
        Err(AccountError::DisplaynameTooShort)
    } else if grapheme_count(s) > DISPLAYNAME_MAX_LEN {
        Err(AccountError::DisplaynameTooLong)
    } else {
        Ok(())
    }
}

/// The outcome password validation owes: grapheme-cluster length bounds.
pub open spec fn spec_password_check(s: Seq<char>) -> Result<(), AccountError> {
    if grapheme_count(s) < PASSWORD_MIN_LEN {
        Err(AccountError::PasswordTooShort)
    } else if grapheme_count(s) > PASSWORD_MAX_LEN {
        Err(AccountError::PasswordTooLong)
    } else {
        Ok(())
    }
}

/// The outcome email validation owes: shape first, then occupancy.
pub open spec fn spec_email_check(s: Seq<char>, occupied: bool) -> Result<(), AccountError> {
    if !spec_email_valid(s) {
        Err(AccountError::EmailInvalid)
    } else if occupied {
        Err(AccountError::EmailOccupied)
    } else {
        Ok(())
    }
}

impl User {
    /// Length and character checks for a handle; `occupied` is the store's
    /// answer to whether the handle is taken, read in the same transaction.
    pub fn handle_valid(handle: &str, occupied: bool) -> (r: Result<(), AccountError>)
        ensures
            r == spec_handle_check(handle, occupied),
    {
        let len = handle.len();
        if len < HANDLE_MIN_LEN {
            return Err(AccountError::HandleTooShort);
        }
        if len > HANDLE_MAX_LEN {
            return Err(AccountError::HandleTooLong);
        }
        let chars = handle.unicode_len();
        let mut i: usize = 0;
        while i < chars
            invariant
                chars == handle@.len(),
                i <= chars,
                HANDLE_MIN_LEN <= handle.len() <= HANDLE_MAX_LEN,
                forall|j: int| 0 <= j < i ==> is_handle_char(#[trigger] handle@[j]),
            decreases chars - i,
        {
            if !is_handle_char_exec(handle.get_char(i)) {
                return Err(AccountError::HandleBadChar);
            }
            i = i + 1;
        }
        if occupied {
            return Err(AccountError::HandleOccupied);
        }
        Ok(())
    }

    /// Displayname length checks, counted in grapheme clusters.
    pub fn displayname_valid(displayname: &str) -> (r: Result<(), AccountError>)
        ensures
            r == spec_displayname_check(displayname@),
    {
        let len = count_graphemes(displayname);
        if len < DISPLAYNAME_MIN_LEN {
            return Err(AccountError::DisplaynameTooShort);
        }
        if len > DISPLAYNAME_MAX_LEN {
            return Err(AccountError::DisplaynameTooLong);
        }
        Ok(())
    }

    /// Password length checks, counted in grapheme clusters.
    pub fn password_valid(password: &str) -> (r: Result<(), AccountError>)
        ensures
            r == spec_password_check(password@),
    {
        let len = count_graphemes(password);
        if len < PASSWORD_MIN_LEN {
            return Err(AccountError::PasswordTooShort);
        }
        if len > PASSWORD_MAX_LEN {
            return Err(AccountError::PasswordTooLong);
        }
        Ok(())
    }

    /// Email shape check; `occupied` is the store's answer to whether the
    /// address is taken, read in the same transaction.
    pub fn email_valid(email: &str, occupied: bool) -> (r: Result<(), AccountError>)
        ensures
            r == spec_email_check(email@, occupied),
    {
        if email_shaped(email) {
            if occupied {
                Err(AccountError::EmailOccupied)
            } else {
                Ok(())
            }
        } else {
            Err(AccountError::EmailInvalid)
        }
    }

    /// Hashes `password` with the account's salt and the service's pepper.
    pub fn hash_password(password: &str, salt: &str, pepper: &str) -> (r: Vec<u8>)
        ensures
            ({
                let joined = password@ + salt@ + pepper@;
                r@ == sha256_of(vstd::utf8::encode_utf8(joined)) && r@.len() == 32
            }),
    {
        let mut inner = String::from_str(password);
        inner.append(salt);
        inner.append(pepper);
        sha256(inner.as_str().as_bytes())
    }

    /// Whether `password` (with `pepper`) hashes to this account's stored
    /// digest.
    pub fn verify_password(&self, password: &str, pepper: &str) -> (r: bool)
        ensures
            r == (self.hash@ == sha256_of(
                vstd::utf8::encode_utf8(password@ + self.salt@ + pepper@),
            )),
    {
        let hash = Self::hash_password(password, self.salt.as_str(), pepper);
        slices_equal(hash.as_slice(), self.hash.as_slice())
    }

    /// Draws a salt of 25 to 35 characters from the salt alphabet.
    pub fn generate_salt() -> (r: String)
        ensures
            25 <= r@.len() <= 35,
            forall|i: int| 0 <= i < r@.len() ==> SALT_CHARS@.contains(#[trigger] r@[i]),
    {
        proof {
            reveal_strlit("abcdefghijklmnopqrstuvwxyz1234567890+-.,;:!\"#\u{20ac}%&/()=?*");
        }
        let length = 25 + random_below(11);
        let mut end = String::new();
        let mut k: usize = 0;
        while k < length
            invariant
                k <= length,
                end@.len() == k,
                forall|i: int| 0 <= i < end@.len() ==> SALT_CHARS@.contains(#[trigger] end@[i]),
            decreases length - k,
        {
            let idx = random_below(54);
            proof {
                reveal_strlit("abcdefghijklmnopqrstuvwxyz1234567890+-.,;:!\"#\u{20ac}%&/()=?*");
            }
            let c = SALT_CHARS.get_char(idx);
            crate::push_char(&mut end, c);
            k = k + 1;
        }
        end
    }

    /// The public view of this account. `is_followed` is false: the account
    /// itself is the one asking.
    pub fn to_non_sensitive(self) -> (r: UserInfo)
        ensures
            r.user_id == self.id,
            r.handle == self.handle,
            r.displayname == self.displayname,
            r.followers == self.followers,
            r.following == self.following,
            !r.is_followed,
    {
        UserInfo {
            user_id: self.id,
            handle: self.handle,
            displayname: self.displayname,
            followers: self.followers,
            following: self.following,
            is_followed: false,
        }
    }

    /// Validates every field of a new account — handle, displayname, email,
    /// password, in that order — and builds the row: a fresh salt, the salted
    /// peppered password digest, a full tomato allowance, and placeholder id
    /// zero until the store assigns one.
    pub fn try_create(
        handle: &str,
        displayname: &str,
        email: &str,
        password: &str,
        pepper: &str,
        handle_occupied: bool,
        email_occupied: bool,
        now_ms: i64,
    ) -> (r: Result<User, AccountError>)
        ensures
            r is Ok <==> (spec_handle_check(handle, handle_occupied) is Ok
                && spec_displayname_check(displayname@) is Ok && spec_email_check(
                email@,
                email_occupied,
            ) is Ok && spec_password_check(password@) is Ok),
            r is Err ==> {
                let e = Err::<(), AccountError>(r->Err_0);
                if spec_handle_check(handle, handle_occupied) is Err {
                    e == spec_handle_check(handle, handle_occupied)
                } else if spec_displayname_check(displayname@) is Err {
                    e == spec_displayname_check(displayname@)
                } else if spec_email_check(email@, email_occupied) is Err {
                    e == spec_email_check(email@, email_occupied)
                } else {
                    e == spec_password_check(password@)
                }
            },
            r is Ok ==> {
                let u = r->Ok_0;
                &&& u.id == 0
                &&& u.handle@ == handle@
                &&& u.displayname@ == displayname@
                &&& u.email@ == email@
                &&& 25 <= u.salt@.len() <= 35
                &&& u.hash@ == sha256_of(
                    vstd::utf8::encode_utf8(password@ + u.salt@ + pepper@),
                )
                &&& u.followers == 0
                &&& u.following == 0
                &&& u.joined == 0
                &&& u.tomatoes == 5
                &&& u.last_tomato_reset == now_ms
            },
    {
        if let Err(e) = Self::handle_valid(handle, handle_occupied) {
            return Err(e);
        }
        if let Err(e) = Self::displayname_valid(displayname) {
            return Err(e);
        }
        if let Err(e) = Self::email_valid(email, email_occupied) {
            return Err(e);
        }
        if let Err(e) = Self::password_valid(password) {
            return Err(e);
        }
        let salt = Self::generate_salt();
        let hash = Self::hash_password(password, salt.as_str(), pepper);
        Ok(
            User {
                id: 0,
                joined: 0,
                followers: 0,
                following: 0,
                handle: String::from_str(handle),
                displayname: String::from_str(displayname),
                email: String::from_str(email),
                hash,
                salt,
                tomatoes: 5,
                last_tomato_reset: now_ms,
            },
        )
    }

    /// Checks a login attempt: the account looked up by email (`None` when
    /// the address is unknown) and the submitted password. Unknown email and
    /// wrong password fail alike, with `BadCredentials`.
    pub fn login(user: Option<&User>, password: &str, pepper: &str) -> (r: Result<
        UserIdReq,
        AccountError,
    >)
        ensures
            match user {
                None => r == Result::<UserIdReq, AccountError>::Err(AccountError::BadCredentials),
                Some(u) => {
                    if u.hash@ == sha256_of(
                        vstd::utf8::encode_utf8(password@ + u.salt@ + pepper@),
                    ) {
                        r == Result::<UserIdReq, AccountError>::Ok(UserIdReq(u.id))
                    } else {
                        r == Result::<UserIdReq, AccountError>::Err(AccountError::BadCredentials)
                    }
                },
            },
    {
        let u = match user {
            Some(u) => u,
            None => {
                return Err(AccountError::BadCredentials);
            },
        };
        if u.verify_password(password, pepper) {
            Ok(UserIdReq(u.id))
        } else {
            Err(AccountError::BadCredentials)
        }
    }

    /// Sets whether `follower_id` follows `followee_id`, updating the
    /// followee's follower counter and the follower's following counter in
    /// the same indivisible transition; returns whether anything changed.
    pub fn set_following(
        store: &mut ToggleStore,
        follower_id: i64,
        followee_id: i64,
        wants_follow: bool,
    ) -> (changed: bool)
        requires
            old(store).wf(),
        ensures
            toggle_post(
                *old(store),
                *final(store),
                ToggleKind::Follow,
                follower_id,
                followee_id,
                wants_follow,
            ),
            changed == (old(store).spec_has(ToggleKind::Follow, follower_id, followee_id)
                != wants_follow),
    {
        store.toggle(ToggleKind::Follow, follower_id, followee_id, wants_follow)
    }

    /// The account's primary key.
    pub fn id(&self) -> (r: i64)
        ensures
            r == self.id,
    {
        self.id
    }

    /// The account's displayname.
    pub fn displayname(&self) -> (r: &String)
        ensures
            r == self.displayname,
    {
        &self.displayname
    }

    /// The account's handle.
    pub fn handle(&self) -> (r: &String)
        ensures
            r == self.handle,
    {
        &self.handle
    }
}

/// Relies on `<[u8]>::eq` (`PartialEq` on slices): byte slices compare by
/// contents.
#[verifier::external_body]
fn slices_equal(a: &[u8], b: &[u8]) -> (r: bool)
    ensures
        r == (a@ == b@),
{
    a == b
}

/// Whether `email` has the well-formed shape, by one scan: the first `@`
/// must close a non-empty run of mail characters, and the last dot after it
/// must be preceded by at least one mail character and followed only by word
/// characters, at least one.
fn email_shaped(email: &str) -> (r: bool)
    ensures
        r == spec_email_valid(email@),
{
    let n = email.unicode_len();
    // Find the first '@'.
    let mut a: usize = 0;
    while a < n && email.get_char(a) != '@'
        invariant
            n == email@.len(),
            a <= n,
            forall|j: int| 0 <= j < a ==> email@[j] != '@',
        decreases n - a,
    {
        a = a + 1;
    }
    if a == n || a == 0 {
        proof {
            assert forall|x: int, p: int| !is_email_shape(email@, x, p) by {
                if 0 < x < email@.len() && email@[x] == '@' {
                    assert(a < n);
                }
            }
        }
        return false;
    }
    // The local part must be all mail characters (which excludes '@', so any
    // witness '@' position equals `a`).
    let mut i: usize = 0;
    while i < a
        invariant
            n == email@.len(),
            0 < a < n,
            i <= a,
            email@[a as int] == '@',
            forall|j: int| 0 <= j < a ==> email@[j] != '@',
            forall|j: int| 0 <= j < i ==> is_mail_char(#[trigger] email@[j]),
        decreases a - i,
    {
        if !is_mail_char_exec(email.get_char(i)) {
            proof {
                lemma_witness_is_first_at(email@, a as int, i as int);
            }
            return false;
        }
        i = i + 1;
    }
    // Find the last '.' after the '@'.
    let mut p: usize = n;
    let mut scan: usize = a + 1;
    while scan < n
        invariant
            n == email@.len(),
            0 < a < n,
            a + 1 <= scan <= n,
            email@[a as int] == '@',
            forall|j: int| 0 <= j < a ==> email@[j] != '@',
            forall|j: int| 0 <= j < a ==> is_mail_char(#[trigger] email@[j]),
            p == n || (a < p < scan && email@[p as int] == '.'),
            forall|j: int| p < j < scan && j < n ==> email@[j] != '.',
            p == n ==> forall|j: int| a < j < scan ==> email@[j] != '.',
        decreases n - scan,
    {
        if email.get_char(scan) == '.' {
            p = scan;
        }
        scan = scan + 1;
    }
    if p == n {
        proof {
            assert forall|x: int, q: int| !is_email_shape(email@, x, q) by {
                if is_email_shape(email@, x, q) {
                    lemma_at_unique(email@, a as int, x, q);
                    assert(email@[q] == '.');
                }
            }
        }
        return false;
    }
    if p - a < 2 || n - p < 2 {
        proof {
            assert forall|x: int, q: int| !is_email_shape(email@, x, q) by {
                if is_email_shape(email@, x, q) {
                    lemma_at_unique(email@, a as int, x, q);
                    lemma_dot_is_last(email@, a as int, p as int, q);
                }
            }
        }
        return false;
    }
    // Between '@' and the last dot: mail characters.
    let mut j: usize = a + 1;
    while j < p
        invariant
            n == email@.len(),
            0 < a < n,
            a + 2 <= p <= n - 2,
            email@[a as int] == '@',
            email@[p as int] == '.',
            forall|m: int| 0 <= m < a ==> email@[m] != '@',
            forall|m: int| p < m < n ==> email@[m] != '.',
            a + 1 <= j <= p,
            forall|k: int| a < k < j ==> is_mail_char(#[trigger] email@[k]),
        decreases p - j,
    {
        if !is_mail_char_exec(email.get_char(j)) {
            proof {
                assert forall|x: int, q: int| !is_email_shape(email@, x, q) by {
                    if is_email_shape(email@, x, q) {
                        lemma_at_unique(email@, a as int, x, q);
                        lemma_dot_is_last(email@, a as int, p as int, q);
                        assert(is_mail_char(email@[j as int]));
                    }
                }
            }
            return false;
        }
        j = j + 1;
    }
    // After the last dot: word characters.
    let mut k: usize = p + 1;
    while k < n
        invariant
            n == email@.len(),
            0 < a < n,
            a + 2 <= p <= n - 2,
            email@[a as int] == '@',
            email@[p as int] == '.',
            forall|m: int| 0 <= m < a ==> email@[m] != '@',
            forall|m: int| p < m < n ==> email@[m] != '.',
            forall|m: int| 0 <= m < a ==> is_mail_char(#[trigger] email@[m]),
            forall|m: int| a < m < p ==> is_mail_char(#[trigger] email@[m]),
            p + 1 <= k <= n,
            forall|m: int| p < m < k ==> is_word_char(#[trigger] email@[m]),
        decreases n - k,
    {
        if !is_word_char_exec(email.get_char(k)) {
            proof {
                assert forall|x: int, q: int| !is_email_shape(email@, x, q) by {
                    if is_email_shape(email@, x, q) {
                        lemma_at_unique(email@, a as int, x, q);
                        lemma_dot_is_last(email@, a as int, p as int, q);
                        assert(is_word_char(email@[k as int]));
                    }
                }
            }
            return false;
        }
        k = k + 1;
    }
    proof {
        assert(is_email_shape(email@, a as int, p as int));
    }
    true
}

/// In a well-formed shape whose prefix up to `a` holds only mail characters,
/// a non-mail character before `a` refutes every witness: the witness `@`
/// cannot sit past it, and cannot sit at or before it either.
proof fn lemma_witness_is_first_at(s: Seq<char>, a: int, bad: int)
    requires
        0 <= bad < a < s.len(),
        s[a] == '@',
        !is_mail_char(s[bad]),
        forall|j: int| 0 <= j < a ==> s[j] != '@',
    ensures
        forall|x: int, p: int| !is_email_shape(s, x, p),
{
    assert forall|x: int, p: int| !is_email_shape(s, x, p) by {
        if is_email_shape(s, x, p) {
            if x <= bad {
                assert(s[x] == '@');
            } else {
                assert(is_mail_char(s[bad]));
            }
        }
    }
}

/// Any witness `@` of a well-formed shape is the first `@`.
proof fn lemma_at_unique(s: Seq<char>, a: int, x: int, p: int)
    requires
        0 < a < s.len(),
        s[a] == '@',
        forall|j: int| 0 <= j < a ==> s[j] != '@',
        is_email_shape(s, x, p),
    ensures
        x == a,
{
    if x < a {
        assert(s[x] == '@');
    } else if x > a {
        assert(is_mail_char(s[a]) || is_word_char(s[a]));
    }
}

/// Any witness dot of a well-formed shape anchored at `a` is the last dot
/// after `a`.
proof fn lemma_dot_is_last(s: Seq<char>, a: int, p: int, q: int)
    requires
        0 < a < p < s.len(),
        s[p] == '.',
        forall|j: int| p < j < s.len() ==> s[j] != '.',
        is_email_shape(s, a, q),
    ensures
        q == p,
{
    if q < p {
        assert(is_word_char(s[p]));
    } else if q > p {
        assert(s[q] == '.');
    }
}

} // verus!
