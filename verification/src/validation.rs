//! Validation rules, applied before any store access.
//!
//! An email must have the shape `local@domain.tld`: a non-empty local part,
//! exactly one `@`, a non-empty domain part, and a final label of at least two
//! letters after the last dot. A registration password must be between
//! [`REGISTER_PASSWORD_MIN`] and [`REGISTER_PASSWORD_MAX`] characters; a login
//! password at least [`LOGIN_PASSWORD_MIN`]. A failed validation reports a
//! list of field / violation-reason pairs.

use vstd::prelude::*;
use vstd::string::StrSliceExecFns;

use crate::customers::Customer;
use crate::customers::CustomerOps;
use crate::customers::CustomerV;
use crate::errors::FieldId;
use crate::errors::FieldViolation;
use crate::errors::ViolationReason;
use crate::login_credentials::LoginParams;

verus! {

/// Smallest accepted registration password length, in characters.
pub const REGISTER_PASSWORD_MIN: usize = 1;

/// Largest accepted registration password length, in characters.
pub const REGISTER_PASSWORD_MAX: usize = 15;

/// Smallest accepted login email length, in characters.
pub const LOGIN_EMAIL_MIN: usize = 1;

/// Largest accepted login email length, in characters.
pub const LOGIN_EMAIL_MAX: usize = 50;

/// Smallest accepted login password length, in characters.
pub const LOGIN_PASSWORD_MIN: usize = 4;

pub open spec fn is_alpha_char(c: char) -> bool {
    ('a' <= c && c <= 'z') || ('A' <= c && c <= 'Z')
}

pub open spec fn is_digit_char(c: char) -> bool {
    '0' <= c && c <= '9'
}

/// Characters accepted in the part before the `@`.
pub open spec fn is_local_char(c: char) -> bool {
    is_alpha_char(c) || is_digit_char(c) || c == '.' || c == '_' || c == '%' || c == '+' || c
        == '-'
}

/// Characters accepted between the `@` and the last dot.
pub open spec fn is_domain_char(c: char) -> bool {
    is_alpha_char(c) || is_digit_char(c) || c == '.' || c == '-'
}

/// `s` decomposes as `local@domain.tld` with the `@` at `i` and the last dot
/// at `k`: a non-empty local part of local characters, a non-empty domain part
/// of domain characters, and a final label of at least two letters.
pub open spec fn email_split_at(s: Seq<char>, i: int, k: int) -> bool {
    &&& 1 <= i
    &&& i + 2 <= k
    &&& k + 3 <= s.len()
    &&& s[i] == '@'
    &&& s[k] == '.'
    &&& forall|j: int| 0 <= j < i ==> is_local_char(#[trigger] s[j])
    &&& forall|j: int| i < j < k ==> is_domain_char(#[trigger] s[j])
    &&& forall|j: int| k < j < s.len() ==> is_alpha_char(#[trigger] s[j])
}

/// A well-formed email: some `local@domain.tld` decomposition exists.
pub open spec fn valid_email(s: Seq<char>) -> bool {
    exists|i: int, k: int| email_split_at(s, i, k)
}

/// A registration input that passes every field rule.
pub open spec fn valid_customer(c: CustomerV) -> bool {
    &&& valid_email(c.email)
    &&& REGISTER_PASSWORD_MIN <= c.password.len()
    &&& c.password.len() <= REGISTER_PASSWORD_MAX
}

/// A login input that passes every field rule.
pub open spec fn valid_login_params(email: Seq<char>, password: Seq<char>) -> bool {
    &&& LOGIN_EMAIL_MIN <= email.len()
    &&& email.len() <= LOGIN_EMAIL_MAX
    &&& valid_email(email)
    &&& LOGIN_PASSWORD_MIN <= password.len()
}

/// The violations a registration input earns, email field first.
pub open spec fn customer_report(c: CustomerV) -> Seq<FieldViolation> {
    register_email_report(c.email) + register_password_report(c.password)
}

pub open spec fn register_email_report(email: Seq<char>) -> Seq<FieldViolation> {
    if valid_email(email) {
        Seq::<FieldViolation>::empty()
    } else {
        seq![FieldViolation { field: FieldId::Email, reason: ViolationReason::Malformed }]
    }
}

pub open spec fn register_password_report(password: Seq<char>) -> Seq<FieldViolation> {
    if password.len() < REGISTER_PASSWORD_MIN {
        seq![FieldViolation { field: FieldId::Password, reason: ViolationReason::TooShort }]
    } else if password.len() > REGISTER_PASSWORD_MAX {
        seq![FieldViolation { field: FieldId::Password, reason: ViolationReason::TooLong }]
    } else {
        Seq::<FieldViolation>::empty()
    }
}

/// The violations a login input earns: email length, then email shape, then
/// password length.
pub open spec fn login_report(email: Seq<char>, password: Seq<char>) -> Seq<FieldViolation> {
    login_email_report(email) + login_password_report(password)
}

pub open spec fn login_email_report(email: Seq<char>) -> Seq<FieldViolation> {
    (if email.len() < LOGIN_EMAIL_MIN {
        seq![FieldViolation { field: FieldId::Email, reason: ViolationReason::TooShort }]
    } else if email.len() > LOGIN_EMAIL_MAX {
        seq![FieldViolation { field: FieldId::Email, reason: ViolationReason::TooLong }]
    } else {
        Seq::<FieldViolation>::empty()
    }) + (if valid_email(email) {
        Seq::<FieldViolation>::empty()
    } else {
        seq![FieldViolation { field: FieldId::Email, reason: ViolationReason::Malformed }]
    })
}

pub open spec fn login_password_report(password: Seq<char>) -> Seq<FieldViolation> {
    if password.len() < LOGIN_PASSWORD_MIN {
        seq![FieldViolation { field: FieldId::Password, reason: ViolationReason::TooShort }]
    } else {
        Seq::<FieldViolation>::empty()
    }
}

/// Which character class a position of a candidate email must fall in.
#[derive(Clone, Copy, Debug, PartialEq, Eq, Structural)]
enum CharClass {
    LocalPart,
    DomainPart,
    TldPart,
}

spec fn char_in_class(c: char, klass: CharClass) -> bool {
    match klass {
        CharClass::LocalPart => is_local_char(c),
        CharClass::DomainPart => is_domain_char(c),
        CharClass::TldPart => is_alpha_char(c),
    }
}

fn check_char(c: char, klass: CharClass) -> (r: bool)
    ensures
        r == char_in_class(c, klass),
{
    let alpha = ('a' <= c && c <= 'z') || ('A' <= c && c <= 'Z');
    let digit = '0' <= c && c <= '9';
    match klass {
        CharClass::LocalPart => alpha || digit || c == '.' || c == '_' || c == '%' || c == '+' || c
            == '-',
        CharClass::DomainPart => alpha || digit || c == '.' || c == '-',
        CharClass::TldPart => alpha,
    }
}

/// The position of the first occurrence of `target` in `s`, if any.
fn find_first(s: &str, n: usize, target: char) -> (r: Option<usize>)
    requires
        n == s@.len(),
    ensures
        match r {
            Some(i) => i < n && s@[i as int] == target && (forall|j: int|
                0 <= j < i ==> s@[j] != target),
            None => forall|j: int| 0 <= j < n ==> s@[j] != target,
        },
{
    let mut i: usize = 0;
    while i < n
        invariant
            i <= n,
            n == s@.len(),
            forall|j: int| 0 <= j < i ==> s@[j] != target,
        decreases n - i,
    {
        if s.get_char(i) == target {
            return Some(i);
        }
        i += 1;
    }
    None
}

/// The position of the last occurrence of `target` strictly after `lo`, if
/// any.
fn find_last_after(s: &str, n: usize, lo: usize, target: char) -> (r: Option<usize>)
    requires
        n == s@.len(),
        lo < n,
    ensures
        match r {
            Some(k) => lo < k < n && s@[k as int] == target && (forall|m: int|
                k < m < n ==> s@[m] != target),
            None => forall|m: int| lo < m < n ==> s@[m] != target,
        },
{
    let mut k: usize = n;
    while k > lo + 1
        invariant
            lo + 1 <= k <= n,
            n == s@.len(),
            forall|m: int| k <= m < n ==> s@[m] != target,
        decreases k,
    {
        k -= 1;
        if s.get_char(k) == target {
            return Some(k);
        }
    }
    None
}

/// Whether every character of `s` in `[lo, hi)` lies in `klass`.
fn all_in_class(s: &str, n: usize, lo: usize, hi: usize, klass: CharClass) -> (r: bool)
    requires
        n == s@.len(),
        lo <= hi <= n,
    ensures
        r == (forall|j: int| lo <= j < hi ==> char_in_class(#[trigger] s@[j], klass)),
{
    let mut i: usize = lo;
    while i < hi
        invariant
            lo <= i <= hi,
            hi <= n,
            n == s@.len(),
            forall|j: int| lo <= j < i ==> char_in_class(#[trigger] s@[j], klass),
        decreases hi - i,
    {
        let c = s.get_char(i);
        if !check_char(c, klass) {
            proof {
                assert(!char_in_class(s@[i as int], klass));
            }
            return false;
        }
        i += 1;
    }
    true
}

/// In any decomposition of `s`, the `@` stands at the first `@` of `s`.
proof fn lemma_split_at_forces(s: Seq<char>, i: int, k: int, at: int)
    requires
        email_split_at(s, i, k),
        0 <= at < s.len(),
        s[at] == '@',
        forall|j: int| 0 <= j < at ==> s[j] != '@',
    ensures
        i == at,
{
    if i < at {
        assert(s[i] != '@');
        assert(false);
    }
    if i > at {
        assert(is_local_char(s[at]));
        assert(false);
    }
}

/// In any decomposition of `s`, the dot stands at the last dot after the `@`.
proof fn lemma_split_dot_forces(s: Seq<char>, i: int, k: int, dot: int)
    requires
        email_split_at(s, i, k),
        i < dot < s.len(),
        s[dot] == '.',
        forall|m: int| dot < m < s.len() ==> s[m] != '.',
    ensures
        k == dot,
{
    if k < dot {
        assert(is_alpha_char(s[dot]));
        assert(false);
    }
    if k > dot {
        assert(s[k] != '.');
        assert(false);
    }
}

/// Decides [`valid_email`]: scans for the first `@`, the last dot after it,
/// and the three character-class regions.
pub fn email_shape_ok(s: &str) -> (r: bool)
    ensures
        r == valid_email(s@),
{
    let n = s.unicode_len();
    let at = match find_first(s, n, '@') {
        Some(a) => a,
        None => {
            proof {
                assert forall|ii: int, kk: int| !email_split_at(s@, ii, kk) by {
                    if email_split_at(s@, ii, kk) {
                        assert(s@[ii] != '@');
                    }
                }
            }
            return false;
        },
    };
    if at == 0 {
        proof {
            assert forall|ii: int, kk: int| !email_split_at(s@, ii, kk) by {
                if email_split_at(s@, ii, kk) {
                    lemma_split_at_forces(s@, ii, kk, at as int);
                }
            }
        }
        return false;
    }
    if !all_in_class(s, n, 0, at, CharClass::LocalPart) {
        proof {
            assert forall|ii: int, kk: int| !email_split_at(s@, ii, kk) by {
                if email_split_at(s@, ii, kk) {
                    lemma_split_at_forces(s@, ii, kk, at as int);
                    assert(forall|j: int| 0 <= j < at ==> is_local_char(#[trigger] s@[j]));
                }
            }
        }
        return false;
    }
    let dot = match find_last_after(s, n, at, '.') {
        Some(d) => d,
        None => {
            proof {
                assert forall|ii: int, kk: int| !email_split_at(s@, ii, kk) by {
                    if email_split_at(s@, ii, kk) {
                        lemma_split_at_forces(s@, ii, kk, at as int);
                        assert(s@[kk] != '.');
                    }
                }
            }
            return false;
        },
    };
    if dot - at < 2 {
        proof {
            assert forall|ii: int, kk: int| !email_split_at(s@, ii, kk) by {
                if email_split_at(s@, ii, kk) {
                    lemma_split_at_forces(s@, ii, kk, at as int);
                    lemma_split_dot_forces(s@, ii, kk, dot as int);
                }
            }
        }
        return false;
    }
    if n - dot < 3 {
        proof {
            assert forall|ii: int, kk: int| !email_split_at(s@, ii, kk) by {
                if email_split_at(s@, ii, kk) {
                    lemma_split_at_forces(s@, ii, kk, at as int);
                    lemma_split_dot_forces(s@, ii, kk, dot as int);
                }
            }
        }
        return false;
    }
    if !all_in_class(s, n, at + 1, dot, CharClass::DomainPart) {
        proof {
            assert forall|ii: int, kk: int| !email_split_at(s@, ii, kk) by {
                if email_split_at(s@, ii, kk) {
                    lemma_split_at_forces(s@, ii, kk, at as int);
                    lemma_split_dot_forces(s@, ii, kk, dot as int);
                    assert(forall|j: int| at < j < dot ==> is_domain_char(#[trigger] s@[j]));
                }
            }
        }
        return false;
    }
    if !all_in_class(s, n, dot + 1, n, CharClass::TldPart) {
        proof {
            assert forall|ii: int, kk: int| !email_split_at(s@, ii, kk) by {
                if email_split_at(s@, ii, kk) {
                    lemma_split_at_forces(s@, ii, kk, at as int);
                    lemma_split_dot_forces(s@, ii, kk, dot as int);
                    assert(forall|j: int| dot < j < s@.len() ==> is_alpha_char(#[trigger] s@[j]));
                }
            }
        }
        return false;
    }
    proof {
        assert(email_split_at(s@, at as int, dot as int));
    }
    true
}

/// Validates a registration input: email shape and password length.
/// Succeeds exactly on the inputs [`valid_customer`] accepts; otherwise the
/// report lists one entry per broken rule, email field first.
pub fn validate_customer(customer: &Customer) -> (r: Result<(), Vec<FieldViolation>>)
    ensures
        r is Ok <==> valid_customer(customer@),
        r matches Err(v) ==> v@ == customer_report(customer@),
{
    let mut violations: Vec<FieldViolation> = Vec::new();
    if !email_shape_ok(customer.get_email()) {
        violations.push(FieldViolation { field: FieldId::Email, reason: ViolationReason::Malformed });
    }
    let pw_len = customer.get_password().unicode_len();
    if pw_len < REGISTER_PASSWORD_MIN {
        violations.push(
            FieldViolation { field: FieldId::Password, reason: ViolationReason::TooShort },
        );
    } else if pw_len > REGISTER_PASSWORD_MAX {
        violations.push(
            FieldViolation { field: FieldId::Password, reason: ViolationReason::TooLong },
        );
    }
    proof {
        assert(violations@ =~= customer_report(customer@));
    }
    if violations.is_empty() {
        Ok(())
    } else {
        Err(violations)
    }
}

/// Validates a login input: email length and shape, password length.
/// Succeeds exactly on the inputs [`valid_login_params`] accepts.
pub fn validate_login_params(params: &LoginParams) -> (r: Result<(), Vec<FieldViolation>>)
    ensures
        r is Ok <==> valid_login_params(params.email@, params.password@),
        r matches Err(v) ==> v@ == login_report(params.email@, params.password@),
{
    let mut violations: Vec<FieldViolation> = Vec::new();
    let email_len = params.email().unicode_len();
    if email_len < LOGIN_EMAIL_MIN {
        violations.push(FieldViolation { field: FieldId::Email, reason: ViolationReason::TooShort });
    } else if email_len > LOGIN_EMAIL_MAX {
        violations.push(FieldViolation { field: FieldId::Email, reason: ViolationReason::TooLong });
    }
    if !email_shape_ok(params.email()) {
        violations.push(FieldViolation { field: FieldId::Email, reason: ViolationReason::Malformed });
    }
    let pw_len = params.password().unicode_len();
    if pw_len < LOGIN_PASSWORD_MIN {
        violations.push(
            FieldViolation { field: FieldId::Password, reason: ViolationReason::TooShort },
        );
    }
    proof {
        assert(violations@ =~= login_report(params.email@, params.password@));
    }
    if violations.is_empty() {
        Ok(())
    } else {
        Err(violations)
    }
}

/// A registration password right at either configured bound is accepted; one
/// character fewer or more is rejected.
pub proof fn lemma_password_boundary(c: CustomerV)
    requires
        valid_email(c.email),
    ensures
        c.password.len() == REGISTER_PASSWORD_MIN ==> valid_customer(c),
        c.password.len() == REGISTER_PASSWORD_MAX ==> valid_customer(c),
        c.password.len() < REGISTER_PASSWORD_MIN ==> !valid_customer(c),
        c.password.len() > REGISTER_PASSWORD_MAX ==> !valid_customer(c),
{
}

/// A login password right at the configured bound is accepted; one character
/// fewer is rejected.
pub proof fn lemma_login_password_boundary(email: Seq<char>, password: Seq<char>)
    requires
        LOGIN_EMAIL_MIN <= email.len() <= LOGIN_EMAIL_MAX,
        valid_email(email),
    ensures
        password.len() == LOGIN_PASSWORD_MIN ==> valid_login_params(email, password),
        password.len() < LOGIN_PASSWORD_MIN ==> !valid_login_params(email, password),
{
}

} // verus!
