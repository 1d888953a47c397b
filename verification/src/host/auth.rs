//! In which order the ways to authenticate are tried.

use vstd::prelude::*;

use crate::error::Error;
use crate::lookup::TextMap;
use crate::text::{chars_of, concat2, concat3, copy};

verus! {

/// The passphrases that were typed in so far, by the path of the key.
pub type PassphraseCache = TextMap<String>;

/// One way to authenticate.
#[derive(Debug, Clone, Copy, PartialEq, Eq, Structural)]
pub enum AuthStep {
    /// The key of this number, as a key without a passphrase.
    Key(usize),
    /// The key of this number, with its passphrase.
    KeyWithPassphrase(usize),
    /// A password.
    Password,
}

/// Every key is tried without a passphrase before any passphrase is asked for; a
/// password comes last, and not at all where only keys are allowed.
pub open spec fn auth_order(keys: nat, identities_only: bool) -> Seq<AuthStep> {
    Seq::new(keys, |i: int| AuthStep::Key(i as usize)) + Seq::new(
        keys,
        |i: int| AuthStep::KeyWithPassphrase(i as usize),
    ) + (if identities_only {
        Seq::empty()
    } else {
        seq![AuthStep::Password]
    })
}

/// Lists the ways to authenticate in the order in which they are tried.
pub fn authenticate(keys: usize, identities_only: bool) -> (r: Vec<AuthStep>)
    ensures
        r@ == auth_order(keys as nat, identities_only),
{
    let mut out: Vec<AuthStep> = Vec::new();
    let mut i: usize = 0;
    while i < keys
        invariant
            i <= keys,
            out@ == Seq::new(i as nat, |j: int| AuthStep::Key(j as usize)),
        decreases keys - i,
    {
        out.push(AuthStep::Key(i));
        i += 1;
        assert(out@ =~= Seq::new(i as nat, |j: int| AuthStep::Key(j as usize)));
    }
    let ghost plain = out@;
    i = 0;
    assert(out@ =~= plain + Seq::new(0, |j: int| AuthStep::KeyWithPassphrase(j as usize)));
    while i < keys
        invariant
            i <= keys,
            out@ == plain + Seq::new(i as nat, |j: int| AuthStep::KeyWithPassphrase(j as usize)),
        decreases keys - i,
    {
        out.push(AuthStep::KeyWithPassphrase(i));
        i += 1;
        assert(out@ =~= plain + Seq::new(
            i as nat,
            |j: int| AuthStep::KeyWithPassphrase(j as usize),
        ));
    }
    if !identities_only {
        out.push(AuthStep::Password);
    }
    assert(out@ =~= auth_order(keys as nat, identities_only));
    out
}

/// The question for a passphrase.
pub fn passphrase_prompt(path: &str) -> (r: String)
    ensures
        r@ == "Enter passphrase for "@ + path@ + ": "@,
{
    concat3("Enter passphrase for ", path, ": ")
}

/// The question for a password.
pub fn password_prompt(user: &str) -> (r: String)
    ensures
        r@ == user@ + "@<host> password: "@,
{
    concat2(user, "@<host> password: ")
}

/// The error when no way to authenticate is left.
pub fn exhausted(user: &str) -> (r: Error)
    ensures
        r@ == "All authentication methods exhausted for user '"@ + user@ + "'"@,
{
    Error { message: concat3("All authentication methods exhausted for user '", user, "'") }
}

/// The passphrase to open a key with: an empty one counts as none.
pub fn key_passphrase(passphrase: Option<&str>) -> (r: Option<String>)
    ensures
        crate::text::text_opt(r) == (match passphrase {
            Some(p) => if p@.len() > 0 {
                Some(p@)
            } else {
                None
            },
            None => None,
        }),
{
    match passphrase {
        Some(p) => if chars_of(p).len() > 0 {
            Some(copy(p))
        } else {
            None
        },
        None => None,
    }
}

// ---------------------------------------------------------------------------
// Laws
// ---------------------------------------------------------------------------

/// No question is asked before every key was tried without a passphrase, and no
/// password is asked for where only keys are allowed.
pub proof fn keys_come_before_questions(keys: nat, identities_only: bool, i: int, j: int)
    requires
        keys <= usize::MAX,
        0 <= i < auth_order(keys, identities_only).len(),
        0 <= j < auth_order(keys, identities_only).len(),
        auth_order(keys, identities_only)[i] is Key,
        !(auth_order(keys, identities_only)[j] is Key),
    ensures
        i < j,
        identities_only ==> !(auth_order(keys, identities_only)[j] is Password),
{
}

/// Every key is tried as it is and then with a passphrase, each in the given order; a
/// password is asked for last, and only where other ways than the keys are allowed.
pub proof fn every_key_is_tried_twice(keys: nat, identities_only: bool)
    ensures
        auth_order(keys, identities_only).len() == 2 * keys + (if identities_only {
            0int
        } else {
            1
        }),
        forall|i: int|
            0 <= i < keys ==> #[trigger] auth_order(keys, identities_only)[i] == AuthStep::Key(
                i as usize,
            ),
        forall|i: int|
            keys <= i < 2 * keys ==> #[trigger] auth_order(keys, identities_only)[i]
                == AuthStep::KeyWithPassphrase((i - keys) as usize),
        !identities_only ==> auth_order(keys, identities_only)[2 * keys as int]
            == AuthStep::Password,
{
}

} // verus!
