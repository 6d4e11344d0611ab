//! Deterministic text composition: a display name built from optional
//! profile fields with a username fallback, and a greeting assembled from
//! the name, a title, a hobby and an email, in a fixed order and
//! punctuation.

use vstd::prelude::*;

use crate::db::{clone_opt_string, User, UserMetadata, UserMetadataView, UserView};

verus! {

// ---------------------------------------------------------------------------
// Specification of the composition rules
// ---------------------------------------------------------------------------

/// The display name: "first last", a single present part, or the username
/// when both parts are absent.
pub open spec fn spec_construct_name(
    first: Option<Seq<char>>,
    last: Option<Seq<char>>,
    username: Seq<char>,
) -> Seq<char> {
    match (first, last) {
        (Some(f), Some(l)) => f + " "@ + l,
        (Some(f), None) => f,
        (None, Some(l)) => l,
        (None, None) => username,
    }
}

/// The value of the last entry named `name` in scan order, if any: on
/// duplicate property names the last occurrence wins, and it wins with its
/// own value even when that value is null.
pub open spec fn last_value_of(entries: Seq<UserMetadataView>, name: Seq<char>) -> Option<
    Option<Seq<char>>,
>
    decreases entries.len(),
{
    if entries.len() == 0 {
        None
    } else if entries.last().property == name {
        Some(entries.last().value)
    } else {
        last_value_of(entries.drop_last(), name)
    }
}

/// The value the composer uses for a named property: the last-scanned
/// value, or nothing when no entry carries the name.
pub open spec fn selected_value(entries: Seq<UserMetadataView>, name: Seq<char>) -> Option<
    Seq<char>,
> {
    match last_value_of(entries, name) {
        Some(v) => v,
        None => None,
    }
}

/// The first name of an aggregated user, if its profile carries one.
pub open spec fn profile_first_name(u: UserView) -> Option<Seq<char>> {
    match u.profile {
        Some(p) => p.first_name,
        None => None,
    }
}

/// The last name of an aggregated user, if its profile carries one.
pub open spec fn profile_last_name(u: UserView) -> Option<Seq<char>> {
    match u.profile {
        Some(p) => p.last_name,
        None => None,
    }
}

/// The email of an aggregated user, if its profile carries one.
pub open spec fn profile_email(u: UserView) -> Option<Seq<char>> {
    match u.profile {
        Some(p) => p.email,
        None => None,
    }
}

/// The greeting clause: the title, when present, stands between "Hello"
/// and the name.
pub open spec fn spec_greeting_clause(title: Option<Seq<char>>, name: Seq<char>) -> Seq<char> {
    match title {
        Some(t) => "Hello "@ + t + " "@ + name + ", welcome!"@,
        None => "Hello "@ + name + ", welcome!"@,
    }
}

/// The notification clause: present exactly when a hobby is, and naming the
/// email when the profile carries one.
pub open spec fn spec_notification_clause(
    hobby: Option<Seq<char>>,
    email: Option<Seq<char>>,
) -> Seq<char> {
    match hobby {
        Some(h) => " If we hear interesting news about "@ + h + ", we will let you know"@ + (
        match email {
            Some(e) => " at "@ + e,
            None => Seq::<char>::empty(),
        }) + "!"@,
        None => Seq::<char>::empty(),
    }
}

/// The whole greeting of an aggregated user: greeting clause, then
/// notification clause.
pub open spec fn spec_user_greeting(u: UserView) -> Seq<char> {
    let name = spec_construct_name(profile_first_name(u), profile_last_name(u), u.username);
    let title = selected_value(u.metadata, "title"@);
    let hobby = selected_value(u.metadata, "hobby"@);
    spec_greeting_clause(title, name) + spec_notification_clause(hobby, profile_email(u))
}

/// The composer cannot fail: every input combination, including one with
/// no profile and no metadata, yields a non-empty greeting.
pub proof fn lemma_greeting_never_empty(u: UserView)
    ensures
        spec_user_greeting(u).len() > 0,
{
    reveal_strlit("Hello ");
}

// ---------------------------------------------------------------------------
// Executable composition
// ---------------------------------------------------------------------------

/// Construct a display name from the optional name parts, falling back to
/// the username when both are absent.
pub fn construct_name(
    first_name: Option<String>,
    last_name: Option<String>,
    username: String,
) -> (r: String)
    ensures
        r@ == spec_construct_name(first_name.deep_view(), last_name.deep_view(), username@),
{
    match (first_name, last_name) {
        (Some(first), Some(last)) => {
            let mut s = first;
            s.append(" ");
            s.append(last.as_str());
            s
        },
        (Some(first), None) => first,
        (None, Some(last)) => last,
        (None, None) => username,
    }
}

/// Scan a metadata list once for a named property. The last entry carrying
/// the name wins; its value is returned as stored, which may itself be
/// null. Yields nothing when no entry carries the name.
pub fn lookup_property(metadata: &Vec<UserMetadata>, name: &str) -> (r: Option<Option<String>>)
    ensures
        r.deep_view() == last_value_of(metadata.deep_view(), name@),
{
    let key = String::from_str(name);
    let mut found: Option<Option<String>> = None;
    let mut i: usize = 0;
    while i < metadata.len()
        invariant
            i <= metadata.len(),
            key@ == name@,
            found.deep_view() == last_value_of(metadata.deep_view().subrange(0, i as int), name@),
        decreases metadata.len() - i,
    {
        let m = &metadata[i];
        if m.property == key {
            found = Some(clone_opt_string(&m.value));
        }
        proof {
            let sub = metadata.deep_view().subrange(0, i as int + 1);
            assert(sub.drop_last() =~= metadata.deep_view().subrange(0, i as int));
            assert(sub.last() == metadata.deep_view()[i as int]);
        }
        i = i + 1;
    }
    proof {
        assert(metadata.deep_view().subrange(0, metadata.len() as int) =~= metadata.deep_view());
    }
    found
}

/// Format the greeting of an aggregated user. Every input combination
/// yields a valid string: the username fallback guarantees a name.
pub fn format_user_greeting(user: &User) -> (r: String)
    ensures
        r@ == spec_user_greeting(user@),
{
    let (first_name, last_name, email) = match &user.profile {
        Some(p) => (
            clone_opt_string(&p.first_name),
            clone_opt_string(&p.last_name),
            clone_opt_string(&p.email),
        ),
        None => (None, None, None),
    };

    // One scan per property; on duplicates the last occurrence wins.
    let title = match lookup_property(&user.metadata, "title") {
        Some(v) => v,
        None => None,
    };
    let hobby = match lookup_property(&user.metadata, "hobby") {
        Some(v) => v,
        None => None,
    };

    let name = construct_name(first_name, last_name, user.username.clone());

    let mut greeting = match title {
        Some(t) => {
            let mut s = String::from_str("Hello ");
            s.append(t.as_str());
            s.append(" ");
            s.append(name.as_str());
            s.append(", welcome!");
            s
        },
        None => {
            let mut s = String::from_str("Hello ");
            s.append(name.as_str());
            s.append(", welcome!");
            s
        },
    };

    match hobby {
        Some(h) => {
            greeting.append(" If we hear interesting news about ");
            greeting.append(h.as_str());
            greeting.append(", we will let you know");
            match email {
                Some(e) => {
                    greeting.append(" at ");
                    greeting.append(e.as_str());
                },
                None => {},
            }
            greeting.append("!");
        },
        None => {},
    }
    proof {
        assert(greeting@ =~= spec_user_greeting(user@));
    }
    greeting
}

} // verus!
