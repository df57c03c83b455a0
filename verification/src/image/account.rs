//! Users and groups of a sealed account database, and the identity that a
//! `User` string selects from it.

use vstd::prelude::*;

use crate::error::{invalid_run, run_fault, run_outcome, RuntimeError, RuntimeFault};
use crate::text::{
    all_digits, byte_count, byte_len, chars_between, chars_of, debug_spelling, debug_text,
    digits_value, has_char, is_all_digits, join, join3, parse_digits, position, same_text, string_of,
    texts,
};

verus! {

/// Most supplementary groups of one process.
pub const MAX_SUPPLEMENTARY_GROUPS: usize = 64;

/// Most bytes of an account name.
pub const MAX_ACCOUNT_NAME_BYTES: usize = 256;

/// The identity came from a number.
pub const NUMERIC_USER: u8 = 1;

/// The identity came from a name.
pub const NAMED_USER: u8 = 2;

#[derive(Debug, Clone)]
pub struct AccountUser {
    pub name: String,
    pub uid: u32,
    pub gid: u32,
}

#[derive(Debug, Clone)]
pub struct AccountGroup {
    pub name: String,
    pub gid: u32,
    pub members: Vec<String>,
}

/// The users and groups of one image. Where a name occurs twice, its first
/// record counts; a database that its own format accepts lists each name once.
#[derive(Debug, Clone)]
pub struct AccountDatabase {
    pub users: Vec<AccountUser>,
    pub groups: Vec<AccountGroup>,
}

/// A process identity in numbers. The supplementary groups are strictly
/// increasing and never repeat the primary group.
#[derive(Debug, Clone)]
pub struct UserResolution {
    pub kind: u8,
    pub uid: u32,
    pub gid: u32,
    pub supplementary_gids: Vec<u32>,
}

/// What a `User` string selects: numbers, and a set of further groups.
pub struct Identity {
    pub kind: u8,
    pub uid: u32,
    pub gid: u32,
    pub supplementary: Set<u32>,
}

pub open spec fn user_names(users: Seq<AccountUser>) -> Seq<Seq<char>> {
    Seq::new(users.len(), |i: int| users[i].name@)
}

pub open spec fn group_names(groups: Seq<AccountGroup>) -> Seq<Seq<char>> {
    Seq::new(groups.len(), |i: int| groups[i].name@)
}

pub open spec fn user_ids(users: Seq<AccountUser>) -> Seq<u32> {
    Seq::new(users.len(), |i: int| users[i].uid)
}

pub open spec fn user_refused(reason: Seq<char>) -> RuntimeFault {
    invalid_run("image.user"@, reason)
}

/// The part before the first colon.
pub open spec fn user_part(original: Seq<char>) -> Seq<char> {
    match original.index_of_first(':') {
        Some(i) => original.take(i),
        None => original,
    }
}

/// The part after the first colon, when there is one.
pub open spec fn group_part(original: Seq<char>) -> Option<Seq<char>> {
    match original.index_of_first(':') {
        Some(i) => Some(original.skip(i + 1)),
        None => None,
    }
}

/// A digit run is an identifier that must fit; other text is no identifier.
pub open spec fn optional_id(value: Seq<char>, field: Seq<char>) -> Result<
    Option<u32>,
    RuntimeFault,
> {
    if !all_digits(value) {
        Ok(None)
    } else if value.len() == 0 {
        Err(user_refused(field + " is empty"@))
    } else if digits_value(value) > u32::MAX {
        Err(user_refused("numeric "@ + field + " does not fit u32"@))
    } else {
        Ok(Some(digits_value(value) as u32))
    }
}

pub open spec fn bad_name_char(c: char) -> bool {
    c <= ' ' || c == ':' || c == ',' || c == '\x7f'
}

pub open spec fn name_fault(value: Seq<char>, field: Seq<char>) -> Option<RuntimeFault> {
    if value.len() == 0 || byte_count(value) > MAX_ACCOUNT_NAME_BYTES || exists|i: int|
        0 <= i < value.len() && bad_name_char(#[trigger] value[i]) {
        Some(user_refused(field + " name has invalid bytes"@))
    } else {
        None
    }
}

/// Whether two users share the number.
pub open spec fn shared_uid(users: Seq<AccountUser>, uid: u32) -> bool {
    exists|i: int, j: int|
        0 <= i < j < users.len() && (#[trigger] users[i]).uid == uid && (
        #[trigger] users[j]).uid == uid
}

/// Who the user part selects: number, primary group, name and kind.
pub open spec fn selected_user(users: Seq<AccountUser>, part: Seq<char>) -> Result<
    (u32, u32, Option<Seq<char>>, u8),
    RuntimeFault,
> {
    match optional_id(part, "user"@) {
        Err(fault) => Err(fault),
        Ok(Some(uid)) => if shared_uid(users, uid) {
            Err(
                user_refused(
                    "account database has multiple entries matching "@ + "numeric user ID"@,
                ),
            )
        } else {
            match user_ids(users).index_of_first(uid) {
                Some(i) => Ok((uid, users[i].gid, Some(users[i].name@), NUMERIC_USER)),
                None => Ok((uid, 0, None, NUMERIC_USER)),
            }
        },
        Ok(None) => match name_fault(part, "user"@) {
            Some(fault) => Err(fault),
            None => match user_names(users).index_of_first(part) {
                Some(i) => Ok(
                    (users[i].uid, users[i].gid, Some(users[i].name@), NAMED_USER),
                ),
                None => Err(
                    user_refused("named user "@ + debug_spelling(part) + " was not found"@),
                ),
            },
        },
    }
}

/// The primary group that the group part selects.
pub open spec fn selected_group(
    groups: Seq<AccountGroup>,
    part: Option<Seq<char>>,
    default_gid: u32,
) -> Result<u32, RuntimeFault> {
    match part {
        None => Ok(default_gid),
        Some(part) => match optional_id(part, "group"@) {
            Err(fault) => Err(fault),
            Ok(Some(gid)) => Ok(gid),
            Ok(None) => match name_fault(part, "group"@) {
                Some(fault) => Err(fault),
                None => match group_names(groups).index_of_first(part) {
                    Some(i) => Ok(groups[i].gid),
                    None => Err(
                        user_refused("named group "@ + debug_spelling(part) + " was not found"@),
                    ),
                },
            },
        },
    }
}

/// The groups other than `gid` that list the user as a member.
pub open spec fn memberships(groups: Seq<AccountGroup>, name: Seq<char>, gid: u32) -> Set<u32>
    decreases groups.len(),
{
    if groups.len() == 0 {
        Set::empty()
    } else {
        let rest = memberships(groups.drop_last(), name, gid);
        let group = groups.last();
        if group.gid != gid && texts(group.members@).contains(name) {
            rest.insert(group.gid)
        } else {
            rest
        }
    }
}

/// The supplementary groups: memberships apply only when the `User` string
/// names no group and the user is known.
pub open spec fn supplementary_groups(
    groups: Seq<AccountGroup>,
    part: Option<Seq<char>>,
    name: Option<Seq<char>>,
    gid: u32,
) -> Set<u32> {
    match (part, name) {
        (None, Some(name)) => memberships(groups, name, gid),
        _ => Set::empty(),
    }
}

/// The identity that a `User` string of at most `max_bytes` bytes selects, or
/// why it selects none.
pub open spec fn identity_outcome(
    database: AccountDatabase,
    original: Seq<char>,
    max_bytes: usize,
) -> Result<Identity, RuntimeFault> {
    if original.len() == 0 || byte_count(original) > max_bytes || original.contains('\0')
        || original.contains('\n') || original.contains('\r') {
        Err(user_refused("User is empty, oversized, or contains a forbidden byte"@))
    } else if user_part(original).len() == 0 || (group_part(original) matches Some(group) && (
    group.len() == 0 || group.contains(':'))) {
        Err(
            user_refused(
                "User must be user-or-uid with at most one nonempty group suffix"@,
            ),
        )
    } else {
        match selected_user(database.users@, user_part(original)) {
            Err(fault) => Err(fault),
            Ok((uid, default_gid, name, kind)) => match selected_group(
                database.groups@,
                group_part(original),
                default_gid,
            ) {
                Err(fault) => Err(fault),
                Ok(gid) => {
                    let supplementary = supplementary_groups(
                        database.groups@,
                        group_part(original),
                        name,
                        gid,
                    );
                    if supplementary.len() > MAX_SUPPLEMENTARY_GROUPS {
                        Err(user_refused("resolved supplementary group count exceeds 64"@))
                    } else {
                        Ok(Identity { kind, uid, gid, supplementary })
                    }
                },
            },
        }
    }
}

pub open spec fn strictly_increasing(values: Seq<u32>) -> bool {
    forall|i: int, j: int| 0 <= i < j < values.len() ==> values[i] < values[j]
}

/// The list holds exactly the members of the set, in strictly increasing
/// order.
pub open spec fn lists(values: Seq<u32>, members: Set<u32>) -> bool {
    strictly_increasing(values) && values.to_set() == members
}

/// Whether a resolution is the given identity.
pub open spec fn is_identity(user: UserResolution, identity: Identity) -> bool {
    &&& user.kind == identity.kind
    &&& user.uid == identity.uid
    &&& user.gid == identity.gid
    &&& lists(user.supplementary_gids@, identity.supplementary)
}

/// Resolves a `User` string of at most `max_user_bytes` bytes.
pub fn resolve_user(
    database: &AccountDatabase,
    original: &str,
    max_user_bytes: usize,
) -> (resolved: Result<UserResolution, RuntimeError>)
    ensures
        match resolved {
            Ok(user) => identity_outcome(*database, original@, max_user_bytes) matches Ok(identity)
                && is_identity(user, identity),
            Err(error) => identity_outcome(*database, original@, max_user_bytes) == Err::<
                Identity,
                _,
            >(error@),
        },
{
    if original.is_empty() || byte_len(original) > max_user_bytes || has_char(original, '\0')
        || has_char(original, '\n') || has_char(original, '\r') {
        return Err(
            RuntimeError::invalid(
                "image.user",
                "User is empty, oversized, or contains a forbidden byte",
            ),
        );
    }
    let chars = chars_of(original);
    let colon = position(&chars, ':');
    let (user, group): (Vec<char>, Option<Vec<char>>) = match colon {
        Some(at) => {
            assert(chars@.subrange(0, at as int) =~= chars@.take(at as int));
            assert(chars@.subrange(at + 1, chars@.len() as int) =~= chars@.skip(at + 1));
            (chars_between(&chars, 0, at), Some(chars_between(&chars, at + 1, chars.len())))
        },
        None => {
            assert(chars@.subrange(0, chars@.len() as int) =~= chars@);
            (chars_between(&chars, 0, chars.len()), None)
        },
    };
    let malformed = user.len() == 0 || match &group {
        Some(group) => group.len() == 0 || position(group, ':').is_some(),
        None => false,
    };
    if malformed {
        return Err(
            RuntimeError::invalid(
                "image.user",
                "User must be user-or-uid with at most one nonempty group suffix",
            ),
        );
    }
    let (uid, default_gid, name, kind): (u32, u32, Option<String>, u8) = match select_user(
        &database.users,
        &user,
    ) {
        Ok(selected) => selected,
        Err(error) => {
            return Err(error);
        },
    };
    let gid: u32 = match select_group(&database.groups, &group, default_gid) {
        Ok(gid) => gid,
        Err(error) => {
            return Err(error);
        },
    };
    let supplementary_gids: Vec<u32> = match (&group, &name) {
        (None, Some(name)) => list_memberships(&database.groups, name, gid),
        _ => {
            let none: Vec<u32> = Vec::new();
            assert(none@.to_set() =~= Set::<u32>::empty());
            none
        },
    };
    proof {
        lemma_lists_len(
            supplementary_gids@,
            supplementary_groups(
                database.groups@,
                group_part(original@),
                crate::text::optional_text(name),
                gid,
            ),
        );
    }
    if supplementary_gids.len() > MAX_SUPPLEMENTARY_GROUPS {
        return Err(
            RuntimeError::invalid("image.user", "resolved supplementary group count exceeds 64"),
        );
    }
    Ok(UserResolution { kind, uid, gid, supplementary_gids })
}

/// Selects the user that a number or a name stands for.
fn select_user(users: &Vec<AccountUser>, part: &[char]) -> (selected: Result<
    (u32, u32, Option<String>, u8),
    RuntimeError,
>)
    ensures
        match selected {
            Ok(found) => selected_user(users@, part@) == Ok::<_, RuntimeFault>(
                (found.0, found.1, crate::text::optional_text(found.2), found.3),
            ),
            Err(error) => selected_user(users@, part@) == Err::<
                (u32, u32, Option<Seq<char>>, u8),
                _,
            >(error@),
        },
{
    match parse_optional_id(part, "user") {
        Err(error) => Err(error),
        Ok(Some(uid)) => match find_unique_user(users, uid, "numeric user ID") {
            Err(error) => Err(error),
            Ok(Some(at)) => Ok((uid, users[at].gid, Some(users[at].name.clone()), NUMERIC_USER)),
            Ok(None) => Ok((uid, 0, None, NUMERIC_USER)),
        },
        Ok(None) => {
            let name = string_of(part);
            match validate_account_name(&name, "user") {
                Err(error) => Err(error),
                Ok(()) => match user_named(users, &name) {
                    Some(at) => Ok(
                        (users[at].uid, users[at].gid, Some(users[at].name.clone()), NAMED_USER),
                    ),
                    None => Err(
                        RuntimeError::invalid(
                            "image.user",
                            &join3("named user ", &debug_text(&name), " was not found"),
                        ),
                    ),
                },
            }
        },
    }
}

/// Selects the primary group that a number or a name stands for.
fn select_group(groups: &Vec<AccountGroup>, part: &Option<Vec<char>>, default_gid: u32) -> (gid:
    Result<u32, RuntimeError>)
    ensures
        run_outcome(gid) == selected_group(
            groups@,
            match *part {
                Some(part) => Some(part@),
                None => None,
            },
            default_gid,
        ),
{
    match part {
        None => Ok(default_gid),
        Some(part) => match parse_optional_id(part, "group") {
            Err(error) => Err(error),
            Ok(Some(gid)) => Ok(gid),
            Ok(None) => {
                let name = string_of(part);
                match validate_account_name(&name, "group") {
                    Err(error) => Err(error),
                    Ok(()) => match group_named(groups, &name) {
                        Some(at) => Ok(groups[at].gid),
                        None => Err(
                            RuntimeError::invalid(
                                "image.user",
                                &join3("named group ", &debug_text(&name), " was not found"),
                            ),
                        ),
                    },
                }
            },
        },
    }
}

/// The only user with the number, refused when there are several.
pub fn find_unique_user(users: &Vec<AccountUser>, uid: u32, match_kind: &str) -> (found: Result<
    Option<usize>,
    RuntimeError,
>)
    ensures
        match found {
            Ok(Some(at)) => !shared_uid(users@, uid) && at < users@.len() && user_ids(
                users@,
            ).index_of_first(uid) == Some(at as int),
            Ok(None) => !shared_uid(users@, uid) && user_ids(users@).index_of_first(uid) is None,
            Err(error) => shared_uid(users@, uid) && error@ == user_refused(
                "account database has multiple entries matching "@ + match_kind@,
            ),
        },
{
    let ghost ids = user_ids(users@);
    let mut found: Option<usize> = None;
    let mut i: usize = 0;
    while i < users.len()
        invariant
            i <= users@.len(),
            ids == user_ids(users@),
            match found {
                Some(at) => at < i && users@[at as int].uid == uid && forall|j: int|
                    0 <= j < i && j != at ==> (#[trigger] users@[j]).uid != uid,
                None => forall|j: int| 0 <= j < i ==> (#[trigger] users@[j]).uid != uid,
            },
        decreases users@.len() - i,
    {
        if users[i].uid == uid {
            if let Some(at) = found {
                assert(users@[at as int].uid == uid && users@[i as int].uid == uid);
                return Err(
                    RuntimeError::invalid(
                        "image.user",
                        &join("account database has multiple entries matching ", match_kind),
                    ),
                );
            }
            found = Some(i);
        }
        i += 1;
    }
    proof {
        ids.index_of_first_ensures(uid);
        match found {
            Some(at) => {
                assert(ids[at as int] == uid);
                assert(ids.contains(uid));
            },
            None => {},
        }
    }
    Ok(found)
}

fn user_named(users: &Vec<AccountUser>, name: &str) -> (found: Option<usize>)
    ensures
        match found {
            Some(at) => at < users@.len() && user_names(users@).index_of_first(name@) == Some(
                at as int,
            ),
            None => user_names(users@).index_of_first(name@) is None,
        },
{
    let ghost names = user_names(users@);
    proof {
        names.index_of_first_ensures(name@);
    }
    let mut i: usize = 0;
    while i < users.len()
        invariant
            i <= users@.len(),
            names == user_names(users@),
            forall|j: int| 0 <= j < i ==> #[trigger] names[j] != name@,
        decreases users@.len() - i,
    {
        if same_text(&users[i].name, name) {
            proof {
                names.index_of_first_ensures(name@);
                assert(names[i as int] == name@);
            }
            return Some(i);
        }
        i += 1;
    }
    None
}

fn group_named(groups: &Vec<AccountGroup>, name: &str) -> (found: Option<usize>)
    ensures
        match found {
            Some(at) => at < groups@.len() && group_names(groups@).index_of_first(name@) == Some(
                at as int,
            ),
            None => group_names(groups@).index_of_first(name@) is None,
        },
{
    let ghost names = group_names(groups@);
    proof {
        names.index_of_first_ensures(name@);
    }
    let mut i: usize = 0;
    while i < groups.len()
        invariant
            i <= groups@.len(),
            names == group_names(groups@),
            forall|j: int| 0 <= j < i ==> #[trigger] names[j] != name@,
        decreases groups@.len() - i,
    {
        if same_text(&groups[i].name, name) {
            proof {
                names.index_of_first_ensures(name@);
                assert(names[i as int] == name@);
            }
            return Some(i);
        }
        i += 1;
    }
    None
}

/// Whether the list holds the text.
pub fn lists_text(items: &Vec<String>, text: &str) -> (found: bool)
    ensures
        found == texts(items@).contains(text@),
{
    let ghost all = texts(items@);
    let mut i: usize = 0;
    while i < items.len()
        invariant
            i <= items@.len(),
            all == texts(items@),
            forall|j: int| 0 <= j < i ==> #[trigger] all[j] != text@,
        decreases items@.len() - i,
    {
        if same_text(&items[i], text) {
            assert(all[i as int] == text@);
            return true;
        }
        i += 1;
    }
    false
}

/// The memberships of a user, in strictly increasing order.
fn list_memberships(groups: &Vec<AccountGroup>, name: &str, gid: u32) -> (gids: Vec<u32>)
    ensures
        lists(gids@, memberships(groups@, name@, gid)),
{
    let mut gids: Vec<u32> = Vec::new();
    assert(gids@.to_set() =~= Set::<u32>::empty());
    let mut i: usize = 0;
    assert(groups@.take(0) =~= Seq::<AccountGroup>::empty());
    while i < groups.len()
        invariant
            i <= groups@.len(),
            lists(gids@, memberships(groups@.take(i as int), name@, gid)),
        decreases groups@.len() - i,
    {
        let ghost next = groups@.take(i + 1);
        assert(next.drop_last() =~= groups@.take(i as int));
        assert(next.last() == groups@[i as int]);
        if groups[i].gid != gid && lists_text(&groups[i].members, name) {
            insert_sorted(&mut gids, groups[i].gid);
        }
        i += 1;
    }
    assert(groups@.take(i as int) =~= groups@);
    gids
}

/// Adds a value to a strictly increasing list unless it is there.
fn insert_sorted(values: &mut Vec<u32>, value: u32)
    requires
        strictly_increasing(old(values)@),
    ensures
        lists(final(values)@, old(values)@.to_set().insert(value)),
{
    let ghost before = values@;
    let mut at: usize = 0;
    while at < values.len() && values[at] < value
        invariant
            at <= values@.len(),
            values@ == before,
            forall|j: int| 0 <= j < at ==> #[trigger] values@[j] < value,
        decreases values@.len() - at,
    {
        at += 1;
    }
    if at < values.len() && values[at] == value {
        assert(before[at as int] == value);
        assert(before.to_set().insert(value) =~= before.to_set());
        return ;
    }
    values.insert(at, value);
    proof {
        let after = values@;
        assert(after =~= before.insert(at as int, value));
        assert forall|i: int, j: int| 0 <= i < j < after.len() implies after[i] < after[j] by {
            if i < at && j == at {
            } else if i < at && j > at {
                assert(after[j] == before[j - 1]);
            } else if i == at {
                assert(after[j] == before[j - 1]);
                assert(before[at as int] <= before[j - 1]);
            } else if i > at {
                assert(after[i] == before[i - 1] && after[j] == before[j - 1]);
            }
        }
        assert forall|v: u32| after.to_set().contains(v) == before.to_set().insert(
            value,
        ).contains(v) by {
            if before.contains(v) {
                let k = choose|k: int| 0 <= k < before.len() && before[k] == v;
                if k < at {
                    assert(after[k] == v);
                } else {
                    assert(after[k + 1] == v);
                }
            }
            if v == value {
                assert(after[at as int] == v);
            }
            if after.contains(v) {
                let k = choose|k: int| 0 <= k < after.len() && after[k] == v;
                if k < at {
                    assert(before[k] == v);
                } else if k > at {
                    assert(before[k - 1] == v);
                }
            }
        }
        assert(after.to_set() =~= before.to_set().insert(value));
    }
}

/// A listing is as long as the set is large.
proof fn lemma_lists_len(values: Seq<u32>, members: Set<u32>)
    requires
        lists(values, members),
    ensures
        values.len() == members.len(),
{
    assert(values.no_duplicates());
    values.unique_seq_to_set();
}

pub fn parse_optional_id(value: &[char], field: &str) -> (id: Result<Option<u32>, RuntimeError>)
    ensures
        run_outcome(id) == optional_id(value@, field@),
{
    if !is_all_digits(value) {
        return Ok(None);
    }
    if value.len() == 0 {
        return Err(RuntimeError::invalid("image.user", &join(field, " is empty")));
    }
    match parse_digits(value, u32::MAX) {
        Some(id) => Ok(Some(id)),
        None => Err(
            RuntimeError::invalid(
                "image.user",
                &join3("numeric ", field, " does not fit u32"),
            ),
        ),
    }
}

pub fn validate_account_name(value: &str, field: &str) -> (valid: Result<(), RuntimeError>)
    ensures
        run_fault(valid) == name_fault(value@, field@),
{
    let chars = chars_of(value);
    let mut bad = value.is_empty() || byte_len(value) > MAX_ACCOUNT_NAME_BYTES;
    let mut i: usize = 0;
    while !bad && i < chars.len()
        invariant
            i <= chars@.len(),
            chars@ == value@,
            !bad ==> value@.len() > 0 && byte_count(value@) <= MAX_ACCOUNT_NAME_BYTES && forall|
                j: int,
            |
                0 <= j < i ==> !bad_name_char(#[trigger] chars@[j]),
            bad ==> name_fault(value@, field@) is Some,
        decreases chars@.len() - i + if bad { 0int } else { 1int },
    {
        let c: char = chars[i];
        if c <= ' ' || c == ':' || c == ',' || c == '\x7f' {
            assert(bad_name_char(value@[i as int]));
            bad = true;
        }
        i += 1;
    }
    if bad {
        return Err(RuntimeError::invalid("image.user", &join(field, " name has invalid bytes")));
    }
    Ok(())
}

/// Two listings of one set are the same list: the supplementary groups of an
/// identity do not depend on how they were collected.
pub proof fn law_listing_is_unique(left: Seq<u32>, right: Seq<u32>, members: Set<u32>)
    requires
        lists(left, members),
        lists(right, members),
    ensures
        left == right,
    decreases left.len(),
{
    lemma_lists_len(left, members);
    lemma_lists_len(right, members);
    if left.len() > 0 {
        let a = left.last();
        let b = right.last();
        assert(left.to_set().contains(a));
        assert(right.to_set().contains(b));
        assert(right.contains(a));
        assert(left.contains(b));
        let i = choose|i: int| 0 <= i < right.len() && right[i] == a;
        let j = choose|j: int| 0 <= j < left.len() && left[j] == b;
        assert(a <= b && b <= a);
        let shorter_left = left.drop_last();
        let shorter_right = right.drop_last();
        let rest = members.remove(a);
        lemma_drop_last_lists(left, members);
        lemma_drop_last_lists(right, members);
        law_listing_is_unique(shorter_left, shorter_right, rest);
        assert(left =~= shorter_left.push(a));
        assert(right =~= shorter_right.push(b));
    } else {
        assert(left =~= right);
    }
}

proof fn lemma_drop_last_lists(values: Seq<u32>, members: Set<u32>)
    requires
        lists(values, members),
        values.len() > 0,
    ensures
        lists(values.drop_last(), members.remove(values.last())),
{
    let shorter = values.drop_last();
    assert forall|v: u32| shorter.to_set().contains(v) == members.remove(values.last()).contains(
        v,
    ) by {
        if shorter.contains(v) {
            let k = choose|k: int| 0 <= k < shorter.len() && shorter[k] == v;
            assert(values[k] == v);
            assert(values.contains(v));
            assert(values.to_set().contains(v));
        }
        if members.contains(v) && v != values.last() {
            assert(values.to_set().contains(v));
            let k = choose|k: int| 0 <= k < values.len() && values[k] == v;
            assert(shorter[k] == v);
            assert(shorter.contains(v));
        }
    }
    assert(shorter.to_set() =~= members.remove(values.last()));
}

/// A resolved identity never repeats its primary group, and holds no more
/// supplementary groups than a process may have.
pub proof fn law_identity_groups_are_bounded(
    database: AccountDatabase,
    original: Seq<char>,
    max_bytes: usize,
    user: UserResolution,
)
    requires
        identity_outcome(database, original, max_bytes) matches Ok(identity) && is_identity(
            user,
            identity,
        ),
    ensures
        !user.supplementary_gids@.contains(user.gid),
        user.supplementary_gids@.len() <= MAX_SUPPLEMENTARY_GROUPS,
{
    let identity = identity_outcome(database, original, max_bytes)->Ok_0;
    lemma_lists_len(user.supplementary_gids@, identity.supplementary);
    match selected_user(database.users@, user_part(original)) {
        Ok((uid, default_gid, name, kind)) => {
            if let Some(name) = name {
                lemma_memberships_exclude(database.groups@, name, identity.gid);
            }
            if user.supplementary_gids@.contains(user.gid) {
                assert(user.supplementary_gids@.to_set().contains(user.gid));
            }
        },
        Err(_) => {},
    }
}

proof fn lemma_memberships_exclude(groups: Seq<AccountGroup>, name: Seq<char>, gid: u32)
    ensures
        !memberships(groups, name, gid).contains(gid),
    decreases groups.len(),
{
    if groups.len() > 0 {
        lemma_memberships_exclude(groups.drop_last(), name, gid);
    }
}

/// Whether a group of that number lists the name.
pub open spec fn lists_member(groups: Seq<AccountGroup>, name: Seq<char>, gid: u32) -> bool {
    exists|i: int|
        0 <= i < groups.len() && (#[trigger] groups[i]).gid == gid && texts(
            groups[i].members@,
        ).contains(name)
}

/// Whether an identity is that of one user of the database, who is also in
/// every other group that lists them, and in no further one.
pub open spec fn is_at_home(identity: Identity, database: AccountDatabase, i: int) -> bool {
    &&& 0 <= i < database.users@.len()
    &&& identity.uid == database.users@[i].uid
    &&& identity.gid == database.users@[i].gid
    &&& forall|gid: u32| #[trigger]
        identity.supplementary.contains(gid) <==> gid != identity.gid && lists_member(
            database.groups@,
            database.users@[i].name@,
            gid,
        )
}

proof fn lemma_memberships(groups: Seq<AccountGroup>, name: Seq<char>, gid: u32, other: u32)
    ensures
        memberships(groups, name, gid).contains(other) <==> other != gid && lists_member(
            groups,
            name,
            other,
        ),
    decreases groups.len(),
{
    if groups.len() > 0 {
        let front = groups.drop_last();
        lemma_memberships(front, name, gid, other);
        if lists_member(front, name, other) {
            let i = choose|i: int|
                0 <= i < front.len() && (#[trigger] front[i]).gid == other && texts(
                    front[i].members@,
                ).contains(name);
            assert(groups[i] == front[i]);
        }
        if lists_member(groups, name, other) {
            let i = choose|i: int|
                0 <= i < groups.len() && (#[trigger] groups[i]).gid == other && texts(
                    groups[i].members@,
                ).contains(name);
            if i < front.len() {
                assert(front[i] == groups[i]);
            }
        }
        if groups.last().gid == other && texts(groups.last().members@).contains(name) {
            assert(groups[groups.len() - 1] == groups.last());
        }
    }
}

/// A user given by name is the one of that name in the database; a user given by
/// number is that number, with the groups of whoever has it in the database, and
/// with group 0 alone where nobody has. No identity has more than 64 groups.
pub proof fn law_user_is_found_in_the_database(
    database: AccountDatabase,
    user: Seq<char>,
    max_bytes: usize,
    identity: Identity,
)
    requires
        !user.contains(':'),
        identity_outcome(database, user, max_bytes) == Ok::<_, RuntimeFault>(identity),
    ensures
        0 < user.len() && byte_count(user) <= max_bytes,
        identity.supplementary.len() <= 64,
        !all_digits(user) ==> {
            &&& identity.kind == 2
            &&& exists|i: int|
                is_at_home(identity, database, i) && (#[trigger] database.users@[i]).name@ == user
        },
        all_digits(user) ==> {
            &&& identity.kind == 1
            &&& identity.uid == digits_value(user)
            &&& forall|i: int|
                0 <= i < database.users@.len() && (#[trigger] database.users@[i]).uid
                    == identity.uid ==> is_at_home(identity, database, i)
            &&& (forall|i: int|
                0 <= i < database.users@.len() ==> (#[trigger] database.users@[i]).uid
                    != identity.uid) ==> identity.gid == 0 && identity.supplementary
                =~= Set::<u32>::empty()
        },
{
    let users = database.users@;
    user.index_of_first_ensures(':');
    assert(user_part(user) == user);
    user_names(users).index_of_first_ensures(user);
    assert forall|name: Seq<char>, gid: u32, other: u32| #[trigger]
        memberships(database.groups@, name, gid).contains(other) <==> other != gid && lists_member(
        database.groups@,
        name,
        other,
    ) by {
        lemma_memberships(database.groups@, name, gid, other);
    }
    if all_digits(user) {
        let uid = digits_value(user) as u32;
        let ids = user_ids(users);
        ids.index_of_first_ensures(uid);
        assert forall|i: int| 0 <= i < users.len() && (#[trigger] users[i]).uid == uid implies
            is_at_home(identity, database, i) by {
            assert(ids[i] == uid);
            let first = ids.index_of_first(uid)->Some_0;
            assert(ids[first] == uid);
            assert(users[first].uid == uid);
            if first < i {
                assert(shared_uid(users, uid));
            }
        }
        if forall|i: int| 0 <= i < users.len() ==> (#[trigger] users[i]).uid != uid {
            if ids.contains(uid) {
                let i = ids.index_of(uid);
                assert(users[i].uid == uid);
            }
        }
    } else {
        let names = user_names(users);
        let i = names.index_of_first(user)->Some_0;
        assert(names[i] == user);
        assert(is_at_home(identity, database, i) && users[i].name@ == user);
    }
}

/// A group behind a colon is the primary one, by its number or as the database
/// numbers it, and leaves no further groups; the user before it stays who they
/// were.
pub proof fn law_named_group_stands_alone(
    database: AccountDatabase,
    user: Seq<char>,
    group: Seq<char>,
    max_bytes: usize,
    identity: Identity,
)
    requires
        !user.contains(':'),
        identity_outcome(database, user + seq![':'] + group, max_bytes) == Ok::<_, RuntimeFault>(
            identity,
        ),
    ensures
        0 < group.len() && !group.contains(':'),
        identity.supplementary =~= Set::<u32>::empty(),
        all_digits(group) ==> identity.gid == digits_value(group),
        !all_digits(group) ==> exists|i: int|
            0 <= i < database.groups@.len() && (#[trigger] database.groups@[i]).name@ == group
                && database.groups@[i].gid == identity.gid,
        all_digits(user) ==> identity.kind == 1 && identity.uid == digits_value(user),
        !all_digits(user) ==> identity.kind == 2 && exists|i: int|
            0 <= i < database.users@.len() && (#[trigger] database.users@[i]).name@ == user
                && database.users@[i].uid == identity.uid,
{
    let whole = user + seq![':'] + group;
    let users = database.users@;
    let groups = database.groups@;
    whole.index_of_first_ensures(':');
    assert(whole[user.len() as int] == ':');
    assert forall|i: int| 0 <= i < user.len() implies whole[i] != ':' by {
        assert(user[i] == whole[i]);
        assert(user.contains(user[i]));
    }
    assert(whole.take(user.len() as int) =~= user);
    assert(whole.skip((user.len() + 1) as int) =~= group);
    assert(user_part(whole) == user);
    assert(group_part(whole) == Some(group));
    if !all_digits(group) {
        group_names(groups).index_of_first_ensures(group);
        let i = group_names(groups).index_of_first(group)->Some_0;
        assert(group_names(groups)[i] == group);
        assert(groups[i].name@ == group);
    }
    if !all_digits(user) {
        user_names(users).index_of_first_ensures(user);
        let i = user_names(users).index_of_first(user)->Some_0;
        assert(user_names(users)[i] == user);
        assert(users[i].name@ == user);
    }
}

/// A user or a group that is neither a number nor in the database, a number that
/// two users share, and a `User` with a line break, a zero byte or two colons
/// select nobody.
pub proof fn law_unknown_users_are_refused(
    database: AccountDatabase,
    user: Seq<char>,
    max_bytes: usize,
)
    ensures
        user.len() == 0 || byte_count(user) > max_bytes || user.contains('\0') || user.contains(
            '\n',
        ) || user.contains('\r') ==> identity_outcome(database, user, max_bytes) is Err,
        !user.contains(':') && !all_digits(user) && (forall|i: int|
            0 <= i < database.users@.len() ==> (#[trigger] database.users@[i]).name@ != user)
            ==> identity_outcome(database, user, max_bytes) is Err,
        !user.contains(':') && all_digits(user) && digits_value(user) > 0xffff_ffff
            ==> identity_outcome(database, user, max_bytes) is Err,
        !user.contains(':') && all_digits(user) && (exists|i: int, j: int|
            0 <= i < j < database.users@.len() && (#[trigger] database.users@[i]).uid
                == digits_value(user) && (#[trigger] database.users@[j]).uid == digits_value(user))
            ==> identity_outcome(database, user, max_bytes) is Err,
{
    let users = database.users@;
    user.index_of_first_ensures(':');
    user_names(users).index_of_first_ensures(user);
    if user_names(users).contains(user) {
        let i = user_names(users).index_of(user);
        assert(user_names(users)[i] == user);
        assert(users[i].name@ == user);
    }
}

/// A number is one of decimal digits that fits, and a name is neither empty nor
/// longer than 256 bytes nor made of separators or control characters.
pub proof fn law_account_words_are_plain(
    digits: &[char],
    name: &str,
    field: &str,
    id: Result<Option<u32>, RuntimeError>,
    valid: Result<(), RuntimeError>,
)
    requires
        call_ensures(parse_optional_id, (digits, field), id),
        call_ensures(validate_account_name, (name, field), valid),
    ensures
        id == Ok::<Option<u32>, RuntimeError>(None) <==> !all_digits(digits@),
        id is Err <==> all_digits(digits@) && (digits@.len() == 0 || digits_value(digits@)
            > 0xffff_ffff),
        id matches Ok(Some(number)) ==> all_digits(digits@) && number == digits_value(digits@),
        valid is Ok <==> {
            &&& 0 < name@.len() && byte_count(name@) <= 256
            &&& forall|i: int|
                0 <= i < name@.len() ==> (#[trigger] name@[i]) as int > 32 && name@[i] != ':'
                    && name@[i] != ',' && name@[i] as int != 127
        },
{
    if valid is Ok {
        assert forall|i: int| 0 <= i < name@.len() implies (#[trigger] name@[i]) as int > 32
            && name@[i] != ':' && name@[i] != ',' && name@[i] as int != 127 by {
            assert(!bad_name_char(name@[i]));
        }
    }
}

/// A resolved user has the numbers of the identity that the text selects, with
/// its further groups in order and each once.
pub proof fn law_resolved_user_is_the_selected_one(
    database: AccountDatabase,
    original: &str,
    max_user_bytes: usize,
    resolved: Result<UserResolution, RuntimeError>,
)
    requires
        call_ensures(resolve_user, (&database, original, max_user_bytes), resolved),
    ensures
        resolved is Ok <==> identity_outcome(database, original@, max_user_bytes) is Ok,
        resolved matches Ok(user) ==> {
            let identity = identity_outcome(database, original@, max_user_bytes)->Ok_0;
            &&& user.kind == identity.kind
            &&& user.uid == identity.uid
            &&& user.gid == identity.gid
            &&& forall|gid: u32|
                #![trigger identity.supplementary.contains(gid)]
                identity.supplementary.contains(gid) <==> user.supplementary_gids@.contains(gid)
            &&& forall|i: int, j: int|
                0 <= i < j < user.supplementary_gids@.len() ==> user.supplementary_gids@[i]
                    < user.supplementary_gids@[j]
        },
{
    if resolved is Ok {
        let user = resolved->Ok_0;
        let identity = identity_outcome(database, original@, max_user_bytes)->Ok_0;
        assert forall|gid: u32|
            #![trigger identity.supplementary.contains(gid)]
            identity.supplementary.contains(gid) <==> user.supplementary_gids@.contains(gid) by {
            assert(user.supplementary_gids@.to_set().contains(gid)
                == identity.supplementary.contains(gid));
        }
    }
}

proof fn lemma_membership_count(groups: Seq<AccountGroup>, name: Seq<char>, gid: u32)
    ensures
        memberships(groups, name, gid).finite(),
        memberships(groups, name, gid).len() <= groups.len(),
    decreases groups.len(),
{
    if groups.len() > 0 {
        lemma_membership_count(groups.drop_last(), name, gid);
    }
}

/// A plain name that the database lists is resolved, to the first entry of that
/// name, wherever it cannot be in too many groups.
pub proof fn law_listed_user_is_resolved(
    database: AccountDatabase,
    original: &str,
    max_user_bytes: usize,
    at: int,
    resolved: Result<UserResolution, RuntimeError>,
)
    requires
        call_ensures(resolve_user, (&database, original, max_user_bytes), resolved),
        0 < original@.len(),
        byte_count(original@) <= max_user_bytes,
        byte_count(original@) <= 256,
        forall|i: int|
            0 <= i < original@.len() ==> (#[trigger] original@[i]) as int > 32 && original@[i]
                != ':' && original@[i] != ',' && original@[i] as int != 127,
        !all_digits(original@),
        0 <= at < database.users@.len(),
        database.users@[at].name@ == original@,
        forall|i: int| 0 <= i < at ==> (#[trigger] database.users@[i]).name@ != original@,
        database.groups@.len() <= 64,
    ensures
        resolved matches Ok(user) && user.kind == 2 && user.uid == database.users@[at].uid
            && user.gid == database.users@[at].gid,
{
    let word = original@;
    let names = user_names(database.users@);
    word.index_of_first_ensures(':');
    names.index_of_first_ensures(word);
    assert(names[at] == word);
    let found = names.index_of_first(word)->Some_0;
    if found < at {
        assert(database.users@[found].name@ == names[found]);
    }
    assert(found == at);
    assert forall|i: int| 0 <= i < word.len() implies !bad_name_char(#[trigger] word[i]) by {}
    assert(!word.contains('\0') && !word.contains('\n') && !word.contains('\r'));
    lemma_membership_count(database.groups@, word, database.users@[at].gid);
}

/// A number that no entry of the database has is resolved to itself, with group 0
/// and no further groups.
pub proof fn law_unlisted_number_is_resolved(
    database: AccountDatabase,
    original: &str,
    max_user_bytes: usize,
    resolved: Result<UserResolution, RuntimeError>,
)
    requires
        call_ensures(resolve_user, (&database, original, max_user_bytes), resolved),
        0 < original@.len(),
        byte_count(original@) <= max_user_bytes,
        all_digits(original@),
        digits_value(original@) <= 0xffff_ffff,
        forall|i: int|
            0 <= i < database.users@.len() ==> (#[trigger] database.users@[i]).uid != digits_value(
                original@,
            ),
    ensures
        resolved matches Ok(user) && user.kind == 1 && user.uid == digits_value(original@)
            && user.gid == 0 && user.supplementary_gids@.len() == 0,
{
    let word = original@;
    let ids = user_ids(database.users@);
    let uid = digits_value(word) as u32;
    word.index_of_first_ensures(':');
    ids.index_of_first_ensures(uid);
    assert(!ids.contains(uid));
    assert(!word.contains('\0') && !word.contains('\n') && !word.contains('\r')
        && !word.contains(':'));
    if resolved is Ok {
        let listed = resolved->Ok_0.supplementary_gids@;
        if listed.len() > 0 {
            assert(listed.to_set().contains(listed[0]));
        }
    }
}

} // verus!
