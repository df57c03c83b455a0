//! Whether the host's CPU quotas can deliver the CPUs that a run asks for.
//! This is reporting, never an admission decision.

use vstd::prelude::*;
use vstd::utf8::{decode_utf8, encode_utf8, encode_utf8_decode_utf8, valid_utf8};

use crate::numeral::law_decimal_reads_back;
use crate::path::{absolute, components, components_of, is_absolute, join_path, joined};
use crate::text::{
    chars_are, chars_between, chars_of, decimal, has_prefix, is_digit, is_gap, lines, lines_of,
    parse_word, parsed_word, pieces, starts_with, string_of, texts, utf8_text, words, words_of,
};

verus! {

// ---------------------------------------------------------------------------
// Quotas
// ---------------------------------------------------------------------------

/// Whether a quota, as a cgroup's `cpu.max` spells it, admits a number of CPUs.
pub open spec fn quota_admits(requested: u16, quota: Seq<char>) -> bool {
    let fields = words(quota, true);
    &&& fields.len() == 2
    &&& parsed_word(fields[1]) is Some
    &&& parsed_word(fields[1])->Some_0 != 0
    &&& fields[0] == "max"@ || (parsed_word(fields[0]) is Some && parsed_word(fields[0])->Some_0
        >= requested * parsed_word(fields[1])->Some_0)
}

/// Whether the affinity and one quota have capacity for the requested CPUs.
pub fn scaling_qualified_from_observation(requested: u16, affinity_cpus: u16, cpu_max: &str) -> (qualified:
    bool)
    ensures
        qualified == (affinity_cpus >= requested && quota_admits(requested, cpu_max@)),
{
    if affinity_cpus < requested {
        return false;
    }
    let fields = words_of(&chars_of(cpu_max), true);
    let ghost spelled = words(cpu_max@, true);
    assert(pieces(fields@).len() == fields@.len());
    if fields.len() != 2 {
        return false;
    }
    assert(spelled[0] == fields@[0]@ && spelled[1] == fields@[1]@);
    let period: u64 = match parse_word(&fields[1]) {
        Some(period) => period,
        None => {
            return false;
        },
    };
    if chars_are(&fields[0], "max") {
        return period != 0;
    }
    match parse_word(&fields[0]) {
        Some(quota) => {
            assert(requested * period <= 0xffff * 0xffff_ffff_ffff_ffff) by (nonlinear_arith)
                requires
                    requested <= 0xffff,
                    period <= 0xffff_ffff_ffff_ffff,
            ;
            period != 0 && quota as u128 >= requested as u128 * period as u128
        },
        None => false,
    }
}

/// Whether every quota of a chain was observed and admits the requested CPUs.
pub open spec fn chain_admits(requested: u16, observations: Seq<Option<String>>) -> bool {
    forall|i: int|
        0 <= i < observations.len() ==> (#[trigger] observations[i]) is Some && quota_admits(
            requested,
            observations[i]->Some_0@,
        )
}

/// Requires every quota on one cgroup-v2 membership chain, from the leaf
/// towards the root, to admit the requested CPUs. A quota that could not be
/// read is an observation failure. The root is not on the chain: it never
/// carries a quota, as there is no parent left to be limited by.
pub fn scaling_qualified_in_chain(
    requested: u16,
    affinity_cpus: u16,
    observations: &Vec<Option<String>>,
) -> (qualified: bool)
    ensures
        qualified == (affinity_cpus >= requested && chain_admits(requested, observations@)),
{
    if affinity_cpus < requested {
        return false;
    }
    let mut i: usize = 0;
    while i < observations.len()
        invariant
            i <= observations@.len(),
            affinity_cpus >= requested,
            forall|j: int|
                0 <= j < i ==> (#[trigger] observations@[j]) is Some && quota_admits(
                    requested,
                    observations@[j]->Some_0@,
                ),
        decreases observations@.len() - i,
    {
        match &observations[i] {
            Some(quota) => {
                if !scaling_qualified_from_observation(requested, affinity_cpus, quota) {
                    assert(!quota_admits(requested, observations@[i as int]->Some_0@));
                    return false;
                }
            },
            None => {
                assert(observations@[i as int] is None);
                return false;
            },
        }
        i += 1;
    }
    true
}

/// The directory of a group below a mount point.
pub open spec fn group_directory(mountpoint: Seq<char>, group: Seq<Seq<char>>) -> Seq<char>
    decreases group.len(),
{
    if group.len() == 0 {
        mountpoint
    } else {
        joined(group_directory(mountpoint, group.drop_last()), group.last())
    }
}

/// The quotas to observe, from the leaf towards the root, without the root's.
pub open spec fn quota_files(mountpoint: Seq<char>, group: Seq<Seq<char>>) -> Seq<Seq<char>>
    decreases group.len(),
{
    if group.len() == 0 {
        Seq::empty()
    } else {
        seq![joined(group_directory(mountpoint, group), "cpu.max"@)] + quota_files(
            mountpoint,
            group.drop_last(),
        )
    }
}

fn directory_of(mountpoint: &str, group: &Vec<String>, depth: usize) -> (path: String)
    requires
        depth <= group@.len(),
    ensures
        path@ == group_directory(mountpoint@, texts(group@).take(depth as int)),
{
    let ghost all = texts(group@);
    let mut path: String = mountpoint.to_owned();
    let mut i: usize = 0;
    while i < depth
        invariant
            i <= depth <= group@.len(),
            all == texts(group@),
            path@ == group_directory(mountpoint@, all.take(i as int)),
        decreases depth - i,
    {
        assert(all.take(i + 1).drop_last() =~= all.take(i as int));
        assert(all.take(i + 1).last() == group@[i as int]@);
        path = join_path(&path, &group[i]);
        i += 1;
    }
    path
}

/// The files whose quotas limit a group, from the group itself towards the
/// root.
pub fn quota_paths(mountpoint: &str, group: &Vec<String>) -> (paths: Vec<String>)
    ensures
        texts(paths@) == quota_files(mountpoint@, texts(group@)),
{
    let ghost all = texts(group@);
    let mut paths: Vec<String> = Vec::new();
    let mut depth: usize = group.len();
    assert(all.take(depth as int) =~= all);
    assert(texts(paths@) + quota_files(mountpoint@, all) =~= quota_files(mountpoint@, all));
    while depth > 0
        invariant
            depth <= group@.len(),
            all == texts(group@),
            texts(paths@) + quota_files(mountpoint@, all.take(depth as int)) == quota_files(
                mountpoint@,
                all,
            ),
        decreases depth,
    {
        let ghost before = texts(paths@);
        let ghost here = all.take(depth as int);
        assert(here.drop_last() =~= all.take(depth - 1));
        let path = join_path(&directory_of(mountpoint, group, depth), "cpu.max");
        let ghost spelled = path@;
        paths.push(path);
        depth -= 1;
        assert(texts(paths@) =~= before.push(spelled));
        assert(before.push(spelled) + quota_files(mountpoint@, here.drop_last()) =~= before + (
        seq![spelled] + quota_files(mountpoint@, here.drop_last())));
    }
    assert(texts(paths@) =~= quota_files(mountpoint@, all));
    paths
}

/// The walk ends at the root rather than failing there: it looks at one quota
/// for each component of the group, and a process in the root group qualifies
/// by its affinity alone.
pub proof fn law_quota_walk_ends_at_the_root(
    mountpoint: Seq<char>,
    group: Seq<Seq<char>>,
    requested: u16,
)
    ensures
        quota_files(mountpoint, group).len() == group.len(),
        chain_admits(requested, Seq::empty()),
    decreases group.len(),
{
    if group.len() > 0 {
        law_quota_walk_ends_at_the_root(mountpoint, group.drop_last(), requested);
    }
}

/// A chain that admits a number of CPUs admits every smaller one.
pub proof fn law_smaller_request_stays_qualified(
    larger: u16,
    smaller: u16,
    observations: Seq<Option<String>>,
)
    requires
        smaller <= larger,
        chain_admits(larger, observations),
    ensures
        chain_admits(smaller, observations),
{
    assert forall|i: int| 0 <= i < observations.len() implies (#[trigger] observations[i]) is Some
        && quota_admits(smaller, observations[i]->Some_0@) by {
        let fields = words(observations[i]->Some_0@, true);
        let period = parsed_word(fields[1])->Some_0;
        assert(smaller * period <= larger * period) by (nonlinear_arith)
            requires
                smaller <= larger,
                period >= 0,
        ;
    }
}

// ---------------------------------------------------------------------------
// Text
// ---------------------------------------------------------------------------

/// The text before and after the first occurrence of a pattern.
pub open spec fn split_once(text: Seq<char>, pattern: Seq<char>) -> Option<(Seq<char>, Seq<char>)>
    decreases text.len(),
{
    if starts_with(text, pattern) {
        Some((Seq::empty(), text.skip(pattern.len() as int)))
    } else if text.len() == 0 {
        None
    } else {
        match split_once(text.skip(1), pattern) {
            Some((before, after)) => Some((seq![text[0]] + before, after)),
            None => None,
        }
    }
}

proof fn lemma_split_once(text: Seq<char>, pattern: Seq<char>, at: int)
    requires
        0 <= at <= text.len(),
        forall|j: int| 0 <= j < at ==> !starts_with(#[trigger] text.skip(j), pattern),
    ensures
        split_once(text, pattern) == match split_once(text.skip(at), pattern) {
            Some((before, after)) => Some((text.take(at) + before, after)),
            None => None,
        },
    decreases at,
{
    assert(text.skip(0) =~= text);
    if at == 0 {
        if let Some((before, _)) = split_once(text, pattern) {
            assert(text.take(0) + before =~= before);
        }
    } else {
        let rest = text.skip(1);
        assert(!starts_with(text.skip(0), pattern));
        assert forall|j: int| 0 <= j < at - 1 implies !starts_with(
            #[trigger] rest.skip(j),
            pattern,
        ) by {
            assert(rest.skip(j) =~= text.skip(j + 1));
        }
        lemma_split_once(rest, pattern, at - 1);
        assert(rest.skip(at - 1) =~= text.skip(at));
        if let Some((before, _)) = split_once(text.skip(at), pattern) {
            assert(seq![text[0]] + (rest.take(at - 1) + before) =~= text.take(at) + before);
        }
    }
}

/// Splits the characters at the first occurrence of a pattern.
fn split_first(chars: &Vec<char>, pattern: &Vec<char>) -> (parts: Option<(Vec<char>, Vec<char>)>)
    requires
        pattern@.len() > 0,
    ensures
        match parts {
            Some((before, after)) => split_once(chars@, pattern@) == Some((before@, after@)),
            None => split_once(chars@, pattern@) is None,
        },
{
    let mut at: usize = 0;
    while at < chars.len()
        invariant
            at <= chars@.len(),
            pattern@.len() > 0,
            forall|j: int| 0 <= j < at ==> !starts_with(#[trigger] chars@.skip(j), pattern@),
        decreases chars@.len() - at,
    {
        let rest = chars_between(chars, at, chars.len());
        assert(rest@ =~= chars@.skip(at as int));
        if has_prefix(&rest, pattern) {
            let before = chars_between(chars, 0, at);
            let after = chars_between(chars, at + pattern.len(), chars.len());
            proof {
                lemma_split_once(chars@, pattern@, at as int);
                assert(before@ =~= chars@.take(at as int) + Seq::<char>::empty());
                assert(after@ =~= rest@.skip(pattern@.len() as int));
            }
            return Some((before, after));
        }
        at += 1;
    }
    proof {
        lemma_split_once(chars@, pattern@, at as int);
        assert(chars@.skip(at as int) =~= Seq::<char>::empty());
    }
    None
}

/// Whether an absolute path climbs nowhere.
pub open spec fn is_normalized(path: Seq<char>) -> bool {
    is_absolute(path) && !components(path).contains(".."@)
}

/// Accepts an absolute path that climbs nowhere.
pub fn normalized_absolute_path(path: &str) -> (accepted: bool)
    ensures
        accepted == is_normalized(path@),
{
    if !absolute(path) {
        return false;
    }
    let parts = components_of(path);
    let ghost all = pieces(parts@);
    let mut i: usize = 0;
    while i < parts.len()
        invariant
            i <= parts@.len(),
            all == pieces(parts@),
            all == components(path@),
            forall|j: int| 0 <= j < i ==> #[trigger] all[j] != ".."@,
        decreases parts@.len() - i,
    {
        if chars_are(&parts[i], "..") {
            assert(all[i as int] == ".."@);
            return false;
        }
        assert(all[i as int] != ".."@);
        i += 1;
    }
    true
}

pub open spec fn is_octal(digit: u8) -> bool {
    48 <= digit <= 55
}

/// The byte that three octal digits spell.
pub open spec fn octal_value(first: u8, second: u8, third: u8) -> int {
    (first - 48) * 64 + (second - 48) * 8 + (third - 48)
}

/// The bytes that stand for a path in the mount table, where a backslash and
/// three octal digits stand for one byte.
pub open spec fn unescaped(bytes: Seq<u8>) -> Option<Seq<u8>>
    decreases bytes.len(),
{
    if bytes.len() == 0 {
        Some(Seq::empty())
    } else if bytes[0] != 92 {
        match unescaped(bytes.skip(1)) {
            Some(rest) => Some(seq![bytes[0]] + rest),
            None => None,
        }
    } else if bytes.len() < 4 || !is_octal(bytes[1]) || !is_octal(bytes[2]) || !is_octal(bytes[3])
        || octal_value(bytes[1], bytes[2], bytes[3]) > 255 {
        None
    } else {
        match unescaped(bytes.skip(4)) {
            Some(rest) => Some(seq![octal_value(bytes[1], bytes[2], bytes[3]) as u8] + rest),
            None => None,
        }
    }
}

/// The path that a field of the mount table spells, if it spells one.
pub open spec fn mounted_path(field: Seq<char>) -> Option<Seq<char>> {
    match unescaped(encode_utf8(field)) {
        Some(bytes) => if valid_utf8(bytes) {
            Some(decode_utf8(bytes))
        } else {
            None
        },
        None => None,
    }
}

/// What the bytes from a position on add to what was decoded before it.
spec fn continued(decoded: Seq<u8>, rest: Option<Seq<u8>>) -> Option<Seq<u8>> {
    match rest {
        Some(rest) => Some(decoded + rest),
        None => None,
    }
}

fn octal_byte(bytes: &[u8], at: usize) -> (byte: Option<u8>)
    requires
        at + 3 < bytes.len(),
    ensures
        match byte {
            Some(byte) => is_octal(bytes@[at + 1]) && is_octal(bytes@[at + 2]) && is_octal(
                bytes@[at + 3],
            ) && byte == octal_value(bytes@[at + 1], bytes@[at + 2], bytes@[at + 3]),
            None => !is_octal(bytes@[at + 1]) || !is_octal(bytes@[at + 2]) || !is_octal(
                bytes@[at + 3],
            ) || octal_value(bytes@[at + 1], bytes@[at + 2], bytes@[at + 3]) > 255,
        },
{
    let first: u8 = bytes[at + 1];
    let second: u8 = bytes[at + 2];
    let third: u8 = bytes[at + 3];
    if first < 48 || first > 55 || second < 48 || second > 55 || third < 48 || third > 55 {
        return None;
    }
    let value: u32 = (first - 48) as u32 * 64 + (second - 48) as u32 * 8 + (third - 48) as u32;
    if value > 255 {
        return None;
    }
    Some(value as u8)
}

/// Decodes a path of the mount table. An escape that is cut short, is not
/// octal or is no byte, and bytes that are no text, are refused.
pub fn decode_mountinfo_path(value: &str) -> (path: Option<String>)
    ensures
        match path {
            Some(path) => mounted_path(value@) == Some(path@),
            None => mounted_path(value@) is None,
        },
{
    let bytes = value.as_bytes();
    let ghost all = encode_utf8(value@);
    assert(bytes@ == all);
    let mut decoded: Vec<u8> = Vec::new();
    let mut index: usize = 0;
    assert(all.skip(0) =~= all);
    proof {
        if let Some(rest) = unescaped(all) {
            assert(decoded@ + rest =~= rest);
        }
    }
    while index < bytes.len()
        invariant
            index <= bytes@.len(),
            bytes@ == all,
            all == encode_utf8(value@),
            unescaped(all) == continued(decoded@, unescaped(all.skip(index as int))),
        decreases bytes@.len() - index,
    {
        let ghost rest = all.skip(index as int);
        let ghost before = decoded@;
        assert(rest[0] == bytes@[index as int]);
        if bytes[index] != 92 {
            decoded.push(bytes[index]);
            index += 1;
            assert(rest.skip(1) =~= all.skip(index as int));
            proof {
                if let Some(tail) = unescaped(all.skip(index as int)) {
                    assert(decoded@ + tail =~= before + (seq![rest[0]] + tail));
                }
            }
        } else {
            if bytes.len() - index <= 3 {
                return None;
            }
            assert(rest[1] == bytes@[index + 1] && rest[2] == bytes@[index + 2] && rest[3]
                == bytes@[index + 3]);
            match octal_byte(bytes, index) {
                Some(byte) => {
                    decoded.push(byte);
                    index += 4;
                    assert(rest.skip(4) =~= all.skip(index as int));
                    proof {
                        if let Some(tail) = unescaped(all.skip(index as int)) {
                            assert(decoded@ + tail =~= before + (seq![byte] + tail));
                        }
                    }
                },
                None => {
                    return None;
                },
            }
        }
    }
    assert(all.skip(index as int) =~= Seq::<u8>::empty());
    assert(decoded@ + Seq::<u8>::empty() =~= decoded@);
    let path = utf8_text(&decoded);
    proof {
        if path is Some {
            encode_utf8_decode_utf8(path->Some_0@);
        }
    }
    path
}

/// A path without a backslash stands for itself in the mount table.
pub proof fn law_plain_path_stands_for_itself(bytes: Seq<u8>)
    requires
        !bytes.contains(92),
    ensures
        unescaped(bytes) == Some(bytes),
    decreases bytes.len(),
{
    if bytes.len() > 0 {
        let rest = bytes.skip(1);
        assert(bytes.contains(bytes[0]));
        assert forall|i: int| 0 <= i < rest.len() implies rest[i] != 92 by {
            assert(bytes.contains(bytes[i + 1]));
        }
        law_plain_path_stands_for_itself(rest);
        assert(seq![bytes[0]] + rest =~= bytes);
    } else {
        assert(bytes =~= Seq::<u8>::empty());
    }
}

// ---------------------------------------------------------------------------
// Membership
// ---------------------------------------------------------------------------

/// The group of the one cgroup-v2 membership, as far as the lines name one.
/// Nothing at all when a line is malformed, when the group climbs somewhere,
/// or when there are two.
pub open spec fn membership(lines: Seq<Seq<char>>) -> Option<Option<Seq<Seq<char>>>>
    decreases lines.len(),
{
    if lines.len() == 0 {
        Some(None)
    } else {
        match membership(lines.drop_last()) {
            None => None,
            Some(found) => membership_after(found, lines.last()),
        }
    }
}

/// The membership after one more line.
pub open spec fn membership_after(found: Option<Seq<Seq<char>>>, line: Seq<char>) -> Option<
    Option<Seq<Seq<char>>>,
> {
    match split_once(line, ":"@) {
        None => None,
        Some((hierarchy, rest)) => match split_once(rest, ":"@) {
            None => None,
            Some((controllers, path)) => if hierarchy != "0"@ || controllers.len() > 0 {
                Some(found)
            } else if !is_normalized(path) || found is Some {
                None
            } else {
                Some(Some(components(path)))
            },
        },
    }
}

proof fn lemma_membership_fails(lines: Seq<Seq<char>>, n: int)
    requires
        0 <= n <= lines.len(),
        membership(lines.take(n)) is None,
    ensures
        membership(lines) is None,
    decreases lines.len(),
{
    if n == lines.len() {
        assert(lines.take(n) =~= lines);
    } else {
        assert(lines.drop_last().take(n) =~= lines.take(n));
        lemma_membership_fails(lines.drop_last(), n);
    }
}

/// What one line of the membership says.
enum MembershipLine {
    Malformed,
    Other,
    Group(Vec<Vec<char>>),
}

fn membership_line(line: &Vec<char>) -> (said: MembershipLine)
    ensures
        match said {
            MembershipLine::Malformed => membership_after(None, line@) is None,
            MembershipLine::Other => membership_after(None, line@) == Some(
                None::<Seq<Seq<char>>>,
            ),
            MembershipLine::Group(group) => membership_after(None, line@) == Some(
                Some(pieces(group@)),
            ),
        },
{
    let colon = chars_of(":");
    proof {
        reveal_strlit(":");
    }
    match split_first(line, &colon) {
        None => MembershipLine::Malformed,
        Some((hierarchy, rest)) => match split_first(&rest, &colon) {
            None => MembershipLine::Malformed,
            Some((controllers, path)) => {
                if !chars_are(&hierarchy, "0") || controllers.len() > 0 {
                    return MembershipLine::Other;
                }
                let text = string_of(&path);
                if !normalized_absolute_path(&text) {
                    return MembershipLine::Malformed;
                }
                MembershipLine::Group(components_of(&text))
            },
        },
    }
}

/// Reads the membership table of a process.
fn read_membership(cgroup: &str) -> (group: Option<Vec<Vec<char>>>)
    ensures
        match group {
            Some(group) => membership(lines(cgroup@)) == Some(Some(pieces(group@))),
            None => membership(lines(cgroup@)) is None || membership(lines(cgroup@)) == Some(
                None::<Seq<Seq<char>>>,
            ),
        },
{
    let table = lines_of(&chars_of(cgroup));
    let ghost all = pieces(table@);
    let mut found: Option<Vec<Vec<char>>> = None;
    let mut i: usize = 0;
    assert(all.take(0) =~= Seq::<Seq<char>>::empty());
    while i < table.len()
        invariant
            i <= table@.len(),
            all == pieces(table@),
            all == lines(cgroup@),
            match found {
                Some(group) => membership(all.take(i as int)) == Some(Some(pieces(group@))),
                None => membership(all.take(i as int)) == Some(None::<Seq<Seq<char>>>),
            },
        decreases table@.len() - i,
    {
        assert(all.take(i + 1).drop_last() =~= all.take(i as int));
        assert(all.take(i + 1).last() == table@[i as int]@);
        match membership_line(&table[i]) {
            MembershipLine::Malformed => {
                proof {
                    lemma_membership_fails(all, i + 1);
                }
                return None;
            },
            MembershipLine::Other => {},
            MembershipLine::Group(group) => {
                if found.is_some() {
                    proof {
                        lemma_membership_fails(all, i + 1);
                    }
                    return None;
                }
                found = Some(group);
            },
        }
        i += 1;
    }
    assert(all.take(i as int) =~= all);
    found
}

// ---------------------------------------------------------------------------
// Mounts
// ---------------------------------------------------------------------------

/// A visible mount of the group's hierarchy: how deep its root lies, where it
/// is mounted, and the group below its root.
#[derive(Debug)]
pub struct GroupMount {
    pub depth: usize,
    pub mountpoint: String,
    pub relative: Vec<String>,
}

/// A mount with its strings read as text.
pub struct MountText {
    pub depth: nat,
    pub mountpoint: Seq<char>,
    pub relative: Seq<Seq<char>>,
}

impl View for GroupMount {
    type V = MountText;

    open spec fn view(&self) -> MountText {
        MountText {
            depth: self.depth as nat,
            mountpoint: self.mountpoint@,
            relative: texts(self.relative@),
        }
    }
}

/// What one line of the mount table says of a group: that it is malformed
/// (`None`), that it is of no concern (`Some(None)`), or a mount.
pub open spec fn mount_of(line: Seq<char>, group: Seq<Seq<char>>) -> Option<Option<MountText>> {
    match split_once(line, " - "@) {
        None => None,
        Some((mount, filesystem)) => {
            let kind = words(filesystem, true);
            let fields = words(mount, true);
            if kind.len() == 0 {
                None
            } else if kind[0] != "cgroup2"@ {
                Some(None)
            } else if fields.len() < 6 {
                None
            } else {
                located(mounted_path(fields[3]), mounted_path(fields[4]), group)
            }
        },
    }
}

/// The mount with a root and a mount point, as far as it holds the group.
pub open spec fn located(
    root: Option<Seq<char>>,
    mountpoint: Option<Seq<char>>,
    group: Seq<Seq<char>>,
) -> Option<Option<MountText>> {
    match (root, mountpoint) {
        (Some(root), Some(mountpoint)) => if !is_normalized(root) || !is_normalized(mountpoint) {
            None
        } else if !components(root).is_prefix_of(group) {
            Some(None)
        } else {
            Some(
                Some(
                    MountText {
                        depth: components(root).len(),
                        mountpoint,
                        relative: group.skip(components(root).len() as int),
                    },
                ),
            )
        },
        _ => None,
    }
}

/// The mount to use after one more candidate. Several equally specific mounts
/// make the source of the effective quota ambiguous; reporting nothing is
/// safer than selecting one by its place in the table.
pub open spec fn chosen_mount(selected: Option<MountText>, candidate: MountText) -> Option<
    MountText,
> {
    match selected {
        None => Some(candidate),
        Some(selected) => if selected.depth > candidate.depth {
            Some(selected)
        } else if selected.depth == candidate.depth && (components(selected.mountpoint)
            != components(candidate.mountpoint) || selected.relative != candidate.relative) {
            None
        } else {
            Some(candidate)
        },
    }
}

/// The mount that a table selects for a group, as far as the lines name one.
/// Nothing at all when a line is malformed or the choice is ambiguous.
pub open spec fn selected_mount(table: Seq<Seq<char>>, group: Seq<Seq<char>>) -> Option<
    Option<MountText>,
>
    decreases table.len(),
{
    if table.len() == 0 {
        Some(None)
    } else {
        match selected_mount(table.drop_last(), group) {
            None => None,
            Some(selected) => match mount_of(table.last(), group) {
                None => None,
                Some(None) => Some(selected),
                Some(Some(candidate)) => match chosen_mount(selected, candidate) {
                    None => None,
                    Some(mount) => Some(Some(mount)),
                },
            },
        }
    }
}

proof fn lemma_selection_fails(table: Seq<Seq<char>>, group: Seq<Seq<char>>, n: int)
    requires
        0 <= n <= table.len(),
        selected_mount(table.take(n), group) is None,
    ensures
        selected_mount(table, group) is None,
    decreases table.len(),
{
    if n == table.len() {
        assert(table.take(n) =~= table);
    } else {
        assert(table.drop_last().take(n) =~= table.take(n));
        lemma_selection_fails(table.drop_last(), group, n);
    }
}

/// What one line of the mount table says.
enum MountLine {
    Malformed,
    Other,
    Mount(GroupMount),
}

spec fn line_says(said: MountLine, meaning: Option<Option<MountText>>) -> bool {
    match said {
        MountLine::Malformed => meaning is None,
        MountLine::Other => meaning == Some(None::<MountText>),
        MountLine::Mount(mount) => meaning == Some(Some(mount@)),
    }
}

/// The group below a root, if it lies there.
fn below_root(root: &Vec<Vec<char>>, group: &Vec<Vec<char>>) -> (relative: Option<Vec<String>>)
    ensures
        match relative {
            Some(relative) => pieces(root@).is_prefix_of(pieces(group@)) && texts(relative@)
                == pieces(group@).skip(root@.len() as int),
            None => !pieces(root@).is_prefix_of(pieces(group@)),
        },
{
    let ghost above = pieces(root@);
    let ghost all = pieces(group@);
    if root.len() > group.len() {
        assert(above.len() > all.len());
        return None;
    }
    let mut i: usize = 0;
    while i < root.len()
        invariant
            i <= root@.len() <= group@.len(),
            above == pieces(root@),
            all == pieces(group@),
            forall|j: int| 0 <= j < i ==> #[trigger] above[j] == all[j],
        decreases root@.len() - i,
    {
        if !crate::text::same_chars(&root[i], &group[i]) {
            assert(above[i as int] != all[i as int]);
            assert(all.subrange(0, above.len() as int)[i as int] == all[i as int]);
            return None;
        }
        assert(above[i as int] == all[i as int]);
        i += 1;
    }
    assert(above =~= all.subrange(0, above.len() as int));
    let mut relative: Vec<String> = Vec::new();
    assert(texts(relative@) =~= all.subrange(i as int, i as int));
    while i < group.len()
        invariant
            above.len() <= i <= group@.len(),
            all == pieces(group@),
            texts(relative@) == all.subrange(above.len() as int, i as int),
        decreases group@.len() - i,
    {
        let ghost before = texts(relative@);
        let part = string_of(&group[i]);
        assert(all[i as int] == part@);
        let ghost spelled = part@;
        relative.push(part);
        i += 1;
        assert(texts(relative@) =~= before.push(spelled));
        assert(texts(relative@) =~= all.subrange(above.len() as int, i as int));
    }
    assert(all.subrange(above.len() as int, i as int) =~= all.skip(root@.len() as int));
    Some(relative)
}

fn locate(root: Option<String>, mountpoint: Option<String>, group: &Vec<Vec<char>>) -> (said:
    MountLine)
    ensures
        line_says(
            said,
            located(
                crate::text::optional_text(root),
                crate::text::optional_text(mountpoint),
                pieces(group@),
            ),
        ),
{
    match (root, mountpoint) {
        (Some(root), Some(mountpoint)) => {
            if !normalized_absolute_path(&root) || !normalized_absolute_path(&mountpoint) {
                return MountLine::Malformed;
            }
            let above = components_of(&root);
            match below_root(&above, group) {
                Some(relative) => MountLine::Mount(
                    GroupMount { depth: above.len(), mountpoint, relative },
                ),
                None => MountLine::Other,
            }
        },
        _ => MountLine::Malformed,
    }
}

fn mount_line(line: &Vec<char>, group: &Vec<Vec<char>>) -> (said: MountLine)
    ensures
        line_says(said, mount_of(line@, pieces(group@))),
{
    let separator = chars_of(" - ");
    proof {
        reveal_strlit(" - ");
    }
    match split_first(line, &separator) {
        None => MountLine::Malformed,
        Some((mount, filesystem)) => {
            let kind = words_of(&filesystem, true);
            let ghost kinds = words(filesystem@, true);
            assert(kinds.len() == kind@.len());
            if kind.len() == 0 {
                return MountLine::Malformed;
            }
            assert(kinds[0] == kind@[0]@);
            if !chars_are(&kind[0], "cgroup2") {
                return MountLine::Other;
            }
            let fields = words_of(&mount, true);
            let ghost spelled = words(mount@, true);
            assert(spelled.len() == fields@.len());
            if fields.len() < 6 {
                return MountLine::Malformed;
            }
            assert(spelled[3] == fields@[3]@ && spelled[4] == fields@[4]@);
            let root = decode_mountinfo_path(&string_of(&fields[3]));
            let mountpoint = decode_mountinfo_path(&string_of(&fields[4]));
            locate(root, mountpoint, group)
        },
    }
}

fn same_texts(left: &Vec<String>, right: &Vec<String>) -> (same: bool)
    ensures
        same == (texts(left@) == texts(right@)),
{
    let ghost a = texts(left@);
    let ghost b = texts(right@);
    if left.len() != right.len() {
        assert(a.len() != b.len());
        return false;
    }
    let mut i: usize = 0;
    while i < left.len()
        invariant
            i <= left@.len(),
            left@.len() == right@.len(),
            a == texts(left@),
            b == texts(right@),
            forall|j: int| 0 <= j < i ==> #[trigger] a[j] == b[j],
        decreases left@.len() - i,
    {
        if !crate::text::same_text(&left[i], &right[i]) {
            assert(a[i as int] != b[i as int]);
            return false;
        }
        assert(a[i as int] == b[i as int]);
        i += 1;
    }
    assert(a =~= b);
    true
}

fn choose_mount(selected: Option<GroupMount>, candidate: GroupMount) -> (mount: Option<GroupMount>)
    ensures
        ({
            let before = match selected {
                Some(selected) => Some(selected@),
                None => None,
            };
            match mount {
                Some(mount) => chosen_mount(before, candidate@) == Some(mount@),
                None => chosen_mount(before, candidate@) is None,
            }
        }),
{
    match selected {
        None => Some(candidate),
        Some(selected) => {
            if selected.depth > candidate.depth {
                return Some(selected);
            }
            if selected.depth == candidate.depth && (!crate::path::same_pieces(
                &components_of(&selected.mountpoint),
                &components_of(&candidate.mountpoint),
            ) || !same_texts(&selected.relative, &candidate.relative)) {
                return None;
            }
            Some(candidate)
        },
    }
}

/// Reads the mount table for a group.
fn read_mounts(mountinfo: &str, group: &Vec<Vec<char>>) -> (mount: Option<GroupMount>)
    ensures
        match mount {
            Some(mount) => selected_mount(lines(mountinfo@), pieces(group@)) == Some(
                Some(mount@),
            ),
            None => selected_mount(lines(mountinfo@), pieces(group@)) is None || selected_mount(
                lines(mountinfo@),
                pieces(group@),
            ) == Some(None::<MountText>),
        },
{
    let table = lines_of(&chars_of(mountinfo));
    let ghost all = pieces(table@);
    let ghost wanted = pieces(group@);
    let mut selected: Option<GroupMount> = None;
    let mut i: usize = 0;
    assert(all.take(0) =~= Seq::<Seq<char>>::empty());
    while i < table.len()
        invariant
            i <= table@.len(),
            all == pieces(table@),
            all == lines(mountinfo@),
            wanted == pieces(group@),
            match selected {
                Some(mount) => selected_mount(all.take(i as int), wanted) == Some(Some(mount@)),
                None => selected_mount(all.take(i as int), wanted) == Some(None::<MountText>),
            },
        decreases table@.len() - i,
    {
        assert(all.take(i + 1).drop_last() =~= all.take(i as int));
        assert(all.take(i + 1).last() == table@[i as int]@);
        match mount_line(&table[i], group) {
            MountLine::Malformed => {
                proof {
                    lemma_selection_fails(all, wanted, i + 1);
                }
                return None;
            },
            MountLine::Other => {},
            MountLine::Mount(candidate) => match choose_mount(selected, candidate) {
                Some(mount) => {
                    selected = Some(mount);
                },
                None => {
                    proof {
                        lemma_selection_fails(all, wanted, i + 1);
                    }
                    return None;
                },
            },
        }
        i += 1;
    }
    assert(all.take(i as int) =~= all);
    selected
}

/// Where a process's group is visible: the mount point, and the group below
/// the mount's root.
pub open spec fn resolved_group(cgroup: Seq<char>, mountinfo: Seq<char>) -> Option<
    (Seq<char>, Seq<Seq<char>>),
> {
    match membership(lines(cgroup)) {
        Some(Some(group)) => match selected_mount(lines(mountinfo), group) {
            Some(Some(mount)) => Some((mount.mountpoint, mount.relative)),
            _ => None,
        },
        _ => None,
    }
}

/// Finds where the one cgroup-v2 group of a process is visible: below the most
/// specific mount that holds it. Anything malformed, climbing or ambiguous
/// gives nothing.
pub fn resolve_cgroup_v2_path(cgroup: &str, mountinfo: &str) -> (resolved: Option<
    (String, Vec<String>),
>)
    ensures
        match resolved {
            Some((mountpoint, relative)) => resolved_group(cgroup@, mountinfo@) == Some(
                (mountpoint@, texts(relative@)),
            ),
            None => resolved_group(cgroup@, mountinfo@) is None,
        },
{
    match read_membership(cgroup) {
        None => None,
        Some(group) => match read_mounts(mountinfo, &group) {
            Some(mount) => Some((mount.mountpoint, mount.relative)),
            None => None,
        },
    }
}

/// A selected mount holds the group, and its path climbs nowhere: the group is
/// the mount's root followed by the relative path.
pub proof fn law_selected_mount_holds_the_group(table: Seq<Seq<char>>, group: Seq<Seq<char>>)
    ensures
        selected_mount(table, group) matches Some(Some(mount)) ==> {
            &&& mount.depth <= group.len()
            &&& mount.relative == group.skip(mount.depth as int)
            &&& is_normalized(mount.mountpoint)
        },
    decreases table.len(),
{
    if table.len() > 0 {
        law_selected_mount_holds_the_group(table.drop_last(), group);
    }
}

/// The most specific mount wins: no line of the table names a mount of the
/// group whose root lies deeper than the selected one's.
pub proof fn law_most_specific_mount_is_selected(
    table: Seq<Seq<char>>,
    group: Seq<Seq<char>>,
    at: int,
)
    requires
        0 <= at < table.len(),
        selected_mount(table, group) is Some,
        mount_of(table[at], group) is Some,
        mount_of(table[at], group)->Some_0 is Some,
    ensures
        selected_mount(table, group)->Some_0 is Some,
        selected_mount(table, group)->Some_0->Some_0.depth >= mount_of(
            table[at],
            group,
        )->Some_0->Some_0.depth,
    decreases table.len(),
{
    if at < table.len() - 1 {
        law_most_specific_mount_is_selected(table.drop_last(), group, at);
    }
}

proof fn lemma_one_word(text: Seq<char>, ascii: bool)
    requires
        text.len() > 0,
        forall|i: int| 0 <= i < text.len() ==> !is_gap(#[trigger] text[i], ascii),
    ensures
        words(text, ascii) == seq![text],
    decreases text.len(),
{
    let front = text.drop_last();
    if text.len() > 1 {
        lemma_one_word(front, ascii);
        assert(seq![front].drop_last() =~= Seq::<Seq<char>>::empty());
        assert(front.push(text.last()) =~= text);
        assert(words(text, ascii) =~= seq![text]);
    } else {
        assert(words(front, ascii) =~= Seq::<Seq<char>>::empty());
        assert(seq![text.last()] =~= text);
        assert(words(text, ascii) =~= seq![text]);
    }
}

proof fn lemma_two_words(left: Seq<char>, right: Seq<char>, ascii: bool)
    requires
        left.len() > 0,
        right.len() > 0,
        forall|i: int| 0 <= i < left.len() ==> !is_gap(#[trigger] left[i], ascii),
        forall|i: int| 0 <= i < right.len() ==> !is_gap(#[trigger] right[i], ascii),
    ensures
        words(left + seq![' '] + right, ascii) == seq![left, right],
    decreases right.len(),
{
    let text = left + seq![' '] + right;
    let front = right.drop_last();
    assert(text.drop_last() =~= left + seq![' '] + front);
    assert(text.last() == right.last());
    assert(!is_gap(right[right.len() - 1], ascii));
    if right.len() > 1 {
        lemma_two_words(left, front, ascii);
        assert(text[text.len() - 2] == right[right.len() - 2]);
        assert(seq![left, front].drop_last() =~= seq![left]);
        assert(front.push(right.last()) =~= right);
        assert(words(text, ascii) =~= seq![left, right]);
    } else {
        let before = left + seq![' '];
        assert(text.drop_last() =~= before);
        assert(before.drop_last() =~= left);
        assert(before.last() == ' ');
        lemma_one_word(left, ascii);
        assert(words(before, ascii) == seq![left]);
        assert(text[text.len() - 2] == ' ');
        assert(seq![right.last()] =~= right);
        assert(words(text, ascii) =~= seq![left, right]);
    }
}

proof fn lemma_number_is_a_word(value: u64)
    ensures
        decimal(value as nat).len() > 0,
        parsed_word(decimal(value as nat)) == Some(value),
        forall|i: int|
            0 <= i < decimal(value as nat).len() ==> !is_gap(
                #[trigger] decimal(value as nat)[i],
                true,
            ),
{
    law_decimal_reads_back(value as nat);
    let text = decimal(value as nat);
    assert forall|i: int| 0 <= i < text.len() implies !is_gap(#[trigger] text[i], true) by {
        assert(is_digit(text[i]));
    }
    assert(is_digit(text[0]));
}

/// A quota of so many microseconds in a period is enough exactly where it is that
/// many whole periods; a period of nothing is no quota, and `max` is always
/// enough.
pub proof fn law_quota_covers_the_requested_cpus(requested: u16, quota: u64, period: u64)
    ensures
        quota_admits(requested, decimal(quota as nat) + seq![' '] + decimal(period as nat)) <==> (
        period > 0 && quota >= requested * period),
        quota_admits(requested, seq!['m', 'a', 'x', ' '] + decimal(period as nat)) <==> period > 0,
{
    lemma_number_is_a_word(quota);
    lemma_number_is_a_word(period);
    law_decimal_reads_back(quota as nat);
    reveal_strlit("max");
    let max = "max"@;
    assert(max =~= seq!['m', 'a', 'x']);
    assert(max + seq![' '] =~= seq!['m', 'a', 'x', ' ']);
    lemma_two_words(decimal(quota as nat), decimal(period as nat), true);
    lemma_two_words(max, decimal(period as nat), true);
    assert(is_digit(decimal(quota as nat)[0]));
}

/// A run scales exactly where its affinity and every quota on the way to the
/// root are known and enough.
pub proof fn law_scaling_needs_every_quota(
    requested: u16,
    affinity_cpus: u16,
    observations: Vec<Option<String>>,
    qualified: bool,
)
    requires
        call_ensures(scaling_qualified_in_chain, (requested, affinity_cpus, &observations), qualified),
    ensures
        qualified <==> {
            &&& requested <= affinity_cpus
            &&& forall|i: int|
                0 <= i < observations@.len() ==> ((#[trigger] observations@[i]) matches Some(quota)
                    && quota_admits(requested, quota@))
        },
{
}

/// The quotas that are read are those of the group and of each of its parents
/// below the mount, the group's own first.
pub proof fn law_quota_is_read_at_every_level(
    mountpoint: Seq<char>,
    group: Seq<Seq<char>>,
    i: int,
)
    requires
        0 <= i < group.len(),
    ensures
        quota_files(mountpoint, group).len() == group.len(),
        quota_files(mountpoint, group)[i] == joined(
            group_directory(mountpoint, group.take(group.len() - i)),
            "cpu.max"@,
        ),
    decreases group.len(),
{
    law_quota_walk_ends_at_the_root(mountpoint, group, 0);
    if i > 0 {
        law_quota_is_read_at_every_level(mountpoint, group.drop_last(), i - 1);
        assert(group.drop_last().take(group.len() - i) =~= group.take(group.len() - i));
    } else {
        assert(group.take(group.len() as int) =~= group);
    }
}

/// A byte that is escaped as a backslash and three octal digits is read as that
/// byte, whatever follows.
pub proof fn law_escaped_byte_reads_back(byte: u8, rest: Seq<u8>)
    ensures
        ({
            let spelled = seq![
                92u8,
                (48 + byte / 64) as u8,
                (48 + (byte / 8) % 8) as u8,
                (48 + byte % 8) as u8,
            ];
            unescaped(spelled + rest) == match unescaped(rest) {
                Some(decoded) => Some(seq![byte] + decoded),
                None => None,
            }
        }),
{
    let spelled = seq![
        92u8,
        (48 + byte / 64) as u8,
        (48 + (byte / 8) % 8) as u8,
        (48 + byte % 8) as u8,
    ];
    let text = spelled + rest;
    assert(text.skip(4) =~= rest);
    assert(text[0] == 92 && text[1] == spelled[1] && text[2] == spelled[2] && text[3]
        == spelled[3]);
    assert(octal_value(text[1], text[2], text[3]) == byte);
}

proof fn lemma_split_once_parts(text: Seq<char>, pattern: Seq<char>)
    ensures
        split_once(text, pattern) matches Some((before, after)) ==> text == before + pattern
            + after,
    decreases text.len(),
{
    if starts_with(text, pattern) {
        assert(text =~= Seq::<char>::empty() + pattern + text.skip(pattern.len() as int));
    } else if text.len() > 0 {
        lemma_split_once_parts(text.skip(1), pattern);
        if split_once(text.skip(1), pattern) is Some {
            let (before, after) = split_once(text.skip(1), pattern)->Some_0;
            assert(text =~= seq![text[0]] + text.skip(1));
            assert(text =~= seq![text[0]] + before + pattern + after);
        }
    }
}

/// The group is the path of the one line that begins with `0::`, and every other
/// line says nothing of it.
pub proof fn law_membership_is_the_unified_line(path: Seq<char>, other: Seq<Seq<char>>)
    ensures
        is_normalized(path) ==> membership_after(None, seq!['0', ':', ':'] + path) == Some(
            Some(components(path)),
        ),
        !is_normalized(path) ==> membership_after(None, seq!['0', ':', ':'] + path) is None,
        membership_after(Some(other), seq!['0', ':', ':'] + path) is None,
{
    reveal_strlit(":");
    reveal_strlit("0");
    let colon = ":"@;
    let text = seq!['0', ':', ':'] + path;
    assert("0"@ =~= seq!['0']);
    assert(text.skip(1) =~= seq![':', ':'] + path);
    assert(text.skip(1).take(1) =~= colon);
    assert(text.skip(1).skip(1) =~= seq![':'] + path);
    assert((seq![':'] + path).take(1) =~= colon);
    assert((seq![':'] + path).skip(1) =~= path);
    assert(text.take(1)[0] == '0');
    assert(colon[0] == ':');
    reveal_with_fuel(split_once, 3);
    assert(seq!['0'] + Seq::<char>::empty() =~= seq!['0']);
    assert(split_once(text, colon) == Some((seq!['0'], seq![':'] + path)));
    assert(split_once(seq![':'] + path, colon) == Some((Seq::<char>::empty(), path)));
}

/// Whether a line says that the group is found in a cgroup2 mount: the fourth
/// field is the root that is mounted, a parent of the group; the fifth is where;
/// the filesystem stands behind the dash.
pub open spec fn says_mount(
    line: Seq<char>,
    mount: Seq<char>,
    filesystem: Seq<char>,
    group: Seq<Seq<char>>,
    found: MountText,
) -> bool {
    &&& line == mount + seq![' ', '-', ' '] + filesystem
    &&& words(filesystem, true).len() > 0
    &&& words(filesystem, true)[0] == "cgroup2"@
    &&& words(mount, true).len() >= 6
    &&& mounted_path(words(mount, true)[4]) == Some(found.mountpoint)
    &&& mounted_path(words(mount, true)[3]) matches Some(root) && components(root) + found.relative
        == group && found.depth == components(root).len()
}

/// A mount that holds the group says so.
pub proof fn law_mount_holds_the_group(line: Seq<char>, group: Seq<Seq<char>>)
    ensures
        mount_of(line, group) matches Some(Some(found)) ==> exists|
            mount: Seq<char>,
            filesystem: Seq<char>,
        | #[trigger] says_mount(line, mount, filesystem, group, found),
{
    reveal_strlit(" - ");
    assert(" - "@ =~= seq![' ', '-', ' ']);
    lemma_split_once_parts(line, " - "@);
    if mount_of(line, group) is Some && mount_of(line, group)->Some_0 is Some {
        let found = mount_of(line, group)->Some_0->Some_0;
        let (mount, filesystem) = split_once(line, " - "@)->Some_0;
        let root = mounted_path(words(mount, true)[3])->Some_0;
        assert(components(root) + group.skip(components(root).len() as int) =~= group);
        assert(says_mount(line, mount, filesystem, group, found));
    }
}

/// A group is resolved exactly where the process is in one and one mount holds
/// it: then to that mount and to what is left of the group below it.
pub proof fn law_group_is_resolved_below_its_mount(
    cgroup: &str,
    mountinfo: &str,
    resolved: Option<(String, Vec<String>)>,
)
    requires
        call_ensures(resolve_cgroup_v2_path, (cgroup, mountinfo), resolved),
    ensures
        resolved matches Some((mountpoint, relative)) ==> (membership(lines(cgroup@)) matches Some(
            Some(group),
        ) && selected_mount(lines(mountinfo@), group) matches Some(Some(found)) && mountpoint@
            == found.mountpoint && texts(relative@) == group.skip(found.depth as int)),
        resolved is None ==> (membership(lines(cgroup@)) matches Some(Some(group)) ==> !(
        selected_mount(lines(mountinfo@), group) matches Some(Some(_)))),
{
    if resolved is Some {
        let group = membership(lines(cgroup@))->Some_0->Some_0;
        law_selected_mount_holds_the_group(lines(mountinfo@), group);
    }
}

} // verus!
