//! The process environment: daemon defaults, image entries, then overrides.

use vstd::prelude::*;

use crate::error::{invalid_run, RuntimeError, RuntimeFault};
use crate::text::{
    chars_between, chars_of, has_char, join, position, push_text, same_text, string_of, texts,
};

verus! {

/// The search path of a process whose image names none.
pub const DEFAULT_PATH: &'static str =
    "/usr/local/sbin:/usr/local/bin:/usr/sbin:/usr/bin:/sbin:/bin";

/// The text before the first `=`, or all of it when there is none.
pub open spec fn key_of(entry: Seq<char>) -> Seq<char> {
    match entry.index_of_first('=') {
        Some(i) => entry.take(i),
        None => entry,
    }
}

/// The key of each entry.
pub open spec fn keys_of(entries: Seq<Seq<char>>) -> Seq<Seq<char>> {
    Seq::new(entries.len(), |i: int| key_of(entries[i]))
}

/// Why an entry is refused, if it is.
pub open spec fn entry_fault(entry: Seq<char>) -> Option<RuntimeFault> {
    if entry.contains('\0') {
        Some(invalid_run("image.env"@, "environment entry contains NUL"@))
    } else if !entry.contains('=') {
        Some(invalid_run("image.env"@, "environment entry must contain '='"@))
    } else if key_of(entry).len() == 0 {
        Some(invalid_run("image.env"@, "environment key must not be empty"@))
    } else {
        None
    }
}

/// The refusal of the first refused entry, if any is.
pub open spec fn first_entry_fault(entries: Seq<Seq<char>>) -> Option<RuntimeFault>
    decreases entries.len(),
{
    if entries.len() == 0 {
        None
    } else {
        match first_entry_fault(entries.drop_last()) {
            Some(fault) => Some(fault),
            None => entry_fault(entries.last()),
        }
    }
}

/// The entries with one more: it takes the place of the last entry with its
/// key, or follows them all when its key is new.
pub open spec fn override_entry(entries: Seq<Seq<char>>, entry: Seq<char>) -> Seq<Seq<char>> {
    match keys_of(entries).index_of_last(key_of(entry)) {
        Some(i) => entries.update(i, entry),
        None => entries.push(entry),
    }
}

pub open spec fn has_default(key: Seq<char>) -> bool {
    key == "PATH"@ || key == "HOSTNAME"@
}

/// The entries with one more from the image: only an entry for a daemon
/// default takes another's place.
pub open spec fn image_entry(entries: Seq<Seq<char>>, entry: Seq<char>) -> Seq<Seq<char>> {
    if has_default(key_of(entry)) {
        override_entry(entries, entry)
    } else {
        entries.push(entry)
    }
}

pub open spec fn with_image(entries: Seq<Seq<char>>, image: Seq<Seq<char>>) -> Seq<Seq<char>>
    decreases image.len(),
{
    if image.len() == 0 {
        entries
    } else {
        image_entry(with_image(entries, image.drop_last()), image.last())
    }
}

pub open spec fn with_overrides(
    entries: Seq<Seq<char>>,
    overrides: Seq<Seq<char>>,
) -> Seq<Seq<char>>
    decreases overrides.len(),
{
    if overrides.len() == 0 {
        entries
    } else {
        override_entry(with_overrides(entries, overrides.drop_last()), overrides.last())
    }
}

/// The daemon's own entries.
pub open spec fn default_entries(hostname: Seq<char>) -> Seq<Seq<char>> {
    seq!["PATH="@ + DEFAULT_PATH@, "HOSTNAME="@ + hostname]
}

/// The merged environment, or why it is refused.
pub open spec fn environment_outcome(
    image: Seq<Seq<char>>,
    overrides: Seq<Seq<char>>,
    hostname: Seq<char>,
) -> Result<Seq<Seq<char>>, RuntimeFault> {
    match first_entry_fault(image) {
        Some(fault) => Err(fault),
        None => match first_entry_fault(overrides) {
            Some(fault) => Err(fault),
            None => Ok(with_overrides(with_image(default_entries(hostname), image), overrides)),
        },
    }
}

/// The outcome of a step that yields a list of strings, read as text.
pub open spec fn texts_outcome(result: Result<Vec<String>, RuntimeError>) -> Result<
    Seq<Seq<char>>,
    RuntimeFault,
> {
    match result {
        Ok(items) => Ok(texts(items@)),
        Err(error) => Err(error@),
    }
}

/// Merges the daemon defaults, the image's entries and the overrides.
pub fn merge_environment(image: &Vec<String>, overrides: &Vec<String>, hostname: &str) -> (merged:
    Result<Vec<String>, RuntimeError>)
    ensures
        texts_outcome(merged) == environment_outcome(texts(image@), texts(overrides@), hostname@),
{
    let mut merged: Vec<String> = Vec::new();
    push_text(&mut merged, &join("PATH=", DEFAULT_PATH));
    push_text(&mut merged, &join("HOSTNAME=", hostname));
    assert(texts(merged@) =~= default_entries(hostname@));
    let ghost base = default_entries(hostname@);
    let ghost all = texts(image@);
    let mut i: usize = 0;
    assert(all.take(0) =~= Seq::<Seq<char>>::empty());
    while i < image.len()
        invariant
            i <= image@.len(),
            all == texts(image@),
            first_entry_fault(all.take(i as int)) is None,
            texts(merged@) == with_image(base, all.take(i as int)),
        decreases image@.len() - i,
    {
        let ghost next = all.take(i + 1);
        assert(next.drop_last() =~= all.take(i as int));
        assert(next.last() == image@[i as int]@);
        match environment_key(&image[i]) {
            Err(error) => {
                proof {
                    lemma_first_fault_prefix(all, i + 1);
                }
                return Err(error);
            },
            Ok(key) => {
                if same_text(&key, "PATH") || same_text(&key, "HOSTNAME") {
                    replace_or_push(&mut merged, &key, &image[i]);
                } else {
                    push_text(&mut merged, &image[i]);
                }
            },
        }
        i += 1;
    }
    assert(all.take(i as int) =~= all);
    let ghost with_all = texts(merged@);
    let ghost more = texts(overrides@);
    let mut j: usize = 0;
    assert(more.take(0) =~= Seq::<Seq<char>>::empty());
    while j < overrides.len()
        invariant
            j <= overrides@.len(),
            more == texts(overrides@),
            all == texts(image@),
            first_entry_fault(all) is None,
            first_entry_fault(more.take(j as int)) is None,
            texts(merged@) == with_overrides(with_all, more.take(j as int)),
        decreases overrides@.len() - j,
    {
        let ghost next = more.take(j + 1);
        assert(next.drop_last() =~= more.take(j as int));
        assert(next.last() == overrides@[j as int]@);
        match environment_key(&overrides[j]) {
            Err(error) => {
                proof {
                    lemma_first_fault_prefix(more, j + 1);
                }
                return Err(error);
            },
            Ok(key) => {
                replace_or_push(&mut merged, &key, &overrides[j]);
            },
        }
        j += 1;
    }
    assert(more.take(j as int) =~= more);
    Ok(merged)
}

/// Puts an entry in the place of the last one with its key, or at the end.
fn replace_or_push(entries: &mut Vec<String>, key: &str, entry: &str)
    requires
        key@ == key_of(entry@),
    ensures
        texts(final(entries)@) == override_entry(texts(old(entries)@), entry@),
{
    let ghost before = texts(entries@);
    let ghost keys = keys_of(before);
    proof {
        keys.index_of_last_ensures(key@);
    }
    let mut i: usize = entries.len();
    while i > 0
        invariant
            i <= entries@.len(),
            texts(entries@) == before,
            before == texts(old(entries)@),
            keys == keys_of(before),
            key@ == key_of(entry@),
            forall|j: int| i <= j < keys.len() ==> keys[j] != key@,
        decreases i,
    {
        i -= 1;
        let candidate = environment_key_unchecked(&entries[i]);
        assert(keys[i as int] == candidate@);
        if same_text(&candidate, key) {
            proof {
                keys.index_of_last_ensures(key@);
                assert(keys.contains(key@));
                assert(keys.index_of_last(key@) == Some(i as int));
            }
            entries[i] = entry.to_owned();
            assert(texts(entries@) =~= before.update(i as int, entry@));
            return ;
        }
    }
    assert(!keys.contains(key@));
    push_text(entries, entry);
}

/// The key of an entry that must be a `key=value` pair.
pub fn environment_key(value: &str) -> (key: Result<String, RuntimeError>)
    ensures
        match key {
            Ok(key) => entry_fault(value@) is None && key@ == key_of(value@),
            Err(error) => entry_fault(value@) == Some(error@),
        },
{
    if has_char(value, '\0') {
        return Err(RuntimeError::invalid("image.env", "environment entry contains NUL"));
    }
    let chars = chars_of(value);
    match position(&chars, '=') {
        None => Err(RuntimeError::invalid("image.env", "environment entry must contain '='")),
        Some(at) => {
            assert(chars@.subrange(0, at as int) =~= chars@.take(at as int));
            if at == 0 {
                return Err(RuntimeError::invalid("image.env", "environment key must not be empty"));
            }
            Ok(string_of(&chars_between(&chars, 0, at)))
        },
    }
}

/// The key of any text.
pub fn environment_key_unchecked(value: &str) -> (key: String)
    ensures
        key@ == key_of(value@),
{
    let chars = chars_of(value);
    match position(&chars, '=') {
        None => value.to_owned(),
        Some(at) => {
            assert(chars@.subrange(0, at as int) =~= chars@.take(at as int));
            string_of(&chars_between(&chars, 0, at))
        },
    }
}

/// A refusal in a prefix is the refusal of the whole.
proof fn lemma_first_fault_prefix(entries: Seq<Seq<char>>, n: int)
    requires
        0 <= n <= entries.len(),
        first_entry_fault(entries.take(n)) is Some,
    ensures
        first_entry_fault(entries) == first_entry_fault(entries.take(n)),
    decreases entries.len(),
{
    if n == entries.len() {
        assert(entries.take(n) =~= entries);
    } else {
        assert(entries.drop_last().take(n) =~= entries.take(n));
        lemma_first_fault_prefix(entries.drop_last(), n);
    }
}

/// The last entry with the key, if there is one.
pub open spec fn final_entry(entries: Seq<Seq<char>>, key: Seq<char>) -> Option<Seq<char>> {
    match keys_of(entries).index_of_last(key) {
        Some(i) => Some(entries[i]),
        None => None,
    }
}

/// An override decides the entry of its own key and of no other.
proof fn lemma_override_entry(entries: Seq<Seq<char>>, entry: Seq<char>, key: Seq<char>)
    ensures
        final_entry(override_entry(entries, entry), key) == if key == key_of(entry) {
            Some(entry)
        } else {
            final_entry(entries, key)
        },
{
    let before = keys_of(entries);
    let after_entries = override_entry(entries, entry);
    let after = keys_of(after_entries);
    let own = key_of(entry);
    before.index_of_last_ensures(own);
    before.index_of_last_ensures(key);
    after.index_of_last_ensures(key);
    if before.contains(own) {
        assert(after =~= before);
    } else {
        assert(after =~= before.push(own));
        assert(after[before.len() as int] == own);
        if key == own {
            assert(after.contains(key));
            assert(after.index_of_last(key) == Some(before.len() as int));
        } else if before.contains(key) {
            let i = before.index_of_last(key).unwrap();
            assert(after[i] == key);
            assert(after.contains(key));
            let k = after.index_of_last(key).unwrap();
            assert(before[k] == key);
        } else {
            if after.contains(key) {
                let k = choose|k: int| 0 <= k < after.len() && after[k] == key;
                assert(before[k] == key);
            }
        }
    }
}

/// Repeated overrides have a stable last-value-wins result: the final entry
/// of a key is the last override of that key, or what it was before when no
/// override names the key.
pub proof fn law_last_override_wins(
    entries: Seq<Seq<char>>,
    overrides: Seq<Seq<char>>,
    key: Seq<char>,
)
    ensures
        final_entry(with_overrides(entries, overrides), key) == match final_entry(overrides, key) {
            Some(entry) => Some(entry),
            None => final_entry(entries, key),
        },
    decreases overrides.len(),
{
    let keys = keys_of(overrides);
    keys.index_of_last_ensures(key);
    if overrides.len() > 0 {
        let shorter = overrides.drop_last();
        law_last_override_wins(entries, shorter, key);
        lemma_override_entry(with_overrides(entries, shorter), overrides.last(), key);
        let shorter_keys = keys_of(shorter);
        shorter_keys.index_of_last_ensures(key);
        if key == key_of(overrides.last()) {
            assert(keys[overrides.len() - 1] == key);
            assert(keys.contains(key));
        } else {
            if shorter_keys.contains(key) {
                let i = shorter_keys.index_of_last(key).unwrap();
                assert(keys[i] == key);
                assert(keys.contains(key));
                let k = keys.index_of_last(key).unwrap();
                assert(shorter_keys[k] == key);
            } else if keys.contains(key) {
                let k = choose|k: int| 0 <= k < keys.len() && keys[k] == key;
                assert(shorter_keys[k] == key);
            }
        }
    }
}

/// The daemon's `PATH` and `HOSTNAME` slots stay in front through every image
/// entry and override, whatever value they end with.
pub proof fn law_default_slots_stay_in_front(
    image: Seq<Seq<char>>,
    overrides: Seq<Seq<char>>,
    hostname: Seq<char>,
)
    ensures
        with_overrides(with_image(default_entries(hostname), image), overrides).len() >= 2,
        key_of(with_overrides(with_image(default_entries(hostname), image), overrides)[0])
            == "PATH"@,
        key_of(with_overrides(with_image(default_entries(hostname), image), overrides)[1])
            == "HOSTNAME"@,
    decreases image.len() + overrides.len(),
{
    let merged = with_overrides(with_image(default_entries(hostname), image), overrides);
    if overrides.len() > 0 {
        law_default_slots_stay_in_front(image, overrides.drop_last(), hostname);
        let before = with_overrides(
            with_image(default_entries(hostname), image),
            overrides.drop_last(),
        );
        keys_of(before).index_of_last_ensures(key_of(overrides.last()));
    } else if image.len() > 0 {
        law_default_slots_stay_in_front(image.drop_last(), overrides, hostname);
        let before = with_image(default_entries(hostname), image.drop_last());
        assert(with_overrides(before, overrides) == before);
        keys_of(before).index_of_last_ensures(key_of(image.last()));
    } else {
        reveal_strlit("PATH=");
        reveal_strlit("PATH");
        reveal_strlit("HOSTNAME=");
        reveal_strlit("HOSTNAME");
        lemma_key_before_equals("PATH"@, DEFAULT_PATH@);
        lemma_key_before_equals("HOSTNAME"@, hostname);
        assert("PATH="@ =~= "PATH"@.push('='));
        assert("HOSTNAME="@ =~= "HOSTNAME"@.push('='));
    }
}

proof fn lemma_key_before_equals(key: Seq<char>, value: Seq<char>)
    requires
        !key.contains('='),
    ensures
        key_of(key.push('=') + value) == key,
{
    let entry = key.push('=') + value;
    entry.index_of_first_ensures('=');
    assert(entry[key.len() as int] == '=');
    assert(entry.contains('='));
    let i = entry.index_of_first('=').unwrap();
    if i < key.len() {
        assert(key[i] == entry[i]);
    }
    assert(entry.take(i) =~= key);
}

/// Whether an entry is one: `KEY=value` with a key and without a zero byte.
pub open spec fn is_entry(entry: Seq<char>) -> bool {
    &&& !entry.contains('\0')
    &&& entry.contains('=')
    &&& entry[0] != '='
}

/// An environment is made exactly where all that it is made of are entries.
pub proof fn law_environment_needs_entries(
    image: Vec<String>,
    overrides: Vec<String>,
    hostname: &str,
    merged: Result<Vec<String>, RuntimeError>,
)
    requires
        call_ensures(merge_environment, (&image, &overrides, hostname), merged),
    ensures
        merged is Ok <==> {
            &&& forall|i: int| 0 <= i < image@.len() ==> is_entry((#[trigger] image@[i])@)
            &&& forall|i: int| 0 <= i < overrides@.len() ==> is_entry((#[trigger] overrides@[i])@)
        },
{
    lemma_text_entries(image@);
    lemma_text_entries(overrides@);
    let image = texts(image@);
    let overrides = texts(overrides@);
    lemma_entries(image);
    lemma_entries(overrides);
}

proof fn lemma_entries(entries: Seq<Seq<char>>)
    ensures
        first_entry_fault(entries) is None <==> forall|i: int|
            0 <= i < entries.len() ==> is_entry(#[trigger] entries[i]),
    decreases entries.len(),
{
    if entries.len() > 0 {
        let front = entries.drop_last();
        lemma_entries(front);
        lemma_entry(entries.last());
        if first_entry_fault(entries) is None {
            assert forall|i: int| 0 <= i < entries.len() implies is_entry(#[trigger] entries[i]) by {
                if i < front.len() {
                    assert(front[i] == entries[i]);
                }
            }
        }
        if forall|i: int| 0 <= i < entries.len() ==> is_entry(#[trigger] entries[i]) {
            assert forall|i: int| 0 <= i < front.len() implies is_entry(#[trigger] front[i]) by {
                assert(front[i] == entries[i]);
            }
            assert(entries[entries.len() - 1] == entries.last());
        }
    }
}

proof fn lemma_entry(entry: Seq<char>)
    ensures
        entry_fault(entry) is None <==> is_entry(entry),
{
    entry.index_of_first_ensures('=');
    if entry.contains('=') {
        let at = entry.index_of_first('=')->Some_0;
        assert(entry[at] == '=');
        if at > 0 {
            assert(entry[0] != '=');
        }
    }
}

/// What the process finds under a key: the run's last entry for it, else the
/// image's last, else the usual search path or the host's name; any other key
/// is not there.
pub proof fn law_nearest_entry_is_found(
    image: Vec<String>,
    overrides: Vec<String>,
    hostname: &str,
    key: Seq<char>,
    merged: Vec<String>,
)
    requires
        call_ensures(merge_environment, (&image, &overrides, hostname), Ok(merged)),
    ensures
        final_entry(texts(merged@), key) == match (
            final_entry(texts(overrides@), key),
            final_entry(texts(image@), key),
        ) {
            (Some(entry), _) => Some(entry),
            (None, Some(entry)) => Some(entry),
            (None, None) => if key == "PATH"@ {
                Some("PATH=/usr/local/sbin:/usr/local/bin:/usr/sbin:/usr/bin:/sbin:/bin"@)
            } else if key == "HOSTNAME"@ {
                Some("HOSTNAME="@ + hostname@)
            } else {
                None
            },
        },
{
    let image = texts(image@);
    let overrides = texts(overrides@);
    let hostname = hostname@;
    law_last_override_wins(with_image(default_entries(hostname), image), overrides, key);
    lemma_image_wins(default_entries(hostname), image, key);
    lemma_defaults(hostname, key);
}

proof fn lemma_image_wins(entries: Seq<Seq<char>>, image: Seq<Seq<char>>, key: Seq<char>)
    ensures
        final_entry(with_image(entries, image), key) == match final_entry(image, key) {
            Some(entry) => Some(entry),
            None => final_entry(entries, key),
        },
    decreases image.len(),
{
    if image.len() > 0 {
        let front = image.drop_last();
        let last = image.last();
        lemma_image_wins(entries, front, key);
        assert(front.push(last) =~= image);
        lemma_pushed(front, last, key);
        let before = with_image(entries, front);
        if has_default(key_of(last)) {
            lemma_overridden(before, last, key);
        } else {
            lemma_pushed(before, last, key);
        }
    } else {
        keys_of(image).index_of_last_ensures(key);
    }
}

proof fn lemma_pushed(entries: Seq<Seq<char>>, entry: Seq<char>, key: Seq<char>)
    ensures
        final_entry(entries.push(entry), key) == if key_of(entry) == key {
            Some(entry)
        } else {
            final_entry(entries, key)
        },
{
    let keys = keys_of(entries);
    let more = keys_of(entries.push(entry));
    assert(more =~= keys.push(key_of(entry)));
    keys.index_of_last_ensures(key);
    more.index_of_last_ensures(key);
    if key_of(entry) == key {
        assert(more[keys.len() as int] == key);
        assert(more.contains(key));
    } else if keys.contains(key) {
        let at = keys.index_of_last(key)->Some_0;
        assert(more[at] == key);
        assert(more.contains(key));
    } else if more.contains(key) {
        let at = more.index_of(key);
        assert(keys[at] == key);
    }
}

proof fn lemma_overridden(entries: Seq<Seq<char>>, entry: Seq<char>, key: Seq<char>)
    ensures
        final_entry(override_entry(entries, entry), key) == if key_of(entry) == key {
            Some(entry)
        } else {
            final_entry(entries, key)
        },
{
    law_last_override_wins(entries, seq![entry], key);
    assert(seq![entry].drop_last() =~= Seq::<Seq<char>>::empty());
    reveal_with_fuel(with_overrides, 2);
    assert(seq![entry] =~= Seq::<Seq<char>>::empty().push(entry));
    lemma_pushed(Seq::empty(), entry, key);
    keys_of(Seq::<Seq<char>>::empty()).index_of_last_ensures(key);
}

proof fn lemma_defaults(hostname: Seq<char>, key: Seq<char>)
    ensures
        final_entry(default_entries(hostname), key) == if key == "PATH"@ {
            Some("PATH=/usr/local/sbin:/usr/local/bin:/usr/sbin:/usr/bin:/sbin:/bin"@)
        } else if key == "HOSTNAME"@ {
            Some("HOSTNAME="@ + hostname)
        } else {
            None
        },
{
    reveal_strlit("PATH=");
    reveal_strlit("PATH");
    reveal_strlit("HOSTNAME=");
    reveal_strlit("HOSTNAME");
    reveal_strlit("/usr/local/sbin:/usr/local/bin:/usr/sbin:/usr/bin:/sbin:/bin");
    reveal_strlit("PATH=/usr/local/sbin:/usr/local/bin:/usr/sbin:/usr/bin:/sbin:/bin");
    let path = "PATH="@ + DEFAULT_PATH@;
    let host = "HOSTNAME="@ + hostname;
    assert(path =~= "PATH=/usr/local/sbin:/usr/local/bin:/usr/sbin:/usr/bin:/sbin:/bin"@);
    path.index_of_first_ensures('=');
    host.index_of_first_ensures('=');
    assert(path[4] == '=');
    assert(host[8] == '=');
    assert(path.take(4) =~= "PATH"@);
    assert(host.take(8) =~= "HOSTNAME"@);
    assert(default_entries(hostname) =~= Seq::<Seq<char>>::empty().push(path).push(host));
    lemma_pushed(Seq::empty(), path, key);
    lemma_pushed(Seq::empty().push(path), host, key);
    keys_of(Seq::<Seq<char>>::empty()).index_of_last_ensures(key);
}

proof fn lemma_text_entries(items: Seq<String>)
    ensures
        (forall|i: int| 0 <= i < items.len() ==> is_entry((#[trigger] items[i])@)) <==> (forall|
            i: int,
        |
            0 <= i < texts(items).len() ==> is_entry(#[trigger] texts(items)[i])),
{
    if forall|i: int| 0 <= i < items.len() ==> is_entry((#[trigger] items[i])@) {
        assert forall|i: int| 0 <= i < texts(items).len() implies is_entry(
            #[trigger] texts(items)[i],
        ) by {
            assert(is_entry(items[i]@));
        }
    }
    if forall|i: int| 0 <= i < texts(items).len() ==> is_entry(#[trigger] texts(items)[i]) {
        assert forall|i: int| 0 <= i < items.len() implies is_entry((#[trigger] items[i])@) by {
            assert(is_entry(texts(items)[i]));
        }
    }
}

/// The key of an entry is what stands before its first equals sign.
pub proof fn law_key_stands_before_the_sign(
    entry: &str,
    key: Seq<char>,
    value: Seq<char>,
    found: Result<String, RuntimeError>,
    plain: String,
)
    requires
        entry@ == key + seq!['='] + value,
        !key.contains('='),
        call_ensures(environment_key, (entry,), found),
        call_ensures(environment_key_unchecked, (entry,), plain),
    ensures
        plain@ == key,
        found is Ok <==> key.len() > 0 && !entry@.contains('\0'),
        found matches Ok(found) ==> found@ == key,
{
    lemma_entry(entry@);
    entry@.index_of_first_ensures('=');
    assert(entry@[key.len() as int] == '=');
    let at = entry@.index_of_first('=')->Some_0;
    if at < key.len() {
        assert(key[at] == entry@[at]);
        assert(key.contains('='));
    }
    assert(entry@.take(at) =~= key);
    if key.len() > 0 {
        assert(entry@[0] == key[0]);
        assert(key.contains(key[0]));
    }
}

} // verus!
