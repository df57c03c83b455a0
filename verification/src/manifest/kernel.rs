//! The normalized kernel configuration.

use vstd::prelude::*;
use vstd::utf8::*;

use crate::error::{first_of, invalid_field, manifest_fault, ManifestError, ManifestFault};
use crate::manifest::CpuManifest;
use crate::text::{
    chars_between, chars_of, decimal, decimal_text, ends_with, has_prefix, has_suffix, join, lines,
    lines_of, pieces, position, same_text, starts_with, string_of, utf8_text,
};

verus! {

/// Most bytes of a kernel configuration.
pub const MAX_CONFIG_BYTES: usize = 4 * 1024 * 1024;

/// One setting of a kernel configuration.
#[derive(Debug)]
pub struct Setting {
    pub key: String,
    pub value: String,
}

pub open spec fn setting_pairs(settings: Seq<Setting>) -> Seq<(Seq<char>, Seq<char>)> {
    Seq::new(settings.len(), |i: int| (settings[i].key@, settings[i].value@))
}

/// The text between the two that enclose it.
pub open spec fn enclosed(line: Seq<char>, prefix: Seq<char>, suffix: Seq<char>) -> Option<
    Seq<char>,
> {
    if starts_with(line, prefix) && ends_with(line.skip(prefix.len() as int), suffix) {
        Some(line.subrange(prefix.len() as int, line.len() - suffix.len()))
    } else {
        None
    }
}

/// The setting that a line makes: `CONFIG_X=value`, or `n` for a line that
/// says `# CONFIG_X is not set`.
pub open spec fn line_setting(line: Seq<char>) -> Option<(Seq<char>, Seq<char>)> {
    match line.index_of_first('=') {
        Some(at) => if starts_with(line.take(at), "CONFIG_"@) {
            Some((line.take(at), line.skip(at + 1)))
        } else {
            None
        },
        None => match enclosed(line, "# "@, " is not set"@) {
            Some(key) => if starts_with(key, "CONFIG_"@) {
                Some((key, "n"@))
            } else {
                None
            },
            None => None,
        },
    }
}

/// The settings that the lines make, in order.
pub open spec fn settings_of(all: Seq<Seq<char>>) -> Seq<(Seq<char>, Seq<char>)>
    decreases all.len(),
{
    if all.len() == 0 {
        Seq::empty()
    } else {
        match line_setting(all.last()) {
            Some(setting) => settings_of(all.drop_last()).push(setting),
            None => settings_of(all.drop_last()),
        }
    }
}

/// The value of the first setting with the key.
pub open spec fn lookup(settings: Seq<(Seq<char>, Seq<char>)>, key: Seq<char>) -> Option<
    Seq<char>,
>
    decreases settings.len(),
{
    if settings.len() == 0 {
        None
    } else {
        first_of(
            lookup(settings.drop_last(), key),
            if settings.last().0 == key {
                Some(settings.last().1)
            } else {
                None
            },
        )
    }
}

/// A configuration may make each setting once.
pub open spec fn duplicate_fault(settings: Seq<(Seq<char>, Seq<char>)>) -> Option<ManifestFault>
    decreases settings.len(),
{
    if settings.len() == 0 {
        None
    } else {
        first_of(
            duplicate_fault(settings.drop_last()),
            if lookup(settings.drop_last(), settings.last().0) is Some {
                Some(
                    invalid_field(
                        "normalized_kernel_config"@,
                        "duplicate setting "@ + settings.last().0,
                    ),
                )
            } else {
                None
            },
        )
    }
}

/// A setting must have the expected value.
pub open spec fn setting_fault(
    path: Seq<char>,
    settings: Seq<(Seq<char>, Seq<char>)>,
    setting: Seq<char>,
    expected: Seq<char>,
) -> Option<ManifestFault> {
    let actual = match lookup(settings, setting) {
        Some(value) => value,
        None => "<missing>"@,
    };
    if actual == expected {
        None
    } else {
        Some(ManifestFault::KernelConfig { path, setting, expected, actual })
    }
}

/// The settings that every supported kernel has.
pub open spec fn required_settings(smp: bool) -> Seq<(Seq<char>, Seq<char>)> {
    seq![
        ("CONFIG_UML"@, "y"@),
        ("CONFIG_64BIT"@, "y"@),
        ("CONFIG_X86_64"@, "y"@),
        ("CONFIG_STATIC_LINK"@, "y"@),
        ("CONFIG_LD_SCRIPT_STATIC"@, "y"@),
        ("CONFIG_BLK_DEV_INITRD"@, "y"@),
        ("CONFIG_BLK_DEV_UBD"@, "y"@),
        ("CONFIG_BLK_DEV_UBD_SYNC"@, "n"@),
        ("CONFIG_BLK_DEV_LOOP"@, "n"@),
        ("CONFIG_BLK_DEV_NBD"@, "n"@),
        ("CONFIG_EXT4_FS"@, "y"@),
        ("CONFIG_EXT4_FS_POSIX_ACL"@, "y"@),
        ("CONFIG_EXT4_FS_SECURITY"@, "y"@),
        ("CONFIG_TMPFS"@, "y"@),
        ("CONFIG_PROC_FS"@, "y"@),
        ("CONFIG_SYSFS"@, "y"@),
        ("CONFIG_DEVTMPFS"@, "y"@),
        ("CONFIG_DEVTMPFS_MOUNT"@, "y"@),
        ("CONFIG_BINFMT_ELF"@, "y"@),
        ("CONFIG_BINFMT_SCRIPT"@, "y"@),
        ("CONFIG_EPOLL"@, "y"@),
        ("CONFIG_FUTEX"@, "y"@),
        ("CONFIG_TIMERFD"@, "y"@),
        ("CONFIG_EVENTFD"@, "y"@),
        ("CONFIG_MEMFD_CREATE"@, "y"@),
        ("CONFIG_SIGNALFD"@, "y"@),
        ("CONFIG_SECCOMP"@, "y"@),
        ("CONFIG_SECCOMP_FILTER"@, "y"@),
        ("CONFIG_NAMESPACES"@, "y"@),
        ("CONFIG_UTS_NS"@, "y"@),
        ("CONFIG_IPC_NS"@, "y"@),
        ("CONFIG_PID_NS"@, "y"@),
        ("CONFIG_SSL"@, "y"@),
        ("CONFIG_NULL_CHAN"@, "y"@),
        ("CONFIG_HOSTFS"@, "n"@),
        ("CONFIG_MCONSOLE"@, "n"@),
        ("CONFIG_MODULES"@, "n"@),
        ("CONFIG_UML_NET_VECTOR"@, "n"@),
        ("CONFIG_DEBUG_INFO_NONE"@, "y"@),
        ("CONFIG_IPV6"@, "n"@),
        ("CONFIG_USER_NS"@, "n"@),
        ("CONFIG_NETDEVICES"@, "n"@),
        ("CONFIG_SMP"@, if smp { "y"@ } else { "n"@ }),
    ]
}

/// The first required setting that a configuration does not have.
pub open spec fn each_setting_fault(
    path: Seq<char>,
    settings: Seq<(Seq<char>, Seq<char>)>,
    required: Seq<(Seq<char>, Seq<char>)>,
) -> Option<ManifestFault>
    decreases required.len(),
{
    if required.len() == 0 {
        None
    } else {
        first_of(
            each_setting_fault(path, settings, required.drop_last()),
            setting_fault(path, settings, required.last().0, required.last().1),
        )
    }
}

/// An SMP kernel is compiled for the declared number of CPUs.
pub open spec fn cpu_setting_fault(
    path: Seq<char>,
    settings: Seq<(Seq<char>, Seq<char>)>,
    cpu: CpuManifest,
) -> Option<ManifestFault> {
    if !cpu.smp_enabled {
        None
    } else {
        match cpu.compiled_nr_cpus {
            None => Some(
                invalid_field("cpu.compiled_nr_cpus"@, "missing for SMP profile"@),
            ),
            Some(compiled) => setting_fault(
                path,
                settings,
                "CONFIG_NR_CPUS"@,
                decimal(compiled as nat),
            ),
        }
    }
}

/// Why a kernel configuration is refused, if it is.
pub open spec fn kernel_config_fault(path: Seq<char>, bytes: Seq<u8>, cpu: CpuManifest) -> Option<
    ManifestFault,
> {
    if !valid_utf8(bytes) {
        Some(invalid_field("normalized_kernel_config"@, "is not UTF-8"@))
    } else {
        let settings = settings_of(lines(decode_utf8(bytes)));
        first_of(
            duplicate_fault(settings),
            first_of(
                each_setting_fault(path, settings, required_settings(cpu.smp_enabled)),
                cpu_setting_fault(path, settings, cpu),
            ),
        )
    }
}

/// Reads one line.
fn parse_line(line: &[char]) -> (setting: Option<Setting>)
    ensures
        match setting {
            Some(setting) => line_setting(line@) == Some((setting.key@, setting.value@)),
            None => line_setting(line@) is None,
        },
{
    let config = chars_of("CONFIG_");
    assert(line.len() == line@.len());
    match position(line, '=') {
        Some(at) => {
            let key = chars_between(line, 0, at);
            assert(key@ =~= line@.take(at as int));
            if has_prefix(&key, &config) {
                let value = chars_between(line, at + 1, line.len());
                assert(value@ =~= line@.skip(at + 1));
                Some(Setting { key: string_of(&key), value: string_of(&value) })
            } else {
                None
            }
        },
        None => {
            let prefix = chars_of("# ");
            let suffix = chars_of(" is not set");
            if !has_prefix(line, &prefix) {
                return None;
            }
            let rest = chars_between(line, prefix.len(), line.len());
            assert(rest@ =~= line@.skip(prefix@.len() as int));
            if !has_suffix(&rest, &suffix) {
                return None;
            }
            let key = chars_between(line, prefix.len(), line.len() - suffix.len());
            if has_prefix(&key, &config) {
                Some(Setting { key: string_of(&key), value: "n".to_owned() })
            } else {
                None
            }
        },
    }
}

/// The value of the first setting with the key.
fn find_setting(settings: &Vec<Setting>, key: &str) -> (value: Option<String>)
    ensures
        match value {
            Some(value) => lookup(setting_pairs(settings@), key@) == Some(value@),
            None => lookup(setting_pairs(settings@), key@) is None,
        },
{
    let ghost all = setting_pairs(settings@);
    let mut found: Option<String> = None;
    let mut i: usize = 0;
    assert(all.take(0) =~= Seq::<(Seq<char>, Seq<char>)>::empty());
    while i < settings.len()
        invariant
            i <= settings@.len(),
            all == setting_pairs(settings@),
            match found {
                Some(value) => lookup(all.take(i as int), key@) == Some(value@),
                None => lookup(all.take(i as int), key@) is None,
            },
        decreases settings@.len() - i,
    {
        let ghost next = all.take(i + 1);
        assert(next.drop_last() =~= all.take(i as int));
        assert(next.last() == (settings@[i as int].key@, settings@[i as int].value@));
        if found.is_none() && same_text(&settings[i].key, key) {
            found = Some(settings[i].value.clone());
        }
        i += 1;
    }
    assert(all.take(i as int) =~= all);
    found
}

/// A refusal of earlier settings is the refusal of the whole.
proof fn lemma_duplicate_prefix(settings: Seq<(Seq<char>, Seq<char>)>, n: int)
    requires
        0 <= n <= settings.len(),
        duplicate_fault(settings.take(n)) is Some,
    ensures
        duplicate_fault(settings) == duplicate_fault(settings.take(n)),
    decreases settings.len(),
{
    if n == settings.len() {
        assert(settings.take(n) =~= settings);
    } else {
        assert(settings.drop_last().take(n) =~= settings.take(n));
        lemma_duplicate_prefix(settings.drop_last(), n);
    }
}

/// The settings of earlier lines come first.
proof fn lemma_settings_prefix(all: Seq<Seq<char>>, n: int)
    requires
        0 <= n <= all.len(),
    ensures
        settings_of(all.take(n)).len() <= settings_of(all).len(),
        settings_of(all).take(settings_of(all.take(n)).len() as int) == settings_of(all.take(n)),
    decreases all.len(),
{
    if n == all.len() {
        assert(all.take(n) =~= all);
        assert(settings_of(all).take(settings_of(all).len() as int) =~= settings_of(all));
    } else {
        assert(all.drop_last().take(n) =~= all.take(n));
        lemma_settings_prefix(all.drop_last(), n);
        let shorter = settings_of(all.drop_last());
        let k = settings_of(all.take(n)).len() as int;
        assert(settings_of(all).take(k) =~= shorter.take(k));
    }
}

fn parse_settings(all: &Vec<Vec<char>>) -> (settings: Result<Vec<Setting>, ManifestError>)
    ensures
        match settings {
            Ok(settings) => setting_pairs(settings@) == settings_of(pieces(all@))
                && duplicate_fault(settings_of(pieces(all@))) is None,
            Err(error) => duplicate_fault(settings_of(pieces(all@))) == Some(error@),
        },
{
    let ghost text = pieces(all@);
    let mut settings: Vec<Setting> = Vec::new();
    let mut i: usize = 0;
    assert(text.take(0) =~= Seq::<Seq<char>>::empty());
    assert(setting_pairs(settings@) =~= Seq::<(Seq<char>, Seq<char>)>::empty());
    while i < all.len()
        invariant
            i <= all@.len(),
            text == pieces(all@),
            setting_pairs(settings@) == settings_of(text.take(i as int)),
            duplicate_fault(setting_pairs(settings@)) is None,
        decreases all@.len() - i,
    {
        let ghost next = text.take(i + 1);
        assert(next.drop_last() =~= text.take(i as int));
        assert(next.last() == all@[i as int]@);
        if let Some(setting) = parse_line(&all[i]) {
            let ghost before = setting_pairs(settings@);
            let ghost pair = (setting.key@, setting.value@);
            assert(before.push(pair).drop_last() =~= before);
            if find_setting(&settings, &setting.key).is_some() {
                proof {
                    let whole = settings_of(text);
                    let after = settings_of(next);
                    assert(after == before.push(pair));
                    lemma_settings_prefix(text, i + 1);
                    assert(duplicate_fault(after) is Some);
                    lemma_duplicate_prefix(whole, after.len() as int);
                }
                return Err(
                    ManifestError::invalid(
                        "normalized_kernel_config",
                        &join("duplicate setting ", &setting.key),
                    ),
                );
            }
            settings.push(setting);
            assert(setting_pairs(settings@) =~= before.push(pair));
        }
        i += 1;
    }
    assert(text.take(i as int) =~= text);
    Ok(settings)
}

pub open spec fn pair_texts(items: Seq<(&'static str, &'static str)>) -> Seq<
    (Seq<char>, Seq<char>),
> {
    Seq::new(items.len(), |i: int| (items[i].0@, items[i].1@))
}

fn required_table(smp: bool) -> (table: Vec<(&'static str, &'static str)>)
    ensures
        pair_texts(table@) == required_settings(smp),
{
    let table: Vec<(&'static str, &'static str)> = vec![
        ("CONFIG_UML", "y"),
        ("CONFIG_64BIT", "y"),
        ("CONFIG_X86_64", "y"),
        ("CONFIG_STATIC_LINK", "y"),
        ("CONFIG_LD_SCRIPT_STATIC", "y"),
        ("CONFIG_BLK_DEV_INITRD", "y"),
        ("CONFIG_BLK_DEV_UBD", "y"),
        ("CONFIG_BLK_DEV_UBD_SYNC", "n"),
        ("CONFIG_BLK_DEV_LOOP", "n"),
        ("CONFIG_BLK_DEV_NBD", "n"),
        ("CONFIG_EXT4_FS", "y"),
        ("CONFIG_EXT4_FS_POSIX_ACL", "y"),
        ("CONFIG_EXT4_FS_SECURITY", "y"),
        ("CONFIG_TMPFS", "y"),
        ("CONFIG_PROC_FS", "y"),
        ("CONFIG_SYSFS", "y"),
        ("CONFIG_DEVTMPFS", "y"),
        ("CONFIG_DEVTMPFS_MOUNT", "y"),
        ("CONFIG_BINFMT_ELF", "y"),
        ("CONFIG_BINFMT_SCRIPT", "y"),
        ("CONFIG_EPOLL", "y"),
        ("CONFIG_FUTEX", "y"),
        ("CONFIG_TIMERFD", "y"),
        ("CONFIG_EVENTFD", "y"),
        ("CONFIG_MEMFD_CREATE", "y"),
        ("CONFIG_SIGNALFD", "y"),
        ("CONFIG_SECCOMP", "y"),
        ("CONFIG_SECCOMP_FILTER", "y"),
        ("CONFIG_NAMESPACES", "y"),
        ("CONFIG_UTS_NS", "y"),
        ("CONFIG_IPC_NS", "y"),
        ("CONFIG_PID_NS", "y"),
        ("CONFIG_SSL", "y"),
        ("CONFIG_NULL_CHAN", "y"),
        ("CONFIG_HOSTFS", "n"),
        ("CONFIG_MCONSOLE", "n"),
        ("CONFIG_MODULES", "n"),
        ("CONFIG_UML_NET_VECTOR", "n"),
        ("CONFIG_DEBUG_INFO_NONE", "y"),
        ("CONFIG_IPV6", "n"),
        ("CONFIG_USER_NS", "n"),
        ("CONFIG_NETDEVICES", "n"),
        ("CONFIG_SMP", if smp { "y" } else { "n" }),
    ];
    assert(pair_texts(table@) =~= required_settings(smp));
    table
}

/// Refuses a setting that is absent or has another value.
pub fn require_config(path: &str, settings: &Vec<Setting>, setting: &str, expected: &str) -> (checked:
    Result<(), ManifestError>)
    ensures
        manifest_fault(checked) == setting_fault(
            path@,
            setting_pairs(settings@),
            setting@,
            expected@,
        ),
{
    let actual = match find_setting(settings, setting) {
        Some(value) => value,
        None => "<missing>".to_owned(),
    };
    if !same_text(&actual, expected) {
        return Err(
            ManifestError::KernelConfig {
                path: path.to_owned(),
                setting: setting.to_owned(),
                expected: expected.to_owned(),
                actual,
            },
        );
    }
    Ok(())
}

proof fn lemma_each_setting_prefix(
    path: Seq<char>,
    settings: Seq<(Seq<char>, Seq<char>)>,
    required: Seq<(Seq<char>, Seq<char>)>,
    n: int,
)
    requires
        0 <= n <= required.len(),
        each_setting_fault(path, settings, required.take(n)) is Some,
    ensures
        each_setting_fault(path, settings, required) == each_setting_fault(
            path,
            settings,
            required.take(n),
        ),
    decreases required.len(),
{
    if n == required.len() {
        assert(required.take(n) =~= required);
    } else {
        assert(required.drop_last().take(n) =~= required.take(n));
        lemma_each_setting_prefix(path, settings, required.drop_last(), n);
    }
}

fn check_required(path: &str, settings: &Vec<Setting>, smp: bool) -> (checked: Result<
    (),
    ManifestError,
>)
    ensures
        manifest_fault(checked) == each_setting_fault(
            path@,
            setting_pairs(settings@),
            required_settings(smp),
        ),
{
    let table = required_table(smp);
    let ghost required = pair_texts(table@);
    let ghost pairs = setting_pairs(settings@);
    let mut i: usize = 0;
    assert(required.take(0) =~= Seq::<(Seq<char>, Seq<char>)>::empty());
    while i < table.len()
        invariant
            i <= table@.len(),
            required == pair_texts(table@),
            pairs == setting_pairs(settings@),
            required == required_settings(smp),
            each_setting_fault(path@, pairs, required.take(i as int)) is None,
        decreases table@.len() - i,
    {
        let ghost next = required.take(i + 1);
        assert(next.drop_last() =~= required.take(i as int));
        assert(next.last() == (table@[i as int].0@, table@[i as int].1@));
        let (setting, expected) = table[i];
        if let Err(error) = require_config(path, settings, setting, expected) {
            proof {
                lemma_each_setting_prefix(path@, pairs, required, i + 1);
            }
            return Err(error);
        }
        i += 1;
    }
    assert(required.take(i as int) =~= required);
    Ok(())
}

/// Refuses a kernel configuration that is not the supported one.
pub fn validate_kernel_config(path: &str, bytes: &[u8], cpu: &CpuManifest) -> (checked: Result<
    (),
    ManifestError,
>)
    ensures
        manifest_fault(checked) == kernel_config_fault(path@, bytes@, *cpu),
{
    let text = match utf8_text(bytes) {
        Some(text) => text,
        None => {
            return Err(ManifestError::invalid("normalized_kernel_config", "is not UTF-8"));
        },
    };
    proof {
        encode_utf8_decode_utf8(text@);
    }
    let all = lines_of(&chars_of(&text));
    let settings = match parse_settings(&all) {
        Ok(settings) => settings,
        Err(error) => {
            return Err(error);
        },
    };
    if let Err(error) = check_required(path, &settings, cpu.smp_enabled) {
        return Err(error);
    }
    if cpu.smp_enabled {
        match cpu.compiled_nr_cpus {
            None => Err(ManifestError::invalid("cpu.compiled_nr_cpus", "missing for SMP profile")),
            Some(compiled) => require_config(
                path,
                &settings,
                "CONFIG_NR_CPUS",
                &decimal_text(compiled as u64),
            ),
        }
    } else {
        Ok(())
    }
}

// ---------------------------------------------------------------------------
// Laws
// ---------------------------------------------------------------------------

/// An accepted kernel configuration makes every required setting as required,
/// and an SMP one is compiled for the declared number of CPUs.
pub proof fn law_accepted_kernel_has_its_settings(
    path: Seq<char>,
    bytes: Seq<u8>,
    cpu: CpuManifest,
    i: int,
)
    requires
        kernel_config_fault(path, bytes, cpu) is None,
        0 <= i < required_settings(cpu.smp_enabled).len(),
    ensures
        ({
            let settings = settings_of(lines(decode_utf8(bytes)));
            let required = required_settings(cpu.smp_enabled);
            &&& lookup(settings, required[i].0) == Some(required[i].1)
            &&& cpu.smp_enabled ==> cpu.compiled_nr_cpus is Some && lookup(
                settings,
                "CONFIG_NR_CPUS"@,
            ) == Some(decimal(cpu.compiled_nr_cpus->Some_0 as nat))
        }),
{
    reveal_strlit("<missing>");
    reveal_strlit("y");
    reveal_strlit("n");
    let settings = settings_of(lines(decode_utf8(bytes)));
    let required = required_settings(cpu.smp_enabled);
    lemma_each_setting(path, settings, required, i);
    assert(required[i].1 == "y"@ || required[i].1 == "n"@);
    if cpu.smp_enabled {
        assert(cpu_setting_fault(path, settings, cpu) is None);
        let text = decimal(cpu.compiled_nr_cpus->Some_0 as nat);
        assert('0' <= text.last() <= '9');
    }
}

/// An accepted kernel configuration makes no setting twice.
pub proof fn law_accepted_settings_are_unique(
    settings: Seq<(Seq<char>, Seq<char>)>,
    i: int,
    j: int,
)
    requires
        duplicate_fault(settings) is None,
        0 <= i < j < settings.len(),
    ensures
        settings[i].0 != settings[j].0,
    decreases settings.len(),
{
    let front = settings.drop_last();
    assert(front[i] == settings[i]);
    if j < front.len() {
        law_accepted_settings_are_unique(front, i, j);
        assert(front[j] == settings[j]);
    } else {
        assert(lookup(front, settings.last().0) is None);
        lemma_lookup_misses(front, settings.last().0, i);
    }
}

/// A key that is not found is nobody's.
proof fn lemma_lookup_misses(settings: Seq<(Seq<char>, Seq<char>)>, key: Seq<char>, i: int)
    requires
        lookup(settings, key) is None,
        0 <= i < settings.len(),
    ensures
        settings[i].0 != key,
    decreases settings.len(),
{
    if i < settings.len() - 1 {
        lemma_lookup_misses(settings.drop_last(), key, i);
    }
}

proof fn lemma_each_setting(
    path: Seq<char>,
    settings: Seq<(Seq<char>, Seq<char>)>,
    required: Seq<(Seq<char>, Seq<char>)>,
    i: int,
)
    requires
        each_setting_fault(path, settings, required) is None,
        0 <= i < required.len(),
    ensures
        setting_fault(path, settings, required[i].0, required[i].1) is None,
    decreases required.len(),
{
    if i < required.len() - 1 {
        lemma_each_setting(path, settings, required.drop_last(), i);
    }
}

/// The release contract, setting by setting: an accepted configuration is text,
/// makes no setting twice, and makes each of these as they stand here; nothing
/// else is asked of it. The kernel is a static 64-bit one with the filesystems, devices
/// and system calls that a guest needs; it reaches no filesystem, console or
/// network of the host and loads no module.
pub proof fn law_accepted_kernel_keeps_the_release_contract(
    path: &str,
    bytes: &[u8],
    cpu: CpuManifest,
    checked: Result<(), ManifestError>,
)
    requires
        call_ensures(validate_kernel_config, (path, bytes, &cpu), checked),
    ensures
        required_settings(cpu.smp_enabled).len() == 43,
        checked is Ok ==> {
            let settings = settings_of(lines(decode_utf8(bytes@)));
            &&& valid_utf8(bytes@)
            &&& duplicate_fault(settings) is None
            &&& lookup(settings, "CONFIG_UML"@) == Some("y"@)
            &&& lookup(settings, "CONFIG_64BIT"@) == Some("y"@)
            &&& lookup(settings, "CONFIG_X86_64"@) == Some("y"@)
            &&& lookup(settings, "CONFIG_STATIC_LINK"@) == Some("y"@)
            &&& lookup(settings, "CONFIG_LD_SCRIPT_STATIC"@) == Some("y"@)
            &&& lookup(settings, "CONFIG_BLK_DEV_INITRD"@) == Some("y"@)
            &&& lookup(settings, "CONFIG_BLK_DEV_UBD"@) == Some("y"@)
            &&& lookup(settings, "CONFIG_BLK_DEV_UBD_SYNC"@) == Some("n"@)
            &&& lookup(settings, "CONFIG_BLK_DEV_LOOP"@) == Some("n"@)
            &&& lookup(settings, "CONFIG_BLK_DEV_NBD"@) == Some("n"@)
            &&& lookup(settings, "CONFIG_EXT4_FS"@) == Some("y"@)
            &&& lookup(settings, "CONFIG_EXT4_FS_POSIX_ACL"@) == Some("y"@)
            &&& lookup(settings, "CONFIG_EXT4_FS_SECURITY"@) == Some("y"@)
            &&& lookup(settings, "CONFIG_TMPFS"@) == Some("y"@)
            &&& lookup(settings, "CONFIG_PROC_FS"@) == Some("y"@)
            &&& lookup(settings, "CONFIG_SYSFS"@) == Some("y"@)
            &&& lookup(settings, "CONFIG_DEVTMPFS"@) == Some("y"@)
            &&& lookup(settings, "CONFIG_DEVTMPFS_MOUNT"@) == Some("y"@)
            &&& lookup(settings, "CONFIG_BINFMT_ELF"@) == Some("y"@)
            &&& lookup(settings, "CONFIG_BINFMT_SCRIPT"@) == Some("y"@)
            &&& lookup(settings, "CONFIG_EPOLL"@) == Some("y"@)
            &&& lookup(settings, "CONFIG_FUTEX"@) == Some("y"@)
            &&& lookup(settings, "CONFIG_TIMERFD"@) == Some("y"@)
            &&& lookup(settings, "CONFIG_EVENTFD"@) == Some("y"@)
            &&& lookup(settings, "CONFIG_MEMFD_CREATE"@) == Some("y"@)
            &&& lookup(settings, "CONFIG_SIGNALFD"@) == Some("y"@)
            &&& lookup(settings, "CONFIG_SECCOMP"@) == Some("y"@)
            &&& lookup(settings, "CONFIG_SECCOMP_FILTER"@) == Some("y"@)
            &&& lookup(settings, "CONFIG_NAMESPACES"@) == Some("y"@)
            &&& lookup(settings, "CONFIG_UTS_NS"@) == Some("y"@)
            &&& lookup(settings, "CONFIG_IPC_NS"@) == Some("y"@)
            &&& lookup(settings, "CONFIG_PID_NS"@) == Some("y"@)
            &&& lookup(settings, "CONFIG_SSL"@) == Some("y"@)
            &&& lookup(settings, "CONFIG_NULL_CHAN"@) == Some("y"@)
            &&& lookup(settings, "CONFIG_HOSTFS"@) == Some("n"@)
            &&& lookup(settings, "CONFIG_MCONSOLE"@) == Some("n"@)
            &&& lookup(settings, "CONFIG_MODULES"@) == Some("n"@)
            &&& lookup(settings, "CONFIG_UML_NET_VECTOR"@) == Some("n"@)
            &&& lookup(settings, "CONFIG_DEBUG_INFO_NONE"@) == Some("y"@)
            &&& lookup(settings, "CONFIG_IPV6"@) == Some("n"@)
            &&& lookup(settings, "CONFIG_USER_NS"@) == Some("n"@)
            &&& lookup(settings, "CONFIG_NETDEVICES"@) == Some("n"@)
            &&& lookup(settings, "CONFIG_SMP"@) == Some(
                if cpu.smp_enabled {
                    "y"@
                } else {
                    "n"@
                },
            )
            &&& cpu.smp_enabled ==> (cpu.compiled_nr_cpus matches Some(count) && lookup(
                settings,
                "CONFIG_NR_CPUS"@,
            ) == Some(decimal(count as nat)))
        },
{
    let path = path@;
    let bytes = bytes@;
    let settings = settings_of(lines(decode_utf8(bytes)));
    let required = required_settings(cpu.smp_enabled);
    assert(required[0] == ("CONFIG_UML"@, "y"@));
    assert(required[1] == ("CONFIG_64BIT"@, "y"@));
    assert(required[2] == ("CONFIG_X86_64"@, "y"@));
    assert(required[3] == ("CONFIG_STATIC_LINK"@, "y"@));
    assert(required[4] == ("CONFIG_LD_SCRIPT_STATIC"@, "y"@));
    assert(required[5] == ("CONFIG_BLK_DEV_INITRD"@, "y"@));
    assert(required[6] == ("CONFIG_BLK_DEV_UBD"@, "y"@));
    assert(required[7] == ("CONFIG_BLK_DEV_UBD_SYNC"@, "n"@));
    assert(required[8] == ("CONFIG_BLK_DEV_LOOP"@, "n"@));
    assert(required[9] == ("CONFIG_BLK_DEV_NBD"@, "n"@));
    assert(required[10] == ("CONFIG_EXT4_FS"@, "y"@));
    assert(required[11] == ("CONFIG_EXT4_FS_POSIX_ACL"@, "y"@));
    assert(required[12] == ("CONFIG_EXT4_FS_SECURITY"@, "y"@));
    assert(required[13] == ("CONFIG_TMPFS"@, "y"@));
    assert(required[14] == ("CONFIG_PROC_FS"@, "y"@));
    assert(required[15] == ("CONFIG_SYSFS"@, "y"@));
    assert(required[16] == ("CONFIG_DEVTMPFS"@, "y"@));
    assert(required[17] == ("CONFIG_DEVTMPFS_MOUNT"@, "y"@));
    assert(required[18] == ("CONFIG_BINFMT_ELF"@, "y"@));
    assert(required[19] == ("CONFIG_BINFMT_SCRIPT"@, "y"@));
    assert(required[20] == ("CONFIG_EPOLL"@, "y"@));
    assert(required[21] == ("CONFIG_FUTEX"@, "y"@));
    assert(required[22] == ("CONFIG_TIMERFD"@, "y"@));
    assert(required[23] == ("CONFIG_EVENTFD"@, "y"@));
    assert(required[24] == ("CONFIG_MEMFD_CREATE"@, "y"@));
    assert(required[25] == ("CONFIG_SIGNALFD"@, "y"@));
    assert(required[26] == ("CONFIG_SECCOMP"@, "y"@));
    assert(required[27] == ("CONFIG_SECCOMP_FILTER"@, "y"@));
    assert(required[28] == ("CONFIG_NAMESPACES"@, "y"@));
    assert(required[29] == ("CONFIG_UTS_NS"@, "y"@));
    assert(required[30] == ("CONFIG_IPC_NS"@, "y"@));
    assert(required[31] == ("CONFIG_PID_NS"@, "y"@));
    assert(required[32] == ("CONFIG_SSL"@, "y"@));
    assert(required[33] == ("CONFIG_NULL_CHAN"@, "y"@));
    assert(required[34] == ("CONFIG_HOSTFS"@, "n"@));
    assert(required[35] == ("CONFIG_MCONSOLE"@, "n"@));
    assert(required[36] == ("CONFIG_MODULES"@, "n"@));
    assert(required[37] == ("CONFIG_UML_NET_VECTOR"@, "n"@));
    assert(required[38] == ("CONFIG_DEBUG_INFO_NONE"@, "y"@));
    assert(required[39] == ("CONFIG_IPV6"@, "n"@));
    assert(required[40] == ("CONFIG_USER_NS"@, "n"@));
    assert(required[41] == ("CONFIG_NETDEVICES"@, "n"@));
    assert(required[42].0 == "CONFIG_SMP"@);
    assert(required.len() == 43);
    if kernel_config_fault(path, bytes, cpu) is None {
        assert forall|i: int| 0 <= i < 43 implies lookup(settings, (#[trigger] required[i]).0)
            == Some(required[i].1) by {
            law_accepted_kernel_has_its_settings(path, bytes, cpu, i);
        }
        law_accepted_kernel_has_its_settings(path, bytes, cpu, 0);
    }
}

/// Whether a line makes a setting: `KEY=value`, or the comment that says that
/// the setting is off.
pub open spec fn makes(line: Seq<char>, key: Seq<char>, value: Seq<char>) -> bool {
    ||| line == key + "="@ + value
    ||| value == "n"@ && line == "# "@ + key + " is not set"@
}

/// What a line of an accepted configuration says is what holds: a line that
/// makes a setting is the one that the contract is held against, so no accepted
/// file holds a line against it.
pub proof fn law_accepted_lines_are_what_holds(
    path: &str,
    bytes: &[u8],
    cpu: CpuManifest,
    at: int,
    key: Seq<char>,
    value: Seq<char>,
)
    requires
        call_ensures(validate_kernel_config, (path, bytes, &cpu), Ok(())),
        0 <= at < lines(decode_utf8(bytes@)).len(),
        starts_with(key, "CONFIG_"@),
        !key.contains('='),
        makes(lines(decode_utf8(bytes@))[at], key, value),
    ensures
        lookup(settings_of(lines(decode_utf8(bytes@))), key) == Some(value),
{
    let bytes = bytes@;
    let all = lines(decode_utf8(bytes));
    lemma_line_makes(all[at], key, value);
    lemma_setting_is_listed(all, at, (key, value));
    let settings = settings_of(all);
    let i = settings.index_of((key, value));
    assert(settings[i] == (key, value));
    lemma_lookup_finds(settings, i);
}

proof fn lemma_line_makes(line: Seq<char>, key: Seq<char>, value: Seq<char>)
    requires
        starts_with(key, "CONFIG_"@),
        !key.contains('='),
        makes(line, key, value),
    ensures
        line_setting(line) == Some((key, value)),
{
    reveal_strlit("=");
    reveal_strlit("# ");
    reveal_strlit(" is not set");
    line.index_of_first_ensures('=');
    let at = key.len() as int;
    if line == key + "="@ + value {
        assert(line[at] == '=');
        assert(line.contains('='));
        let found = line.index_of_first('=')->Some_0;
        if found < at {
            assert(key[found] == line[found]);
        }
        assert(line.take(at) =~= key);
        assert(line.skip(at + 1) =~= value);
    } else {
        let prefix = "# "@;
        let suffix = " is not set"@;
        if line.contains('=') {
            let found = line.index_of('=');
            assert(line[found] == '=');
            if 2 <= found < 2 + key.len() {
                assert(key[found - 2] == '=');
            }
            assert(false);
        }
        assert(line.take(2) =~= prefix);
        assert(line.skip(2) =~= key + suffix);
        assert(line.skip(2).skip(key.len() as int) =~= suffix);
        assert(line.subrange(2, line.len() - suffix.len()) =~= key);
    }
}

proof fn lemma_setting_is_listed(all: Seq<Seq<char>>, at: int, setting: (Seq<char>, Seq<char>))
    requires
        0 <= at < all.len(),
        line_setting(all[at]) == Some(setting),
    ensures
        settings_of(all).contains(setting),
    decreases all.len(),
{
    let before = settings_of(all.drop_last());
    if at < all.len() - 1 {
        lemma_setting_is_listed(all.drop_last(), at, setting);
        let i = before.index_of(setting);
        assert(settings_of(all)[i] == setting);
    } else {
        assert(settings_of(all).last() == setting);
    }
}

/// In a list without a repeated key, a key has the value that stands beside it.
proof fn lemma_lookup_finds(settings: Seq<(Seq<char>, Seq<char>)>, i: int)
    requires
        duplicate_fault(settings) is None,
        0 <= i < settings.len(),
    ensures
        lookup(settings, settings[i].0) == Some(settings[i].1),
    decreases settings.len(),
{
    if i < settings.len() - 1 {
        lemma_lookup_finds(settings.drop_last(), i);
    }
}

/// A setting is required with its value; one that is missing is told as
/// `<missing>`, another value as it is.
pub proof fn law_required_setting_is_told(
    path: &str,
    settings: Vec<Setting>,
    setting: &str,
    expected: &str,
    checked: Result<(), ManifestError>,
)
    requires
        call_ensures(require_config, (path, &settings, setting, expected), checked),
    ensures
        lookup(setting_pairs(settings@), setting@) matches Some(value) ==> (checked is Ok <==> value
            == expected@),
        checked matches Err(error) ==> error@ == (ManifestFault::KernelConfig {
            path: path@,
            setting: setting@,
            expected: expected@,
            actual: match lookup(setting_pairs(settings@), setting@) {
                Some(value) => value,
                None => "<missing>"@,
            },
        }),
{
}

proof fn lemma_no_setting_is_wrong(
    path: Seq<char>,
    settings: Seq<(Seq<char>, Seq<char>)>,
    required: Seq<(Seq<char>, Seq<char>)>,
)
    requires
        forall|i: int|
            0 <= i < required.len() ==> lookup(settings, (#[trigger] required[i]).0) == Some(
                required[i].1,
            ),
    ensures
        each_setting_fault(path, settings, required) is None,
    decreases required.len(),
{
    if required.len() > 0 {
        let front = required.drop_last();
        assert forall|i: int| 0 <= i < front.len() implies lookup(
            settings,
            (#[trigger] front[i]).0,
        ) == Some(front[i].1) by {
            assert(front[i] == required[i]);
        }
        lemma_no_setting_is_wrong(path, settings, front);
        assert(required[required.len() - 1] == required.last());
    }
}

proof fn lemma_distinct_settings(settings: Seq<(Seq<char>, Seq<char>)>)
    requires
        forall|i: int, j: int|
            0 <= i < j < settings.len() ==> (#[trigger] settings[i]).0 != (
            #[trigger] settings[j]).0,
    ensures
        duplicate_fault(settings) is None,
    decreases settings.len(),
{
    if settings.len() > 0 {
        let front = settings.drop_last();
        let key = settings.last().0;
        assert forall|i: int, j: int| 0 <= i < j < front.len() implies (#[trigger] front[i]).0 != (
        #[trigger] front[j]).0 by {
            assert(front[i] == settings[i] && front[j] == settings[j]);
        }
        lemma_distinct_settings(front);
        assert forall|i: int| 0 <= i < front.len() implies (#[trigger] front[i]).0 != key by {
            assert(front[i] == settings[i]);
            assert(settings[settings.len() - 1] == settings.last());
        }
        lemma_lookup_is_none(front, key);
    }
}

proof fn lemma_lookup_is_none(settings: Seq<(Seq<char>, Seq<char>)>, key: Seq<char>)
    requires
        forall|i: int| 0 <= i < settings.len() ==> (#[trigger] settings[i]).0 != key,
    ensures
        lookup(settings, key) is None,
    decreases settings.len(),
{
    if settings.len() > 0 {
        let front = settings.drop_last();
        assert forall|i: int| 0 <= i < front.len() implies (#[trigger] front[i]).0 != key by {
            assert(front[i] == settings[i]);
        }
        lemma_lookup_is_none(front, key);
        assert(settings[settings.len() - 1] == settings.last());
    }
}

/// A configuration is accepted where it sets nothing twice, has every setting of
/// the release contract and, with several CPUs, the declared number of them.
pub proof fn law_complete_kernel_is_accepted(
    path: &str,
    bytes: &[u8],
    cpu: CpuManifest,
    checked: Result<(), ManifestError>,
)
    requires
        call_ensures(validate_kernel_config, (path, bytes, &cpu), checked),
        valid_utf8(bytes@),
        ({
            let settings = settings_of(lines(decode_utf8(bytes@)));
            let required = required_settings(cpu.smp_enabled);
            &&& forall|i: int, j: int|
                0 <= i < j < settings.len() ==> (#[trigger] settings[i]).0 != (
                #[trigger] settings[j]).0
            &&& forall|i: int|
                0 <= i < required.len() ==> lookup(settings, (#[trigger] required[i]).0) == Some(
                    required[i].1,
                )
            &&& cpu.smp_enabled ==> cpu.compiled_nr_cpus is Some && lookup(
                settings,
                "CONFIG_NR_CPUS"@,
            ) == Some(decimal(cpu.compiled_nr_cpus->Some_0 as nat))
        }),
    ensures
        checked is Ok,
{
    let settings = settings_of(lines(decode_utf8(bytes@)));
    lemma_distinct_settings(settings);
    lemma_no_setting_is_wrong(path@, settings, required_settings(cpu.smp_enabled));
}

} // verus!
