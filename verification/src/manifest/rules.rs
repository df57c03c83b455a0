//! The contracts that every supported profile manifest meets.

use vstd::prelude::*;

use crate::error::{
    first_of, invalid_field, manifest_fault, unsupported_contract, ManifestError, ManifestFault,
};
use crate::digest::{all_lower_hex, is_lower_hex};

use crate::manifest::{
    BuilderContract, BuilderToolContract, Contracts, CpuManifest, HelloContract, LaunchContract,
    MemoryManifest, ProfileManifest, ValidatorContract, EM_X86_64, PROFILE_SCHEMA_VERSION,
};
use crate::order::{bytes_before, is_bytes_before, law_byte_order_is_strict_and_total};
use crate::text::{
    byte_count, byte_len, chars_of, control_char, decimal, decimal_text, is_control, join, join3,
    optional_text, same_text, texts,
};
use vstd::string::*;
use vstd::utf8::*;

verus! {

/// What the CPU and memory policies and the guest protocol say of a manifest:
/// values that are computed elsewhere and checked here.
#[derive(Debug)]
pub struct PolicyFacts {
    /// The CPU count that the CPU policy arrives at, or why it refuses.
    pub effective_max_cpus: Result<u16, String>,
    /// Whether the memory policy accepts the declared range, or why not.
    pub memory_policy: Result<(), String>,
    pub workload_features: Vec<String>,
    pub builder_features: Vec<String>,
    pub validator_features: Vec<String>,
    pub source_date_epoch_min: u64,
    pub source_date_epoch_max: u64,
}

/// Refuses a value other than the expected one.
pub open spec fn value_fault(field: Seq<char>, actual: Seq<char>, expected: Seq<char>) -> Option<
    ManifestFault,
> {
    if actual == expected {
        None
    } else {
        Some(unsupported_contract(field, actual))
    }
}

pub open spec fn number_fault(field: Seq<char>, actual: nat, expected: nat) -> Option<
    ManifestFault,
> {
    if actual == expected {
        None
    } else {
        Some(unsupported_contract(field, decimal(actual)))
    }
}

pub open spec fn is_token_char(c: char) -> bool {
    'a' <= c <= 'z' || 'A' <= c <= 'Z' || '0' <= c <= '9' || c == '.' || c == '_' || c == '-'
}

pub open spec fn is_token(value: Seq<char>) -> bool {
    forall|i: int| 0 <= i < value.len() ==> is_token_char(#[trigger] value[i])
}

/// A token has 1 to `maximum` bytes, all letters, digits, `.`, `_` or `-`.
pub open spec fn token_fault(field: Seq<char>, value: Seq<char>, maximum: nat) -> Option<
    ManifestFault,
> {
    if value.len() == 0 || byte_count(value) > maximum {
        Some(invalid_field(field, "must contain 1..="@ + decimal(maximum) + " bytes"@))
    } else if !is_token(value) {
        Some(invalid_field(field, "contains a non-token character"@))
    } else {
        None
    }
}

/// A digest field has exactly 64 lower-case hexadecimal digits.
pub open spec fn sha256_fault(field: Seq<char>, value: Seq<char>) -> Option<ManifestFault> {
    if byte_count(value) != 64 || !is_lower_hex(value) {
        Some(invalid_field(field, "must be 64 lowercase hexadecimal characters"@))
    } else {
        None
    }
}

pub fn require_value(field: &'static str, actual: &str, expected: &str) -> (checked: Result<
    (),
    ManifestError,
>)
    ensures
        manifest_fault(checked) == value_fault(field@, actual@, expected@),
{
    if !same_text(actual, expected) {
        return Err(ManifestError::unsupported(field, actual));
    }
    Ok(())
}

fn require_number(field: &'static str, actual: u64, expected: u64) -> (checked: Result<
    (),
    ManifestError,
>)
    ensures
        manifest_fault(checked) == number_fault(field@, actual as nat, expected as nat),
{
    if actual != expected {
        return Err(ManifestError::unsupported(field, &decimal_text(actual)));
    }
    Ok(())
}

pub fn validate_token(field: &'static str, value: &str, maximum: usize) -> (checked: Result<
    (),
    ManifestError,
>)
    ensures
        manifest_fault(checked) == token_fault(field@, value@, maximum as nat),
{
    if value.is_empty() || byte_len(value) > maximum {
        return Err(
            ManifestError::invalid(
                field,
                &join3("must contain 1..=", &decimal_text(maximum as u64), " bytes"),
            ),
        );
    }
    let chars = chars_of(value);
    let mut i: usize = 0;
    while i < chars.len()
        invariant
            i <= chars@.len(),
            chars@ == value@,
            value@.len() > 0,
            byte_count(value@) <= maximum,
            forall|j: int| 0 <= j < i ==> is_token_char(#[trigger] chars@[j]),
        decreases chars@.len() - i,
    {
        let c: char = chars[i];
        let token = ('a' <= c && c <= 'z') || ('A' <= c && c <= 'Z') || ('0' <= c && c <= '9') || c
            == '.' || c == '_' || c == '-';
        if !token {
            assert(!is_token_char(value@[i as int]));
            return Err(ManifestError::invalid(field, "contains a non-token character"));
        }
        i += 1;
    }
    Ok(())
}

pub fn validate_sha256(field: &'static str, value: &str) -> (checked: Result<(), ManifestError>)
    ensures
        manifest_fault(checked) == sha256_fault(field@, value@),
{
    if byte_len(value) != 64 || !all_lower_hex(&chars_of(value)) {
        return Err(ManifestError::invalid(field, "must be 64 lowercase hexadecimal characters"));
    }
    Ok(())
}

// ---------------------------------------------------------------------------
// Platform
// ---------------------------------------------------------------------------

pub open spec fn platform_fault(manifest: ProfileManifest) -> Option<ManifestFault> {
    first_of(
        number_fault(
            "schema_version"@,
            manifest.schema_version as nat,
            PROFILE_SCHEMA_VERSION as nat,
        ),
        first_of(
            token_fault("profile_id"@, manifest.profile_id@, 128),
            first_of(
                value_fault("host_architecture"@, manifest.host_architecture@, "x86_64"@),
                first_of(
                    number_fault(
                        "host_elf_machine"@,
                        manifest.host_elf_machine as nat,
                        EM_X86_64 as nat,
                    ),
                    first_of(
                        value_fault("oci_os"@, manifest.oci_os@, "linux"@),
                        first_of(
                            value_fault(
                                "oci_architecture"@,
                                manifest.oci_architecture@,
                                "amd64"@,
                            ),
                            first_of(
                                value_fault(
                                    "uml_subarchitecture"@,
                                    manifest.uml_subarchitecture@,
                                    "x86_64"@,
                                ),
                                number_fault(
                                    "guest_page_size"@,
                                    manifest.guest_page_size as nat,
                                    4096,
                                ),
                            ),
                        ),
                    ),
                ),
            ),
        ),
    )
}

fn check_platform(manifest: &ProfileManifest) -> (checked: Result<(), ManifestError>)
    ensures
        manifest_fault(checked) == platform_fault(*manifest),
{
    if let Err(error) = require_number(
        "schema_version",
        manifest.schema_version as u64,
        PROFILE_SCHEMA_VERSION as u64,
    ) {
        return Err(error);
    }
    if let Err(error) = validate_token("profile_id", &manifest.profile_id, 128) {
        return Err(error);
    }
    if let Err(error) = require_value(
        "host_architecture",
        &manifest.host_architecture,
        "x86_64",
    ) {
        return Err(error);
    }
    if let Err(error) = require_number(
        "host_elf_machine",
        manifest.host_elf_machine as u64,
        EM_X86_64 as u64,
    ) {
        return Err(error);
    }
    if let Err(error) = require_value("oci_os", &manifest.oci_os, "linux") {
        return Err(error);
    }
    if let Err(error) = require_value("oci_architecture", &manifest.oci_architecture, "amd64") {
        return Err(error);
    }
    if let Err(error) = require_value(
        "uml_subarchitecture",
        &manifest.uml_subarchitecture,
        "x86_64",
    ) {
        return Err(error);
    }
    require_number("guest_page_size", manifest.guest_page_size as u64, 4096)
}

// ---------------------------------------------------------------------------
// Variants
// ---------------------------------------------------------------------------

/// The text of each variant that is not the absent one.
pub open spec fn variant_texts(variants: Seq<Option<String>>) -> Seq<Option<Seq<char>>> {
    Seq::new(variants.len(), |i: int| optional_text(variants[i]))
}

/// Why one variant is refused after the given earlier ones.
pub open spec fn variant_fault(
    earlier: Seq<Option<Seq<char>>>,
    variant: Option<Seq<char>>,
) -> Option<ManifestFault> {
    first_of(
        match variant {
            Some(value) => first_of(
                token_fault("accepted_oci_variants"@, value, 32),
                value_fault("accepted_oci_variants"@, value, "v1"@),
            ),
            None => None,
        },
        if earlier.contains(variant) {
            Some(invalid_field("accepted_oci_variants"@, "duplicate variant entry"@))
        } else {
            None
        },
    )
}

pub open spec fn each_variant_fault(variants: Seq<Option<Seq<char>>>) -> Option<ManifestFault>
    decreases variants.len(),
{
    if variants.len() == 0 {
        None
    } else {
        first_of(
            each_variant_fault(variants.drop_last()),
            variant_fault(variants.drop_last(), variants.last()),
        )
    }
}

pub open spec fn variants_fault(variants: Seq<Option<Seq<char>>>) -> Option<ManifestFault> {
    if variants.len() == 0 {
        Some(
            invalid_field(
                "accepted_oci_variants"@,
                "at least one variant policy entry is required"@,
            ),
        )
    } else {
        each_variant_fault(variants)
    }
}

proof fn lemma_variant_prefix(variants: Seq<Option<Seq<char>>>, n: int)
    requires
        0 <= n <= variants.len(),
        each_variant_fault(variants.take(n)) is Some,
    ensures
        each_variant_fault(variants) == each_variant_fault(variants.take(n)),
    decreases variants.len(),
{
    if n == variants.len() {
        assert(variants.take(n) =~= variants);
    } else {
        assert(variants.drop_last().take(n) =~= variants.take(n));
        lemma_variant_prefix(variants.drop_last(), n);
    }
}

/// Whether two optional strings are equal.
pub fn same_optional(left: &Option<String>, right: &Option<String>) -> (same: bool)
    ensures
        same == (optional_text(*left) == optional_text(*right)),
{
    match (left, right) {
        (Some(left), Some(right)) => same_text(left, right),
        (None, None) => true,
        _ => false,
    }
}

/// Whether the first `end` variants hold the given one.
pub fn lists_variant(variants: &Vec<Option<String>>, end: usize, variant: &Option<String>) -> (found:
    bool)
    requires
        end <= variants@.len(),
    ensures
        found == variant_texts(variants@).take(end as int).contains(optional_text(*variant)),
{
    let ghost all = variant_texts(variants@).take(end as int);
    let mut i: usize = 0;
    while i < end
        invariant
            i <= end <= variants@.len(),
            all == variant_texts(variants@).take(end as int),
            forall|j: int| 0 <= j < i ==> #[trigger] all[j] != optional_text(*variant),
        decreases end - i,
    {
        if same_optional(&variants[i], variant) {
            assert(all[i as int] == optional_text(*variant));
            return true;
        }
        i += 1;
    }
    false
}

fn check_variants(variants: &Vec<Option<String>>) -> (checked: Result<(), ManifestError>)
    ensures
        manifest_fault(checked) == variants_fault(variant_texts(variants@)),
{
    if variants.len() == 0 {
        return Err(
            ManifestError::invalid(
                "accepted_oci_variants",
                "at least one variant policy entry is required",
            ),
        );
    }
    let ghost all = variant_texts(variants@);
    let mut i: usize = 0;
    assert(all.take(0) =~= Seq::<Option<Seq<char>>>::empty());
    while i < variants.len()
        invariant
            i <= variants@.len(),
            all == variant_texts(variants@),
            each_variant_fault(all.take(i as int)) is None,
            variants@.len() > 0,
        decreases variants@.len() - i,
    {
        let ghost next = all.take(i + 1);
        assert(next.drop_last() =~= all.take(i as int));
        assert(next.last() == optional_text(variants@[i as int]));
        if let Some(value) = &variants[i] {
            if let Err(error) = validate_token("accepted_oci_variants", value, 32) {
                proof {
                    lemma_variant_prefix(all, i + 1);
                }
                return Err(error);
            }
            if let Err(error) = require_value("accepted_oci_variants", value, "v1") {
                proof {
                    lemma_variant_prefix(all, i + 1);
                }
                return Err(error);
            }
        }
        if lists_variant(variants, i, &variants[i]) {
            proof {
                lemma_variant_prefix(all, i + 1);
            }
            return Err(ManifestError::invalid("accepted_oci_variants", "duplicate variant entry"));
        }
        i += 1;
    }
    assert(all.take(i as int) =~= all);
    Ok(())
}

// ---------------------------------------------------------------------------
// CPU and memory
// ---------------------------------------------------------------------------

/// The declared CPU count must be the one that the CPU policy arrives at.
pub open spec fn cpu_fault(cpu: CpuManifest, computed: Result<u16, String>) -> Option<
    ManifestFault,
> {
    match computed {
        Err(reason) => Some(ManifestFault::Cpu { reason: reason@ }),
        Ok(computed) => if computed == cpu.effective_max_cpus {
            None
        } else {
            Some(
                invalid_field(
                    "cpu.effective_max_cpus"@,
                    "declared "@ + decimal(cpu.effective_max_cpus as nat) + ", computed "@
                        + decimal(computed as nat),
                ),
            )
        },
    }
}

fn check_cpu(cpu: &CpuManifest, computed: &Result<u16, String>) -> (checked: Result<
    (),
    ManifestError,
>)
    ensures
        manifest_fault(checked) == cpu_fault(*cpu, *computed),
{
    match computed {
        Err(reason) => Err(ManifestError::Cpu { reason: reason.clone() }),
        Ok(computed) => {
            if *computed != cpu.effective_max_cpus {
                let declared = join3(
                    "declared ",
                    &decimal_text(cpu.effective_max_cpus as u64),
                    ", computed ",
                );
                return Err(
                    ManifestError::invalid(
                        "cpu.effective_max_cpus",
                        &join(&declared, &decimal_text(*computed as u64)),
                    ),
                );
            }
            Ok(())
        },
    }
}

/// Whether `value` is a multiple of `unit`; only zero is a multiple of zero.
pub open spec fn is_multiple(value: u64, unit: u64) -> bool {
    if unit == 0 {
        value == 0
    } else {
        value % unit == 0
    }
}

fn multiple(value: u64, unit: u64) -> (yes: bool)
    ensures
        yes == is_multiple(value, unit),
{
    if unit == 0 {
        value == 0
    } else {
        value % unit == 0
    }
}

/// One memory size must lie in the tested range and be aligned.
pub open spec fn size_fault(memory: MemoryManifest, field: Seq<char>, value: u64) -> Option<
    ManifestFault,
> {
    if value < memory.minimum_bytes || value > memory.effective_max_memory_bytes {
        Some(invalid_field(field, "must be within the minimum..=effective tested range"@))
    } else if !is_multiple(value, memory.alignment_bytes) {
        Some(invalid_field(field, "must be aligned to memory.alignment_bytes"@))
    } else {
        None
    }
}

fn check_size(memory: &MemoryManifest, field: &'static str, value: u64) -> (checked: Result<
    (),
    ManifestError,
>)
    ensures
        manifest_fault(checked) == size_fault(*memory, field@, value),
{
    if value < memory.minimum_bytes || value > memory.effective_max_memory_bytes {
        return Err(
            ManifestError::invalid(field, "must be within the minimum..=effective tested range"),
        );
    }
    if !multiple(value, memory.alignment_bytes) {
        return Err(ManifestError::invalid(field, "must be aligned to memory.alignment_bytes"));
    }
    Ok(())
}

pub open spec fn memory_fault(memory: MemoryManifest, policy: Result<(), String>) -> Option<
    ManifestFault,
> {
    match policy {
        Err(reason) => Some(ManifestFault::Memory { reason: reason@ }),
        Ok(()) => if memory.effective_max_memory_bytes > memory.product_maximum_bytes {
            Some(
                invalid_field(
                    "memory.effective_max_memory_bytes"@,
                    "tested effective maximum exceeds the product maximum"@,
                ),
            )
        } else if !is_multiple(memory.product_maximum_bytes, memory.alignment_bytes) {
            Some(
                invalid_field("memory.product_maximum_bytes"@, "product maximum is not aligned"@),
            )
        } else {
            first_of(
                size_fault(memory, "memory.default_memory_bytes"@, memory.default_memory_bytes),
                first_of(
                    size_fault(
                        memory,
                        "memory.builder_memory_bytes"@,
                        memory.builder_memory_bytes,
                    ),
                    size_fault(
                        memory,
                        "memory.validator_memory_bytes"@,
                        memory.validator_memory_bytes,
                    ),
                ),
            )
        },
    }
}

fn check_memory(memory: &MemoryManifest, policy: &Result<(), String>) -> (checked: Result<
    (),
    ManifestError,
>)
    ensures
        manifest_fault(checked) == memory_fault(*memory, *policy),
{
    if let Err(reason) = policy {
        return Err(ManifestError::Memory { reason: reason.clone() });
    }
    if memory.effective_max_memory_bytes > memory.product_maximum_bytes {
        return Err(
            ManifestError::invalid(
                "memory.effective_max_memory_bytes",
                "tested effective maximum exceeds the product maximum",
            ),
        );
    }
    if !multiple(memory.product_maximum_bytes, memory.alignment_bytes) {
        return Err(
            ManifestError::invalid(
                "memory.product_maximum_bytes",
                "product maximum is not aligned",
            ),
        );
    }
    if let Err(error) = check_size(
        memory,
        "memory.default_memory_bytes",
        memory.default_memory_bytes,
    ) {
        return Err(error);
    }
    if let Err(error) = check_size(
        memory,
        "memory.builder_memory_bytes",
        memory.builder_memory_bytes,
    ) {
        return Err(error);
    }
    check_size(memory, "memory.validator_memory_bytes", memory.validator_memory_bytes)
}

// ---------------------------------------------------------------------------
// Contract identifiers
// ---------------------------------------------------------------------------

pub open spec fn contracts_fault(contracts: Contracts) -> Option<ManifestFault> {
    first_of(
        token_fault("contracts.selector_policy"@, contracts.selector_policy@, 128),
        first_of(
            value_fault(
                "contracts.selector_policy"@,
                contracts.selector_policy@,
                "native-amd64-v1"@,
            ),
            first_of(
                value_fault("contracts.root_layout"@, contracts.root_layout@, "pocket-root-v1"@),
                first_of(
                    value_fault("contracts.filesystem"@, contracts.filesystem@, "ext4-v1-b4096"@),
                    first_of(
                        value_fault(
                            "contracts.cpu_state_hwcap_policy"@,
                            contracts.cpu_state_hwcap_policy@,
                            "native-x86_64-v1"@,
                        ),
                        value_fault(
                            "contracts.guest_capability_policy"@,
                            contracts.guest_capability_policy@,
                            "fixed-capabilities-v1"@,
                        ),
                    ),
                ),
            ),
        ),
    )
}

fn check_contracts(contracts: &Contracts) -> (checked: Result<(), ManifestError>)
    ensures
        manifest_fault(checked) == contracts_fault(*contracts),
{
    if let Err(error) = validate_token(
        "contracts.selector_policy",
        &contracts.selector_policy,
        128,
    ) {
        return Err(error);
    }
    if let Err(error) = require_value(
        "contracts.selector_policy",
        &contracts.selector_policy,
        "native-amd64-v1",
    ) {
        return Err(error);
    }
    if let Err(error) = require_value(
        "contracts.root_layout",
        &contracts.root_layout,
        "pocket-root-v1",
    ) {
        return Err(error);
    }
    if let Err(error) = require_value(
        "contracts.filesystem",
        &contracts.filesystem,
        "ext4-v1-b4096",
    ) {
        return Err(error);
    }
    if let Err(error) = require_value(
        "contracts.cpu_state_hwcap_policy",
        &contracts.cpu_state_hwcap_policy,
        "native-x86_64-v1",
    ) {
        return Err(error);
    }
    require_value(
        "contracts.guest_capability_policy",
        &contracts.guest_capability_policy,
        "fixed-capabilities-v1",
    )
}

// ---------------------------------------------------------------------------
// HELLO contracts
// ---------------------------------------------------------------------------

/// Which guest a HELLO contract is for.
#[derive(Debug, Clone, Copy, PartialEq, Eq, Structural)]
pub enum HelloRole {
    Workload,
    Builder,
    Validator,
}

pub open spec fn hello_fault(role: HelloRole, hello: HelloContract) -> Option<ManifestFault> {
    let (contract, init, kernel) = match role {
        HelloRole::Workload => (
            "hello.guest_contract_id"@,
            "hello.init_build_id"@,
            "hello.kernel_build_id"@,
        ),
        HelloRole::Builder => (
            "builder.hello.guest_contract_id"@,
            "builder.hello.init_build_id"@,
            "builder.hello.kernel_build_id"@,
        ),
        HelloRole::Validator => (
            "validator.hello.guest_contract_id"@,
            "validator.hello.init_build_id"@,
            "validator.hello.kernel_build_id"@,
        ),
    };
    first_of(
        sha256_fault(contract, hello.guest_contract_id@),
        first_of(sha256_fault(init, hello.init_build_id@), sha256_fault(kernel, hello.kernel_build_id@)),
    )
}

pub fn validate_hello_contract(role: HelloRole, hello: &HelloContract) -> (checked: Result<
    (),
    ManifestError,
>)
    ensures
        manifest_fault(checked) == hello_fault(role, *hello),
{
    let (contract, init, kernel): (&'static str, &'static str, &'static str) = match role {
        HelloRole::Workload => (
            "hello.guest_contract_id",
            "hello.init_build_id",
            "hello.kernel_build_id",
        ),
        HelloRole::Builder => (
            "builder.hello.guest_contract_id",
            "builder.hello.init_build_id",
            "builder.hello.kernel_build_id",
        ),
        HelloRole::Validator => (
            "validator.hello.guest_contract_id",
            "validator.hello.init_build_id",
            "validator.hello.kernel_build_id",
        ),
    };
    if let Err(error) = validate_sha256(contract, &hello.guest_contract_id) {
        return Err(error);
    }
    if let Err(error) = validate_sha256(init, &hello.init_build_id) {
        return Err(error);
    }
    validate_sha256(kernel, &hello.kernel_build_id)
}

/// Why one feature is refused after the given earlier ones.
pub open spec fn feature_fault(field: Seq<char>, earlier: Seq<Seq<char>>, feature: Seq<char>) -> Option<
    ManifestFault,
> {
    first_of(
        token_fault(field, feature, 64),
        if earlier.len() > 0 && !bytes_before(encode_utf8(earlier.last()), encode_utf8(feature)) {
            Some(invalid_field(field, "features must be unique and sorted"@))
        } else {
            None
        },
    )
}

pub open spec fn each_feature_fault(field: Seq<char>, features: Seq<Seq<char>>) -> Option<
    ManifestFault,
>
    decreases features.len(),
{
    if features.len() == 0 {
        None
    } else {
        first_of(
            each_feature_fault(field, features.drop_last()),
            feature_fault(field, features.drop_last(), features.last()),
        )
    }
}

pub open spec fn sorted_features_fault(field: Seq<char>, features: Seq<Seq<char>>) -> Option<
    ManifestFault,
> {
    if features.len() > 64 {
        Some(invalid_field(field, "more than 64 features"@))
    } else {
        each_feature_fault(field, features)
    }
}

proof fn lemma_feature_prefix(field: Seq<char>, features: Seq<Seq<char>>, n: int)
    requires
        0 <= n <= features.len(),
        each_feature_fault(field, features.take(n)) is Some,
    ensures
        each_feature_fault(field, features) == each_feature_fault(field, features.take(n)),
    decreases features.len(),
{
    if n == features.len() {
        assert(features.take(n) =~= features);
    } else {
        assert(features.drop_last().take(n) =~= features.take(n));
        lemma_feature_prefix(field, features.drop_last(), n);
    }
}

pub fn validate_sorted_features(field: &'static str, features: &Vec<String>) -> (checked: Result<
    (),
    ManifestError,
>)
    ensures
        manifest_fault(checked) == sorted_features_fault(field@, texts(features@)),
{
    if features.len() > 64 {
        return Err(ManifestError::invalid(field, "more than 64 features"));
    }
    let ghost all = texts(features@);
    let mut i: usize = 0;
    assert(all.take(0) =~= Seq::<Seq<char>>::empty());
    while i < features.len()
        invariant
            i <= features@.len() <= 64,
            all == texts(features@),
            each_feature_fault(field@, all.take(i as int)) is None,
        decreases features@.len() - i,
    {
        let ghost next = all.take(i + 1);
        assert(next.drop_last() =~= all.take(i as int));
        assert(next.last() == features@[i as int]@);
        if let Err(error) = validate_token(field, &features[i], 64) {
            proof {
                lemma_feature_prefix(field@, all, i + 1);
            }
            return Err(error);
        }
        if i > 0 {
            assert(all.take(i as int).last() == features@[i - 1]@);
            if !is_bytes_before(
                features[i - 1].as_str().as_bytes(),
                features[i].as_str().as_bytes(),
            ) {
                proof {
                    lemma_feature_prefix(field@, all, i + 1);
                }
                return Err(ManifestError::invalid(field, "features must be unique and sorted"));
            }
        }
        i += 1;
    }
    assert(all.take(i as int) =~= all);
    Ok(())
}

/// Whether two lists hold the same strings in the same order.
pub fn same_features(actual: &Vec<String>, expected: &Vec<String>) -> (same: bool)
    ensures
        same == (texts(actual@) == texts(expected@)),
{
    let ghost a = texts(actual@);
    let ghost b = texts(expected@);
    if actual.len() != expected.len() {
        assert(a.len() != b.len());
        return false;
    }
    let mut i: usize = 0;
    while i < actual.len()
        invariant
            i <= actual@.len(),
            actual@.len() == expected@.len(),
            a == texts(actual@),
            b == texts(expected@),
            forall|j: int| 0 <= j < i ==> a[j] == b[j],
        decreases actual@.len() - i,
    {
        if !same_text(&actual[i], &expected[i]) {
            assert(a[i as int] != b[i as int]);
            return false;
        }
        i += 1;
    }
    assert(a =~= b);
    true
}

/// Features must be sorted and exactly those that the guest was compiled with.
pub open spec fn exact_features_fault(
    field: Seq<char>,
    features: Seq<Seq<char>>,
    compiled: Seq<Seq<char>>,
    reason: Seq<char>,
) -> Option<ManifestFault> {
    first_of(
        sorted_features_fault(field, features),
        if features == compiled {
            None
        } else {
            Some(invalid_field(field, reason))
        },
    )
}

pub fn validate_workload_features(features: &Vec<String>, compiled: &Vec<String>) -> (checked:
    Result<(), ManifestError>)
    ensures
        manifest_fault(checked) == exact_features_fault(
            "hello.required_features"@,
            texts(features@),
            texts(compiled@),
            "must exactly match the workload guest's compiled feature set"@,
        ),
{
    if let Err(error) = validate_sorted_features("hello.required_features", features) {
        return Err(error);
    }
    if !same_features(features, compiled) {
        return Err(
            ManifestError::invalid(
                "hello.required_features",
                "must exactly match the workload guest's compiled feature set",
            ),
        );
    }
    Ok(())
}

pub fn validate_builder_features(features: &Vec<String>, compiled: &Vec<String>) -> (checked:
    Result<(), ManifestError>)
    ensures
        manifest_fault(checked) == exact_features_fault(
            "builder.hello.required_features"@,
            texts(features@),
            texts(compiled@),
            "must exactly match the builder guest's compiled feature set"@,
        ),
{
    if let Err(error) = validate_sorted_features("builder.hello.required_features", features) {
        return Err(error);
    }
    if !same_features(features, compiled) {
        return Err(
            ManifestError::invalid(
                "builder.hello.required_features",
                "must exactly match the builder guest's compiled feature set",
            ),
        );
    }
    Ok(())
}

pub fn validate_validator_features(features: &Vec<String>, compiled: &Vec<String>) -> (checked:
    Result<(), ManifestError>)
    ensures
        manifest_fault(checked) == exact_features_fault(
            "validator.hello.required_features"@,
            texts(features@),
            texts(compiled@),
            "must exactly match the validator guest's compiled feature set"@,
        ),
{
    if let Err(error) = validate_sorted_features("validator.hello.required_features", features) {
        return Err(error);
    }
    if !same_features(features, compiled) {
        return Err(
            ManifestError::invalid(
                "validator.hello.required_features",
                "must exactly match the validator guest's compiled feature set",
            ),
        );
    }
    Ok(())
}

// ---------------------------------------------------------------------------
// Builder tools
// ---------------------------------------------------------------------------

pub open spec fn tool_roles(tools: Seq<BuilderToolContract>) -> Seq<Seq<char>> {
    Seq::new(tools.len(), |i: int| tools[i].role@)
}

pub open spec fn has_control(text: Seq<char>) -> bool {
    exists|i: int| 0 <= i < text.len() && is_control(#[trigger] text[i])
}

pub open spec fn version_fault(version: Seq<char>) -> Option<ManifestFault> {
    if version.len() == 0 || byte_count(version) > 256 || has_control(version) {
        Some(
            invalid_field(
                "builder.required_tools.version"@,
                "must contain 1..=256 non-control UTF-8 bytes"@,
            ),
        )
    } else {
        None
    }
}

/// Why one tool is refused after the given earlier ones.
pub open spec fn tool_fault(
    earlier: Seq<BuilderToolContract>,
    tool: BuilderToolContract,
) -> Option<ManifestFault> {
    first_of(
        token_fault("builder.required_tools.role"@, tool.role@, 64),
        first_of(
            sha256_fault("builder.required_tools.sha256"@, tool.sha256@),
            first_of(
                version_fault(tool.version@),
                if earlier.len() > 0 && !bytes_before(
                    encode_utf8(earlier.last().role@),
                    encode_utf8(tool.role@),
                ) {
                    Some(
                        invalid_field(
                            "builder.required_tools"@,
                            "tool roles must be unique and sorted"@,
                        ),
                    )
                } else {
                    None
                },
            ),
        ),
    )
}

pub open spec fn each_tool_fault(tools: Seq<BuilderToolContract>) -> Option<ManifestFault>
    decreases tools.len(),
{
    if tools.len() == 0 {
        None
    } else {
        first_of(each_tool_fault(tools.drop_last()), tool_fault(tools.drop_last(), tools.last()))
    }
}

pub open spec fn tools_fault(tools: Seq<BuilderToolContract>) -> Option<ManifestFault> {
    if tools.len() == 0 || tools.len() > 16 {
        Some(
            invalid_field("builder.required_tools"@, "must contain 1..=16 tool identities"@),
        )
    } else {
        first_of(
            each_tool_fault(tools),
            if tool_roles(tools).contains("umoci"@) {
                None
            } else {
                Some(
                    invalid_field(
                        "builder.required_tools"@,
                        "the current builder requires an exact umoci identity"@,
                    ),
                )
            },
        )
    }
}

proof fn lemma_tool_prefix(tools: Seq<BuilderToolContract>, n: int)
    requires
        0 <= n <= tools.len(),
        each_tool_fault(tools.take(n)) is Some,
    ensures
        each_tool_fault(tools) == each_tool_fault(tools.take(n)),
    decreases tools.len(),
{
    if n == tools.len() {
        assert(tools.take(n) =~= tools);
    } else {
        assert(tools.drop_last().take(n) =~= tools.take(n));
        lemma_tool_prefix(tools.drop_last(), n);
    }
}

fn check_version(version: &str) -> (checked: Result<(), ManifestError>)
    ensures
        manifest_fault(checked) == version_fault(version@),
{
    let chars = chars_of(version);
    let mut bad = version.is_empty() || byte_len(version) > 256;
    let mut i: usize = 0;
    while i < chars.len()
        invariant
            i <= chars@.len(),
            chars@ == version@,
            !bad ==> version@.len() > 0 && byte_count(version@) <= 256 && forall|j: int|
                0 <= j < i ==> !is_control(#[trigger] chars@[j]),
            bad ==> version_fault(version@) is Some,
        decreases chars@.len() - i,
    {
        if control_char(chars[i]) {
            assert(is_control(version@[i as int]));
            bad = true;
        }
        i += 1;
    }
    if bad {
        return Err(
            ManifestError::invalid(
                "builder.required_tools.version",
                "must contain 1..=256 non-control UTF-8 bytes",
            ),
        );
    }
    Ok(())
}

fn check_tools(tools: &Vec<BuilderToolContract>) -> (checked: Result<(), ManifestError>)
    ensures
        manifest_fault(checked) == tools_fault(tools@),
{
    if tools.len() == 0 || tools.len() > 16 {
        return Err(
            ManifestError::invalid("builder.required_tools", "must contain 1..=16 tool identities"),
        );
    }
    let ghost roles = tool_roles(tools@);
    let mut has_umoci = false;
    let mut i: usize = 0;
    assert(tools@.take(0) =~= Seq::<BuilderToolContract>::empty());
    while i < tools.len()
        invariant
            i <= tools@.len(),
            0 < tools@.len() <= 16,
            roles == tool_roles(tools@),
            each_tool_fault(tools@.take(i as int)) is None,
            has_umoci == roles.take(i as int).contains("umoci"@),
        decreases tools@.len() - i,
    {
        let ghost next = tools@.take(i + 1);
        assert(next.drop_last() =~= tools@.take(i as int));
        assert(next.last() == tools@[i as int]);
        if let Err(error) = validate_token("builder.required_tools.role", &tools[i].role, 64) {
            proof {
                lemma_tool_prefix(tools@, i + 1);
            }
            return Err(error);
        }
        if let Err(error) = validate_sha256("builder.required_tools.sha256", &tools[i].sha256) {
            proof {
                lemma_tool_prefix(tools@, i + 1);
            }
            return Err(error);
        }
        if let Err(error) = check_version(&tools[i].version) {
            proof {
                lemma_tool_prefix(tools@, i + 1);
            }
            return Err(error);
        }
        if i > 0 {
            assert(tools@.take(i as int).last() == tools@[i - 1]);
            if !is_bytes_before(
                tools[i - 1].role.as_str().as_bytes(),
                tools[i].role.as_str().as_bytes(),
            ) {
                proof {
                    lemma_tool_prefix(tools@, i + 1);
                }
                return Err(
                    ManifestError::invalid(
                        "builder.required_tools",
                        "tool roles must be unique and sorted",
                    ),
                );
            }
        }
        let ghost seen = roles.take(i as int);
        let is_umoci = same_text(&tools[i].role, "umoci");
        proof {
            let after = roles.take(i + 1);
            assert(after =~= seen.push(roles[i as int]));
            if seen.contains("umoci"@) {
                let k = choose|k: int| 0 <= k < seen.len() && seen[k] == "umoci"@;
                assert(after[k] == "umoci"@);
            }
            if is_umoci {
                assert(after[i as int] == "umoci"@);
            }
            if after.contains("umoci"@) && !is_umoci {
                let k = choose|k: int| 0 <= k < after.len() && after[k] == "umoci"@;
                assert(seen[k] == "umoci"@);
            }
        }
        if is_umoci {
            has_umoci = true;
        }
        i += 1;
    }
    assert(tools@.take(i as int) =~= tools@);
    assert(roles.take(i as int) =~= roles);
    if !has_umoci {
        return Err(
            ManifestError::invalid(
                "builder.required_tools",
                "the current builder requires an exact umoci identity",
            ),
        );
    }
    Ok(())
}

pub open spec fn builder_fault(builder: BuilderContract, facts: PolicyFacts) -> Option<
    ManifestFault,
> {
    first_of(
        hello_fault(HelloRole::Builder, builder.hello),
        first_of(
            exact_features_fault(
                "builder.hello.required_features"@,
                texts(builder.hello.required_features@),
                texts(facts.builder_features@),
                "must exactly match the builder guest's compiled feature set"@,
            ),
            first_of(
                value_fault(
                    "builder.manifest_schema"@,
                    builder.manifest_schema@,
                    "pocket-fs-manifest-v1"@,
                ),
                first_of(
                    if facts.source_date_epoch_min <= builder.source_date_epoch
                        <= facts.source_date_epoch_max {
                        None
                    } else {
                        Some(
                            invalid_field(
                                "builder.source_date_epoch"@,
                                "must be a pinned Unix timestamp from 2000-01-01 through 2100-01-01"@,
                            ),
                        )
                    },
                    tools_fault(builder.required_tools@),
                ),
            ),
        ),
    )
}

fn check_builder(builder: &BuilderContract, facts: &PolicyFacts) -> (checked: Result<
    (),
    ManifestError,
>)
    ensures
        manifest_fault(checked) == builder_fault(*builder, *facts),
{
    if let Err(error) = validate_hello_contract(HelloRole::Builder, &builder.hello) {
        return Err(error);
    }
    if let Err(error) = validate_builder_features(
        &builder.hello.required_features,
        &facts.builder_features,
    ) {
        return Err(error);
    }
    if let Err(error) = require_value(
        "builder.manifest_schema",
        &builder.manifest_schema,
        "pocket-fs-manifest-v1",
    ) {
        return Err(error);
    }
    if builder.source_date_epoch < facts.source_date_epoch_min || builder.source_date_epoch
        > facts.source_date_epoch_max {
        return Err(
            ManifestError::invalid(
                "builder.source_date_epoch",
                "must be a pinned Unix timestamp from 2000-01-01 through 2100-01-01",
            ),
        );
    }
    check_tools(&builder.required_tools)
}

pub open spec fn validator_fault(validator: ValidatorContract, facts: PolicyFacts) -> Option<
    ManifestFault,
> {
    first_of(
        hello_fault(HelloRole::Validator, validator.hello),
        first_of(
            exact_features_fault(
                "validator.hello.required_features"@,
                texts(validator.hello.required_features@),
                texts(facts.validator_features@),
                "must exactly match the validator guest's compiled feature set"@,
            ),
            value_fault(
                "validator.manifest_schema"@,
                validator.manifest_schema@,
                "pocket-fs-manifest-v1"@,
            ),
        ),
    )
}

fn check_validator(validator: &ValidatorContract, facts: &PolicyFacts) -> (checked: Result<
    (),
    ManifestError,
>)
    ensures
        manifest_fault(checked) == validator_fault(*validator, *facts),
{
    if let Err(error) = validate_hello_contract(HelloRole::Validator, &validator.hello) {
        return Err(error);
    }
    if let Err(error) = validate_validator_features(
        &validator.hello.required_features,
        &facts.validator_features,
    ) {
        return Err(error);
    }
    require_value(
        "validator.manifest_schema",
        &validator.manifest_schema,
        "pocket-fs-manifest-v1",
    )
}

// ---------------------------------------------------------------------------
// Launch
// ---------------------------------------------------------------------------

pub open spec fn pinned_fault(field: Seq<char>, actual: u16, pinned: u16, reason: Seq<char>) -> Option<
    ManifestFault,
> {
    if actual == pinned {
        None
    } else {
        Some(invalid_field(field, reason))
    }
}

pub open spec fn launch_limits_fault(launch: LaunchContract) -> Option<ManifestFault> {
    first_of(
        pinned_fault(
            "launch.max_ubd_path_bytes"@,
            launch.max_ubd_path_bytes,
            4095,
            "Linux 7.2 COW v3 backing paths require the pinned value 4095"@,
        ),
        first_of(
            pinned_fault(
                "launch.max_umid_bytes"@,
                launch.max_umid_bytes,
                63,
                "Linux 7.2 UMID_LEN requires the pinned value 63"@,
            ),
            pinned_fault(
                "launch.max_unix_path_bytes"@,
                launch.max_unix_path_bytes,
                107,
                "the pinned sockaddr_un pathname limit is 107 bytes"@,
            ),
        ),
    )
}

pub open spec fn launch_fault(launch: LaunchContract) -> Option<ManifestFault> {
    first_of(
        value_fault("launch.linkage"@, launch.linkage@, "static"@),
        first_of(
            value_fault("launch.cooperative_backend"@, launch.cooperative_backend@, "seccomp-on"@),
            first_of(
                if launch.noreboot {
                    None
                } else {
                    Some(unsupported_contract("launch.noreboot"@, "false"@))
                },
                first_of(
                    value_fault("launch.rdinit"@, launch.rdinit@, "/init"@),
                    first_of(
                        value_fault("launch.rootfstype"@, launch.rootfstype@, "ramfs"@),
                        first_of(
                            value_fault("launch.ubd"@, launch.ubd@, "cow-v3"@),
                            first_of(
                                value_fault("launch.serial"@, launch.serial@, "ssl-fd-v1"@),
                                first_of(
                                    value_fault("launch.network"@, launch.network@, "none"@),
                                    launch_limits_fault(launch),
                                ),
                            ),
                        ),
                    ),
                ),
            ),
        ),
    )
}

fn check_launch(launch: &LaunchContract) -> (checked: Result<(), ManifestError>)
    ensures
        manifest_fault(checked) == launch_fault(*launch),
{
    if let Err(error) = require_value("launch.linkage", &launch.linkage, "static") {
        return Err(error);
    }
    if let Err(error) = require_value(
        "launch.cooperative_backend",
        &launch.cooperative_backend,
        "seccomp-on",
    ) {
        return Err(error);
    }
    if !launch.noreboot {
        return Err(ManifestError::unsupported("launch.noreboot", "false"));
    }
    if let Err(error) = require_value("launch.rdinit", &launch.rdinit, "/init") {
        return Err(error);
    }
    if let Err(error) = require_value("launch.rootfstype", &launch.rootfstype, "ramfs") {
        return Err(error);
    }
    if let Err(error) = require_value("launch.ubd", &launch.ubd, "cow-v3") {
        return Err(error);
    }
    if let Err(error) = require_value("launch.serial", &launch.serial, "ssl-fd-v1") {
        return Err(error);
    }
    if let Err(error) = require_value("launch.network", &launch.network, "none") {
        return Err(error);
    }
    if launch.max_ubd_path_bytes != 4095 {
        return Err(
            ManifestError::invalid(
                "launch.max_ubd_path_bytes",
                "Linux 7.2 COW v3 backing paths require the pinned value 4095",
            ),
        );
    }
    if launch.max_umid_bytes != 63 {
        return Err(
            ManifestError::invalid(
                "launch.max_umid_bytes",
                "Linux 7.2 UMID_LEN requires the pinned value 63",
            ),
        );
    }
    if launch.max_unix_path_bytes != 107 {
        return Err(
            ManifestError::invalid(
                "launch.max_unix_path_bytes",
                "the pinned sockaddr_un pathname limit is 107 bytes",
            ),
        );
    }
    Ok(())
}

// ---------------------------------------------------------------------------
// The whole manifest
// ---------------------------------------------------------------------------

/// The first contract that a manifest breaks, if it breaks any.
pub open spec fn rules_fault(manifest: ProfileManifest, facts: PolicyFacts) -> Option<
    ManifestFault,
> {
    first_of(
        platform_fault(manifest),
        first_of(
            variants_fault(variant_texts(manifest.accepted_oci_variants@)),
            first_of(
                cpu_fault(manifest.cpu, facts.effective_max_cpus),
                first_of(
                    memory_fault(manifest.memory, facts.memory_policy),
                    first_of(
                        contracts_fault(manifest.contracts),
                        first_of(
                            hello_fault(HelloRole::Workload, manifest.hello),
                            first_of(
                                exact_features_fault(
                                    "hello.required_features"@,
                                    texts(manifest.hello.required_features@),
                                    texts(facts.workload_features@),
                                    "must exactly match the workload guest's compiled feature set"@,
                                ),
                                first_of(
                                    builder_fault(manifest.builder, facts),
                                    first_of(
                                        validator_fault(manifest.validator, facts),
                                        launch_fault(manifest.launch),
                                    ),
                                ),
                            ),
                        ),
                    ),
                ),
            ),
        ),
    )
}

/// Refuses a manifest that breaks any supported contract, naming the first.
pub fn validate_manifest(manifest: &ProfileManifest, facts: &PolicyFacts) -> (checked: Result<
    (),
    ManifestError,
>)
    ensures
        manifest_fault(checked) == rules_fault(*manifest, *facts),
{
    if let Err(error) = check_platform(manifest) {
        return Err(error);
    }
    if let Err(error) = check_variants(&manifest.accepted_oci_variants) {
        return Err(error);
    }
    if let Err(error) = check_cpu(&manifest.cpu, &facts.effective_max_cpus) {
        return Err(error);
    }
    if let Err(error) = check_memory(&manifest.memory, &facts.memory_policy) {
        return Err(error);
    }
    if let Err(error) = check_contracts(&manifest.contracts) {
        return Err(error);
    }
    if let Err(error) = validate_hello_contract(HelloRole::Workload, &manifest.hello) {
        return Err(error);
    }
    if let Err(error) = validate_workload_features(
        &manifest.hello.required_features,
        &facts.workload_features,
    ) {
        return Err(error);
    }
    if let Err(error) = check_builder(&manifest.builder, facts) {
        return Err(error);
    }
    if let Err(error) = check_validator(&manifest.validator, facts) {
        return Err(error);
    }
    check_launch(&manifest.launch)
}

// ---------------------------------------------------------------------------
// Laws
// ---------------------------------------------------------------------------

/// An accepted manifest declares the CPU count that the CPU policy arrives at,
/// and memory sizes that lie aligned between its minimum and a tested maximum
/// that stays within the product's.
pub proof fn law_accepted_resources_are_bounded(manifest: ProfileManifest, facts: PolicyFacts)
    requires
        rules_fault(manifest, facts) is None,
    ensures
        facts.effective_max_cpus == Ok::<u16, String>(manifest.cpu.effective_max_cpus),
        ({
            let memory = manifest.memory;
            let low = memory.minimum_bytes;
            let high = memory.effective_max_memory_bytes;
            &&& high <= memory.product_maximum_bytes
            &&& low <= memory.default_memory_bytes <= high
            &&& low <= memory.builder_memory_bytes <= high
            &&& low <= memory.validator_memory_bytes <= high
            &&& is_multiple(memory.product_maximum_bytes, memory.alignment_bytes)
            &&& is_multiple(memory.default_memory_bytes, memory.alignment_bytes)
            &&& is_multiple(memory.builder_memory_bytes, memory.alignment_bytes)
            &&& is_multiple(memory.validator_memory_bytes, memory.alignment_bytes)
        }),
{
}

/// An accepted manifest requires of each guest exactly the features that the
/// guest was compiled with.
pub proof fn law_accepted_features_are_the_compiled_ones(
    manifest: ProfileManifest,
    facts: PolicyFacts,
)
    requires
        rules_fault(manifest, facts) is None,
    ensures
        texts(manifest.hello.required_features@) == texts(facts.workload_features@),
        texts(manifest.builder.hello.required_features@) == texts(facts.builder_features@),
        texts(manifest.validator.hello.required_features@) == texts(facts.validator_features@),
{
}

/// Accepted features are listed in strictly increasing order, so none is
/// listed twice.
pub proof fn law_accepted_features_increase(
    field: Seq<char>,
    features: Seq<Seq<char>>,
    i: int,
    j: int,
)
    requires
        sorted_features_fault(field, features) is None,
        0 <= i < j < features.len(),
    ensures
        bytes_before(encode_utf8(features[i]), encode_utf8(features[j])),
        features[i] != features[j],
    decreases features.len(),
{
    let front = features.drop_last();
    if j < front.len() {
        law_accepted_features_increase(field, front, i, j);
        assert(front[i] == features[i] && front[j] == features[j]);
    } else {
        assert(features.last() == features[j] && front.last() == features[j - 1]);
        assert(feature_fault(field, front, features.last()) is None);
        if i < j - 1 {
            law_accepted_features_increase(field, front, i, j - 1);
            assert(front[i] == features[i] && front[j - 1] == features[j - 1]);
        }
    }
    law_byte_order_is_strict_and_total(
        encode_utf8(features[i]),
        encode_utf8(features[j - 1]),
        encode_utf8(features[j]),
    );
}

/// An accepted list of variants holds each at most once, and no other than
/// `v1` and the absent one.
pub proof fn law_accepted_variants_are_unique(
    variants: Seq<Option<Seq<char>>>,
    i: int,
    j: int,
)
    requires
        variants_fault(variants) is None,
        0 <= i < variants.len(),
        0 <= j < variants.len(),
    ensures
        i != j ==> variants[i] != variants[j],
        variants[i] matches Some(variant) ==> variant == "v1"@,
{
    lemma_each_variant(variants, i);
    lemma_each_variant(variants, j);
    if i < j {
        assert(variants.take(j)[i] == variants[i]);
    } else if j < i {
        assert(variants.take(i)[j] == variants[j]);
    }
}

proof fn lemma_each_variant(variants: Seq<Option<Seq<char>>>, i: int)
    requires
        each_variant_fault(variants) is None,
        0 <= i < variants.len(),
    ensures
        variant_fault(variants.take(i), variants[i]) is None,
    decreases variants.len(),
{
    let front = variants.drop_last();
    if i < front.len() {
        lemma_each_variant(front, i);
        assert(front.take(i) =~= variants.take(i));
    } else {
        assert(front =~= variants.take(i));
    }
}

/// Whether a text is made of letters, digits, dots, underscores and hyphens, and
/// has from one to so many bytes.
pub open spec fn is_plain_token(value: Seq<char>, maximum: nat) -> bool {
    &&& 0 < value.len()
    &&& byte_count(value) <= maximum
    &&& forall|i: int|
        0 <= i < value.len() ==> {
            let c = #[trigger] value[i];
            'a' <= c <= 'z' || 'A' <= c <= 'Z' || '0' <= c <= '9' || c == '.' || c == '_' || c
                == '-'
        }
}

/// A token is exactly that.
pub proof fn law_tokens_are_plain(field: Seq<char>, value: Seq<char>, maximum: nat)
    ensures
        token_fault(field, value, maximum) is None <==> is_plain_token(value, maximum),
{
    if is_plain_token(value, maximum) {
        assert forall|i: int| 0 <= i < value.len() implies is_token_char(#[trigger] value[i]) by {}
    }
}

/// Whether the identities that a guest must say first are digests.
pub open spec fn has_identities(hello: HelloContract) -> bool {
    &&& byte_count(hello.guest_contract_id@) == 64 && is_lower_hex(hello.guest_contract_id@)
    &&& byte_count(hello.init_build_id@) == 64 && is_lower_hex(hello.init_build_id@)
    &&& byte_count(hello.kernel_build_id@) == 64 && is_lower_hex(hello.kernel_build_id@)
}

/// The one contract that is supported, field by field: an accepted manifest is
/// for a static 64-bit x86 kernel with 4096-byte pages, linux/amd64 images, the
/// named policies and layouts, guests with full identities, a pinned clock and
/// the pinned limits of the kernel's interfaces.
pub proof fn law_accepted_manifest_is_the_supported_one(
    manifest: ProfileManifest,
    facts: PolicyFacts,
)
    requires
        call_ensures(validate_manifest, (&manifest, &facts), Ok(())),
    ensures
        manifest.schema_version == 3,
        is_plain_token(manifest.profile_id@, 128),
        manifest.host_architecture@ == "x86_64"@,
        manifest.host_elf_machine == 62,
        manifest.oci_os@ == "linux"@,
        manifest.oci_architecture@ == "amd64"@,
        manifest.uml_subarchitecture@ == "x86_64"@,
        manifest.guest_page_size == 4096,
        manifest.contracts.selector_policy@ == "native-amd64-v1"@,
        manifest.contracts.root_layout@ == "pocket-root-v1"@,
        manifest.contracts.filesystem@ == "ext4-v1-b4096"@,
        manifest.contracts.cpu_state_hwcap_policy@ == "native-x86_64-v1"@,
        manifest.contracts.guest_capability_policy@ == "fixed-capabilities-v1"@,
        has_identities(manifest.hello),
        has_identities(manifest.builder.hello),
        has_identities(manifest.validator.hello),
        manifest.builder.manifest_schema@ == "pocket-fs-manifest-v1"@,
        manifest.validator.manifest_schema@ == "pocket-fs-manifest-v1"@,
        facts.source_date_epoch_min <= manifest.builder.source_date_epoch
            <= facts.source_date_epoch_max,
        manifest.launch.linkage@ == "static"@,
        manifest.launch.cooperative_backend@ == "seccomp-on"@,
        manifest.launch.noreboot,
        manifest.launch.rdinit@ == "/init"@,
        manifest.launch.rootfstype@ == "ramfs"@,
        manifest.launch.ubd@ == "cow-v3"@,
        manifest.launch.serial@ == "ssl-fd-v1"@,
        manifest.launch.network@ == "none"@,
        manifest.launch.max_ubd_path_bytes == 4095,
        manifest.launch.max_umid_bytes == 63,
        manifest.launch.max_unix_path_bytes == 107,
        manifest.hello.required_features@.len() <= 64,
        manifest.builder.hello.required_features@.len() <= 64,
        manifest.validator.hello.required_features@.len() <= 64,
        manifest.accepted_oci_variants@.len() > 0,
        facts.memory_policy is Ok,
{
    law_tokens_are_plain("profile_id"@, manifest.profile_id@, 128);
    assert(texts(manifest.hello.required_features@).len()
        == manifest.hello.required_features@.len());
    assert(texts(manifest.builder.hello.required_features@).len()
        == manifest.builder.hello.required_features@.len());
    assert(texts(manifest.validator.hello.required_features@).len()
        == manifest.validator.hello.required_features@.len());
}

/// The tools of an accepted manifest: from one to sixteen, in increasing order
/// of their roles, each named by the digest of its bytes and one bounded line
/// for its version, and umoci among them.
pub proof fn law_accepted_tools_are_measured(
    manifest: ProfileManifest,
    facts: PolicyFacts,
    i: int,
    j: int,
)
    requires
        call_ensures(validate_manifest, (&manifest, &facts), Ok(())),
        0 <= i < manifest.builder.required_tools@.len(),
    ensures
        ({
            let tools = manifest.builder.required_tools@;
            &&& 1 <= tools.len() <= 16
            &&& is_plain_token(tools[i].role@, 64)
            &&& byte_count(tools[i].sha256@) == 64
            &&& is_lower_hex(tools[i].sha256@)
            &&& 0 < tools[i].version@.len()
            &&& byte_count(tools[i].version@) <= 256
            &&& !has_control(tools[i].version@)
            &&& i < j < tools.len() ==> bytes_before(
                encode_utf8(tools[i].role@),
                encode_utf8(tools[j].role@),
            )
            &&& exists|k: int| 0 <= k < tools.len() && (#[trigger] tools[k]).role@ == "umoci"@
        }),
{
    let tools = manifest.builder.required_tools@;
    lemma_each_tool(tools, i);
    law_tokens_are_plain("builder.required_tools.role"@, tools[i].role@, 64);
    if i < j < tools.len() {
        lemma_tools_increase(tools, i, j);
    }
    let roles = tool_roles(tools);
    let k = roles.index_of("umoci"@);
    assert(roles.contains("umoci"@));
    assert(roles[k] == "umoci"@);
    assert(tools[k].role@ == "umoci"@);
}

proof fn lemma_each_tool(tools: Seq<BuilderToolContract>, i: int)
    requires
        each_tool_fault(tools) is None,
        0 <= i < tools.len(),
    ensures
        tool_fault(tools.take(i), tools[i]) is None,
    decreases tools.len(),
{
    if i < tools.len() - 1 {
        lemma_each_tool(tools.drop_last(), i);
        assert(tools.drop_last().take(i) =~= tools.take(i));
    } else {
        assert(tools.drop_last() =~= tools.take(i));
    }
}

proof fn lemma_tools_increase(tools: Seq<BuilderToolContract>, i: int, j: int)
    requires
        each_tool_fault(tools) is None,
        0 <= i < j < tools.len(),
    ensures
        bytes_before(encode_utf8(tools[i].role@), encode_utf8(tools[j].role@)),
    decreases j,
{
    lemma_each_tool(tools, j);
    assert(tools.take(j).last() == tools[j - 1]);
    if i < j - 1 {
        lemma_tools_increase(tools, i, j - 1);
        law_byte_order_is_strict_and_total(
            encode_utf8(tools[i].role@),
            encode_utf8(tools[j - 1].role@),
            encode_utf8(tools[j].role@),
        );
    }
}

/// What meets that contract is accepted: there is nothing else to refuse a
/// manifest for.
pub proof fn law_supported_manifest_is_accepted(
    manifest: ProfileManifest,
    facts: PolicyFacts,
    checked: Result<(), ManifestError>,
)
    requires
        manifest.schema_version == 3,
        is_plain_token(manifest.profile_id@, 128),
        manifest.host_architecture@ == "x86_64"@,
        manifest.host_elf_machine == 62,
        manifest.oci_os@ == "linux"@,
        manifest.oci_architecture@ == "amd64"@,
        manifest.uml_subarchitecture@ == "x86_64"@,
        manifest.guest_page_size == 4096,
        manifest.contracts.selector_policy@ == "native-amd64-v1"@,
        manifest.contracts.root_layout@ == "pocket-root-v1"@,
        manifest.contracts.filesystem@ == "ext4-v1-b4096"@,
        manifest.contracts.cpu_state_hwcap_policy@ == "native-x86_64-v1"@,
        manifest.contracts.guest_capability_policy@ == "fixed-capabilities-v1"@,
        has_identities(manifest.hello),
        has_identities(manifest.builder.hello),
        has_identities(manifest.validator.hello),
        manifest.builder.manifest_schema@ == "pocket-fs-manifest-v1"@,
        manifest.validator.manifest_schema@ == "pocket-fs-manifest-v1"@,
        facts.source_date_epoch_min <= manifest.builder.source_date_epoch
            <= facts.source_date_epoch_max,
        manifest.launch.linkage@ == "static"@,
        manifest.launch.cooperative_backend@ == "seccomp-on"@,
        manifest.launch.noreboot,
        manifest.launch.rdinit@ == "/init"@,
        manifest.launch.rootfstype@ == "ramfs"@,
        manifest.launch.ubd@ == "cow-v3"@,
        manifest.launch.serial@ == "ssl-fd-v1"@,
        manifest.launch.network@ == "none"@,
        manifest.launch.max_ubd_path_bytes == 4095,
        manifest.launch.max_umid_bytes == 63,
        manifest.launch.max_unix_path_bytes == 107,
        variants_fault(variant_texts(manifest.accepted_oci_variants@)) is None,
        facts.effective_max_cpus == Ok::<u16, String>(manifest.cpu.effective_max_cpus),
        facts.memory_policy is Ok,
        ({
            let memory = manifest.memory;
            let low = memory.minimum_bytes;
            let high = memory.effective_max_memory_bytes;
            &&& memory.alignment_bytes > 0
            &&& high <= memory.product_maximum_bytes
            &&& low <= memory.default_memory_bytes <= high
            &&& low <= memory.builder_memory_bytes <= high
            &&& low <= memory.validator_memory_bytes <= high
            &&& memory.product_maximum_bytes % memory.alignment_bytes == 0
            &&& memory.default_memory_bytes % memory.alignment_bytes == 0
            &&& memory.builder_memory_bytes % memory.alignment_bytes == 0
            &&& memory.validator_memory_bytes % memory.alignment_bytes == 0
        }),
        texts(manifest.hello.required_features@) == texts(facts.workload_features@),
        texts(manifest.builder.hello.required_features@) == texts(facts.builder_features@),
        texts(manifest.validator.hello.required_features@) == texts(facts.validator_features@),
        are_sorted_features(texts(facts.workload_features@)),
        are_sorted_features(texts(facts.builder_features@)),
        are_sorted_features(texts(facts.validator_features@)),
        1 <= manifest.builder.required_tools@.len() <= 16,
        each_tool_fault(manifest.builder.required_tools@) is None,
        tool_roles(manifest.builder.required_tools@).contains("umoci"@),
        call_ensures(validate_manifest, (&manifest, &facts), checked),
    ensures
        checked is Ok,
{
    law_tokens_are_plain("profile_id"@, manifest.profile_id@, 128);
    law_tokens_are_plain("contracts.selector_policy"@, manifest.contracts.selector_policy@, 128);
    reveal_strlit("native-amd64-v1");
    is_ascii_chars_encode_utf8("native-amd64-v1"@);
    assert(is_plain_token("native-amd64-v1"@, 128));
    lemma_sorted_features("hello.required_features"@, texts(facts.workload_features@));
    lemma_sorted_features("builder.hello.required_features"@, texts(facts.builder_features@));
    lemma_sorted_features("validator.hello.required_features"@, texts(facts.validator_features@));
}

/// Whether features are at most 64 tokens, each after the one before it.
pub open spec fn are_sorted_features(features: Seq<Seq<char>>) -> bool {
    &&& features.len() <= 64
    &&& forall|i: int| 0 <= i < features.len() ==> is_plain_token(#[trigger] features[i], 64)
    &&& forall|i: int|
        0 < i < features.len() ==> bytes_before(
            encode_utf8(features[i - 1]),
            encode_utf8(#[trigger] features[i]),
        )
}

proof fn lemma_sorted_features(field: Seq<char>, features: Seq<Seq<char>>)
    requires
        are_sorted_features(features),
    ensures
        sorted_features_fault(field, features) is None,
    decreases features.len(),
{
    if features.len() > 0 {
        let front = features.drop_last();
        assert forall|i: int| 0 <= i < front.len() implies is_plain_token(
            #[trigger] front[i],
            64,
        ) by {
            assert(front[i] == features[i]);
        }
        assert forall|i: int| 0 < i < front.len() implies bytes_before(
            encode_utf8(front[i - 1]),
            encode_utf8(#[trigger] front[i]),
        ) by {
            assert(front[i] == features[i]);
        }
        lemma_sorted_features(field, front);
        law_tokens_are_plain(field, features.last(), 64);
        assert(features[features.len() - 1] == features.last());
    }
}

/// A value is accepted where it is the expected one and is told otherwise; a
/// digest is 64 lower-case hexadecimal digits.
pub proof fn law_single_values_are_exact(
    field: &'static str,
    actual: &str,
    expected: &str,
    same: Result<(), ManifestError>,
    digest: Result<(), ManifestError>,
)
    requires
        call_ensures(require_value, (field, actual, expected), same),
        call_ensures(validate_sha256, (field, actual), digest),
    ensures
        same is Ok <==> actual@ == expected@,
        same matches Err(error) ==> error@ == (ManifestFault::UnsupportedContract {
            field: field@,
            value: actual@,
        }),
        digest is Ok <==> byte_count(actual@) == 64 && forall|i: int|
            0 <= i < actual@.len() ==> ('0' <= (#[trigger] actual@[i]) <= '9' || 'a' <= actual@[i]
                <= 'f'),
        digest matches Err(error) ==> error@ is InvalidField && error@->InvalidField_field
            == field@,
{
    if is_lower_hex(actual@) {
        assert forall|i: int| 0 <= i < actual@.len() implies ('0' <= (#[trigger] actual@[i]) <= '9'
            || 'a' <= actual@[i] <= 'f') by {
            assert(crate::digest::is_lower_hex_char(actual@[i]));
        }
    }
}

/// A guest's contract has three digests, and a refusal names the one that is not
/// under the guest that it is of.
pub proof fn law_guest_contract_is_three_digests(
    role: HelloRole,
    hello: HelloContract,
    checked: Result<(), ManifestError>,
)
    requires
        call_ensures(validate_hello_contract, (role, &hello), checked),
    ensures
        checked is Ok <==> {
            &&& byte_count(hello.guest_contract_id@) == 64 && is_lower_hex(hello.guest_contract_id@)
            &&& byte_count(hello.init_build_id@) == 64 && is_lower_hex(hello.init_build_id@)
            &&& byte_count(hello.kernel_build_id@) == 64 && is_lower_hex(hello.kernel_build_id@)
        },
        checked is Err ==> checked->Err_0@ is InvalidField,
        checked is Err && role is Workload ==> {
            let field = checked->Err_0@->InvalidField_field;
            field == "hello.guest_contract_id"@ || field == "hello.init_build_id"@ || field
                == "hello.kernel_build_id"@
        },
        checked is Err && role is Builder ==> {
            let field = checked->Err_0@->InvalidField_field;
            field == "builder.hello.guest_contract_id"@ || field == "builder.hello.init_build_id"@
                || field == "builder.hello.kernel_build_id"@
        },
        checked is Err && role is Validator ==> {
            let field = checked->Err_0@->InvalidField_field;
            field == "validator.hello.guest_contract_id"@ || field
                == "validator.hello.init_build_id"@ || field == "validator.hello.kernel_build_id"@
        },
{
}

/// The features of each guest are the compiled ones, in order and without
/// repetition, and a refusal names the guest.
pub proof fn law_features_are_the_compiled_ones(
    features: Vec<String>,
    compiled: Vec<String>,
    workload: Result<(), ManifestError>,
    builder: Result<(), ManifestError>,
    validator: Result<(), ManifestError>,
)
    requires
        call_ensures(validate_workload_features, (&features, &compiled), workload),
        call_ensures(validate_builder_features, (&features, &compiled), builder),
        call_ensures(validate_validator_features, (&features, &compiled), validator),
    ensures
        workload is Ok <==> texts(features@) == texts(compiled@) && are_sorted_features(
            texts(features@),
        ),
        builder is Ok <==> texts(features@) == texts(compiled@) && are_sorted_features(
            texts(features@),
        ),
        validator is Ok <==> texts(features@) == texts(compiled@) && are_sorted_features(
            texts(features@),
        ),
        are_sorted_features(texts(features@)) && texts(features@) != texts(compiled@) ==> {
            &&& workload->Err_0@->InvalidField_field == "hello.required_features"@
            &&& builder->Err_0@->InvalidField_field == "builder.hello.required_features"@
            &&& validator->Err_0@->InvalidField_field == "validator.hello.required_features"@
        },
{
    let spelled = texts(features@);
    if are_sorted_features(spelled) {
        lemma_sorted_features("hello.required_features"@, spelled);
        lemma_sorted_features("builder.hello.required_features"@, spelled);
        lemma_sorted_features("validator.hello.required_features"@, spelled);
    }
    if workload is Ok {
        lemma_features_are_sorted("hello.required_features"@, spelled);
    }
    if builder is Ok {
        lemma_features_are_sorted("builder.hello.required_features"@, spelled);
    }
    if validator is Ok {
        lemma_features_are_sorted("validator.hello.required_features"@, spelled);
    }
}

proof fn lemma_features_are_sorted(field: Seq<char>, features: Seq<Seq<char>>)
    requires
        sorted_features_fault(field, features) is None,
    ensures
        are_sorted_features(features),
    decreases features.len(),
{
    if features.len() > 0 {
        let front = features.drop_last();
        lemma_features_are_sorted(field, front);
        law_tokens_are_plain(field, features.last(), 64);
        assert forall|i: int| 0 <= i < features.len() implies is_plain_token(
            #[trigger] features[i],
            64,
        ) by {
            if i < front.len() {
                assert(front[i] == features[i]);
            }
        }
        assert forall|i: int| 0 < i < features.len() implies bytes_before(
            encode_utf8(features[i - 1]),
            encode_utf8(#[trigger] features[i]),
        ) by {
            if i < front.len() {
                assert(front[i] == features[i]);
                assert(front[i - 1] == features[i - 1]);
            }
        }
    }
}

/// An accepted manifest with one platform setting changed is refused over that setting, with
/// the value that it has.
pub proof fn law_wrong_platform_is_named(
    right: ProfileManifest,
    facts: PolicyFacts,
    text: String,
    number: u16,
    page_size: u32,
)
    requires
        rules_fault(right, facts) is None,
    ensures
        number != 3 ==> rules_fault(
            (ProfileManifest { schema_version: number, ..right }),
            facts,
        ) == Some(
            ManifestFault::UnsupportedContract { field: "schema_version"@, value: decimal(number as nat) },
        ),
        text@ != "x86_64"@ ==> rules_fault(
            (ProfileManifest { host_architecture: text, ..right }),
            facts,
        ) == Some(
            ManifestFault::UnsupportedContract { field: "host_architecture"@, value: text@ },
        ),
        number != 62 ==> rules_fault(
            (ProfileManifest { host_elf_machine: number, ..right }),
            facts,
        ) == Some(
            ManifestFault::UnsupportedContract { field: "host_elf_machine"@, value: decimal(number as nat) },
        ),
        text@ != "linux"@ ==> rules_fault(
            (ProfileManifest { oci_os: text, ..right }),
            facts,
        ) == Some(
            ManifestFault::UnsupportedContract { field: "oci_os"@, value: text@ },
        ),
        text@ != "amd64"@ ==> rules_fault(
            (ProfileManifest { oci_architecture: text, ..right }),
            facts,
        ) == Some(
            ManifestFault::UnsupportedContract { field: "oci_architecture"@, value: text@ },
        ),
        text@ != "x86_64"@ ==> rules_fault(
            (ProfileManifest { uml_subarchitecture: text, ..right }),
            facts,
        ) == Some(
            ManifestFault::UnsupportedContract { field: "uml_subarchitecture"@, value: text@ },
        ),
        page_size != 4096 ==> rules_fault(
            (ProfileManifest { guest_page_size: page_size, ..right }),
            facts,
        ) == Some(
            ManifestFault::UnsupportedContract { field: "guest_page_size"@, value: decimal(page_size as nat) },
        ),
{
}

/// An accepted manifest with one contract changed is refused over that setting, with
/// the value that it has.
pub proof fn law_wrong_contract_is_named(
    right: ProfileManifest,
    facts: PolicyFacts,
    text: String,
)
    requires
        rules_fault(right, facts) is None,
    ensures
        text@ != "pocket-root-v1"@ ==> rules_fault(
            (ProfileManifest {
                contracts: (Contracts { root_layout: text, ..right.contracts }),
                ..right
            }),
            facts,
        ) == Some(
            ManifestFault::UnsupportedContract { field: "contracts.root_layout"@, value: text@ },
        ),
        text@ != "ext4-v1-b4096"@ ==> rules_fault(
            (ProfileManifest {
                contracts: (Contracts { filesystem: text, ..right.contracts }),
                ..right
            }),
            facts,
        ) == Some(
            ManifestFault::UnsupportedContract { field: "contracts.filesystem"@, value: text@ },
        ),
        text@ != "native-x86_64-v1"@ ==> rules_fault(
            (ProfileManifest {
                contracts: (Contracts { cpu_state_hwcap_policy: text, ..right.contracts }),
                ..right
            }),
            facts,
        ) == Some(
            ManifestFault::UnsupportedContract { field: "contracts.cpu_state_hwcap_policy"@, value: text@ },
        ),
        text@ != "fixed-capabilities-v1"@ ==> rules_fault(
            (ProfileManifest {
                contracts: (Contracts { guest_capability_policy: text, ..right.contracts }),
                ..right
            }),
            facts,
        ) == Some(
            ManifestFault::UnsupportedContract { field: "contracts.guest_capability_policy"@, value: text@ },
        ),
{
}

/// An accepted manifest with one launch setting changed is refused over that setting, with
/// the value that it has.
pub proof fn law_wrong_launch_is_named(
    right: ProfileManifest,
    facts: PolicyFacts,
    text: String,
)
    requires
        rules_fault(right, facts) is None,
    ensures
        text@ != "static"@ ==> rules_fault(
            (ProfileManifest {
                launch: (LaunchContract { linkage: text, ..right.launch }),
                ..right
            }),
            facts,
        ) == Some(
            ManifestFault::UnsupportedContract { field: "launch.linkage"@, value: text@ },
        ),
        text@ != "seccomp-on"@ ==> rules_fault(
            (ProfileManifest {
                launch: (LaunchContract { cooperative_backend: text, ..right.launch }),
                ..right
            }),
            facts,
        ) == Some(
            ManifestFault::UnsupportedContract { field: "launch.cooperative_backend"@, value: text@ },
        ),
        text@ != "/init"@ ==> rules_fault(
            (ProfileManifest {
                launch: (LaunchContract { rdinit: text, ..right.launch }),
                ..right
            }),
            facts,
        ) == Some(
            ManifestFault::UnsupportedContract { field: "launch.rdinit"@, value: text@ },
        ),
        text@ != "ramfs"@ ==> rules_fault(
            (ProfileManifest {
                launch: (LaunchContract { rootfstype: text, ..right.launch }),
                ..right
            }),
            facts,
        ) == Some(
            ManifestFault::UnsupportedContract { field: "launch.rootfstype"@, value: text@ },
        ),
        text@ != "cow-v3"@ ==> rules_fault(
            (ProfileManifest {
                launch: (LaunchContract { ubd: text, ..right.launch }),
                ..right
            }),
            facts,
        ) == Some(
            ManifestFault::UnsupportedContract { field: "launch.ubd"@, value: text@ },
        ),
        text@ != "ssl-fd-v1"@ ==> rules_fault(
            (ProfileManifest {
                launch: (LaunchContract { serial: text, ..right.launch }),
                ..right
            }),
            facts,
        ) == Some(
            ManifestFault::UnsupportedContract { field: "launch.serial"@, value: text@ },
        ),
        text@ != "none"@ ==> rules_fault(
            (ProfileManifest {
                launch: (LaunchContract { network: text, ..right.launch }),
                ..right
            }),
            facts,
        ) == Some(
            ManifestFault::UnsupportedContract { field: "launch.network"@, value: text@ },
        ),
        rules_fault(
            (ProfileManifest {
                launch: (LaunchContract { noreboot: false, ..right.launch }),
                ..right
            }),
            facts,
        ) == Some(
            ManifestFault::UnsupportedContract { field: "launch.noreboot"@, value: "false"@ },
        ),
{
}

} // verus!
