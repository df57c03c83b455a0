//! What a build's guests must say of themselves before they are given work.

use vstd::prelude::*;

use crate::builder::contract::{
    contract_tools, required_tools, tool_texts, ToolIdentity, ToolText,
};
use crate::debug::{bracketed, bracketed_text, list_debug, list_debug_text};
use crate::error::{build_fault, first_of, HostBuildError, HostBuildFault};
use crate::image::account::lists_text;
use crate::manifest::rules::same_features;
use crate::manifest::ProfileManifest;
use crate::text::{
    debug_spelling, debug_text, decimal, decimal_text, join3, push_text, same_text, texts,
};

verus! {

/// What the builder guest says of itself.
#[derive(Debug, Clone)]
pub struct BuilderHello {
    pub guest_contract_id: String,
    pub init_build_id: String,
    pub kernel_build_id: String,
    pub host_elf_machine: u16,
    pub guest_uts_machine: String,
    pub guest_page_size: u32,
    pub online_cpus: u16,
    pub accepted_physmem_bytes: u64,
    pub cpu_state_hwcap_policy: String,
    pub builder_tools: Vec<ToolIdentity>,
    pub features: Vec<String>,
}

/// What the validator guest says of itself.
#[derive(Debug, Clone)]
pub struct ValidatorHello {
    pub guest_contract_id: String,
    pub init_build_id: String,
    pub kernel_build_id: String,
    pub host_elf_machine: u16,
    pub guest_uts_machine: String,
    pub guest_page_size: u32,
    pub online_cpus: u16,
    pub accepted_physmem_bytes: u64,
    pub cpu_state_hwcap_policy: String,
    pub features: Vec<String>,
}

pub open spec fn hello_mismatch(
    field: Seq<char>,
    expected: Seq<char>,
    actual: Seq<char>,
) -> HostBuildFault {
    HostBuildFault::HelloMismatch { field, expected, actual }
}

/// Why one text of a hello is refused, if it is.
pub open spec fn text_mismatch(
    field: Seq<char>,
    expected: Seq<char>,
    actual: Seq<char>,
) -> Option<HostBuildFault> {
    if expected != actual {
        Some(hello_mismatch(field, expected, actual))
    } else {
        None
    }
}

/// Why one number of a hello is refused, if it is.
pub open spec fn number_mismatch(field: Seq<char>, expected: nat, actual: nat) -> Option<
    HostBuildFault,
> {
    if expected != actual {
        Some(hello_mismatch(field, decimal(expected), decimal(actual)))
    } else {
        None
    }
}

fn check_text(field: &'static str, expected: &str, actual: &str) -> (checked: Result<
    (),
    HostBuildError,
>)
    ensures
        build_fault(checked) == text_mismatch(field@, expected@, actual@),
{
    if !same_text(expected, actual) {
        return Err(
            HostBuildError::HelloMismatch {
                field,
                expected: expected.to_owned(),
                actual: actual.to_owned(),
            },
        );
    }
    Ok(())
}

fn check_number(field: &'static str, expected: u64, actual: u64) -> (checked: Result<
    (),
    HostBuildError,
>)
    ensures
        build_fault(checked) == number_mismatch(field@, expected as nat, actual as nat),
{
    if expected != actual {
        return Err(
            HostBuildError::HelloMismatch {
                field,
                expected: decimal_text(expected),
                actual: decimal_text(actual),
            },
        );
    }
    Ok(())
}

// ---------------------------------------------------------------------------
// Tools and features
// ---------------------------------------------------------------------------

/// How a diagnostic spells a tool.
pub open spec fn tool_debug(tool: ToolText) -> Seq<char> {
    "ToolIdentity { role: "@ + debug_spelling(tool.role) + ", sha256: "@ + debug_spelling(
        tool.sha256,
    ) + ", version: "@ + debug_spelling(tool.version) + " }"@
}

pub open spec fn tool_spellings(tools: Seq<ToolText>) -> Seq<Seq<char>> {
    Seq::new(tools.len(), |i: int| tool_debug(tools[i]))
}

fn tool_debug_text(tool: &ToolIdentity) -> (text: String)
    ensures
        text@ == tool_debug(
            ToolText { role: tool.role@, sha256: tool.sha256@, version: tool.version@ },
        ),
{
    let role = join3("ToolIdentity { role: ", &debug_text(&tool.role), ", sha256: ");
    let digest = join3(&role, &debug_text(&tool.sha256), ", version: ");
    join3(&digest, &debug_text(&tool.version), " }")
}

fn tools_debug_text(tools: &Vec<ToolIdentity>) -> (text: String)
    ensures
        text@ == bracketed(tool_spellings(tool_texts(tools@))),
{
    let ghost all = tool_spellings(tool_texts(tools@));
    let mut spelled: Vec<String> = Vec::new();
    let mut i: usize = 0;
    assert(texts(spelled@) =~= all.take(0));
    while i < tools.len()
        invariant
            i <= tools@.len(),
            all == tool_spellings(tool_texts(tools@)),
            texts(spelled@) == all.take(i as int),
        decreases tools@.len() - i,
    {
        push_text(&mut spelled, &tool_debug_text(&tools[i]));
        i += 1;
        assert(texts(spelled@) =~= all.take(i as int));
    }
    assert(all.take(i as int) =~= all);
    bracketed_text(&spelled)
}

/// Whether two lists name the same tools in the same order.
fn same_tool_lists(left: &Vec<ToolIdentity>, right: &Vec<ToolIdentity>) -> (same: bool)
    ensures
        same == (tool_texts(left@) == tool_texts(right@)),
{
    let ghost a = tool_texts(left@);
    let ghost b = tool_texts(right@);
    if left.len() != right.len() {
        assert(a.len() != b.len());
        return false;
    }
    let mut i: usize = 0;
    while i < left.len()
        invariant
            i <= left@.len(),
            left@.len() == right@.len(),
            a == tool_texts(left@),
            b == tool_texts(right@),
            forall|j: int| 0 <= j < i ==> a[j] == b[j],
        decreases left@.len() - i,
    {
        if !same_text(&left[i].role, &right[i].role) || !same_text(
            &left[i].sha256,
            &right[i].sha256,
        ) || !same_text(&left[i].version, &right[i].version) {
            assert(a[i as int] != b[i as int]);
            return false;
        }
        i += 1;
    }
    assert(a =~= b);
    true
}

/// Why the first missing feature is refused, if one is missing.
pub open spec fn missing_feature_fault(
    required: Seq<Seq<char>>,
    features: Seq<Seq<char>>,
) -> Option<HostBuildFault>
    decreases required.len(),
{
    if required.len() == 0 {
        None
    } else {
        first_of(
            missing_feature_fault(required.drop_last(), features),
            if features.contains(required.last()) {
                None
            } else {
                Some(hello_mismatch("features"@, required.last(), list_debug(features)))
            },
        )
    }
}

proof fn lemma_feature_prefix(required: Seq<Seq<char>>, features: Seq<Seq<char>>, n: int)
    requires
        0 <= n <= required.len(),
        missing_feature_fault(required.take(n), features) is Some,
    ensures
        missing_feature_fault(required, features) == missing_feature_fault(
            required.take(n),
            features,
        ),
    decreases required.len(),
{
    if n == required.len() {
        assert(required.take(n) =~= required);
    } else {
        assert(required.drop_last().take(n) =~= required.take(n));
        lemma_feature_prefix(required.drop_last(), features, n);
    }
}

fn check_features(required: &Vec<String>, features: &Vec<String>) -> (checked: Result<
    (),
    HostBuildError,
>)
    ensures
        build_fault(checked) == missing_feature_fault(texts(required@), texts(features@)),
{
    let ghost all = texts(required@);
    let mut i: usize = 0;
    assert(all.take(0) =~= Seq::<Seq<char>>::empty());
    while i < required.len()
        invariant
            i <= required@.len(),
            all == texts(required@),
            missing_feature_fault(all.take(i as int), texts(features@)) is None,
        decreases required@.len() - i,
    {
        assert(all.take(i + 1).drop_last() =~= all.take(i as int));
        assert(all.take(i + 1).last() == required@[i as int]@);
        if !lists_text(features, &required[i]) {
            proof {
                lemma_feature_prefix(all, texts(features@), i + 1);
            }
            return Err(
                HostBuildError::HelloMismatch {
                    field: "features",
                    expected: required[i].clone(),
                    actual: list_debug_text(features),
                },
            );
        }
        i += 1;
    }
    assert(all.take(i as int) =~= all);
    Ok(())
}

// ---------------------------------------------------------------------------
// The builder
// ---------------------------------------------------------------------------

/// Why the texts of a builder's hello are refused, if they are.
pub open spec fn builder_texts_fault(manifest: ProfileManifest, hello: BuilderHello) -> Option<
    HostBuildFault,
> {
    let expected = manifest.builder.hello;
    first_of(
        text_mismatch(
            "guest_contract_id"@,
            expected.guest_contract_id@,
            hello.guest_contract_id@,
        ),
        first_of(
            text_mismatch("init_build_id"@, expected.init_build_id@, hello.init_build_id@),
            first_of(
                text_mismatch(
                    "kernel_build_id"@,
                    expected.kernel_build_id@,
                    hello.kernel_build_id@,
                ),
                first_of(
                    text_mismatch("guest_uts_machine"@, "x86_64"@, hello.guest_uts_machine@),
                    text_mismatch(
                        "cpu_state_hwcap_policy"@,
                        manifest.contracts.cpu_state_hwcap_policy@,
                        hello.cpu_state_hwcap_policy@,
                    ),
                ),
            ),
        ),
    )
}

/// Why the numbers of a builder's hello are refused, if they are.
pub open spec fn builder_numbers_fault(manifest: ProfileManifest, hello: BuilderHello) -> Option<
    HostBuildFault,
> {
    first_of(
        number_mismatch(
            "host_elf_machine"@,
            manifest.host_elf_machine as nat,
            hello.host_elf_machine as nat,
        ),
        first_of(
            number_mismatch(
                "guest_page_size"@,
                manifest.guest_page_size as nat,
                hello.guest_page_size as nat,
            ),
            first_of(
                number_mismatch("online_cpus"@, 1, hello.online_cpus as nat),
                number_mismatch(
                    "accepted_physmem_bytes"@,
                    manifest.memory.builder_memory_bytes as nat,
                    hello.accepted_physmem_bytes as nat,
                ),
            ),
        ),
    )
}

/// Why a builder's hello is refused, if it is.
pub open spec fn builder_hello_fault(manifest: ProfileManifest, hello: BuilderHello) -> Option<
    HostBuildFault,
> {
    let tools = contract_tools(manifest.builder.required_tools@);
    first_of(
        builder_texts_fault(manifest, hello),
        first_of(
            builder_numbers_fault(manifest, hello),
            if tool_texts(hello.builder_tools@) != tools {
                Some(
                    hello_mismatch(
                        "builder_tools"@,
                        bracketed(tool_spellings(tools)),
                        bracketed(tool_spellings(tool_texts(hello.builder_tools@))),
                    ),
                )
            } else {
                missing_feature_fault(
                    texts(manifest.builder.hello.required_features@),
                    texts(hello.features@),
                )
            },
        ),
    )
}

fn check_builder_texts(manifest: &ProfileManifest, hello: &BuilderHello) -> (checked: Result<
    (),
    HostBuildError,
>)
    ensures
        build_fault(checked) == builder_texts_fault(*manifest, *hello),
{
    let expected = &manifest.builder.hello;
    if let Err(error) = check_text(
        "guest_contract_id",
        &expected.guest_contract_id,
        &hello.guest_contract_id,
    ) {
        return Err(error);
    }
    if let Err(error) = check_text(
        "init_build_id",
        &expected.init_build_id,
        &hello.init_build_id,
    ) {
        return Err(error);
    }
    if let Err(error) = check_text(
        "kernel_build_id",
        &expected.kernel_build_id,
        &hello.kernel_build_id,
    ) {
        return Err(error);
    }
    if let Err(error) = check_text("guest_uts_machine", "x86_64", &hello.guest_uts_machine) {
        return Err(error);
    }
    check_text(
        "cpu_state_hwcap_policy",
        &manifest.contracts.cpu_state_hwcap_policy,
        &hello.cpu_state_hwcap_policy,
    )
}

fn check_builder_numbers(manifest: &ProfileManifest, hello: &BuilderHello) -> (checked: Result<
    (),
    HostBuildError,
>)
    ensures
        build_fault(checked) == builder_numbers_fault(*manifest, *hello),
{
    if let Err(error) = check_number(
        "host_elf_machine",
        manifest.host_elf_machine as u64,
        hello.host_elf_machine as u64,
    ) {
        return Err(error);
    }
    if let Err(error) = check_number(
        "guest_page_size",
        manifest.guest_page_size as u64,
        hello.guest_page_size as u64,
    ) {
        return Err(error);
    }
    if let Err(error) = check_number("online_cpus", 1, hello.online_cpus as u64) {
        return Err(error);
    }
    check_number(
        "accepted_physmem_bytes",
        manifest.memory.builder_memory_bytes,
        hello.accepted_physmem_bytes,
    )
}

/// Refuses a builder guest that is not exactly the profile's: another image,
/// another machine, another memory size, other tools or a missing feature.
pub fn verify_builder_hello(manifest: &ProfileManifest, hello: &BuilderHello) -> (checked: Result<
    (),
    HostBuildError,
>)
    ensures
        build_fault(checked) == builder_hello_fault(*manifest, *hello),
{
    if let Err(error) = check_builder_texts(manifest, hello) {
        return Err(error);
    }
    if let Err(error) = check_builder_numbers(manifest, hello) {
        return Err(error);
    }
    let expected = required_tools(&manifest.builder.required_tools);
    if !same_tool_lists(&hello.builder_tools, &expected) {
        return Err(
            HostBuildError::HelloMismatch {
                field: "builder_tools",
                expected: tools_debug_text(&expected),
                actual: tools_debug_text(&hello.builder_tools),
            },
        );
    }
    check_features(&manifest.builder.hello.required_features, &hello.features)
}

// ---------------------------------------------------------------------------
// The validator
// ---------------------------------------------------------------------------

/// Why the texts of a validator's hello are refused, if they are.
pub open spec fn validator_texts_fault(manifest: ProfileManifest, hello: ValidatorHello) -> Option<
    HostBuildFault,
> {
    let expected = manifest.validator.hello;
    first_of(
        text_mismatch(
            "validator.guest_contract_id"@,
            expected.guest_contract_id@,
            hello.guest_contract_id@,
        ),
        first_of(
            text_mismatch(
                "validator.init_build_id"@,
                expected.init_build_id@,
                hello.init_build_id@,
            ),
            first_of(
                text_mismatch(
                    "validator.kernel_build_id"@,
                    expected.kernel_build_id@,
                    hello.kernel_build_id@,
                ),
                first_of(
                    text_mismatch(
                        "validator.guest_uts_machine"@,
                        "x86_64"@,
                        hello.guest_uts_machine@,
                    ),
                    text_mismatch(
                        "validator.cpu_state_hwcap_policy"@,
                        manifest.contracts.cpu_state_hwcap_policy@,
                        hello.cpu_state_hwcap_policy@,
                    ),
                ),
            ),
        ),
    )
}

/// Why the numbers of a validator's hello are refused, if they are.
pub open spec fn validator_numbers_fault(
    manifest: ProfileManifest,
    hello: ValidatorHello,
) -> Option<HostBuildFault> {
    first_of(
        number_mismatch(
            "validator.host_elf_machine"@,
            manifest.host_elf_machine as nat,
            hello.host_elf_machine as nat,
        ),
        first_of(
            number_mismatch(
                "validator.guest_page_size"@,
                manifest.guest_page_size as nat,
                hello.guest_page_size as nat,
            ),
            first_of(
                number_mismatch("validator.online_cpus"@, 1, hello.online_cpus as nat),
                number_mismatch(
                    "validator.accepted_physmem_bytes"@,
                    manifest.memory.validator_memory_bytes as nat,
                    hello.accepted_physmem_bytes as nat,
                ),
            ),
        ),
    )
}

/// Why a validator's hello is refused, if it is.
pub open spec fn validator_hello_fault(manifest: ProfileManifest, hello: ValidatorHello) -> Option<
    HostBuildFault,
> {
    let required = texts(manifest.validator.hello.required_features@);
    first_of(
        validator_texts_fault(manifest, hello),
        first_of(
            validator_numbers_fault(manifest, hello),
            if texts(hello.features@) != required {
                Some(
                    hello_mismatch(
                        "validator.features"@,
                        list_debug(required),
                        list_debug(texts(hello.features@)),
                    ),
                )
            } else {
                None
            },
        ),
    )
}

fn check_validator_texts(manifest: &ProfileManifest, hello: &ValidatorHello) -> (checked: Result<
    (),
    HostBuildError,
>)
    ensures
        build_fault(checked) == validator_texts_fault(*manifest, *hello),
{
    let expected = &manifest.validator.hello;
    if let Err(error) = check_text(
        "validator.guest_contract_id",
        &expected.guest_contract_id,
        &hello.guest_contract_id,
    ) {
        return Err(error);
    }
    if let Err(error) = check_text(
        "validator.init_build_id",
        &expected.init_build_id,
        &hello.init_build_id,
    ) {
        return Err(error);
    }
    if let Err(error) = check_text(
        "validator.kernel_build_id",
        &expected.kernel_build_id,
        &hello.kernel_build_id,
    ) {
        return Err(error);
    }
    if let Err(error) = check_text(
        "validator.guest_uts_machine",
        "x86_64",
        &hello.guest_uts_machine,
    ) {
        return Err(error);
    }
    check_text(
        "validator.cpu_state_hwcap_policy",
        &manifest.contracts.cpu_state_hwcap_policy,
        &hello.cpu_state_hwcap_policy,
    )
}

fn check_validator_numbers(manifest: &ProfileManifest, hello: &ValidatorHello) -> (checked: Result<
    (),
    HostBuildError,
>)
    ensures
        build_fault(checked) == validator_numbers_fault(*manifest, *hello),
{
    if let Err(error) = check_number(
        "validator.host_elf_machine",
        manifest.host_elf_machine as u64,
        hello.host_elf_machine as u64,
    ) {
        return Err(error);
    }
    if let Err(error) = check_number(
        "validator.guest_page_size",
        manifest.guest_page_size as u64,
        hello.guest_page_size as u64,
    ) {
        return Err(error);
    }
    if let Err(error) = check_number("validator.online_cpus", 1, hello.online_cpus as u64) {
        return Err(error);
    }
    check_number(
        "validator.accepted_physmem_bytes",
        manifest.memory.validator_memory_bytes,
        hello.accepted_physmem_bytes,
    )
}

/// Refuses a validator guest that is not exactly the profile's. Its features
/// must be the required ones and no others.
pub fn verify_validator_hello(manifest: &ProfileManifest, hello: &ValidatorHello) -> (checked:
    Result<(), HostBuildError>)
    ensures
        build_fault(checked) == validator_hello_fault(*manifest, *hello),
{
    if let Err(error) = check_validator_texts(manifest, hello) {
        return Err(error);
    }
    if let Err(error) = check_validator_numbers(manifest, hello) {
        return Err(error);
    }
    if !same_features(&hello.features, &manifest.validator.hello.required_features) {
        return Err(
            HostBuildError::HelloMismatch {
                field: "validator.features",
                expected: list_debug_text(&manifest.validator.hello.required_features),
                actual: list_debug_text(&hello.features),
            },
        );
    }
    Ok(())
}

/// Both guests run on one CPU with the memory that the profile gives them,
/// under the kernel and the init that it names.
pub proof fn law_accepted_guests_are_the_profiles(
    manifest: ProfileManifest,
    builder: BuilderHello,
    validator: ValidatorHello,
)
    requires
        builder_hello_fault(manifest, builder) is None,
        validator_hello_fault(manifest, validator) is None,
    ensures
        builder.online_cpus == 1,
        validator.online_cpus == 1,
        builder.accepted_physmem_bytes == manifest.memory.builder_memory_bytes,
        validator.accepted_physmem_bytes == manifest.memory.validator_memory_bytes,
        builder.kernel_build_id@ == manifest.builder.hello.kernel_build_id@,
        validator.kernel_build_id@ == manifest.validator.hello.kernel_build_id@,
        tool_texts(builder.builder_tools@) == contract_tools(manifest.builder.required_tools@),
{
}

/// A builder is the expected one exactly where every identity, the machine, the
/// policy and the memory are those of the profile, where its tools are
/// the required ones, and where no required feature is missing.
pub proof fn law_accepted_builder_is_the_profiles(
    manifest: ProfileManifest,
    hello: BuilderHello,
    checked: Result<(), HostBuildError>,
)
    requires
        call_ensures(verify_builder_hello, (&manifest, &hello), checked),
    ensures
        checked is Ok <==> {
            &&& hello.guest_contract_id@ == manifest.builder.hello.guest_contract_id@
            &&& hello.init_build_id@ == manifest.builder.hello.init_build_id@
            &&& hello.kernel_build_id@ == manifest.builder.hello.kernel_build_id@
            &&& hello.guest_uts_machine@ == "x86_64"@
            &&& hello.cpu_state_hwcap_policy@ == manifest.contracts.cpu_state_hwcap_policy@
            &&& hello.host_elf_machine == manifest.host_elf_machine
            &&& hello.guest_page_size == manifest.guest_page_size
            &&& hello.online_cpus == 1
            &&& hello.accepted_physmem_bytes == manifest.memory.builder_memory_bytes
            &&& tool_texts(hello.builder_tools@) == contract_tools(manifest.builder.required_tools@)
            &&& forall|i: int|
                0 <= i < manifest.builder.hello.required_features@.len() ==> texts(
                    hello.features@,
                ).contains(#[trigger] texts(manifest.builder.hello.required_features@)[i])
        },
{
    lemma_no_feature_is_missing(
        texts(manifest.builder.hello.required_features@),
        texts(hello.features@),
    );
}

/// A validator is the expected one exactly where every identity, the machine, the
/// policy and the memory are those of the profile, and where it has the
/// required features and no other.
pub proof fn law_accepted_validator_is_the_profiles(
    manifest: ProfileManifest,
    hello: ValidatorHello,
    checked: Result<(), HostBuildError>,
)
    requires
        call_ensures(verify_validator_hello, (&manifest, &hello), checked),
    ensures
        checked is Ok <==> {
            &&& hello.guest_contract_id@ == manifest.validator.hello.guest_contract_id@
            &&& hello.init_build_id@ == manifest.validator.hello.init_build_id@
            &&& hello.kernel_build_id@ == manifest.validator.hello.kernel_build_id@
            &&& hello.guest_uts_machine@ == "x86_64"@
            &&& hello.cpu_state_hwcap_policy@ == manifest.contracts.cpu_state_hwcap_policy@
            &&& hello.host_elf_machine == manifest.host_elf_machine
            &&& hello.guest_page_size == manifest.guest_page_size
            &&& hello.online_cpus == 1
            &&& hello.accepted_physmem_bytes == manifest.memory.validator_memory_bytes
            &&& texts(hello.features@) == texts(manifest.validator.hello.required_features@)
        },
{
}

proof fn lemma_no_feature_is_missing(required: Seq<Seq<char>>, features: Seq<Seq<char>>)
    ensures
        missing_feature_fault(required, features) is None <==> forall|i: int|
            0 <= i < required.len() ==> features.contains(#[trigger] required[i]),
    decreases required.len(),
{
    if required.len() > 0 {
        let front = required.drop_last();
        lemma_no_feature_is_missing(front, features);
        if missing_feature_fault(required, features) is None {
            assert forall|i: int| 0 <= i < required.len() implies features.contains(
                #[trigger] required[i],
            ) by {
                if i < front.len() {
                    assert(front[i] == required[i]);
                }
            }
        }
        if forall|i: int| 0 <= i < required.len() ==> features.contains(#[trigger] required[i]) {
            assert forall|i: int| 0 <= i < front.len() implies features.contains(
                #[trigger] front[i],
            ) by {
                assert(front[i] == required[i]);
            }
            assert(required[required.len() - 1] == required.last());
        }
    }
}

/// A refused builder is told of the first thing that differs, with what the profile
/// expects and what the guest says, in this order.
pub proof fn law_refused_builder_is_told_why(
    manifest: ProfileManifest,
    hello: BuilderHello,
    checked: Result<(), HostBuildError>,
)
    requires
        call_ensures(verify_builder_hello, (&manifest, &hello), checked),
    ensures
        build_fault(checked) == (if hello.guest_contract_id@ != manifest.builder.hello.guest_contract_id@ {
            Some(
                HostBuildFault::HelloMismatch {
                    field: "guest_contract_id"@,
                    expected: manifest.builder.hello.guest_contract_id@,
                    actual: hello.guest_contract_id@,
                },
            )
        } else if hello.init_build_id@ != manifest.builder.hello.init_build_id@ {
            Some(
                HostBuildFault::HelloMismatch {
                    field: "init_build_id"@,
                    expected: manifest.builder.hello.init_build_id@,
                    actual: hello.init_build_id@,
                },
            )
        } else if hello.kernel_build_id@ != manifest.builder.hello.kernel_build_id@ {
            Some(
                HostBuildFault::HelloMismatch {
                    field: "kernel_build_id"@,
                    expected: manifest.builder.hello.kernel_build_id@,
                    actual: hello.kernel_build_id@,
                },
            )
        } else if hello.guest_uts_machine@ != "x86_64"@ {
            Some(
                HostBuildFault::HelloMismatch {
                    field: "guest_uts_machine"@,
                    expected: "x86_64"@,
                    actual: hello.guest_uts_machine@,
                },
            )
        } else if hello.cpu_state_hwcap_policy@ != manifest.contracts.cpu_state_hwcap_policy@ {
            Some(
                HostBuildFault::HelloMismatch {
                    field: "cpu_state_hwcap_policy"@,
                    expected: manifest.contracts.cpu_state_hwcap_policy@,
                    actual: hello.cpu_state_hwcap_policy@,
                },
            )
        } else if hello.host_elf_machine != manifest.host_elf_machine {
            Some(
                HostBuildFault::HelloMismatch {
                    field: "host_elf_machine"@,
                    expected: decimal(manifest.host_elf_machine as nat),
                    actual: decimal(hello.host_elf_machine as nat),
                },
            )
        } else if hello.guest_page_size != manifest.guest_page_size {
            Some(
                HostBuildFault::HelloMismatch {
                    field: "guest_page_size"@,
                    expected: decimal(manifest.guest_page_size as nat),
                    actual: decimal(hello.guest_page_size as nat),
                },
            )
        } else if hello.online_cpus != 1 {
            Some(
                HostBuildFault::HelloMismatch {
                    field: "online_cpus"@,
                    expected: decimal(1),
                    actual: decimal(hello.online_cpus as nat),
                },
            )
        } else if hello.accepted_physmem_bytes != manifest.memory.builder_memory_bytes {
            Some(
                HostBuildFault::HelloMismatch {
                    field: "accepted_physmem_bytes"@,
                    expected: decimal(manifest.memory.builder_memory_bytes as nat),
                    actual: decimal(hello.accepted_physmem_bytes as nat),
                },
            )
        } else if tool_texts(hello.builder_tools@) != contract_tools(manifest.builder.required_tools@) {
            Some(
                HostBuildFault::HelloMismatch {
                    field: "builder_tools"@,
                    expected: bracketed(
                        tool_spellings(contract_tools(manifest.builder.required_tools@)),
                    ),
                    actual: bracketed(tool_spellings(tool_texts(hello.builder_tools@))),
                },
            )
        } else {
            missing_feature_fault(
                texts(manifest.builder.hello.required_features@),
                texts(hello.features@),
            )
        }),
{
}

/// A refused validator is told of the first thing that differs, with what the profile
/// expects and what the guest says, in this order.
pub proof fn law_refused_validator_is_told_why(
    manifest: ProfileManifest,
    hello: ValidatorHello,
    checked: Result<(), HostBuildError>,
)
    requires
        call_ensures(verify_validator_hello, (&manifest, &hello), checked),
    ensures
        build_fault(checked) == (if hello.guest_contract_id@ != manifest.validator.hello.guest_contract_id@ {
            Some(
                HostBuildFault::HelloMismatch {
                    field: "validator.guest_contract_id"@,
                    expected: manifest.validator.hello.guest_contract_id@,
                    actual: hello.guest_contract_id@,
                },
            )
        } else if hello.init_build_id@ != manifest.validator.hello.init_build_id@ {
            Some(
                HostBuildFault::HelloMismatch {
                    field: "validator.init_build_id"@,
                    expected: manifest.validator.hello.init_build_id@,
                    actual: hello.init_build_id@,
                },
            )
        } else if hello.kernel_build_id@ != manifest.validator.hello.kernel_build_id@ {
            Some(
                HostBuildFault::HelloMismatch {
                    field: "validator.kernel_build_id"@,
                    expected: manifest.validator.hello.kernel_build_id@,
                    actual: hello.kernel_build_id@,
                },
            )
        } else if hello.guest_uts_machine@ != "x86_64"@ {
            Some(
                HostBuildFault::HelloMismatch {
                    field: "validator.guest_uts_machine"@,
                    expected: "x86_64"@,
                    actual: hello.guest_uts_machine@,
                },
            )
        } else if hello.cpu_state_hwcap_policy@ != manifest.contracts.cpu_state_hwcap_policy@ {
            Some(
                HostBuildFault::HelloMismatch {
                    field: "validator.cpu_state_hwcap_policy"@,
                    expected: manifest.contracts.cpu_state_hwcap_policy@,
                    actual: hello.cpu_state_hwcap_policy@,
                },
            )
        } else if hello.host_elf_machine != manifest.host_elf_machine {
            Some(
                HostBuildFault::HelloMismatch {
                    field: "validator.host_elf_machine"@,
                    expected: decimal(manifest.host_elf_machine as nat),
                    actual: decimal(hello.host_elf_machine as nat),
                },
            )
        } else if hello.guest_page_size != manifest.guest_page_size {
            Some(
                HostBuildFault::HelloMismatch {
                    field: "validator.guest_page_size"@,
                    expected: decimal(manifest.guest_page_size as nat),
                    actual: decimal(hello.guest_page_size as nat),
                },
            )
        } else if hello.online_cpus != 1 {
            Some(
                HostBuildFault::HelloMismatch {
                    field: "validator.online_cpus"@,
                    expected: decimal(1),
                    actual: decimal(hello.online_cpus as nat),
                },
            )
        } else if hello.accepted_physmem_bytes != manifest.memory.validator_memory_bytes {
            Some(
                HostBuildFault::HelloMismatch {
                    field: "validator.accepted_physmem_bytes"@,
                    expected: decimal(manifest.memory.validator_memory_bytes as nat),
                    actual: decimal(hello.accepted_physmem_bytes as nat),
                },
            )
        } else if texts(hello.features@) != texts(manifest.validator.hello.required_features@) {
            Some(
                HostBuildFault::HelloMismatch {
                    field: "validator.features"@,
                    expected: list_debug(texts(manifest.validator.hello.required_features@)),
                    actual: list_debug(texts(hello.features@)),
                },
            )
        } else {
            None
        }),
{
}

/// A missing feature is told by its name, beside all that the guest has; the
/// first that is missing is told.
pub proof fn law_missing_feature_is_named(
    required: Seq<Seq<char>>,
    features: Seq<Seq<char>>,
    first: int,
)
    requires
        0 <= first < required.len(),
        !features.contains(required[first]),
        forall|i: int| 0 <= i < first ==> features.contains(#[trigger] required[i]),
    ensures
        missing_feature_fault(required, features) == Some(
            HostBuildFault::HelloMismatch {
                field: "features"@,
                expected: required[first],
                actual: list_debug(features),
            },
        ),
{
    let found = required.take(first + 1);
    assert(found.drop_last() =~= required.take(first));
    lemma_no_feature_is_missing(required.take(first), features);
    assert(found.last() == required[first]);
    lemma_feature_prefix(required, features, first + 1);
}

} // verus!
