use pocket_runtime::operation::{
    names_path, operation_name, owner_lock_path, signal_target, sweep_lock_path, sweep_step,
    EntryFact, OwnerFact, SweepEntry, SweepStep,
};

fn entry(name: &str, entry: EntryFact, owner: OwnerFact) -> SweepEntry {
    SweepEntry {
        name: Some(name.to_owned()),
        entry,
        owner,
    }
}

const DIRECTORY: EntryFact = EntryFact::Found {
    directory: true,
    device: 5,
};

#[test]
fn abandoned_directories_are_removed_and_live_ones_are_not() {
    let step = |entry: SweepEntry| sweep_step(true, "run-", 5, &entry);
    let abandoned = "run-abandoned";
    assert_eq!(
        step(entry(abandoned, EntryFact::Unknown, OwnerFact::Unknown)),
        SweepStep::Inspect
    );
    assert_eq!(
        step(entry(abandoned, DIRECTORY, OwnerFact::Unknown)),
        SweepStep::TakeOwner
    );
    // The owner still holds its lock.
    assert_eq!(
        step(entry(abandoned, DIRECTORY, OwnerFact::Held)),
        SweepStep::Skip
    );
    assert_eq!(
        step(entry(abandoned, DIRECTORY, OwnerFact::Taken)),
        SweepStep::Remove
    );
    // Never claimed, and a name of another kind: both untouched.
    assert_eq!(
        step(entry("run-unclaimed", DIRECTORY, OwnerFact::Absent)),
        SweepStep::Skip
    );
    assert_eq!(
        step(entry("something-else", DIRECTORY, OwnerFact::Taken)),
        SweepStep::Skip
    );
    assert_eq!(
        step(SweepEntry {
            name: None,
            entry: DIRECTORY,
            owner: OwnerFact::Taken,
        }),
        SweepStep::Skip
    );
}

#[test]
fn only_directories_of_the_roots_own_device_are_swept() {
    for found in [
        EntryFact::Found {
            directory: false,
            device: 5,
        },
        EntryFact::Found {
            directory: true,
            device: 6,
        },
        EntryFact::Missing,
    ] {
        assert_eq!(
            sweep_step(true, "run-", 5, &entry("run-a", found, OwnerFact::Taken)),
            SweepStep::Skip
        );
    }
    assert_eq!(
        sweep_step(true, "run-", 5, &entry("run-a", EntryFact::Failed, OwnerFact::Unknown)),
        SweepStep::Fail
    );
    assert_eq!(
        sweep_step(true, "run-", 5, &entry("run-a", DIRECTORY, OwnerFact::Failed)),
        SweepStep::Fail
    );
}

#[test]
fn a_sweep_skips_everything_while_a_creation_holds_the_root() {
    for owner in [OwnerFact::Unknown, OwnerFact::Absent, OwnerFact::Taken] {
        assert_eq!(
            sweep_step(false, "run-", 5, &entry("run-half-built", DIRECTORY, owner)),
            SweepStep::Skip
        );
    }
    // Still unclaimed once the creation lock is gone, so still not ours.
    assert_eq!(
        sweep_step(true, "run-", 5, &entry("run-half-built", DIRECTORY, OwnerFact::Absent)),
        SweepStep::Skip
    );
}

#[test]
fn names_and_locks_of_an_operation() {
    assert_eq!(operation_name("run-", &[0x00, 0x1f, 0xab]), "run-001fab");
    assert_eq!(sweep_lock_path("/srv/runtime"), "/srv/runtime/.sweep.lock");
    assert_eq!(
        owner_lock_path("/srv/runtime/run-001fab"),
        "/srv/runtime/run-001fab/owner.lock"
    );
}

#[test]
fn only_processes_that_name_the_directory_are_signalled() {
    assert_eq!(signal_target("123", 7), Some(123));
    assert_eq!(signal_target("7", 7), None);
    assert_eq!(signal_target("self", 7), None);
    assert_eq!(signal_target("4294967296", 7), None);
    let command = b"linux\0uml_dir=/srv/runtime/run-ab/uml\0quiet\0";
    assert!(names_path(command, "/srv/runtime/run-ab"));
    assert!(!names_path(command, "/srv/runtime/run-ac"));
    // A path never matches across two arguments.
    assert!(!names_path(b"/srv/run\0time", "/srv/runtime"));
}
