use vstd::prelude::*;
use crate::command::{CommandKind, count_length_signature, is_count_length_signature};
use crate::signature::Signature;

verus! {

/// One command the plugin provides: its static declaration and which
/// implementation runs it.
#[derive(Debug)]
pub struct CommandEntry {
    pub signature: Signature,
    pub kind: CommandKind,
}

/// The mapping from command name to declaration and behavior: populated
/// once at plugin startup and read-only for the process lifetime.
#[derive(Debug)]
pub struct Registry {
    pub commands: Vec<CommandEntry>,
}

/// A configuration defect found while building the registry; fatal to
/// startup, never reported per call.
#[derive(Clone, Debug)]
pub enum StartupError {
    /// A signature reuses a long name or an alias among its own named
    /// parameters.
    MalformedSignature { name: String },
    /// Two commands were registered under the same name.
    DuplicateCommandName { name: String },
}

/// Some earlier entry carries the same command name as entry `j`.
pub open spec fn dup_before(entries: Seq<CommandEntry>, j: int) -> bool {
    exists|i: int|
        0 <= i < j && (#[trigger] entries[i].signature.name)@ == entries[j].signature.name@
}

/// The first configuration defect among the entries, scanning them in
/// registration order from index `j`: a malformed signature is reported
/// before a duplicate of the same entry.
pub open spec fn startup_violation_from(entries: Seq<CommandEntry>, j: int) -> Option<
    StartupError,
>
    decreases entries.len() - j,
{
    if j < 0 || j >= entries.len() {
        None
    } else if !entries[j].signature.wf() {
        Some(StartupError::MalformedSignature { name: entries[j].signature.name })
    } else if dup_before(entries, j) {
        Some(StartupError::DuplicateCommandName { name: entries[j].signature.name })
    } else {
        startup_violation_from(entries, j + 1)
    }
}

/// Command names are pairwise distinct across the roster.
pub open spec fn names_unique(entries: Seq<CommandEntry>) -> bool {
    forall|i: int, j: int|
        0 <= i < j < entries.len() ==> (#[trigger] entries[i].signature.name)@ != (
        #[trigger] entries[j].signature.name)@
}

/// A well-formed roster: every signature is well-formed and no command name
/// repeats.
pub open spec fn registry_wf(entries: Seq<CommandEntry>) -> bool {
    &&& names_unique(entries)
    &&& forall|k: int|
        0 <= k < entries.len() ==> (#[trigger] entries[k]).signature.wf()
}

proof fn lemma_startup_iff(entries: Seq<CommandEntry>, j: int)
    requires
        0 <= j <= entries.len(),
    ensures
        (startup_violation_from(entries, j) is None) <==> (forall|k: int|
            j <= k < entries.len() ==> ((#[trigger] entries[k]).signature.wf() && !dup_before(
                entries,
                k,
            ))),
    decreases entries.len() - j,
{
    if j < entries.len() {
        lemma_startup_iff(entries, j + 1);
        if startup_violation_from(entries, j) is None {
            assert(entries[j].signature.wf() && !dup_before(entries, j));
            assert forall|k: int|
                j <= k < entries.len() implies ((#[trigger] entries[k]).signature.wf()
                && !dup_before(entries, k)) by {}
        } else {
            if entries[j].signature.wf() && !dup_before(entries, j) {
                let k = choose|k: int|
                    j + 1 <= k < entries.len() && !((#[trigger] entries[k]).signature.wf()
                        && !dup_before(entries, k));
                assert(!(entries[k].signature.wf() && !dup_before(entries, k)));
            } else {
                assert(!(entries[j].signature.wf() && !dup_before(entries, j)));
            }
        }
    }
}

/// A clean startup scan is exactly a well-formed roster.
pub proof fn lemma_startup_exact(entries: Seq<CommandEntry>)
    ensures
        (startup_violation_from(entries, 0) is None) <==> registry_wf(entries),
{
    lemma_startup_iff(entries, 0);
    if forall|k: int|
        0 <= k < entries.len() ==> ((#[trigger] entries[k]).signature.wf() && !dup_before(
            entries,
            k,
        )) {
        assert forall|i: int, j: int|
            0 <= i < j < entries.len() implies (#[trigger] entries[i].signature.name)@ != (
            #[trigger] entries[j].signature.name)@ by {
            assert(entries[j].signature.wf() && !dup_before(entries, j));
        }
    }
    if registry_wf(entries) {
        assert forall|k: int|
            0 <= k < entries.len() implies ((#[trigger] entries[k]).signature.wf()
            && !dup_before(entries, k)) by {
            if dup_before(entries, k) {
                let i = choose|i: int|
                    0 <= i < k && (#[trigger] entries[i].signature.name)@ == entries[k].signature.name@;
                assert(entries[i].signature.name@ != entries[k].signature.name@);
            }
        }
    }
}

/// A roster in which two commands share a name is a startup-time fatal
/// configuration error: the registry is never built, so the plugin does not
/// reach the serving loop.
pub proof fn lemma_duplicate_name_rejected(entries: Seq<CommandEntry>)
    requires
        !names_unique(entries),
    ensures
        startup_violation_from(entries, 0) is Some,
{
    lemma_startup_exact(entries);
}

/// Builds the registry from the roster, rejecting a malformed signature or
/// a duplicated command name; the first defect in registration order is the
/// one reported.
#[verifier::loop_isolation(false)]
pub fn build_registry(entries: Vec<CommandEntry>) -> (r: Result<Registry, StartupError>)
    ensures
        match r {
            Ok(reg) => reg.commands == entries && registry_wf(entries@),
            Err(e) => startup_violation_from(entries@, 0) == Some(e) && !registry_wf(entries@),
        },
{
    proof {
        lemma_startup_exact(entries@);
    }
    let n = entries.len();
    for j in 0..n
        invariant
            n == entries@.len(),
            startup_violation_from(entries@, 0) == startup_violation_from(entries@, j as int),
            forall|k: int|
                0 <= k < j ==> ((#[trigger] entries@[k]).signature.wf() && !dup_before(
                    entries@,
                    k,
                )),
    {
        if !entries[j].signature.check_wf() {
            return Err(
                StartupError::MalformedSignature { name: entries[j].signature.name.clone() },
            );
        }
        let mut i: usize = 0;
        while i < j
            invariant
                i <= j < n,
                forall|x: int|
                    0 <= x < i ==> (#[trigger] entries@[x].signature.name)@ != entries@[
                        j as int
                    ].signature.name@,
            decreases j - i,
        {
            if entries[i].signature.name.eq(&entries[j].signature.name) {
                return Err(
                    StartupError::DuplicateCommandName {
                        name: entries[j].signature.name.clone(),
                    },
                );
            }
            i += 1;
        }
        proof {
            assert(!dup_before(entries@, j as int));
        }
    }
    Ok(Registry { commands: entries })
}

/// The semantic version the plugin reports once at handshake time.
pub fn plugin_version() -> (s: String)
    ensures
        s@ == "0.1.0"@,
{
    "0.1.0".to_owned()
}

/// The roster this plugin provides, enumerated once at startup: the single
/// count-length command.
pub fn plugin_commands() -> (v: Vec<CommandEntry>)
    ensures
        v@.len() == 1,
        v@[0].kind == CommandKind::CountLength,
        is_count_length_signature(v@[0].signature),
        v@[0].signature.wf(),
{
    let mut v: Vec<CommandEntry> = Vec::new();
    v.push(CommandEntry { signature: count_length_signature(), kind: CommandKind::CountLength });
    v
}

} // verus!
