//! Saved SSH machine profiles. The catalog is state of this client alone: OpenSSH
//! stays responsible for credentials, host keys and connections.

use vstd::prelude::*;

use crate::cli::MachineCommand;
use crate::remote;
use crate::text;

verus! {

#[derive(Debug, PartialEq, Eq)]
pub struct MachineProfile {
    pub id: String,
    pub label: String,
    pub target: String,
    pub session: Option<String>,
    pub enabled: bool,
}

impl Clone for MachineProfile {
    fn clone(&self) -> (r: Self)
        ensures
            r == *self,
    {
        MachineProfile {
            id: self.id.clone(),
            label: self.label.clone(),
            target: self.target.clone(),
            session: match &self.session {
                Some(session) => Some(session.clone()),
                None => None,
            },
            enabled: self.enabled,
        }
    }
}

#[derive(Debug, Clone, PartialEq, Eq)]
pub struct Catalog {
    pub machines: Vec<MachineProfile>,
}

impl Default for Catalog {
    fn default() -> (r: Self)
        ensures
            r.machines@.len() == 0,
    {
        Catalog { machines: Vec::new() }
    }
}

pub open spec fn has_control(s: Seq<char>) -> bool {
    exists|i: int| 0 <= i < s.len() && text::control(#[trigger] s[i])
}

fn contains_control(s: &str) -> (r: bool)
    ensures
        r == has_control(s@),
{
    let chars = text::chars_of(s);
    let mut i: usize = 0;
    while i < chars.len()
        invariant
            chars@ == s@,
            i <= chars@.len(),
            forall|k: int| 0 <= k < i ==> !text::control(#[trigger] s@[k]),
        decreases chars@.len() - i,
    {
        if text::is_control(chars[i]) {
            assert(text::control(s@[i as int]));
            return true;
        }
        i += 1;
    }
    false
}

/// What is wrong with a profile. `session_fault` is what is wrong with the name of
/// its session, where it has one.
pub open spec fn profile_fault(
    label: Seq<char>,
    target: Seq<char>,
    session_fault: Option<Seq<char>>,
) -> Option<Seq<char>> {
    if text::blank(label) || has_control(label) {
        Some("machine label must be non-empty and contain no control characters"@)
    } else if !remote::is_host(target) {
        Some("invalid SSH target: use an SSH host alias or USER@HOST"@)
    } else {
        session_fault
    }
}

pub fn validate_profile(label: &str, target: &str, session_fault: &Option<String>) -> (r: Result<
    (),
    String,
>)
    ensures
        text::fault(r) == profile_fault(label@, target@, text::option_text(*session_fault)),
{
    if text::is_blank(label) || contains_control(label) {
        return Err(
            "machine label must be non-empty and contain no control characters".to_owned(),
        );
    }
    if let Err(message) = remote::validate_host(target) {
        return Err(message);
    }
    match session_fault {
        Some(message) => Err(message.clone()),
        None => Ok(()),
    }
}

/// Where a profile of that id or label stands first.
pub open spec fn machine_at(machines: Seq<MachineProfile>, id: Seq<char>) -> Option<int>
    decreases machines.len(),
{
    if machines.len() == 0 {
        None
    } else if machines[0].id@ == id || machines[0].label@ == id {
        Some(0)
    } else {
        match machine_at(machines.skip(1), id) {
            Some(i) => Some(i + 1),
            None => None,
        }
    }
}

pub open spec fn has_label(machines: Seq<MachineProfile>, label: Seq<char>) -> bool {
    exists|i: int| 0 <= i < machines.len() && (#[trigger] machines[i]).label@ == label
}

pub open spec fn has_id(machines: Seq<MachineProfile>, id: Seq<char>) -> bool {
    exists|i: int| 0 <= i < machines.len() && (#[trigger] machines[i]).id@ == id
}

fn find_label(machines: &Vec<MachineProfile>, count: usize, label: &str) -> (r: bool)
    requires
        count <= machines@.len(),
    ensures
        r == has_label(machines@.take(count as int), label@),
{
    let ghost front = machines@.take(count as int);
    let mut i: usize = 0;
    while i < count
        invariant
            count <= machines@.len(),
            front == machines@.take(count as int),
            i <= count,
            forall|k: int| 0 <= k < i ==> (#[trigger] front[k]).label@ != label@,
        decreases count - i,
    {
        assert(front[i as int] == machines@[i as int]);
        if text::same(machines[i].label.as_str(), label) {
            return true;
        }
        i += 1;
    }
    false
}

fn find_id(machines: &Vec<MachineProfile>, count: usize, id: &str) -> (r: bool)
    requires
        count <= machines@.len(),
    ensures
        r == has_id(machines@.take(count as int), id@),
{
    let ghost front = machines@.take(count as int);
    let mut i: usize = 0;
    while i < count
        invariant
            count <= machines@.len(),
            front == machines@.take(count as int),
            i <= count,
            forall|k: int| 0 <= k < i ==> (#[trigger] front[k]).id@ != id@,
        decreases count - i,
    {
        assert(front[i as int] == machines@[i as int]);
        if text::same(machines[i].id.as_str(), id) {
            return true;
        }
        i += 1;
    }
    false
}

/// What is wrong with the first `count` profiles: each needs an id and a label of
/// its own, and is checked by itself.
pub open spec fn catalog_fault(
    machines: Seq<MachineProfile>,
    session_faults: Seq<Option<String>>,
    count: int,
) -> Option<Seq<char>>
    decreases count,
{
    if count <= 0 {
        None
    } else {
        match catalog_fault(machines, session_faults, count - 1) {
            Some(fault) => Some(fault),
            None => {
                let profile = machines[count - 1];
                let before = machines.take(count - 1);
                if profile.id@.len() == 0 || has_control(profile.id@) || has_id(before, profile.id@)
                    || has_label(before, profile.label@) {
                    Some("machine profiles need unique ids and labels"@)
                } else {
                    profile_fault(
                        profile.label@,
                        profile.target@,
                        text::option_text(session_faults[count - 1]),
                    )
                }
            },
        }
    }
}

/// Ids and labels each occur once.
pub open spec fn unambiguous(machines: Seq<MachineProfile>) -> bool {
    forall|i: int, j: int|
        0 <= i < j < machines.len() ==> (#[trigger] machines[i]).id@ != (
        #[trigger] machines[j]).id@ && machines[i].label@ != machines[j].label@
}

proof fn lemma_first_fault_stays(
    machines: Seq<MachineProfile>,
    session_faults: Seq<Option<String>>,
    count: int,
    more: int,
)
    requires
        count <= more,
        catalog_fault(machines, session_faults, more) is None,
    ensures
        catalog_fault(machines, session_faults, count) is None,
    decreases more - count,
{
    if count < more {
        lemma_first_fault_stays(machines, session_faults, count, more - 1);
    }
}

/// A catalog that passes has an id and a label for each machine that no other has,
/// and every target is a word that `ssh` takes for a host.
pub proof fn law_accepted_catalogs_are_unambiguous(
    machines: Seq<MachineProfile>,
    session_faults: Seq<Option<String>>,
)
    requires
        catalog_fault(machines, session_faults, machines.len() as int) is None,
    ensures
        unambiguous(machines),
        forall|i: int| 0 <= i < machines.len() ==> remote::is_host((#[trigger] machines[i]).target@),
{
    assert forall|i: int, j: int| 0 <= i < j < machines.len() implies (#[trigger] machines[i]).id@
        != (#[trigger] machines[j]).id@ && machines[i].label@ != machines[j].label@ by {
        lemma_first_fault_stays(machines, session_faults, j + 1, machines.len() as int);
        let before = machines.take(j);
        assert(before[i] == machines[i]);
    }
    assert forall|i: int| 0 <= i < machines.len() implies remote::is_host(
        (#[trigger] machines[i]).target@,
    ) by {
        lemma_first_fault_stays(machines, session_faults, i + 1, machines.len() as int);
    }
}

/// Where the catalog is kept, beside the rest of the client's state.
pub fn path(state_dir: &str) -> (r: String)
    ensures
        r@ == text::path_join(state_dir@, "machines.toml"@),
{
    text::join_path(state_dir, "machines.toml")
}

impl Catalog {
    fn position(&self, id: &str) -> (r: Option<usize>)
        ensures
            match machine_at(self.machines@, id@) {
                Some(i) => 0 <= i < self.machines@.len() && (r matches Some(at) && at == i),
                None => r is None,
            },
    {
        let mut i: usize = 0;
        assert(self.machines@.skip(0) =~= self.machines@);
        while i < self.machines.len()
            invariant
                i <= self.machines@.len(),
                machine_at(self.machines@, id@) == (match machine_at(
                    self.machines@.skip(i as int),
                    id@,
                ) {
                    Some(k) => Some(k + i),
                    None => None::<int>,
                }),
            decreases self.machines@.len() - i,
        {
            assert(self.machines@.skip(i as int)[0] == self.machines@[i as int]);
            assert(self.machines@.skip(i as int).skip(1) =~= self.machines@.skip(i + 1));
            if text::same(self.machines[i].id.as_str(), id) || text::same(
                self.machines[i].label.as_str(),
                id,
            ) {
                return Some(i);
            }
            i += 1;
        }
        None
    }

    /// Checks every profile. `session_faults` says of each what is wrong with the
    /// name of its session.
    pub fn validate(&self, session_faults: &Vec<Option<String>>) -> (r: Result<(), String>)
        requires
            session_faults@.len() == self.machines@.len(),
        ensures
            text::fault(r) == catalog_fault(
                self.machines@,
                session_faults@,
                self.machines@.len() as int,
            ),
    {
        let mut i: usize = 0;
        while i < self.machines.len()
            invariant
                session_faults@.len() == self.machines@.len(),
                i <= self.machines@.len(),
                catalog_fault(self.machines@, session_faults@, i as int) is None,
            decreases self.machines@.len() - i,
        {
            let profile = &self.machines[i];
            let bad = profile.id.as_str().is_empty() || contains_control(profile.id.as_str())
                || find_id(&self.machines, i, profile.id.as_str()) || find_label(
                &self.machines,
                i,
                profile.label.as_str(),
            );
            let r = if bad {
                Err("machine profiles need unique ids and labels".to_owned())
            } else {
                validate_profile(
                    profile.label.as_str(),
                    profile.target.as_str(),
                    &session_faults[i],
                )
            };
            assert(text::fault(r) == catalog_fault(self.machines@, session_faults@, i + 1));
            if let Err(message) = r {
                proof {
                    lemma_fault_stays(self.machines@, session_faults@, i + 1);
                }
                return Err(message);
            }
            i += 1;
        }
        Ok(())
    }

    /// Saves a machine under an id made of `stamp`, a number that no other machine
    /// was made with. A label names one machine.
    pub fn add(
        &mut self,
        label: String,
        target: String,
        session: Option<String>,
        session_fault: &Option<String>,
        stamp: u128,
    ) -> (r: Result<MachineProfile, String>)
        ensures
            ({
                let fault = match profile_fault(
                    label@,
                    target@,
                    text::option_text(*session_fault),
                ) {
                    Some(fault) => Some(fault),
                    None => if has_label(old(self).machines@, label@) {
                        Some("machine label '"@ + label@ + "' already exists"@)
                    } else {
                        None
                    },
                };
                &&& text::fault(r) == fault
                &&& fault is Some ==> *final(self) == *old(self)
                &&& fault is None ==> (r matches Ok(profile) && final(self).machines@ == old(
                    self,
                ).machines@.push(profile) && profile.id@ == "m-"@ + text::hexadecimal(
                    stamp as nat,
                ) && profile.label == label && profile.target == target && profile.session
                    == session && profile.enabled)
            }),
    {
        if let Err(message) = validate_profile(label.as_str(), target.as_str(), session_fault) {
            return Err(message);
        }
        assert(self.machines@.take(self.machines@.len() as int) =~= self.machines@);
        if find_label(&self.machines, self.machines.len(), label.as_str()) {
            return Err(text::cat3("machine label '", label.as_str(), "' already exists"));
        }
        let number = text::hexadecimal_text(stamp);
        let profile = MachineProfile {
            id: text::cat("m-", number.as_str()),
            label,
            target,
            session,
            enabled: true,
        };
        self.machines.push(profile.clone());
        Ok(profile)
    }

    /// The profile of an id or a label.
    pub fn get(&self, id: &str) -> (r: Result<MachineProfile, String>)
        ensures
            match machine_at(self.machines@, id@) {
                Some(i) => r == Ok::<MachineProfile, String>(self.machines@[i]),
                None => text::fault(r) == Some(not_found(id@)),
            },
    {
        match self.position(id) {
            Some(i) => Ok(self.machines[i].clone()),
            None => Err(text::cat3("machine '", id, "' not found")),
        }
    }

    /// The profile of an id or a label, to be changed in place.
    pub fn get_mut(&mut self, id: &str) -> (r: Result<&mut MachineProfile, String>)
        ensures
            match machine_at(old(self).machines@, id@) {
                Some(i) => r matches Ok(profile) && *profile == old(self).machines@[i]
                    && final(self).machines@ == old(self).machines@.update(i, *final(profile)),
                None => (r matches Err(message) && message@ == not_found(id@)) && *final(self)
                    == *old(self),
            },
    {
        match self.position(id) {
            Some(i) => Ok(&mut self.machines[i]),
            None => Err(text::cat3("machine '", id, "' not found")),
        }
    }

    /// One machine has become another, and the rest are as they were.
    pub open spec fn changes(self, id: Seq<char>, profile: MachineProfile, after: Catalog) -> bool {
        machine_at(self.machines@, id) matches Some(i) && after.machines@ == self.machines@.update(
            i,
            profile,
        )
    }

    /// One machine is gone, and the rest are as they were.
    pub open spec fn loses(self, id: Seq<char>, profile: MachineProfile, after: Catalog) -> bool {
        machine_at(self.machines@, id) matches Some(i) && profile == self.machines@[i]
            && after.machines@ == self.machines@.remove(i)
    }

    /// Gives the profile of an id or a label another label.
    pub fn rename(&mut self, id: &str, label: String) -> (r: Result<(), String>)
        ensures
            machine_at(old(self).machines@, id@) matches Some(i) ==> old(self).changes(
                id@,
                MachineProfile { label, ..old(self).machines@[i] },
                *final(self),
            ),
            match machine_at(old(self).machines@, id@) {
                Some(i) => r is Ok && final(self).machines@ == old(self).machines@.update(
                    i,
                    (MachineProfile { label, ..old(self).machines@[i] }),
                ),
                None => text::fault(r) == Some(not_found(id@)) && *final(self) == *old(self),
            },
    {
        match self.get_mut(id) {
            Ok(profile) => {
                profile.label = label;
                Ok(())
            },
            Err(message) => Err(message),
        }
    }

    /// Turns the profile of an id or a label on or off.
    pub fn set_enabled(&mut self, id: &str, enabled: bool) -> (r: Result<(), String>)
        ensures
            machine_at(old(self).machines@, id@) matches Some(i) ==> old(self).changes(
                id@,
                MachineProfile { enabled, ..old(self).machines@[i] },
                *final(self),
            ),
            match machine_at(old(self).machines@, id@) {
                Some(i) => r is Ok && final(self).machines@ == old(self).machines@.update(
                    i,
                    (MachineProfile { enabled, ..old(self).machines@[i] }),
                ),
                None => text::fault(r) == Some(not_found(id@)) && *final(self) == *old(self),
            },
    {
        match self.get_mut(id) {
            Ok(profile) => {
                profile.enabled = enabled;
                Ok(())
            },
            Err(message) => Err(message),
        }
    }

    /// Takes out the profile of an id or a label.
    pub fn remove(&mut self, id: &str) -> (r: Result<MachineProfile, String>)
        ensures
            r matches Ok(profile) ==> old(self).loses(id@, profile, *final(self)),
            match machine_at(old(self).machines@, id@) {
                Some(i) => r == Ok::<MachineProfile, String>(old(self).machines@[i])
                    && final(self).machines@ == old(self).machines@.remove(i),
                None => text::fault(r) == Some(not_found(id@)) && *final(self) == *old(self),
            },
    {
        match self.position(id) {
            Some(i) => Ok(self.machines.remove(i)),
            None => Err(text::cat3("machine '", id, "' not found")),
        }
    }
}

pub open spec fn not_found(id: Seq<char>) -> Seq<char> {
    "machine '"@ + id + "' not found"@
}

proof fn lemma_fault_stays(
    machines: Seq<MachineProfile>,
    session_faults: Seq<Option<String>>,
    count: int,
)
    requires
        0 <= count <= machines.len(),
        catalog_fault(machines, session_faults, count) is Some,
    ensures
        catalog_fault(machines, session_faults, machines.len() as int) == catalog_fault(
            machines,
            session_faults,
            count,
        ),
{
    lemma_fault_carries(machines, session_faults, count, machines.len() as int);
}

proof fn lemma_fault_carries(
    machines: Seq<MachineProfile>,
    session_faults: Seq<Option<String>>,
    count: int,
    more: int,
)
    requires
        0 <= count <= more,
        catalog_fault(machines, session_faults, count) is Some,
    ensures
        catalog_fault(machines, session_faults, more) == catalog_fault(
            machines,
            session_faults,
            count,
        ),
    decreases more - count,
{
    if count < more {
        lemma_fault_carries(machines, session_faults, count, more - 1);
    }
}

/// One line of the machine list.
pub fn list_line(machine: &MachineProfile) -> (r: String)
    ensures
        r@ == machine.id@ + "\t"@ + (if machine.enabled {
            "enabled"@
        } else {
            "disabled"@
        }) + "\t"@ + machine.label@ + "\t"@ + machine.target@,
{
    let state = if machine.enabled {
        "enabled"
    } else {
        "disabled"
    };
    let mut line = text::cat3(machine.id.as_str(), "\t", state);
    line.append("\t");
    line.append(machine.label.as_str());
    line.append("\t");
    line.append(machine.target.as_str());
    line
}

/// What a `machine` command does.
#[derive(Debug, Clone, PartialEq, Eq)]
pub enum MachineStep {
    List { json: bool },
    /// Prepare the target where asked to, then add it, print its id and save.
    Add { profile: MachineProfile, prepare: bool },
    /// Prepare the target, then say so.
    Prepare { profile: MachineProfile, install: bool },
    Save,
}

/// Carries out a `machine` command on the catalog. A machine is added to the
/// catalog only in memory: nothing is saved before its host is known to be usable.
pub fn machine(
    catalog: &mut Catalog,
    command: MachineCommand,
    session_fault: &Option<String>,
    stamp: u128,
) -> (r: Result<MachineStep, String>)
    ensures
        match command {
            MachineCommand::List { json } => r == Ok::<MachineStep, String>(
                MachineStep::List { json },
            ) && *final(catalog) == *old(catalog),
            MachineCommand::Add { target, label, session, install } => match profile_fault(
                label@,
                target@,
                text::option_text(*session_fault),
            ) {
                Some(fault) => text::fault(r) == Some(fault) && *final(catalog) == *old(catalog),
                None => if has_label(old(catalog).machines@, label@) {
                    text::fault(r) == Some("machine label '"@ + label@ + "' already exists"@)
                        && *final(catalog) == *old(catalog)
                } else {
                    &&& r matches Ok(MachineStep::Add { profile, prepare })
                    &&& prepare == install
                    &&& profile.label == label
                    &&& profile.target == target
                    &&& profile.session == session
                    &&& profile.enabled
                    &&& profile.id@ == "m-"@ + text::hexadecimal(stamp as nat)
                    &&& final(catalog).machines@ == old(catalog).machines@.push(profile)
                },
            },
            MachineCommand::Prepare { id, install } => *final(catalog) == *old(catalog) && (
            match machine_at(old(catalog).machines@, id@) {
                Some(i) => r matches Ok(MachineStep::Prepare { profile, install: asked })
                    && profile == old(catalog).machines@[i] && asked == install,
                None => text::fault(r) == Some(not_found(id@)),
            }),
            MachineCommand::Rename { id, label } => match machine_at(
                old(catalog).machines@,
                id@,
            ) {
                Some(i) => r == Ok::<MachineStep, String>(MachineStep::Save)
                    && final(catalog).machines@ == old(catalog).machines@.update(
                    i,
                    (MachineProfile { label, ..old(catalog).machines@[i] }),
                ),
                None => text::fault(r) == Some(not_found(id@)) && *final(catalog) == *old(catalog),
            },
            MachineCommand::Enable { id } => match machine_at(old(catalog).machines@, id@) {
                Some(i) => r == Ok::<MachineStep, String>(MachineStep::Save)
                    && final(catalog).machines@ == old(catalog).machines@.update(
                    i,
                    (MachineProfile { enabled: true, ..old(catalog).machines@[i] }),
                ),
                None => text::fault(r) == Some(not_found(id@)) && *final(catalog) == *old(catalog),
            },
            MachineCommand::Disable { id } => match machine_at(old(catalog).machines@, id@) {
                Some(i) => r == Ok::<MachineStep, String>(MachineStep::Save)
                    && final(catalog).machines@ == old(catalog).machines@.update(
                    i,
                    (MachineProfile { enabled: false, ..old(catalog).machines@[i] }),
                ),
                None => text::fault(r) == Some(not_found(id@)) && *final(catalog) == *old(catalog),
            },
            MachineCommand::Remove { id } => match machine_at(old(catalog).machines@, id@) {
                Some(i) => r == Ok::<MachineStep, String>(MachineStep::Save)
                    && final(catalog).machines@ == old(catalog).machines@.remove(i),
                None => text::fault(r) == Some(not_found(id@)) && *final(catalog) == *old(catalog),
            },
        },
{
    match command {
        MachineCommand::List { json } => Ok(MachineStep::List { json }),
        MachineCommand::Add { target, label, session, install } => match catalog.add(
            label,
            target,
            session,
            session_fault,
            stamp,
        ) {
            Ok(profile) => Ok(MachineStep::Add { profile, prepare: install }),
            Err(message) => Err(message),
        },
        MachineCommand::Prepare { id, install } => match catalog.get(id.as_str()) {
            Ok(profile) => Ok(MachineStep::Prepare { profile, install }),
            Err(message) => Err(message),
        },
        MachineCommand::Rename { id, label } => match catalog.rename(id.as_str(), label) {
            Ok(()) => Ok(MachineStep::Save),
            Err(message) => Err(message),
        },
        MachineCommand::Enable { id } => match catalog.set_enabled(id.as_str(), true) {
            Ok(()) => Ok(MachineStep::Save),
            Err(message) => Err(message),
        },
        MachineCommand::Disable { id } => match catalog.set_enabled(id.as_str(), false) {
            Ok(()) => Ok(MachineStep::Save),
            Err(message) => Err(message),
        },
        MachineCommand::Remove { id } => match catalog.remove(id.as_str()) {
            Ok(_) => Ok(MachineStep::Save),
            Err(message) => Err(message),
        },
    }
}

} // verus!
