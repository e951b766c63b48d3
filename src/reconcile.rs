//! Decisions of the up, down and status drivers, taken on what the engine
//! reported: which containers to create or start, what to stop and remove,
//! which services are not running.
use crate::text::{contains_text, join, join_with, same_text, view_all};
use vstd::prelude::*;

verus! {

/// A container as the engine lists it.
pub struct ContainerInfo {
    /// Its names, each with a leading `/`.
    pub names: Vec<String>,
    /// Its state (`running`, `exited`, ...), where reported.
    pub state: Option<String>,
}

/// The observable state of a service's container.
#[derive(Debug, Clone, Copy, PartialEq, Eq, Structural)]
pub enum ContainerState {
    Absent,
    Stopped,
    Running,
}

pub open spec fn running_word() -> Seq<char> {
    seq!['r', 'u', 'n', 'n', 'i', 'n', 'g']
}

/// Whether the listed container `c` goes by `name`.
pub open spec fn lists_name(c: ContainerInfo, name: Seq<char>) -> bool {
    exists|k: int| 0 <= k < c.names@.len() && (#[trigger] c.names@[k])@ == seq!['/'] + name
}

pub open spec fn is_running(c: ContainerInfo) -> bool {
    c.state matches Some(s) && s@ == running_word()
}

/// The state of the container called `name` in a listing of all containers.
pub open spec fn state_in(listing: Seq<ContainerInfo>, name: Seq<char>) -> ContainerState {
    if exists|i: int| 0 <= i < listing.len() && lists_name(#[trigger] listing[i], name) && is_running(listing[i]) {
        ContainerState::Running
    } else if exists|i: int| 0 <= i < listing.len() && lists_name(#[trigger] listing[i], name) {
        ContainerState::Stopped
    } else {
        ContainerState::Absent
    }
}

fn goes_by(c: &ContainerInfo, slashed: &String) -> (r: bool)
    ensures
        r == exists|k: int| 0 <= k < c.names@.len() && (#[trigger] c.names@[k])@ == slashed@,
{
    let mut k: usize = 0;
    while k < c.names.len()
        invariant
            0 <= k <= c.names@.len(),
            forall|j: int| 0 <= j < k ==> c.names@[j]@ != slashed@,
        decreases c.names.len() - k,
    {
        if c.names[k] == *slashed {
            return true;
        }
        k = k + 1;
    }
    false
}

/// The state of the container called `name`, given the listing of all
/// containers: running where a container of that name runs, stopped where one
/// exists, else absent.
pub fn container_state(listing: &Vec<ContainerInfo>, name: &str) -> (r: ContainerState)
    ensures
        r == state_in(listing@, name@),
{
    let slash = "/";
    proof {
        reveal_strlit("/");
    }
    assert(slash@ =~= seq!['/']);
    let mut slashed = slash.to_owned();
    slashed.append(name);
    let mut found = false;
    let mut i: usize = 0;
    while i < listing.len()
        invariant
            0 <= i <= listing@.len(),
            slashed@ == seq!['/'] + name@,
            found == exists|j: int| 0 <= j < i && lists_name(#[trigger] listing@[j], name@),
            forall|j: int| 0 <= j < i ==> !(lists_name(#[trigger] listing@[j], name@) && is_running(listing@[j])),
        decreases listing.len() - i,
    {
        let c = &listing[i];
        if goes_by(c, &slashed) {
            let running = "running";
            proof {
                reveal_strlit("running");
            }
            assert(running@ =~= running_word());
            let is_run = match &c.state {
                Some(s) => s.as_str().unicode_len() == 7 && same_text(s.as_str(), running),
                None => false,
            };
            if is_run {
                assert(lists_name(listing@[i as int], name@) && is_running(listing@[i as int]));
                return ContainerState::Running;
            }
            found = true;
        }
        i = i + 1;
    }
    if found {
        ContainerState::Stopped
    } else {
        ContainerState::Absent
    }
}

/// What the up driver does with a service's container.
#[derive(Debug, Clone, Copy, PartialEq, Eq, Structural)]
pub enum UpAction {
    /// It runs already: leave it.
    Skip,
    /// It exists but is stopped: start it (on the project network, created if
    /// missing).
    Start,
    /// It does not exist: create it and start it.
    Create,
}

pub open spec fn up_action_of(s: ContainerState) -> UpAction {
    match s {
        ContainerState::Running => UpAction::Skip,
        ContainerState::Stopped => UpAction::Start,
        ContainerState::Absent => UpAction::Create,
    }
}

/// The state a container is in once the up driver took action `a` on it,
/// every start having succeeded.
pub open spec fn state_after(s: ContainerState, a: UpAction) -> ContainerState {
    match a {
        UpAction::Skip => s,
        _ => ContainerState::Running,
    }
}

/// The states of the services' containers after an up run over `states`.
pub open spec fn states_after_up(states: Seq<ContainerState>) -> Seq<ContainerState> {
    states.map_values(|s: ContainerState| state_after(s, up_action_of(s)))
}

/// The action for a container in state `s`.
pub fn up_action(s: ContainerState) -> (r: UpAction)
    ensures
        r == up_action_of(s),
{
    match s {
        ContainerState::Running => UpAction::Skip,
        ContainerState::Stopped => UpAction::Start,
        ContainerState::Absent => UpAction::Create,
    }
}

/// The actions for the services' containers, in order.
pub fn plan_up(states: &Vec<ContainerState>) -> (r: Vec<UpAction>)
    ensures
        r@ == states@.map_values(|s: ContainerState| up_action_of(s)),
{
    let mut out: Vec<UpAction> = Vec::new();
    let mut i: usize = 0;
    while i < states.len()
        invariant
            0 <= i <= states@.len(),
            out@ == states@.subrange(0, i as int).map_values(|s: ContainerState| up_action_of(s)),
        decreases states.len() - i,
    {
        out.push(up_action(states[i]));
        assert(states@.subrange(0, i + 1).map_values(|s: ContainerState| up_action_of(s)) =~= states@.subrange(
            0,
            i as int,
        ).map_values(|s: ContainerState| up_action_of(s)).push(up_action_of(states@[i as int])));
        i = i + 1;
    }
    assert(states@.subrange(0, states@.len() as int) == states@);
    out
}

/// Up is idempotent: once an up run has brought every container to running,
/// a second run right after it (nothing else having changed the containers)
/// creates and starts none; it leaves every one as it is.
pub proof fn lemma_up_twice_starts_nothing(states: Seq<ContainerState>)
    ensures
        forall|i: int|
            0 <= i < states.len() ==> (#[trigger] states_after_up(states)[i]) == ContainerState::Running,
        forall|i: int|
            0 <= i < states.len() ==> up_action_of(#[trigger] states_after_up(states)[i]) == UpAction::Skip,
{
}

/// What an up run has done so far: the containers it created and started,
/// which the foreground mode follows. Containers that were only restarted, or
/// left running, are not among them.
pub struct UpRun {
    pub started: Vec<String>,
}

impl UpRun {
    pub fn new() -> (r: UpRun)
        ensures
            r.started@.len() == 0,
    {
        UpRun { started: Vec::new() }
    }

    /// Records the outcome of starting the container `name` that this run
    /// created: it counts as started only where the start succeeded.
    pub fn record_created(&mut self, name: String, start_succeeded: bool)
        ensures
            start_succeeded ==> final(self).started@ == old(self).started@.push(name),
            !start_succeeded ==> final(self).started@ == old(self).started@,
    {
        if start_succeeded {
            self.started.push(name);
        }
    }
}

/// Whether the network called `name` is missing from the listed networks.
pub fn network_missing(networks: &Vec<String>, name: &str) -> (r: bool)
    ensures
        r == !view_all(networks@).contains(name@),
{
    !contains_text(networks, name)
}

/// A project container as the down driver finds it.
pub struct DownTarget {
    pub name: String,
    pub running: bool,
}

/// One engine operation of the down driver.
pub enum DownOp {
    /// Stop the named container.
    Stop(String),
    /// Force-remove the named container.
    Remove(String),
    /// Remove the named network.
    RemoveNetwork(String),
}

/// A down operation over plain text.
pub enum DownStep {
    Stop(Seq<char>),
    Remove(Seq<char>),
    RemoveNetwork(Seq<char>),
}

impl View for DownOp {
    type V = DownStep;

    open spec fn view(&self) -> DownStep {
        match self {
            DownOp::Stop(n) => DownStep::Stop(n@),
            DownOp::Remove(n) => DownStep::Remove(n@),
            DownOp::RemoveNetwork(n) => DownStep::RemoveNetwork(n@),
        }
    }
}

/// For each container in order: stop it if it runs, then remove it.
pub open spec fn container_steps(targets: Seq<DownTarget>) -> Seq<DownStep>
    decreases targets.len(),
{
    if targets.len() == 0 {
        Seq::empty()
    } else {
        let t = targets.last();
        container_steps(targets.drop_last()) + if t.running {
            seq![DownStep::Stop(t.name@), DownStep::Remove(t.name@)]
        } else {
            seq![DownStep::Remove(t.name@)]
        }
    }
}

/// The operations of a down run: the containers' steps, then the removal of
/// the project network where it exists.
pub open spec fn down_steps(targets: Seq<DownTarget>, network: Seq<char>, network_exists: bool) -> Seq<DownStep> {
    container_steps(targets) + if network_exists {
        seq![DownStep::RemoveNetwork(network)]
    } else {
        Seq::empty()
    }
}

pub open spec fn views_of(ops: Seq<DownOp>) -> Seq<DownStep> {
    ops.map_values(|o: DownOp| o@)
}

/// The operations that take the project down: each container is stopped if
/// it runs and then removed, in order, and the project network, where it
/// exists, is removed last.
pub fn plan_down(targets: &Vec<DownTarget>, network: &str, network_exists: bool) -> (r: Vec<DownOp>)
    ensures
        views_of(r@) == down_steps(targets@, network@, network_exists),
{
    let mut out: Vec<DownOp> = Vec::new();
    let mut i: usize = 0;
    while i < targets.len()
        invariant
            0 <= i <= targets@.len(),
            views_of(out@) == container_steps(targets@.subrange(0, i as int)),
        decreases targets.len() - i,
    {
        let t = &targets[i];
        let ghost before = out@;
        assert(targets@.subrange(0, i + 1).drop_last() == targets@.subrange(0, i as int));
        if t.running {
            out.push(DownOp::Stop(t.name.clone()));
            out.push(DownOp::Remove(t.name.clone()));
            assert(views_of(out@) =~= views_of(before) + seq![DownStep::Stop(t.name@), DownStep::Remove(t.name@)]);
        } else {
            out.push(DownOp::Remove(t.name.clone()));
            assert(views_of(out@) =~= views_of(before) + seq![DownStep::Remove(t.name@)]);
        }
        i = i + 1;
    }
    assert(targets@.subrange(0, targets@.len() as int) == targets@);
    let ghost before = out@;
    if network_exists {
        out.push(DownOp::RemoveNetwork(network.to_owned()));
        assert(views_of(out@) =~= views_of(before) + seq![DownStep::RemoveNetwork(network@)]);
    } else {
        assert(views_of(out@) =~= views_of(before) + Seq::<DownStep>::empty());
    }
    out
}

proof fn lemma_container_steps_remove_all(targets: Seq<DownTarget>)
    ensures
        forall|i: int|
            0 <= i < targets.len() ==> container_steps(targets).contains(
                DownStep::Remove((#[trigger] targets[i]).name@),
            ),
        forall|k: int|
            0 <= k < container_steps(targets).len() ==> !(#[trigger] container_steps(targets)[k] is RemoveNetwork),
    decreases targets.len(),
{
    if targets.len() > 0 {
        let prev = targets.drop_last();
        lemma_container_steps_remove_all(prev);
        let t = targets.last();
        let tail = if t.running {
            seq![DownStep::Stop(t.name@), DownStep::Remove(t.name@)]
        } else {
            seq![DownStep::Remove(t.name@)]
        };
        let all = container_steps(targets);
        assert(all == container_steps(prev) + tail);
        assert forall|i: int| 0 <= i < targets.len() implies all.contains(
            DownStep::Remove((#[trigger] targets[i]).name@),
        ) by {
            if i < targets.len() - 1 {
                assert(prev[i] == targets[i]);
                let k = choose|k: int|
                    0 <= k < container_steps(prev).len() && container_steps(prev)[k] == DownStep::Remove(
                        prev[i].name@,
                    );
                assert(all[k] == container_steps(prev)[k]);
            } else {
                let k = container_steps(prev).len() + tail.len() - 1;
                assert(all[k] == tail[tail.len() - 1]);
            }
        }
        assert forall|k: int| 0 <= k < all.len() implies !(#[trigger] all[k] is RemoveNetwork) by {
            if k < container_steps(prev).len() {
                assert(all[k] == container_steps(prev)[k]);
            } else {
                assert(all[k] == tail[k - container_steps(prev).len()]);
            }
        }
    }
}

/// Down leaves nothing behind and is idempotent: its operations remove every
/// project container and the project network where it exists; on a project
/// with no containers and no network, it has no operation at all.
pub proof fn lemma_down_idempotent(targets: Seq<DownTarget>, network: Seq<char>, network_exists: bool)
    ensures
        forall|i: int|
            0 <= i < targets.len() ==> down_steps(targets, network, network_exists).contains(
                DownStep::Remove((#[trigger] targets[i]).name@),
            ),
        network_exists ==> down_steps(targets, network, network_exists).contains(DownStep::RemoveNetwork(network)),
        !network_exists ==> forall|k: int|
            0 <= k < down_steps(targets, network, network_exists).len() ==> !(
            #[trigger] down_steps(targets, network, network_exists)[k] is RemoveNetwork),
        down_steps(Seq::empty(), network, false).len() == 0,
{
    lemma_container_steps_remove_all(targets);
    let cs = container_steps(targets);
    let all = down_steps(targets, network, network_exists);
    assert forall|i: int| 0 <= i < targets.len() implies all.contains(
        DownStep::Remove((#[trigger] targets[i]).name@),
    ) by {
        let k = choose|k: int| 0 <= k < cs.len() && cs[k] == DownStep::Remove(targets[i].name@);
        assert(all[k] == cs[k]);
    }
    if network_exists {
        assert(all[cs.len() as int] == DownStep::RemoveNetwork(network));
    } else {
        assert(all =~= cs);
    }
    assert(container_steps(Seq::<DownTarget>::empty()) =~= Seq::<DownStep>::empty());
}

/// A name without the leading `/`s that the engine writes before it.
pub open spec fn trim_slashes(s: Seq<char>) -> Seq<char>
    decreases s.len(),
{
    if s.len() > 0 && s[0] == '/' {
        trim_slashes(s.drop_first())
    } else {
        s
    }
}

fn trim_leading_slashes(s: &str) -> (r: String)
    ensures
        r@ == trim_slashes(s@),
{
    let n = s.unicode_len();
    let mut i: usize = 0;
    assert(s@.subrange(0, n as int) == s@);
    while i < n && s.get_char(i) == '/'
        invariant
            n == s@.len(),
            0 <= i <= n,
            trim_slashes(s@) == trim_slashes(s@.subrange(i as int, n as int)),
        decreases n - i,
    {
        assert(s@.subrange(i as int, n as int).drop_first() == s@.subrange(i + 1, n as int));
        i = i + 1;
    }
    s.substring_char(i, n).to_owned()
}

/// All names of the listed containers, without their leading `/`s, container
/// after container.
pub open spec fn listed_names(listing: Seq<ContainerInfo>) -> Seq<Seq<char>>
    decreases listing.len(),
{
    if listing.len() == 0 {
        Seq::empty()
    } else {
        listed_names(listing.drop_last()) + listing.last().names@.map_values(|n: String| trim_slashes(n@))
    }
}

/// The names of the listed project containers, as the down, restart and
/// shell drivers address them.
pub fn container_names(listing: &Vec<ContainerInfo>) -> (r: Vec<String>)
    ensures
        view_all(r@) == listed_names(listing@),
{
    let mut out: Vec<String> = Vec::new();
    let mut i: usize = 0;
    while i < listing.len()
        invariant
            0 <= i <= listing@.len(),
            view_all(out@) == listed_names(listing@.subrange(0, i as int)),
        decreases listing.len() - i,
    {
        assert(listing@.subrange(0, i + 1).drop_last() == listing@.subrange(0, i as int));
        let names = &listing[i].names;
        let ghost start = view_all(out@);
        let mut k: usize = 0;
        while k < names.len()
            invariant
                0 <= k <= names@.len(),
                view_all(out@) == start + names@.subrange(0, k as int).map_values(|n: String| trim_slashes(n@)),
            decreases names.len() - k,
        {
            let ghost before = out@;
            out.push(trim_leading_slashes(names[k].as_str()));
            assert(view_all(out@) =~= view_all(before).push(trim_slashes(names@[k as int]@)));
            assert(names@.subrange(0, k + 1).map_values(|n: String| trim_slashes(n@)) =~= names@.subrange(
                0,
                k as int,
            ).map_values(|n: String| trim_slashes(n@)).push(trim_slashes(names@[k as int]@)));
            k = k + 1;
        }
        assert(names@.subrange(0, names@.len() as int) == names@);
        i = i + 1;
    }
    assert(listing@.subrange(0, listing@.len() as int) == listing@);
    out
}

/// A name without one leading `/`, where it has one.
pub open spec fn strip_slash(s: Seq<char>) -> Seq<char> {
    if s.len() > 0 && s[0] == '/' {
        s.drop_first()
    } else {
        s
    }
}

/// The name a listed container is shown by: its names without the leading
/// `/`, joined with `, `.
pub fn display_name(c: &ContainerInfo) -> (r: String)
    ensures
        r@ == join_with(c.names@.map_values(|n: String| strip_slash(n@)), seq![',', ' ']),
{
    let mut stripped: Vec<String> = Vec::new();
    let mut k: usize = 0;
    while k < c.names.len()
        invariant
            0 <= k <= c.names@.len(),
            view_all(stripped@) == c.names@.subrange(0, k as int).map_values(|n: String| strip_slash(n@)),
        decreases c.names.len() - k,
    {
        let name = c.names[k].as_str();
        let n = name.unicode_len();
        let s = if n > 0 && name.get_char(0) == '/' {
            name.substring_char(1, n).to_owned()
        } else {
            name.to_owned()
        };
        let ghost before = stripped@;
        stripped.push(s);
        assert(view_all(stripped@) =~= view_all(before).push(strip_slash(c.names@[k as int]@)));
        assert(c.names@.subrange(0, k + 1).map_values(|n: String| strip_slash(n@)) =~= c.names@.subrange(
            0,
            k as int,
        ).map_values(|n: String| strip_slash(n@)).push(strip_slash(c.names@[k as int]@)));
        k = k + 1;
    }
    assert(c.names@.subrange(0, c.names@.len() as int) == c.names@);
    let sep = ", ";
    proof {
        reveal_strlit(", ");
    }
    assert(sep@ =~= seq![',', ' ']);
    assert(view_all(stripped@) == stripped@.map_values(|p: String| p@));
    join(&stripped, sep)
}

/// The declared container names that are not among the shown names, in order.
pub open spec fn not_listed(declared: Seq<Seq<char>>, shown: Seq<Seq<char>>) -> Seq<Seq<char>>
    decreases declared.len(),
{
    if declared.len() == 0 {
        Seq::empty()
    } else if shown.contains(declared.last()) {
        not_listed(declared.drop_last(), shown)
    } else {
        not_listed(declared.drop_last(), shown).push(declared.last())
    }
}

/// The project's containers that do not run: the declared container names
/// that no listed container is shown by.
pub fn stopped_containers(declared: &Vec<String>, shown: &Vec<String>) -> (r: Vec<String>)
    ensures
        view_all(r@) == not_listed(view_all(declared@), view_all(shown@)),
{
    let ghost dv = view_all(declared@);
    let mut out: Vec<String> = Vec::new();
    let mut i: usize = 0;
    while i < declared.len()
        invariant
            0 <= i <= declared@.len(),
            dv == view_all(declared@),
            view_all(out@) == not_listed(dv.subrange(0, i as int), view_all(shown@)),
        decreases declared.len() - i,
    {
        assert(dv.subrange(0, i + 1).drop_last() == dv.subrange(0, i as int));
        assert(dv.subrange(0, i + 1).last() == declared@[i as int]@);
        if !contains_text(shown, declared[i].as_str()) {
            let ghost before = out@;
            out.push(declared[i].clone());
            assert(view_all(out@) =~= view_all(before).push(declared@[i as int]@));
        }
        i = i + 1;
    }
    assert(dv.subrange(0, declared@.len() as int) == dv);
    out
}

/// How a container's state is shown.
#[derive(Debug, Clone, Copy, PartialEq, Eq, Structural)]
pub enum StateTone {
    /// `running`
    Good,
    /// `paused`
    Caution,
    /// `exited`
    Bad,
    /// Any other state.
    Plain,
}

pub open spec fn tone_of(state: Seq<char>) -> StateTone {
    if state == running_word() {
        StateTone::Good
    } else if state == seq!['p', 'a', 'u', 's', 'e', 'd'] {
        StateTone::Caution
    } else if state == seq!['e', 'x', 'i', 't', 'e', 'd'] {
        StateTone::Bad
    } else {
        StateTone::Plain
    }
}

/// The tone a container state is shown in.
pub fn state_tone(state: &str) -> (r: StateTone)
    ensures
        r == tone_of(state@),
{
    let running = "running";
    let paused = "paused";
    let exited = "exited";
    proof {
        reveal_strlit("running");
        reveal_strlit("paused");
        reveal_strlit("exited");
    }
    assert(running@ =~= running_word());
    assert(paused@ =~= seq!['p', 'a', 'u', 's', 'e', 'd']);
    assert(exited@ =~= seq!['e', 'x', 'i', 't', 'e', 'd']);
    if same_text(state, running) {
        StateTone::Good
    } else if same_text(state, paused) {
        StateTone::Caution
    } else if same_text(state, exited) {
        StateTone::Bad
    } else {
        StateTone::Plain
    }
}

} // verus!
