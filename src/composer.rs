use vstd::prelude::*;
use crate::registry::{Arg, CommandRegistry, Handler, InvokeError, result_view};

verus! {

/// A capability provider that the runtime can be extended with.
#[derive(Clone, Copy, Debug, PartialEq, Eq, Structural)]
pub enum Capability {
    /// Opens external URIs and files with the system's handler.
    Opener,
    /// SQL storage.
    Storage,
    /// Filesystem access.
    Filesystem,
    /// Outbound HTTP.
    Network,
}

/// The order in which the providers are attached at startup.
pub open spec fn provider_order() -> Seq<Capability> {
    seq![Capability::Opener, Capability::Storage, Capability::Filesystem, Capability::Network]
}

/// The providers to attach, in the order of attachment.
pub fn providers() -> (r: Vec<Capability>)
    ensures
        r@ == provider_order(),
{
    let r = vec![Capability::Opener, Capability::Storage, Capability::Filesystem, Capability::Network];
    assert(r@ =~= provider_order());
    r
}

/// The life of a runtime context.
#[derive(Clone, Copy, Debug, PartialEq, Eq, Structural)]
pub enum Phase {
    Uninitialized,
    Serving,
    Terminated,
}

/// The host platform class.
#[derive(Clone, Copy, Debug, PartialEq, Eq, Structural)]
pub enum Platform {
    Desktop,
    Mobile,
}

/// How the host hands control to the process.
#[derive(Clone, Copy, Debug, PartialEq, Eq, Structural)]
pub enum EntryPoint {
    /// A conventional process `main`.
    ProcessMain,
    /// An entry point that the platform's own launcher calls.
    PlatformLauncher,
}

/// The entry point used on platform `p`; both compose the runtime alike.
pub fn entry_point(p: Platform) -> (r: EntryPoint)
    ensures
        r == (match p {
            Platform::Desktop => EntryPoint::ProcessMain,
            Platform::Mobile => EntryPoint::PlatformLauncher,
        }),
{
    match p {
        Platform::Desktop => EntryPoint::ProcessMain,
        Platform::Mobile => EntryPoint::PlatformLauncher,
    }
}

/// Every provider initialised.
pub open spec fn all_ready(ready: Seq<bool>) -> bool {
    forall|i: int| 0 <= i < ready.len() ==> ready[i]
}

/// Provider `i` is the first that failed to initialise.
pub open spec fn is_first_failure(ready: Seq<bool>, i: int) -> bool {
    &&& 0 <= i < ready.len()
    &&& !ready[i]
    &&& forall|j: int| 0 <= j < i ==> ready[j]
}

/// Some provider did not initialise.
proof fn lemma_first_failure_exists(ready: Seq<bool>, k: int)
    requires
        0 <= k < ready.len(),
        !ready[k],
    ensures
        exists|i: int| is_first_failure(ready, i),
    decreases k,
{
    if forall|j: int| 0 <= j < k ==> ready[j] {
        assert(is_first_failure(ready, k));
    } else {
        let j = choose|j: int| 0 <= j < k && !ready[j];
        lemma_first_failure_exists(ready, j);
    }
}

/// The place of the first provider that did not initialise.
pub open spec fn first_failure(ready: Seq<bool>) -> int {
    choose|i: int| is_first_failure(ready, i)
}

/// What composing `order` gives when `ready` says which providers
/// initialised: the attached providers, or where it stopped.
pub open spec fn compose_outcome(order: Seq<Capability>, ready: Seq<bool>) -> Result<Seq<Capability>, ComposeError> {
    if all_ready(ready) {
        Ok(order)
    } else {
        Err(ComposeError { failed: order[first_failure(ready)], position: first_failure(ready) as usize })
    }
}

/// Composition stopped at a provider that did not initialise.
#[derive(Clone, Copy, Debug, PartialEq, Eq, Structural)]
pub struct ComposeError {
    /// The provider that failed.
    pub failed: Capability,
    /// Its place in the order of attachment.
    pub position: usize,
}

/// The name the greeting command is registered under.
pub open spec fn greet_command() -> Seq<char> {
    "greet"@
}

/// The commands the runtime serves.
pub fn builtin_commands() -> (r: CommandRegistry)
    ensures
        r.wf(),
        r.names() == seq![greet_command()],
        r.handlers() == seq![Handler::Greet],
{
    let mut r = CommandRegistry::new();
    let _ = r.register("greet", Handler::Greet);
    assert(r.names() =~= seq![greet_command()]);
    assert(r.handlers() =~= seq![Handler::Greet]);
    r
}

/// The runtime: the attached providers, the command table, and the phase.
pub struct RuntimeContext {
    capabilities: Vec<Capability>,
    commands: CommandRegistry,
    phase: Phase,
}

impl RuntimeContext {
    /// The attached providers, in order of attachment.
    pub closed spec fn capabilities(&self) -> Seq<Capability> {
        self.capabilities@
    }

    /// The command table.
    pub closed spec fn commands(&self) -> CommandRegistry {
        self.commands
    }

    /// The current phase.
    pub closed spec fn phase(&self) -> Phase {
        self.phase
    }

    /// The result of a composition, with the context seen as its providers.
    pub open spec fn outcome_view(r: Result<RuntimeContext, ComposeError>) -> Result<Seq<Capability>, ComposeError> {
        match r {
            Ok(ctx) => Ok(ctx.capabilities()),
            Err(e) => Err(e),
        }
    }

    /// The command table is well formed.
    pub open spec fn wf(&self) -> bool {
        self.commands().wf()
    }

    /// Attaches the providers of `order` one after the other; `ready[i]` is
    /// whether provider `i` initialised. The first that did not aborts the
    /// composition and nothing is served. Otherwise the runtime serves the
    /// built-in commands with every provider attached, in order.
    pub fn compose(order: &Vec<Capability>, ready: &Vec<bool>) -> (r: Result<RuntimeContext, ComposeError>)
        requires
            order@.len() == ready@.len(),
        ensures
            RuntimeContext::outcome_view(r) == compose_outcome(order@, ready@),
            r is Ok <==> all_ready(ready@),
            r is Ok ==> ({
                let ctx = r->Ok_0;
                &&& ctx.wf()
                &&& ctx.phase() == Phase::Serving
                &&& ctx.capabilities() == order@
                &&& ctx.commands().names() == seq![greet_command()]
                &&& ctx.commands().handlers() == seq![Handler::Greet]
            }),
            r is Err ==> ({
                let e = r->Err_0;
                &&& is_first_failure(ready@, e.position as int)
                &&& e.failed == order@[e.position as int]
            }),
    {
        let mut attached: Vec<Capability> = Vec::new();
        let mut i: usize = 0;
        while i < order.len()
            invariant
                order@.len() == ready@.len(),
                0 <= i <= order@.len(),
                attached@ == order@.subrange(0, i as int),
                forall|j: int| 0 <= j < i ==> ready@[j],
            decreases order@.len() - i,
        {
            if !ready[i] {
                proof {
                    assert(is_first_failure(ready@, i as int));
                    let k = first_failure(ready@);
                    assert(is_first_failure(ready@, k));
                    assert(k == i);
                }
                return Err(ComposeError { failed: order[i], position: i });
            }
            attached.push(order[i]);
            assert(attached@ =~= order@.subrange(0, i + 1));
            i = i + 1;
        }
        assert(attached@ =~= order@);
        Ok(RuntimeContext { capabilities: attached, commands: builtin_commands(), phase: Phase::Serving })
    }

    /// The current phase.
    pub fn phase_now(&self) -> (r: Phase)
        ensures
            r == self.phase(),
    {
        self.phase
    }

    /// The attached providers, in order of attachment.
    pub fn capability_list(&self) -> (r: Vec<Capability>)
        ensures
            r@ == self.capabilities(),
    {
        self.capabilities.clone()
    }

    /// Whether provider `c` is attached.
    pub fn has_capability(&self, c: Capability) -> (r: bool)
        ensures
            r == self.capabilities().contains(c),
    {
        let mut i: usize = 0;
        while i < self.capabilities.len()
            invariant
                0 <= i <= self.capabilities@.len(),
                forall|j: int| 0 <= j < i ==> self.capabilities@[j] != c,
            decreases self.capabilities@.len() - i,
        {
            if self.capabilities[i] == c {
                return true;
            }
            i = i + 1;
        }
        false
    }

    /// Forwards an invocation to the command table, which is only read.
    pub fn invoke(&self, name: &str, args: &Vec<Arg>) -> (r: Result<String, InvokeError>)
        requires
            self.wf(),
        ensures
            result_view(r) == self.commands().invoke_spec(name@, args@),
    {
        self.commands.invoke(name, args)
    }

    /// Ends serving; the providers stay attached until the process exits.
    pub fn terminate(&mut self)
        ensures
            final(self).phase() == Phase::Terminated,
            final(self).capabilities() == old(self).capabilities(),
            final(self).commands() == old(self).commands(),
    {
        self.phase = Phase::Terminated;
    }
}

/// Every provider initialising gives a runtime that serves with exactly
/// those providers, in the given order.
pub proof fn lemma_all_ready_serves(order: Seq<Capability>, ready: Seq<bool>)
    requires
        order.len() == ready.len(),
        all_ready(ready),
    ensures
        compose_outcome(order, ready) == Ok::<Seq<Capability>, ComposeError>(order),
{
}

/// One provider that fails to initialise is enough to abort the
/// composition, at that provider or at an earlier failing one.
pub proof fn lemma_failure_aborts(order: Seq<Capability>, ready: Seq<bool>, k: int)
    requires
        order.len() == ready.len(),
        ready.len() <= usize::MAX,
        0 <= k < ready.len(),
        !ready[k],
    ensures
        compose_outcome(order, ready) is Err,
        compose_outcome(order, ready)->Err_0.position <= k,
        !ready[compose_outcome(order, ready)->Err_0.position as int],
{
    lemma_first_failure_exists(ready, k);
    let i = first_failure(ready);
    assert(is_first_failure(ready, i));
}

/// Composition is deterministic: two runs over the same providers with the
/// same initialisation outcomes end alike, and two runs that both serve
/// expose the same providers.
pub proof fn lemma_composition_deterministic(order: Seq<Capability>, ready1: Seq<bool>, ready2: Seq<bool>)
    requires
        order.len() == ready1.len(),
        order.len() == ready2.len(),
    ensures
        ready1 == ready2 ==> compose_outcome(order, ready1) == compose_outcome(order, ready2),
        compose_outcome(order, ready1) is Ok && compose_outcome(order, ready2) is Ok ==>
            compose_outcome(order, ready1) == compose_outcome(order, ready2),
{
}

/// With the standard providers, the failure of any single one aborts the
/// composition at that provider.
pub proof fn lemma_single_failure_aborts(ready: Seq<bool>, k: int)
    requires
        ready.len() == provider_order().len(),
        0 <= k < ready.len(),
        !ready[k],
        forall|j: int| 0 <= j < ready.len() && j != k ==> ready[j],
    ensures
        compose_outcome(provider_order(), ready)
            == Err::<Seq<Capability>, ComposeError>(ComposeError { failed: provider_order()[k], position: k as usize }),
{
    assert(is_first_failure(ready, k));
    lemma_first_failure_exists(ready, k);
    let i = first_failure(ready);
    assert(is_first_failure(ready, i));
    assert(i == k);
}

} // verus!
