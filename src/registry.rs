use vstd::prelude::*;
use crate::greeting::{greet, greeting_text};
use vstd::string::StrSliceExecFns;

verus! {

/// One argument of an invocation, as the interface sends it.
pub enum Arg {
    Text(String),
    Number(i64),
    Flag(bool),
}

/// The native handlers that a command name can be bound to.
#[derive(Clone, Copy, Debug, PartialEq, Eq, Structural)]
pub enum Handler {
    Greet,
}

/// Why an invocation failed.
#[derive(Clone, Copy, Debug, PartialEq, Eq, Structural)]
pub enum InvokeError {
    NotFound,
    InvalidArguments,
}

/// Why a registration failed.
#[derive(Clone, Copy, Debug, PartialEq, Eq, Structural)]
pub enum RegisterError {
    DuplicateName,
}

/// A name bound to its handler.
pub struct Command {
    pub name: String,
    pub handler: Handler,
}

/// Whether `args` has the shape that handler `h` expects.
pub open spec fn accepts(h: Handler, args: Seq<Arg>) -> bool {
    match h {
        Handler::Greet => args.len() == 1 && args[0] is Text,
    }
}

/// What handler `h` returns for arguments of the expected shape.
pub open spec fn output(h: Handler, args: Seq<Arg>) -> Seq<char> {
    match h {
        Handler::Greet => greeting_text(args[0]->Text_0@),
    }
}

/// The result of invoking handler `h` on `args`.
pub open spec fn run_handler(h: Handler, args: Seq<Arg>) -> Result<Seq<char>, InvokeError> {
    if accepts(h, args) {
        Ok(output(h, args))
    } else {
        Err(InvokeError::InvalidArguments)
    }
}

/// An invocation's result, with the success text as its characters.
pub open spec fn result_view(r: Result<String, InvokeError>) -> Result<Seq<char>, InvokeError> {
    match r {
        Ok(s) => Ok(s@),
        Err(e) => Err(e),
    }
}

/// Checks the shape of `args` and runs handler `h` on them.
pub fn dispatch(h: Handler, args: &Vec<Arg>) -> (r: Result<String, InvokeError>)
    ensures
        result_view(r) == run_handler(h, args@),
{
    match h {
        Handler::Greet => {
            if args.len() == 1 {
                match &args[0] {
                    Arg::Text(name) => Ok(greet(name.as_str())),
                    _ => Err(InvokeError::InvalidArguments),
                }
            } else {
                Err(InvokeError::InvalidArguments)
            }
        },
    }
}

/// Whether `a` and `b` hold the same characters.
fn same_text(a: &str, b: &str) -> (r: bool)
    ensures
        r == (a@ == b@),
{
    let n = a.unicode_len();
    if n != b.unicode_len() {
        return false;
    }
    let mut i: usize = 0;
    while i < n
        invariant
            n == a@.len() == b@.len(),
            0 <= i <= n,
            a@.subrange(0, i as int) == b@.subrange(0, i as int),
        decreases n - i,
    {
        if a.get_char(i) != b.get_char(i) {
            return false;
        }
        assert(a@.subrange(0, i + 1) =~= a@.subrange(0, i as int).push(a@[i as int]));
        assert(b@.subrange(0, i + 1) =~= b@.subrange(0, i as int).push(b@[i as int]));
        i = i + 1;
    }
    assert(a@ =~= a@.subrange(0, n as int));
    assert(b@ =~= b@.subrange(0, n as int));
    true
}

/// The names bound in `cmds`, in order of registration.
pub open spec fn names_of(cmds: Seq<Command>) -> Seq<Seq<char>> {
    cmds.map_values(|c: Command| c.name@)
}

/// The table from command name to handler.
pub struct CommandRegistry {
    commands: Vec<Command>,
}

impl CommandRegistry {
    /// The registered names, in order of registration.
    pub closed spec fn names(&self) -> Seq<Seq<char>> {
        names_of(self.commands@)
    }

    /// The handler bound to each registered name.
    pub closed spec fn handlers(&self) -> Seq<Handler> {
        self.commands@.map_values(|c: Command| c.handler)
    }

    /// No name is registered twice.
    pub open spec fn wf(&self) -> bool {
        self.names().no_duplicates()
    }

    /// Whether `name` is registered.
    pub open spec fn contains(&self, name: Seq<char>) -> bool {
        self.names().contains(name)
    }

    /// The handler that `name` is bound to.
    pub open spec fn lookup(&self, name: Seq<char>) -> Option<Handler> {
        if self.contains(name) {
            Some(self.handlers()[self.names().index_of(name)])
        } else {
            None
        }
    }

    /// The result of invoking `name` with `args`.
    pub open spec fn invoke_spec(&self, name: Seq<char>, args: Seq<Arg>) -> Result<Seq<char>, InvokeError> {
        match self.lookup(name) {
            None => Err(InvokeError::NotFound),
            Some(h) => run_handler(h, args),
        }
    }

    /// A registry with no command.
    pub fn new() -> (r: Self)
        ensures
            r.wf(),
            r.names() == Seq::<Seq<char>>::empty(),
            r.handlers() == Seq::<Handler>::empty(),
    {
        let r = CommandRegistry { commands: Vec::new() };
        assert(r.names() =~= Seq::<Seq<char>>::empty());
        assert(r.handlers() =~= Seq::<Handler>::empty());
        r
    }

    /// The number of registered commands.
    pub fn len(&self) -> (r: usize)
        ensures
            r == self.names().len(),
    {
        self.commands.len()
    }

    /// The position of `name` among the registered names, if it is there.
    fn position(&self, name: &str) -> (r: Option<usize>)
        requires
            self.wf(),
        ensures
            r is None <==> !self.contains(name@),
            r is Some ==> r->Some_0 < self.names().len() && self.names()[r->Some_0 as int] == name@,
    {
        let mut i: usize = 0;
        while i < self.commands.len()
            invariant
                0 <= i <= self.commands@.len(),
                self.names().len() == self.commands@.len(),
                forall|j: int| 0 <= j < i ==> self.names()[j] != name@,
            decreases self.commands@.len() - i,
        {
            assert(self.names()[i as int] == self.commands@[i as int].name@);
            if same_text(self.commands[i].name.as_str(), name) {
                return Some(i);
            }
            i = i + 1;
        }
        assert(!self.names().contains(name@));
        None
    }

    /// Binds `name` to `handler`; a name that is already bound is refused
    /// and leaves the registry as it was.
    pub fn register(&mut self, name: &str, handler: Handler) -> (r: Result<(), RegisterError>)
        requires
            old(self).wf(),
        ensures
            final(self).wf(),
            r is Err <==> old(self).contains(name@),
            r is Err ==> r == Err::<(), RegisterError>(RegisterError::DuplicateName) && *final(self) == *old(self),
            r is Ok ==> final(self).names() == old(self).names().push(name@)
                && final(self).handlers() == old(self).handlers().push(handler),
    {
        match self.position(name) {
            Some(_) => Err(RegisterError::DuplicateName),
            None => {
                let ghost before = self.commands@;
                self.commands.push(Command { name: String::from_str(name), handler });
                assert(self.names() =~= names_of(before).push(name@));
                assert(self.handlers() =~= old(self).handlers().push(handler));
                assert forall|a: int, b: int|
                    0 <= a < b < self.names().len() implies self.names()[a] != self.names()[b] by {
                    if b == self.names().len() - 1 {
                        assert(old(self).names()[a] == self.names()[a]);
                        assert(old(self).names().contains(old(self).names()[a]));
                    }
                }
                Ok(())
            },
        }
    }

    /// Invokes `name` with `args`: an unknown name gives `NotFound`, arguments
    /// of the wrong shape give `InvalidArguments`, and otherwise the handler's
    /// answer is returned. The registry is only read.
    pub fn invoke(&self, name: &str, args: &Vec<Arg>) -> (r: Result<String, InvokeError>)
        requires
            self.wf(),
        ensures
            result_view(r) == self.invoke_spec(name@, args@),
    {
        match self.position(name) {
            None => Err(InvokeError::NotFound),
            Some(i) => dispatch(self.commands[i].handler, args),
        }
    }
}

/// Invoking a registered name with arguments of the shape its handler
/// expects succeeds with the handler's answer.
pub proof fn lemma_registered_invocation_succeeds(reg: CommandRegistry, name: Seq<char>, args: Seq<Arg>)
    requires
        reg.wf(),
        reg.contains(name),
        accepts(reg.lookup(name)->Some_0, args),
    ensures
        reg.invoke_spec(name, args) == Ok::<Seq<char>, InvokeError>(output(reg.lookup(name)->Some_0, args)),
{
}

/// Invoking a name that is not registered fails with `NotFound`, whatever
/// the arguments.
pub proof fn lemma_unregistered_not_found(reg: CommandRegistry, name: Seq<char>, args: Seq<Arg>)
    requires
        !reg.contains(name),
    ensures
        reg.invoke_spec(name, args) == Err::<Seq<char>, InvokeError>(InvokeError::NotFound),
{
}

/// Invoking a registered name with arguments of the wrong shape fails with
/// `InvalidArguments`: the handler is not run.
pub proof fn lemma_malformed_arguments_rejected(reg: CommandRegistry, name: Seq<char>, args: Seq<Arg>)
    requires
        reg.contains(name),
        !accepts(reg.lookup(name)->Some_0, args),
    ensures
        reg.invoke_spec(name, args) == Err::<Seq<char>, InvokeError>(InvokeError::InvalidArguments),
{
}

/// After a successful registration the new name is bound to its handler,
/// and every other name is bound as before.
pub proof fn lemma_register_binds(before: CommandRegistry, after: CommandRegistry, name: Seq<char>, h: Handler, other: Seq<char>)
    requires
        before.wf(),
        !before.contains(name),
        after.names() == before.names().push(name),
        after.handlers() == before.handlers().push(h),
        other != name,
    ensures
        after.lookup(name) == Some(h),
        after.lookup(other) == before.lookup(other),
{
    let n = before.names().len() as int;
    assert(after.names()[n] == name);
    assert(after.names().contains(name));
    let i = after.names().index_of(name);
    assert(after.names()[i] == name);
    if i < n {
        assert(before.names()[i] == name);
        assert(before.names().contains(name));
    }
    if before.contains(other) {
        let j = before.names().index_of(other);
        assert(after.names()[j] == other);
        assert(after.names().contains(other));
        let k = after.names().index_of(other);
        assert(after.names()[k] == other);
        if k == n {
            assert(other == name);
        }
        if k != j {
            assert(before.names()[k] == other);
            assert(after.names()[k] == after.names()[j]);
        }
    } else {
        if after.names().contains(other) {
            let k = after.names().index_of(other);
            assert(after.names()[k] == other);
            if k < n {
                assert(before.names()[k] == other);
            }
        }
    }
}

} // verus!
