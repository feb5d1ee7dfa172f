use vstd::prelude::*;

verus! {

/// Where slash commands are published.
#[derive(Clone, Copy, Debug, PartialEq, Eq, Structural)]
pub enum Scope {
    Guild(u64),
    Global,
}

/// Why a registration could not start.
#[derive(Clone, Copy, Debug, PartialEq, Eq, Structural)]
pub enum RegisterError {
    /// Guild scope was asked for outside a guild.
    MissingContext,
}

/// What the caller does next in a registration pass.
#[derive(Clone, Copy, Debug, PartialEq, Eq, Structural)]
pub enum RegisterStep {
    /// Publish the slash command at this position, in this scope.
    Publish(usize, Scope),
    /// All commands are published: report completion.
    Finish,
    /// A publish failed: stop and pass its error on.
    Abort,
}

/// State of a registration pass over `total` slash commands.
pub struct Registration {
    pub scope: Scope,
    pub total: usize,
    pub published: usize,
    pub failed: bool,
}

impl Registration {
    pub open spec fn wf(&self) -> bool {
        self.published <= self.total
    }

    /// The step that follows this state.
    pub open spec fn step_of(&self) -> RegisterStep {
        if self.failed {
            RegisterStep::Abort
        } else if self.published < self.total {
            RegisterStep::Publish(self.published, self.scope)
        } else {
            RegisterStep::Finish
        }
    }

    /// The state after the pending publish came back, successfully or not.
    pub open spec fn after(&self, ok: bool) -> Registration {
        if ok {
            Registration { published: (self.published + 1) as usize, ..*self }
        } else {
            Registration { failed: true, ..*self }
        }
    }

    /// The step that follows this state.
    pub fn next_step(&self) -> (r: RegisterStep)
        requires
            self.wf(),
        ensures
            r == self.step_of(),
    {
        if self.failed {
            RegisterStep::Abort
        } else if self.published < self.total {
            RegisterStep::Publish(self.published, self.scope)
        } else {
            RegisterStep::Finish
        }
    }

    /// Takes in the outcome of the publish that `next_step` asked for.
    pub fn record(&mut self, ok: bool)
        requires
            old(self).wf(),
            old(self).step_of() is Publish,
        ensures
            final(self).wf(),
            *final(self) == old(self).after(ok),
    {
        if ok {
            self.published = self.published + 1;
        } else {
            self.failed = true;
        }
    }

    /// The notice sent before publishing: "Registering <total> commands...".
    pub fn progress_message(&self) -> (r: String)
        ensures
            r@ == "Registering "@ + decimal(self.total as nat) + " commands..."@,
    {
        let mut r = String::from_str("Registering ");
        append_decimal(&mut r, self.total);
        r.append(" commands...");
        r
    }

    /// The notice sent once every command is published.
    pub fn done_message(&self) -> (r: String)
        ensures
            r@ == "Done!"@,
    {
        String::from_str("Done!")
    }
}

/// Starts a registration of `total` slash commands: globally where `global` is set,
/// else in the guild the request came from, which must exist.
pub fn register(global: bool, guild_id: Option<u64>, total: usize) -> (r: Result<Registration, RegisterError>)
    ensures
        match r {
            Ok(reg) => {
                &&& reg.wf()
                &&& reg.total == total
                &&& reg.published == 0
                &&& !reg.failed
                &&& reg.scope == (if global {
                    Scope::Global
                } else {
                    Scope::Guild(guild_id->Some_0)
                })
            },
            Err(e) => e == RegisterError::MissingContext,
        },
        r is Err <==> (!global && guild_id is None),
{
    let scope = if global {
        Scope::Global
    } else {
        match guild_id {
            Some(g) => Scope::Guild(g),
            None => {
                return Err(RegisterError::MissingContext);
            },
        }
    };
    Ok(Registration { scope, total, published: 0, failed: false })
}

/// Number of publish calls made when a pass in state `s` meets the publish outcomes `outcomes`, in turn.
pub open spec fn publish_calls(s: Registration, outcomes: Seq<bool>) -> nat
    decreases outcomes.len(),
{
    if outcomes.len() == 0 {
        0
    } else {
        match s.step_of() {
            RegisterStep::Publish(_, _) => 1 + publish_calls(s.after(outcomes[0]), outcomes.drop_first()),
            _ => 0,
        }
    }
}

/// A pass stops at its first failed publish: where the first `f` publishes succeed and
/// the next fails, exactly `f + 1` publishes are made, and the pass then aborts.
pub proof fn lemma_first_failure_aborts(s: Registration, outcomes: Seq<bool>, f: int)
    requires
        s.wf(),
        !s.failed,
        0 <= f < outcomes.len(),
        s.published + f < s.total,
        !outcomes[f],
        forall|j: int| 0 <= j < f ==> outcomes[j],
    ensures
        publish_calls(s, outcomes) == f + 1,
    decreases f,
{
    let n = s.after(outcomes[0]);
    if f == 0 {
        assert(n.failed);
        assert(n.step_of() == RegisterStep::Abort);
        if outcomes.len() > 1 {
            assert(publish_calls(n, outcomes.drop_first()) == 0);
        }
    } else {
        lemma_first_failure_aborts(n, outcomes.drop_first(), f - 1);
    }
}

/// Decimal digits of `n`.
pub open spec fn decimal(n: nat) -> Seq<char>
    decreases n,
{
    if n < 10 {
        digit(n)
    } else {
        decimal(n / 10) + digit(n % 10)
    }
}

/// The digit for `d < 10`.
pub open spec fn digit(d: nat) -> Seq<char> {
    if d == 0 { "0"@ } else if d == 1 { "1"@ } else if d == 2 { "2"@ } else if d == 3 { "3"@ }
    else if d == 4 { "4"@ } else if d == 5 { "5"@ } else if d == 6 { "6"@ } else if d == 7 { "7"@ }
    else if d == 8 { "8"@ } else { "9"@ }
}

fn append_decimal(out: &mut String, n: usize)
    ensures
        final(out)@ == old(out)@ + decimal(n as nat),
    decreases n,
{
    if n >= 10 {
        append_decimal(out, n / 10);
    }
    let d = n % 10;
    let s = if d == 0 { "0" } else if d == 1 { "1" } else if d == 2 { "2" } else if d == 3 { "3" }
        else if d == 4 { "4" } else if d == 5 { "5" } else if d == 6 { "6" } else if d == 7 { "7" }
        else if d == 8 { "8" } else { "9" };
    out.append(s);
    assert(old(out)@ + decimal(n as nat) =~= if n >= 10 { old(out)@ + decimal((n / 10) as nat) + digit(d as nat) } else { old(out)@ + digit(d as nat) });
}

} // verus!
