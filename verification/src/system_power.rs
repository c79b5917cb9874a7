//! The power menu's decisions: which logind method a request calls, or the
//! lock command it spawns, and when a request is refused.
use vstd::prelude::*;

use crate::error::DomainError;
use crate::network::SystemPowerState;
use crate::text::owned;

verus! {

/// A power menu request.
#[derive(Debug, Clone, Copy, PartialEq, Eq, Structural)]
pub enum SystemPowerAction {
    Shutdown,
    Restart,
    Suspend,
    Hibernate,
    Lock,
}

/// What carrying out a request takes.
#[derive(Debug)]
pub enum PowerStep {
    /// Call this logind manager method (with `interactive = false`).
    CallManager { method: String },
    /// Spawn the lock program with these arguments, its standard streams closed.
    SpawnLock { program: String, args: Vec<String> },
}

/// The logind method, the capability flag and its name for a request other
/// than `Lock`.
pub open spec fn spec_manager_call(action: SystemPowerAction, state: SystemPowerState) -> (Seq<char>, bool, Seq<char>) {
    match action {
        SystemPowerAction::Shutdown => ("PowerOff"@, state.can_shutdown, "system_power: can_shutdown is false"@),
        SystemPowerAction::Restart => ("Reboot"@, state.can_restart, "system_power: can_restart is false"@),
        SystemPowerAction::Suspend => ("Suspend"@, state.can_suspend, "system_power: can_suspend is false"@),
        _ => ("Hibernate"@, state.can_hibernate, "system_power: can_hibernate is false"@),
    }
}

/// How `action` is carried out given what logind said it allows, whether
/// the system bus was reached, and the resolved lock command: a refused
/// capability, a missing bus, or a missing or empty lock command is
/// `Unsupported`.
pub fn power_step(
    action: SystemPowerAction,
    state: SystemPowerState,
    has_bus: bool,
    lock_argv: Option<&Vec<String>>,
) -> (r: Result<PowerStep, DomainError>)
    ensures
        action != SystemPowerAction::Lock ==> {
            let (method, capable, refusal) = spec_manager_call(action, state);
            if !capable {
                r == Err::<PowerStep, DomainError>(DomainError::Unsupported(r->Err_0->Unsupported_0)) && r->Err_0->Unsupported_0@ == refusal
            } else if !has_bus {
                r is Err && r->Err_0 is Unsupported && r->Err_0->Unsupported_0@ == "system_power: no system bus"@
            } else {
                r is Ok && r->Ok_0 is CallManager && r->Ok_0->method@ == method
            }
        },
        action == SystemPowerAction::Lock ==> match lock_argv {
            None => r is Err && r->Err_0 is Unsupported && r->Err_0->Unsupported_0@ == "system_power: lock command unavailable"@,
            Some(argv) => if argv@.len() == 0 {
                r is Err && r->Err_0 is Unsupported && r->Err_0->Unsupported_0@ == "system_power: empty lock argv"@
            } else {
                r is Ok && r->Ok_0 is SpawnLock && r->Ok_0->program == argv@[0] && r->Ok_0->args@ == argv@.drop_first()
            },
        },
{
    let (method, capable, refusal) = match action {
        SystemPowerAction::Shutdown => ("PowerOff", state.can_shutdown, "system_power: can_shutdown is false"),
        SystemPowerAction::Restart => ("Reboot", state.can_restart, "system_power: can_restart is false"),
        SystemPowerAction::Suspend => ("Suspend", state.can_suspend, "system_power: can_suspend is false"),
        SystemPowerAction::Hibernate => ("Hibernate", state.can_hibernate, "system_power: can_hibernate is false"),
        SystemPowerAction::Lock => {
            return match lock_argv {
                None => Err(DomainError::Unsupported(owned("system_power: lock command unavailable"))),
                Some(argv) => if argv.len() == 0 {
                    Err(DomainError::Unsupported(owned("system_power: empty lock argv")))
                } else {
                    let mut args: Vec<String> = Vec::new();
                    let mut i: usize = 1;
                    while i < argv.len()
                        invariant
                            1 <= i <= argv@.len(),
                            args@ == argv@.subrange(1, i as int),
                        decreases argv@.len() - i,
                    {
                        args.push(argv[i].clone());
                        assert(args@ =~= argv@.subrange(1, i + 1));
                        i += 1;
                    }
                    assert(args@ =~= argv@.drop_first());
                    Ok(PowerStep::SpawnLock { program: argv[0].clone(), args })
                },
            };
        },
    };
    if !capable {
        return Err(DomainError::Unsupported(owned(refusal)));
    }
    if !has_bus {
        return Err(DomainError::Unsupported(owned("system_power: no system bus")));
    }
    Ok(PowerStep::CallManager { method: owned(method) })
}

} // verus!
