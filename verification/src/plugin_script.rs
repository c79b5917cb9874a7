//! Plugin scripts: idle scripts found by the stem of their file name and
//! action scripts found by their declared name; invoking one runs its
//! command and reports what it printed.
use vstd::prelude::*;

use crate::error::DomainError;
use crate::json::{field_str, spec_field_str, JsonValue};
use crate::keyed::KeyedVec;
use crate::text::{concat, owned, str_eq};

verus! {

/// How long an invoked script may run, in milliseconds.
pub const TIMEOUT_MS: u64 = 30000;

/// A script run on demand whose channel is published when it idles.
pub struct IdleScript {
    pub command: String,
    pub channel: String,
}

/// A script run by name.
pub struct ActionScript {
    pub name: String,
    pub command: String,
}

/// What `Path::file_stem` gives for `path`, as text (empty when there is none).
pub uninterp spec fn spec_path_file_stem(path: Seq<char>) -> Seq<char>;

/// `Path::new(path).file_stem()`, read as text; empty when the path has no
/// file name.
#[verifier::external_body]
fn path_file_stem(path: &str) -> (r: String)
    ensures
        r@ == spec_path_file_stem(path@),
{
    std::path::Path::new(path).file_stem().and_then(|stem| stem.to_str()).unwrap_or("").to_string()
}

/// The idle scripts by the stem of their command's file name, a later
/// script winning a repeated stem.
pub open spec fn spec_idle_map(idle: Seq<IdleScript>) -> Map<Seq<char>, Seq<char>>
    decreases idle.len(),
{
    if idle.len() == 0 {
        Map::empty()
    } else {
        spec_idle_map(idle.drop_last()).insert(
            spec_path_file_stem(idle.last().command@),
            idle.last().command@,
        )
    }
}

/// The action scripts by name, a later script winning a repeated name.
pub open spec fn spec_action_map(actions: Seq<ActionScript>) -> Map<Seq<char>, Seq<char>>
    decreases actions.len(),
{
    if actions.len() == 0 {
        Map::empty()
    } else {
        spec_action_map(actions.drop_last()).insert(actions.last().name@, actions.last().command@)
    }
}

/// The scripts of one plugin.
pub struct PluginScriptProvider {
    id: String,
    idle: KeyedVec<String>,
    actions: KeyedVec<String>,
}

pub open spec fn spec_command_views(m: Map<Seq<char>, String>) -> Map<Seq<char>, Seq<char>> {
    m.map_values(|c: String| c@)
}

impl PluginScriptProvider {
    pub closed spec fn spec_id(&self) -> Seq<char> {
        self.id@
    }

    /// The idle scripts' commands by file stem.
    pub closed spec fn spec_idle(&self) -> Map<Seq<char>, Seq<char>> {
        spec_command_views(self.idle@)
    }

    /// The action scripts' commands by name.
    pub closed spec fn spec_actions(&self) -> Map<Seq<char>, Seq<char>> {
        spec_command_views(self.actions@)
    }

    /// Index the scripts of the plugin `name`.
    pub fn new(name: &str, idle: Vec<IdleScript>, actions: Vec<ActionScript>) -> (r: PluginScriptProvider)
        ensures
            r.spec_id() == name@,
            r.spec_idle() == spec_idle_map(idle@),
            r.spec_actions() == spec_action_map(actions@),
    {
        let mut idle_map: KeyedVec<String> = KeyedVec::new();
        assert(spec_command_views(idle_map@) =~= spec_idle_map(idle@.take(0)));
        let mut i: usize = 0;
        while i < idle.len()
            invariant
                i <= idle@.len(),
                spec_command_views(idle_map@) == spec_idle_map(idle@.take(i as int)),
            decreases idle@.len() - i,
        {
            assert(idle@.take(i + 1).drop_last() =~= idle@.take(i as int));
            let key = path_file_stem(idle[i].command.as_str());
            let ghost before = idle_map@;
            idle_map.insert(key, idle[i].command.clone());
            assert(spec_command_views(idle_map@) =~= spec_command_views(before).insert(
                key@,
                idle@[i as int].command@,
            ));
            i += 1;
        }
        let mut action_map: KeyedVec<String> = KeyedVec::new();
        assert(spec_command_views(action_map@) =~= spec_action_map(actions@.take(0)));
        let mut j: usize = 0;
        while j < actions.len()
            invariant
                j <= actions@.len(),
                spec_command_views(action_map@) == spec_action_map(actions@.take(j as int)),
            decreases actions@.len() - j,
        {
            assert(actions@.take(j + 1).drop_last() =~= actions@.take(j as int));
            let ghost before = action_map@;
            action_map.insert(actions[j].name.clone(), actions[j].command.clone());
            assert(spec_command_views(action_map@) =~= spec_command_views(before).insert(
                actions@[j as int].name@,
                actions@[j as int].command@,
            ));
            j += 1;
        }
        assert(idle@.take(idle@.len() as int) =~= idle@);
        assert(actions@.take(actions@.len() as int) =~= actions@);
        PluginScriptProvider { id: owned(name), idle: idle_map, actions: action_map }
    }

    /// The command run for an invocation `payload` naming a script by
    /// `name` and `kind` (`idle` or `action`), or why none is run.
    pub open spec fn spec_resolve(&self, payload: JsonValue) -> Option<Result<Seq<char>, Seq<char>>> {
        match (spec_field_str(payload, "name"@), spec_field_str(payload, "kind"@)) {
            (Some(name), Some(kind)) => Some(
                if kind == "idle"@ {
                    if self.spec_idle().dom().contains(name) {
                        Ok(self.spec_idle()[name])
                    } else {
                        Err("unknown idle '"@ + name + "'"@)
                    }
                } else if kind == "action"@ {
                    if self.spec_actions().dom().contains(name) {
                        Ok(self.spec_actions()[name])
                    } else {
                        Err("unknown action '"@ + name + "'"@)
                    }
                } else {
                    Err("unknown plugin script kind '"@ + kind + "'"@)
                },
            ),
            _ => None,
        }
    }

    /// The argument vector to run for `payload`: the script's command alone.
    /// A payload without string members `name` and `kind` is refused as a
    /// bad payload; an unknown kind or name is refused with a message naming it.
    pub fn resolve_command(&self, payload: &JsonValue) -> (r: Result<Vec<String>, DomainError>)
        ensures
            match self.spec_resolve(*payload) {
                None => r is Err && r->Err_0 is Unsupported && r->Err_0->Unsupported_0@.take(13) == "bad payload: "@,
                Some(Ok(command)) => r is Ok && r->Ok_0@.len() == 1 && r->Ok_0@[0]@ == command,
                Some(Err(message)) => r is Err && r->Err_0 is Unsupported && r->Err_0->Unsupported_0@ == message,
            },
    {
        proof {
            reveal_strlit("bad payload: ");
            reveal_strlit("bad payload: missing string field `name`");
            reveal_strlit("bad payload: missing string field `kind`");
        }
        let name = match field_str(payload, "name") {
            Some(n) => n,
            None => return Err(DomainError::Unsupported(owned("bad payload: missing string field `name`"))),
        };
        let kind = match field_str(payload, "kind") {
            Some(k) => k,
            None => return Err(DomainError::Unsupported(owned("bad payload: missing string field `kind`"))),
        };
        let is_idle = str_eq(kind.as_str(), "idle");
        let found = if is_idle {
            self.idle.get(name.as_str())
        } else if str_eq(kind.as_str(), "action") {
            self.actions.get(name.as_str())
        } else {
            return Err(DomainError::Unsupported(quoted("unknown plugin script kind '", kind.as_str())));
        };
        match found {
            Some(command) => {
                let mut argv: Vec<String> = Vec::new();
                argv.push(command.clone());
                Ok(argv)
            },
            None => if is_idle {
                Err(DomainError::Unsupported(quoted("unknown idle '", name.as_str())))
            } else {
                Err(DomainError::Unsupported(quoted("unknown action '", name.as_str())))
            },
        }
    }
}

/// `head + body + "'"`.
fn quoted(head: &str, body: &str) -> (r: String)
    ensures
        r@ == head@ + body@ + "'"@,
{
    concat(concat(head, body).as_str(), "'")
}

} // verus!
