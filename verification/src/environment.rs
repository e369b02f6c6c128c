//! The namespace an evaluation runs against: named bindings, the "last
//! result" memory cell, and the host's power primitive.
//!
//! Bindings are kept as an association list with first-match lookup; an
//! assignment overwrites the first entry of that name or appends a new one,
//! so a name is never bound twice.  The spec-level view is a finite map from
//! identifier text to [`VarModel`].

use vstd::prelude::*;

use crate::number::{F32_E, F32_PI};
use crate::variable::{VarModel, Variable};

verus! {

/// Spec-level view of an [`Environment`]: the bindings as a map, the last
/// successful result, and whether a power primitive has been registered.
#[verifier::ext_equal]
pub struct EnvModel {
    pub vars: Map<Seq<char>, VarModel>,
    pub last: Option<u32>,
    pub power: bool,
}

/// First-match lookup over the association list.
pub open spec fn spec_find<H>(
    entries: Seq<(String, Variable<H>)>,
    name: Seq<char>,
) -> Option<VarModel>
    decreases entries.len(),
{
    if entries.len() == 0 {
        None
    } else if entries[0].0@ == name {
        Some(entries[0].1@)
    } else {
        spec_find(entries.skip(1), name)
    }
}

/// Total version of [`spec_find`] for building the map view.
pub open spec fn spec_find_val<H>(
    entries: Seq<(String, Variable<H>)>,
    name: Seq<char>,
) -> VarModel {
    match spec_find(entries, name) {
        Some(v) => v,
        None => VarModel::Custom,
    }
}

/// A namespace mapping identifiers to bindings, plus a single memory cell
/// holding the most recent successful evaluation result.
///
/// The exponent operators need the host's floating point unit, which this
/// verified crate cannot touch, so the power primitive is one more handler
/// the host registers; without it the exponent operators report a runtime
/// error.
pub struct Environment<H> {
    variables: Vec<(String, Variable<H>)>,
    last_result: Option<u32>,
    power: Option<H>,
}

impl<H> View for Environment<H> {
    type V = EnvModel;

    closed spec fn view(&self) -> EnvModel {
        EnvModel {
            vars: Map::new(
                |name: Seq<char>| spec_find(self.variables@, name) is Some,
                |name: Seq<char>| spec_find_val(self.variables@, name),
            ),
            last: self.last_result,
            power: self.power is Some,
        }
    }
}

/// If no entry before `i` is named `name` and entry `i` is, the lookup
/// finds entry `i`.
proof fn lemma_find_hit<H>(entries: Seq<(String, Variable<H>)>, name: Seq<char>, i: int)
    requires
        0 <= i < entries.len(),
        forall|k: int| 0 <= k < i ==> #[trigger] entries[k].0@ != name,
        entries[i].0@ == name,
    ensures
        spec_find(entries, name) == Some(entries[i].1@),
    decreases i,
{
    if i > 0 {
        assert(entries[0].0@ != name);
        assert forall|k: int| 0 <= k < i - 1 implies #[trigger] entries.skip(1)[k].0@ != name by {
            assert(entries.skip(1)[k] == entries[k + 1]);
            assert(entries[k + 1].0@ != name);
        }
        assert(entries.skip(1)[i - 1] == entries[i]);
        lemma_find_hit(entries.skip(1), name, i - 1);
    }
}

/// If no entry is named `name`, the lookup finds nothing.
proof fn lemma_find_miss<H>(entries: Seq<(String, Variable<H>)>, name: Seq<char>)
    requires
        forall|k: int| 0 <= k < entries.len() ==> #[trigger] entries[k].0@ != name,
    ensures
        spec_find(entries, name) is None,
    decreases entries.len(),
{
    if entries.len() > 0 {
        assert(entries[0].0@ != name);
        assert forall|k: int| 0 <= k < entries.skip(1).len() implies #[trigger] entries.skip(
            1,
        )[k].0@ != name by {
            assert(entries.skip(1)[k] == entries[k + 1]);
            assert(entries[k + 1].0@ != name);
        }
        lemma_find_miss(entries.skip(1), name);
    }
}

/// Overwriting the first entry named `name` changes the lookup of `name`
/// and of no other name.
proof fn lemma_find_update<H>(
    entries: Seq<(String, Variable<H>)>,
    name: Seq<char>,
    i: int,
    entry: (String, Variable<H>),
    probe: Seq<char>,
)
    requires
        0 <= i < entries.len(),
        forall|k: int| 0 <= k < i ==> #[trigger] entries[k].0@ != name,
        entries[i].0@ == name,
        entry.0@ == name,
    ensures
        spec_find(entries.update(i, entry), probe) == if probe == name {
            Some(entry.1@)
        } else {
            spec_find(entries, probe)
        },
    decreases i,
{
    let updated = entries.update(i, entry);
    if probe == name {
        assert forall|k: int| 0 <= k < i implies #[trigger] updated[k].0@ != name by {
            assert(updated[k] == entries[k]);
            assert(entries[k].0@ != name);
        }
        lemma_find_hit(updated, name, i);
    } else if i == 0 {
        assert(updated.skip(1) =~= entries.skip(1));
        assert(updated[0].0@ == name);
    } else {
        assert(entries[0].0@ != name);
        assert(updated[0] == entries[0]);
        assert(updated.skip(1) =~= entries.skip(1).update(i - 1, entry));
        assert forall|k: int| 0 <= k < i - 1 implies #[trigger] entries.skip(1)[k].0@ != name by {
            assert(entries.skip(1)[k] == entries[k + 1]);
            assert(entries[k + 1].0@ != name);
        }
        assert(entries.skip(1)[i - 1] == entries[i]);
        lemma_find_update(entries.skip(1), name, i - 1, entry, probe);
    }
}

/// Appending an entry under a name that is absent changes the lookup of
/// that name and of no other name.
proof fn lemma_find_push<H>(
    entries: Seq<(String, Variable<H>)>,
    name: Seq<char>,
    entry: (String, Variable<H>),
    probe: Seq<char>,
)
    requires
        forall|k: int| 0 <= k < entries.len() ==> #[trigger] entries[k].0@ != name,
        entry.0@ == name,
    ensures
        spec_find(entries.push(entry), probe) == if probe == name {
            Some(entry.1@)
        } else {
            spec_find(entries, probe)
        },
    decreases entries.len(),
{
    let pushed = entries.push(entry);
    if entries.len() == 0 {
        assert(pushed[0] == entry);
        if probe != name {
            assert(pushed.skip(1) =~= Seq::<(String, Variable<H>)>::empty());
            assert(spec_find(Seq::<(String, Variable<H>)>::empty(), probe) is None);
        }
    } else {
        assert(pushed[0] == entries[0]);
        assert(entries[0].0@ != name);
        assert(pushed.skip(1) =~= entries.skip(1).push(entry));
        assert forall|k: int| 0 <= k < entries.skip(1).len() implies #[trigger] entries.skip(
            1,
        )[k].0@ != name by {
            assert(entries.skip(1)[k] == entries[k + 1]);
            assert(entries[k + 1].0@ != name);
        }
        lemma_find_push(entries.skip(1), name, entry, probe);
    }
}

impl<H> Environment<H> {
    /// Creates an empty environment: no bindings, no last result, no power
    /// primitive.
    pub fn new() -> (env: Environment<H>)
        ensures
            env@ == (EnvModel { vars: Map::empty(), last: None, power: false }),
    {
        let env = Environment { variables: Vec::new(), last_result: None, power: None };
        proof {
            assert(env@.vars =~= Map::empty());
        }
        env
    }

    /// Binds `id` to `variable`, replacing any existing binding of that name.
    #[verifier::loop_isolation(false)]
    fn assign_binding(&mut self, id: &str, variable: Variable<H>)
        ensures
            final(self)@ == (EnvModel {
                vars: old(self)@.vars.insert(id@, variable@),
                ..old(self)@
            }),
    {
        let ghost old_entries = self.variables@;
        let ghost model = variable@;
        let id_string = id.to_owned();
        let n = self.variables.len();
        let mut i: usize = 0;
        while i < n
            invariant
                n == self.variables.len(),
                0 <= i <= n,
                id_string@ == id@,
                self.variables@ == old_entries,
                self.last_result == old(self).last_result,
                self.power == old(self).power,
                forall|k: int| 0 <= k < i ==> #[trigger] old_entries[k].0@ != id@,
            decreases n - i,
        {
            if self.variables[i].0 == id_string {
                proof {
                    assert(old_entries[i as int].0@ == id@);
                }
                self.variables[i] = (id_string, variable);
                proof {
                    let entry = self.variables@[i as int];
                    assert(self.variables@ == old_entries.update(i as int, entry));
                    assert(entry.0@ == id@);
                    assert(entry.1@ == model);
                    assert forall|probe: Seq<char>|
                        spec_find(self.variables@, probe) == if probe == id@ {
                            Some(model)
                        } else {
                            spec_find(old_entries, probe)
                        } by {
                        lemma_find_update(old_entries, id@, i as int, entry, probe);
                    }
                    assert(self@.vars =~= old(self)@.vars.insert(id@, model));
                }
                return ;
            }
            i = i + 1;
        }
        self.variables.push((id_string, variable));
        proof {
            assert forall|probe: Seq<char>|
                spec_find(self.variables@, probe) == if probe == id@ {
                    Some(model)
                } else {
                    spec_find(old_entries, probe)
                } by {
                lemma_find_push(old_entries, id@, self.variables@.last(), probe);
            }
            assert(self@.vars =~= old(self)@.vars.insert(id@, model));
        }
    }

    /// Binds `id` to the constant `value`, replacing any existing binding of
    /// that name without a warning.
    pub fn assign_var(&mut self, id: &str, value: u32)
        ensures
            final(self)@ == (EnvModel {
                vars: old(self)@.vars.insert(id@, VarModel::Const(value)),
                ..old(self)@
            }),
    {
        self.assign_binding(id, Variable::Var(value));
    }

    /// Binds `id` to a host-registered native function, replacing any
    /// existing binding of that name without a warning.
    pub fn assign_fn(&mut self, id: &str, fun: H)
        ensures
            final(self)@ == (EnvModel {
                vars: old(self)@.vars.insert(id@, VarModel::Custom),
                ..old(self)@
            }),
    {
        self.assign_binding(id, Variable::Fn(fun));
    }

    /// Registers the host's power primitive, used by the exponent operators
    /// `**` and `//`.  Called with operand bits `(a, b)` through the
    /// argument-source interface, it must return the bits of `a` raised to
    /// the power `b`.
    pub fn assign_power_fn(&mut self, fun: H)
        ensures
            final(self)@ == (EnvModel { power: true, ..old(self)@ }),
    {
        self.power = Some(fun);
    }

    /// Looks `key` up among the bindings.
    #[verifier::loop_isolation(false)]
    pub fn get(&self, key: &str) -> (r: Option<&Variable<H>>)
        ensures
            match r {
                Some(v) => self@.vars.contains_key(key@) && self@.vars[key@] == v@,
                None => !self@.vars.contains_key(key@),
            },
    {
        let key_string = key.to_owned();
        let n = self.variables.len();
        let mut i: usize = 0;
        while i < n
            invariant
                n == self.variables.len(),
                0 <= i <= n,
                key_string@ == key@,
                forall|k: int| 0 <= k < i ==> #[trigger] self.variables@[k].0@ != key@,
            decreases n - i,
        {
            if self.variables[i].0 == key_string {
                proof {
                    lemma_find_hit(self.variables@, key@, i as int);
                }
                return Some(&self.variables[i].1);
            }
            i = i + 1;
        }
        proof {
            lemma_find_miss(self.variables@, key@);
        }
        None
    }

    /// The most recent successful evaluation result, if any evaluation has
    /// succeeded yet.
    pub fn get_last_result(&self) -> (r: Option<u32>)
        ensures
            r == self@.last,
    {
        self.last_result
    }

    /// Stores a successful evaluation result and hands it back.
    pub fn set_last_result(&mut self, value: u32) -> (r: u32)
        ensures
            final(self)@ == (EnvModel { last: Some(value), ..old(self)@ }),
            r == value,
    {
        self.last_result = Some(value);
        value
    }

    /// Binds the standard constants `pi` and `e`.  The unary standard
    /// functions (`sin`, `cos`, ...) need the host's floating point unit,
    /// so the host registers them with [`Environment::assign_fn`].
    pub fn init_std(&mut self)
        ensures
            final(self)@ == (EnvModel {
                vars: old(self)@.vars.insert("pi"@, VarModel::Const(F32_PI)).insert(
                    "e"@,
                    VarModel::Const(F32_E),
                ),
                ..old(self)@
            }),
    {
        self.assign_var("pi", F32_PI);
        self.assign_var("e", F32_E);
    }
}

impl<H: Clone> Environment<H> {
    /// Looks `key` up and hands back an owned copy of the binding, so that
    /// the evaluator can keep using the environment while it dispatches.
    pub(crate) fn get_resolved(&self, key: &String) -> (r: Option<Variable<H>>)
        ensures
            match r {
                Some(v) => self@.vars.contains_key(key@) && self@.vars[key@] == v@,
                None => !self@.vars.contains_key(key@),
            },
    {
        match self.get(key.as_str()) {
            None => None,
            Some(Variable::Var(bits)) => Some(Variable::Var(*bits)),
            Some(Variable::Fn(fun)) => Some(Variable::Fn(fun.clone())),
        }
    }

    /// An owned copy of the host's power primitive, if one is registered.
    pub(crate) fn get_power_fn(&self) -> (r: Option<H>)
        ensures
            r is Some <==> self@.power,
    {
        match &self.power {
            Some(fun) => Some(fun.clone()),
            None => None,
        }
    }
}

impl<H> Default for Environment<H> {
    fn default() -> (env: Self)
        ensures
            env@ == (EnvModel { vars: Map::empty(), last: None, power: false }),
    {
        Self::new()
    }
}

} // verus!
