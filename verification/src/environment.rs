//! The environment: every scope of a running program, each with its
//! bindings and the scope that encloses it.
//!
//! Scopes are held in one arena and named by their index. A scope is never
//! removed, so a closure can always reach the scope it captured, and what is
//! written through one holder of an index is seen by all.

use vstd::prelude::*;
use vstd::hash_map::StringHashMap;
use crate::text::join3;
use crate::token::Token;
use crate::value::{Value, ValueView};

verus! {

/// One scope: the scope around it, if any, and its own bindings, in a hash
/// map keyed by name.
pub struct Scope {
    enclosing: Option<usize>,
    values: StringHashMap<Value>,
}

/// The mathematical model of a scope: the index of the enclosing scope and a
/// map from names to values.
pub struct ScopeView {
    pub enclosing: Option<nat>,
    pub bindings: Map<Seq<char>, ValueView>,
}

/// The models of the values that a scope binds, name by name.
spec fn bound(values: Map<Seq<char>, Value>) -> Map<Seq<char>, ValueView> {
    values.map_values(|v: Value| v@)
}

impl View for Scope {
    type V = ScopeView;

    closed spec fn view(&self) -> ScopeView {
        ScopeView {
            enclosing: match self.enclosing {
                Some(p) => Some(p as nat),
                None => None,
            },
            bindings: bound(self.values@),
        }
    }
}

impl Scope {
    /// A scope inside `enclosing`, with no bindings.
    fn new(enclosing: Option<usize>) -> (r: Scope)
        ensures
            r.enclosing == enclosing,
            r.values@ == Map::<Seq<char>, Value>::empty(),
            r@.bindings == Map::<Seq<char>, ValueView>::empty(),
    {
        let r = Scope { enclosing, values: StringHashMap::new() };
        assert(r@.bindings =~= Map::<Seq<char>, ValueView>::empty());
        r
    }

    /// Whether the scope itself binds `name`.
    fn binds(&self, name: &String) -> (r: bool)
        ensures
            r == self@.bindings.contains_key(name@),
            r == self.values@.contains_key(name@),
    {
        self.values.contains_key(name.as_str())
    }

    /// The value that the scope itself binds `name` to.
    fn value(&self, name: &String) -> (r: Value)
        requires
            self.values@.contains_key(name@),
        ensures
            r@ == self@.bindings[name@],
            r@ == self.values@[name@]@,
    {
        self.values.get(name.as_str()).unwrap().clone()
    }

    /// Binds `name` to `value`, in place of an earlier binding if there is
    /// one.
    fn set(&mut self, name: String, value: Value)
        ensures
            final(self).enclosing == old(self).enclosing,
            final(self).values@ == old(self).values@.insert(name@, value),
            final(self)@.bindings == old(self)@.bindings.insert(name@, value@),
    {
        self.values.insert(name, value);
        assert(self@.bindings =~= old(self)@.bindings.insert(name@, value@));
    }
}

/// The innermost scope that binds `name`, looking from `scope` outward.
pub open spec fn resolve(env: Seq<ScopeView>, scope: int, name: Seq<char>) -> Option<int>
    decreases scope,
{
    if 0 <= scope < env.len() {
        if env[scope].bindings.contains_key(name) {
            Some(scope)
        } else {
            match env[scope].enclosing {
                Some(outer) => if outer < scope {
                    resolve(env, outer as int, name)
                } else {
                    None
                },
                None => None,
            }
        }
    } else {
        None
    }
}

/// The value that `name` has when read from `scope`: that of the innermost
/// binding.
pub open spec fn lookup(env: Seq<ScopeView>, scope: int, name: Seq<char>) -> Option<ValueView> {
    match resolve(env, scope, name) {
        Some(holder) => Some(env[holder].bindings[name]),
        None => None,
    }
}

/// The environment after `name` is bound to `value` in `scope` itself.
pub open spec fn defined(env: Seq<ScopeView>, scope: int, name: Seq<char>, value: ValueView) -> Seq<
    ScopeView,
> {
    env.update(
        scope,
        ScopeView {
            enclosing: env[scope].enclosing,
            bindings: env[scope].bindings.insert(name, value),
        },
    )
}

/// The environment after `value` is assigned to `name` from `scope`: the
/// innermost scope that binds the name receives it. `None` if no scope does.
pub open spec fn assigned(env: Seq<ScopeView>, scope: int, name: Seq<char>, value: ValueView) -> Option<
    Seq<ScopeView>,
> {
    match resolve(env, scope, name) {
        Some(holder) => Some(defined(env, holder, name, value)),
        None => None,
    }
}

/// The environment with a new, empty scope inside `outer`. The new scope's
/// index is the number of scopes there were.
pub open spec fn enclosed(env: Seq<ScopeView>, outer: nat) -> Seq<ScopeView> {
    env.push(ScopeView { enclosing: Some(outer), bindings: Map::empty() })
}

/// The message for a name that no scope binds.
pub open spec fn undefined_variable(name: Seq<char>) -> Seq<char> {
    "Undefined variable '"@ + name + "'."@
}

/// Every scope but the outermost lies inside a scope that was made before it.
pub open spec fn nested(env: Seq<ScopeView>) -> bool {
    forall|i: int|
        0 <= i < env.len() ==> match (#[trigger] env[i]).enclosing {
            Some(outer) => outer < i,
            None => true,
        }
}

/// Whether `name`, used in scope `inner`, refers to the binding that scope
/// `declaring` holds: `inner` is `declaring` or lies inside it, and no scope
/// from `inner` up to `declaring` binds the name itself.
pub open spec fn refers_to(env: Seq<ScopeView>, inner: int, declaring: int, name: Seq<char>) -> bool
    decreases inner,
{
    if inner == declaring {
        0 <= inner < env.len()
    } else if 0 <= inner < env.len() && !env[inner].bindings.contains_key(name) {
        match env[inner].enclosing {
            Some(outer) => outer < inner && refers_to(env, outer as int, declaring, name),
            None => false,
        }
    } else {
        false
    }
}

/// Binding a name that a scope already binds changes no scope's set of
/// names, so every name is still found where it was found before.
pub proof fn lemma_rebinding_keeps_resolution(
    env: Seq<ScopeView>,
    holder: int,
    name: Seq<char>,
    value: ValueView,
    from: int,
    other: Seq<char>,
)
    requires
        0 <= holder < env.len(),
        env[holder].bindings.contains_key(name),
    ensures
        resolve(defined(env, holder, name, value), from, other) == resolve(env, from, other),
    decreases from,
{
    let after = defined(env, holder, name, value);
    if 0 <= from < env.len() {
        assert(after[from].bindings.dom() =~= env[from].bindings.dom());
        assert(after[from].bindings.contains_key(other) == env[from].bindings.contains_key(other));
        if !env[from].bindings.contains_key(other) {
            match env[from].enclosing {
                Some(outer) => {
                    if outer < from {
                        lemma_rebinding_keeps_resolution(
                            env,
                            holder,
                            name,
                            value,
                            outer as int,
                            other,
                        );
                    }
                },
                None => {},
            }
        }
    }
}

/// Assignment preserves the scope of every binding. Where an assignment
/// succeeds, it writes the new value into the innermost scope that binds the
/// name and nowhere else: every other scope is as it was, no scope gains or
/// loses a name, and every name is found in the same scope as before.
pub proof fn law_assign_preserves_scopes(
    env: Seq<ScopeView>,
    scope: int,
    name: Seq<char>,
    value: ValueView,
)
    ensures
        match assigned(env, scope, name, value) {
            Some(after) => {
                let holder = resolve(env, scope, name)->Some_0;
                &&& 0 <= holder < env.len()
                &&& after.len() == env.len()
                &&& after[holder].bindings[name] == value
                &&& forall|i: int| 0 <= i < env.len() && i != holder ==> after[i] == env[i]
                &&& forall|i: int|
                    0 <= i < env.len() ==> (#[trigger] after[i]).enclosing == env[i].enclosing
                        && after[i].bindings.dom() == env[i].bindings.dom()
                &&& forall|from: int, other: Seq<char>| #[trigger]
                    resolve(after, from, other) == resolve(env, from, other)
            },
            None => resolve(env, scope, name).is_none(),
        },
{
    match assigned(env, scope, name, value) {
        Some(after) => {
            lemma_resolve_finds_binding(env, scope, name);
            let holder = resolve(env, scope, name)->Some_0;
            assert forall|i: int| 0 <= i < env.len() implies (#[trigger] after[i]).enclosing
                == env[i].enclosing && after[i].bindings.dom() == env[i].bindings.dom() by {
                assert(after[i].bindings.dom() =~= env[i].bindings.dom());
            }
            assert forall|from: int, other: Seq<char>| #[trigger]
                resolve(after, from, other) == resolve(env, from, other) by {
                lemma_rebinding_keeps_resolution(env, holder, name, value, from, other);
            }
        },
        None => {},
    }
}

/// Where a name is found at all, it is found in a scope that binds it.
pub proof fn lemma_resolve_finds_binding(env: Seq<ScopeView>, scope: int, name: Seq<char>)
    ensures
        resolve(env, scope, name) matches Some(holder) ==> 0 <= holder < env.len()
            && holder <= scope && env[holder].bindings.contains_key(name),
    decreases scope,
{
    if 0 <= scope < env.len() && !env[scope].bindings.contains_key(name) {
        match env[scope].enclosing {
            Some(outer) => {
                if outer < scope {
                    lemma_resolve_finds_binding(env, outer as int, name);
                }
            },
            None => {},
        }
    }
}

/// A variable that is declared in one scope is assigned in that scope from
/// wherever it is visible. After `name` is defined in scope `declaring`, an
/// assignment to it from any scope `inner` in which the name refers to that
/// declaration writes to `declaring`.
pub proof fn law_assign_writes_declaring_scope(
    env: Seq<ScopeView>,
    declaring: int,
    inner: int,
    name: Seq<char>,
    initial: ValueView,
    value: ValueView,
)
    requires
        0 <= declaring < env.len(),
        refers_to(env, inner, declaring, name),
    ensures
        resolve(defined(env, declaring, name, initial), inner, name) == Some(declaring),
        assigned(defined(env, declaring, name, initial), inner, name, value) == Some(
            defined(env, declaring, name, value),
        ),
    decreases inner,
{
    let declared = defined(env, declaring, name, initial);
    if inner != declaring {
        match env[inner].enclosing {
            Some(outer) => {
                law_assign_writes_declaring_scope(
                    env,
                    declaring,
                    outer as int,
                    name,
                    initial,
                    value,
                );
            },
            None => {},
        }
    }
    assert(defined(declared, declaring, name, value) =~= defined(env, declaring, name, value)) by {
        assert(declared[declaring].bindings.insert(name, value) =~= env[declaring].bindings.insert(
            name,
            value,
        ));
    }
}

/// Whether every function that is bound somewhere in the environment closes
/// over a scope that exists.
pub open spec fn contained(env: Seq<ScopeView>) -> bool {
    forall|i: int, name: Seq<char>|
        0 <= i < env.len() && env[i].bindings.contains_key(name) ==> (
        #[trigger] env[i].bindings[name]).within(env.len())
}

/// All scopes of a program.
pub struct Environment {
    scopes: Vec<Scope>,
}

impl View for Environment {
    type V = Seq<ScopeView>;

    closed spec fn view(&self) -> Seq<ScopeView> {
        Seq::new(self.scopes@.len(), |i: int| self.scopes@[i]@)
    }
}

impl Environment {
    /// The environment's invariant: scopes nest in the order they were made,
    /// and every function that is bound somewhere closes over a scope that
    /// exists.
    pub closed spec fn inv(&self) -> bool {
        &&& forall|i: int|
            0 <= i < self.scopes.len() ==> match (#[trigger] self.scopes@[i]).enclosing {
                Some(outer) => outer < i,
                None => true,
            }
        &&& forall|i: int, name: Seq<char>|
            0 <= i < self.scopes.len() && self.scopes@[i].values@.contains_key(name) ==> (
            #[trigger] self.scopes@[i].values@[name])@.within(self.scopes.len() as nat)
    }

    /// What the invariant means for the model: scopes nest in the order
    /// they were made, and no closure dangles.
    pub proof fn lemma_inv(&self)
        requires
            self.inv(),
        ensures
            nested(self@),
            contained(self@),
    {
        assert forall|i: int, name: Seq<char>|
            0 <= i < self@.len() && self@[i].bindings.contains_key(name) implies (
        #[trigger] self@[i].bindings[name]).within(self@.len()) by {
            assert(self.scopes@[i].values@.contains_key(name));
            assert(self.scopes@[i].values@[name]@.within(self.scopes.len() as nat));
        }
        assert forall|i: int| 0 <= i < self@.len() implies match (#[trigger] self@[i]).enclosing {
            Some(outer) => outer < i,
            None => true,
        } by {
            assert(match self.scopes@[i].enclosing {
                Some(outer) => outer < i,
                None => true,
            });
        }
    }

    /// An environment of one scope, the outermost, with no bindings.
    pub fn new() -> (r: Environment)
        ensures
            r.inv(),
            r@ == seq![ScopeView { enclosing: None, bindings: Map::empty() }],
    {
        let mut scopes: Vec<Scope> = Vec::new();
        scopes.push(Scope::new(None));
        let r = Environment { scopes };
        assert(r@ =~= seq![ScopeView { enclosing: None, bindings: Map::empty() }]);
        r
    }

    /// Adds an empty scope inside `enclosing` and returns its index.
    pub fn new_enclosed(&mut self, enclosing: usize) -> (r: usize)
        requires
            old(self).inv(),
            enclosing < old(self)@.len(),
        ensures
            final(self).inv(),
            r == old(self)@.len(),
            final(self)@ == enclosed(old(self)@, enclosing as nat),
    {
        let index = self.scopes.len();
        self.scopes.push(Scope::new(Some(enclosing)));
        assert(self@ =~= enclosed(old(self)@, enclosing as nat));
        index
    }

    /// Binds `name` to `value` in `scope` itself, creating the binding or
    /// overwriting it.
    pub fn define(&mut self, scope: usize, name: String, value: Value)
        requires
            old(self).inv(),
            scope < old(self)@.len(),
            value@.within(old(self)@.len()),
        ensures
            final(self).inv(),
            final(self)@ == defined(old(self)@, scope as int, name@, value@),
    {
        let mut target = Scope::new(None);
        core::mem::swap(&mut target, &mut self.scopes[scope]);
        target.set(name, value);
        self.scopes.set(scope, target);
        assert(self@ =~= defined(old(self)@, scope as int, name@, value@));
    }

    /// The value of `name` as read from `scope`: that of the innermost
    /// binding, or an error if no scope from `scope` outward binds the name.
    pub fn get(&self, scope: usize, name: &Token) -> (r: Result<Value, String>)
        requires
            self.inv(),
            scope < self@.len(),
        ensures
            match lookup(self@, scope as int, name@.lexeme) {
                Some(value) => r matches Ok(found) && found@ == value && value.within(self@.len()),
                None => r matches Err(text) && text@ == undefined_variable(name@.lexeme),
            },
    {
        match self.holder(scope, &name.lexeme) {
            Some(holder) => Ok(self.scopes[holder].value(&name.lexeme)),
            None => Err(join3("Undefined variable '", name.lexeme.as_str(), "'.")),
        }
    }

    /// Assigns `value` to `name` from `scope`: the innermost scope that
    /// binds the name receives it. An error, and no change, if no scope from
    /// `scope` outward binds the name.
    pub fn assign(&mut self, scope: usize, name: &Token, value: Value) -> (r: Result<(), String>)
        requires
            old(self).inv(),
            scope < old(self)@.len(),
            value@.within(old(self)@.len()),
        ensures
            final(self).inv(),
            match assigned(old(self)@, scope as int, name@.lexeme, value@) {
                Some(env) => r is Ok && final(self)@ == env,
                None => r matches Err(text) && text@ == undefined_variable(name@.lexeme)
                    && final(self)@ == old(self)@,
            },
    {
        match self.holder(scope, &name.lexeme) {
            Some(holder) => {
                self.define(holder, name.lexeme.clone(), value);
                Ok(())
            },
            None => Err(join3("Undefined variable '", name.lexeme.as_str(), "'.")),
        }
    }

    /// The innermost scope from `scope` outward that binds `name`.
    fn holder(&self, scope: usize, name: &String) -> (r: Option<usize>)
        requires
            self.inv(),
            scope < self@.len(),
        ensures
            match r {
                Some(holder) => {
                    &&& resolve(self@, scope as int, name@) == Some(holder as int)
                    &&& holder < self.scopes.len()
                    &&& self.scopes@[holder as int].values@.contains_key(name@)
                },
                None => resolve(self@, scope as int, name@).is_none(),
            },
    {
        let mut current = scope;
        loop
            invariant
                self.inv(),
                current < self.scopes.len(),
                resolve(self@, current as int, name@) == resolve(self@, scope as int, name@),
            decreases current,
        {
            if self.scopes[current].binds(name) {
                return Some(current);
            }
            match self.scopes[current].enclosing {
                Some(outer) => {
                    current = outer;
                },
                None => {
                    return None;
                },
            }
        }
    }
}

} // verus!
