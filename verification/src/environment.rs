//! Lexical scopes.
//!
//! A scope maps names to values and may have an enclosing scope. The scopes
//! of a running program are kept together in one [`Environment`] and are
//! known by their index in it, so that a function and the block that
//! created it can both hold on to one scope and see what the other writes.
//! A scope lives as long as it can be reached. Scopes that a function has
//! captured are kept for good; the others are given up when the block or
//! the call that opened them ends.

use crate::error::{ErrorView, JsEngineError};
use crate::value::{Value, ValueView};
use vstd::prelude::*;
use vstd::string::StringExecFns;

verus! {

/// The mathematical model of one scope.
pub struct ScopeView {
    /// What the scope binds.
    pub bindings: Map<Seq<char>, ValueView>,
    /// The index of the enclosing scope; the global scope has none.
    pub enclosing: Option<nat>,
}

/// The mathematical model of an [`Environment`].
pub struct EnvironmentView {
    /// The scopes, in the order in which they were created.
    pub scopes: Seq<ScopeView>,
    /// The index of the scope in force.
    pub current: nat,
    /// The scopes below this index are kept for good: every scope that a
    /// function has captured is among them.
    pub pinned: nat,
}

/// The message of the error that the use of an unbound name raises.
pub open spec fn not_defined(name: Seq<char>) -> Seq<char> {
    seq!['\''] + name + "' is not defined"@
}

impl EnvironmentView {
    /// There is a scope in force, and every scope was created after the one
    /// that encloses it.
    pub open spec fn well_formed(self) -> bool {
        &&& self.current < self.scopes.len()
        &&& self.pinned <= self.scopes.len()
        &&& forall|i: int|
            0 <= i < self.scopes.len() ==> (#[trigger] self.scopes[i].enclosing matches Some(outer)
                ==> outer < i)
    }

    /// The nearest scope that binds `name`, on the way from `scope`
    /// outward.
    pub open spec fn holder_from(self, scope: nat, name: Seq<char>) -> Option<nat>
        decreases scope,
    {
        if scope >= self.scopes.len() {
            None
        } else if self.scopes[scope as int].bindings.contains_key(name) {
            Some(scope)
        } else {
            match self.scopes[scope as int].enclosing {
                Some(outer) => if outer < scope {
                    self.holder_from(outer, name)
                } else {
                    None
                },
                None => None,
            }
        }
    }

    /// The nearest scope that binds `name`, on the way from the scope in
    /// force outward.
    pub open spec fn holder(self, name: Seq<char>) -> Option<nat> {
        self.holder_from(self.current, name)
    }

    /// What a read of `name` yields: the value that the nearest scope binds
    /// it to.
    pub open spec fn lookup(self, name: Seq<char>) -> Option<ValueView> {
        match self.holder(name) {
            Some(scope) => Some(self.scopes[scope as int].bindings[name]),
            None => None,
        }
    }

    /// The environment with `name` bound to `value` in scope `scope`.
    pub open spec fn bind(self, scope: nat, name: Seq<char>, value: ValueView) -> EnvironmentView {
        EnvironmentView {
            scopes: self.scopes.update(
                scope as int,
                ScopeView {
                    bindings: self.scopes[scope as int].bindings.insert(name, value),
                    enclosing: self.scopes[scope as int].enclosing,
                },
            ),
            current: self.current,
            pinned: self.pinned,
        }
    }

    /// A declaration: `name` is bound to `value` in the scope in force,
    /// whatever it was bound to there or further out.
    pub open spec fn define(self, name: Seq<char>, value: ValueView) -> EnvironmentView {
        self.bind(self.current, name, value)
    }

    /// An assignment: `name` is bound anew in the nearest scope that binds
    /// it. Where no scope does, there is nothing to assign to.
    pub open spec fn assign(self, name: Seq<char>, value: ValueView) -> Option<EnvironmentView> {
        match self.holder(name) {
            Some(scope) => Some(self.bind(scope, name, value)),
            None => None,
        }
    }

    /// The environment with a fresh, empty scope in force whose enclosing
    /// scope is `enclosing`. A scope that does not exist encloses nothing.
    pub open spec fn with_enclosing(self, enclosing: nat) -> EnvironmentView {
        EnvironmentView {
            scopes: self.scopes.push(
                ScopeView {
                    bindings: Map::empty(),
                    enclosing: if enclosing < self.scopes.len() {
                        Some(enclosing)
                    } else {
                        None
                    },
                },
            ),
            current: self.scopes.len(),
            pinned: self.pinned,
        }
    }

    /// The environment with scope `scope` in force, if there is such a
    /// scope.
    pub open spec fn select(self, scope: nat) -> EnvironmentView {
        if scope < self.scopes.len() {
            EnvironmentView { scopes: self.scopes, current: scope, pinned: self.pinned }
        } else {
            self
        }
    }

    /// The environment after a function has captured the scope in force:
    /// that scope and the scopes before it are kept for good.
    pub open spec fn capture(self) -> EnvironmentView {
        EnvironmentView {
            scopes: self.scopes,
            current: self.current,
            pinned: if self.pinned > self.current {
                self.pinned
            } else {
                self.current + 1
            },
        }
    }

    /// How many scopes are left once the scopes that were opened after
    /// `scope` have been given up: `scope` and the scopes before it, and the
    /// scopes that are kept for good.
    pub open spec fn kept(self, scope: nat) -> nat {
        if self.pinned > scope {
            self.pinned
        } else {
            scope + 1
        }
    }

    /// The environment after the block or the call that was entered from
    /// scope `scope` has ended: that scope is in force again, and the scopes
    /// that were opened since are given up, unless they are kept for good.
    pub open spec fn leave(self, scope: nat) -> EnvironmentView {
        if scope < self.scopes.len() {
            EnvironmentView {
                scopes: self.scopes.take(self.kept(scope) as int),
                current: scope,
                pinned: self.pinned,
            }
        } else {
            self
        }
    }

    /// The environment of a program that has not started: one scope, the
    /// global one, which binds nothing.
    pub open spec fn initial() -> EnvironmentView {
        EnvironmentView {
            scopes: seq![ScopeView { bindings: Map::empty(), enclosing: None }],
            current: 0,
            pinned: 0,
        }
    }
}

/// One binding of a scope.
struct Binding<'a> {
    name: String,
    value: Value<'a>,
}

/// One scope: its bindings, the later ones hiding the earlier ones of the
/// same name, and the index of its enclosing scope.
struct Scope<'a> {
    bindings: Vec<Binding<'a>>,
    enclosing: Option<usize>,
}

/// The mapping that a list of bindings stands for.
spec fn bindings_of<'a>(bindings: Seq<Binding<'a>>) -> Map<Seq<char>, ValueView>
    decreases bindings.len(),
{
    if bindings.len() == 0 {
        Map::empty()
    } else {
        bindings_of(bindings.drop_last()).insert(bindings.last().name@, bindings.last().value@)
    }
}

impl<'a> View for Scope<'a> {
    type V = ScopeView;

    closed spec fn view(&self) -> ScopeView {
        ScopeView {
            bindings: bindings_of(self.bindings@),
            enclosing: match self.enclosing {
                Some(outer) => Some(outer as nat),
                None => None,
            },
        }
    }
}

/// The scopes of a running program and the index of the one in force.
pub struct Environment<'a> {
    scopes: Vec<Scope<'a>>,
    current: usize,
    pinned: usize,
}

impl<'a> View for Environment<'a> {
    type V = EnvironmentView;

    closed spec fn view(&self) -> EnvironmentView {
        EnvironmentView {
            scopes: self.scopes@.map_values(|scope: Scope<'a>| scope@),
            current: self.current as nat,
            pinned: self.pinned as nat,
        }
    }
}

/// A name is bound by a list of bindings exactly if one of them has that
/// name, and then to the value of the last one that has.
proof fn lemma_bindings_of<'a>(bindings: Seq<Binding<'a>>, name: Seq<char>)
    ensures
        bindings_of(bindings).contains_key(name) <==> exists|i: int|
            0 <= i < bindings.len() && #[trigger] bindings[i].name@ == name,
        forall|i: int|
            0 <= i < bindings.len() && #[trigger] bindings[i].name@ == name && (forall|j: int|
                i < j < bindings.len() ==> #[trigger] bindings[j].name@ != name) ==> bindings_of(
                bindings,
            )[name] == bindings[i].value@,
    decreases bindings.len(),
{
    if bindings.len() > 0 {
        let front = bindings.drop_last();
        lemma_bindings_of(front, name);
        if bindings.last().name@ == name {
            assert(bindings[bindings.len() - 1].name@ == name);
        } else {
            if bindings_of(bindings).contains_key(name) {
                let i = choose|i: int| 0 <= i < front.len() && #[trigger] front[i].name@ == name;
                assert(bindings[i].name@ == name);
            }
            if exists|i: int| 0 <= i < bindings.len() && #[trigger] bindings[i].name@ == name {
                let i = choose|i: int|
                    0 <= i < bindings.len() && #[trigger] bindings[i].name@ == name;
                assert(front[i].name@ == name);
            }
            assert forall|i: int|
                0 <= i < bindings.len() && #[trigger] bindings[i].name@ == name && (forall|j: int|
                    i < j < bindings.len() ==> #[trigger] bindings[j].name@ != name) implies bindings_of(
                bindings,
            )[name] == bindings[i].value@ by {
                assert(front[i].name@ == name);
                assert forall|j: int| i < j < front.len() implies #[trigger] front[j].name@
                    != name by {
                    assert(bindings[j].name@ != name);
                }
            }
        }
    }
}

/// Binding a name anew where it was last bound makes the mapping bind it to
/// the new value and changes nothing else.
proof fn lemma_rebind<'a>(bindings: Seq<Binding<'a>>, i: int, binding: Binding<'a>)
    requires
        0 <= i < bindings.len(),
        bindings[i].name@ == binding.name@,
        forall|j: int| i < j < bindings.len() ==> #[trigger] bindings[j].name@ != binding.name@,
    ensures
        bindings_of(bindings.update(i, binding)) == bindings_of(bindings).insert(
            binding.name@,
            binding.value@,
        ),
    decreases bindings.len(),
{
    let updated = bindings.update(i, binding);
    let front = bindings.drop_last();
    if i == bindings.len() - 1 {
        assert(updated.drop_last() =~= front);
        assert(bindings_of(updated) =~= bindings_of(bindings).insert(
            binding.name@,
            binding.value@,
        ));
    } else {
        assert(updated.drop_last() =~= front.update(i, binding));
        assert(updated.last() == bindings.last());
        assert(bindings[bindings.len() - 1].name@ != binding.name@);
        lemma_rebind(front, i, binding);
        assert(bindings_of(updated) =~= bindings_of(bindings).insert(
            binding.name@,
            binding.value@,
        ));
    }
}

impl<'a> Scope<'a> {
    /// The index of the last binding of `name`, if there is one.
    fn find(&self, name: &String) -> (found: Option<usize>)
        ensures
            match found {
                Some(i) => {
                    &&& i < self.bindings@.len()
                    &&& self.bindings@[i as int].name@ == name@
                    &&& forall|j: int|
                        i < j < self.bindings@.len() ==> #[trigger] self.bindings@[j].name@
                            != name@
                    &&& self@.bindings.contains_key(name@)
                    &&& self@.bindings[name@] == self.bindings@[i as int].value@
                },
                None => !self@.bindings.contains_key(name@),
            },
    {
        proof {
            lemma_bindings_of(self.bindings@, name@);
        }
        let mut i: usize = self.bindings.len();
        while i > 0
            invariant
                i <= self.bindings@.len(),
                forall|j: int|
                    i <= j < self.bindings@.len() ==> #[trigger] self.bindings@[j].name@ != name@,
            decreases i,
        {
            i = i - 1;
            if self.bindings[i].name == *name {
                proof {
                    lemma_bindings_of(self.bindings@, name@);
                }
                return Some(i);
            }
        }
        None
    }
}

impl<'a> Environment<'a> {
    /// An environment with one scope, the global one, which binds nothing
    /// and is in force.
    pub fn new() -> (environment: Environment<'a>)
        ensures
            environment@ == EnvironmentView::initial(),
            environment@.well_formed(),
    {
        let mut scopes: Vec<Scope<'a>> = Vec::new();
        scopes.push(Scope { bindings: Vec::new(), enclosing: None });
        let environment = Environment { scopes, current: 0, pinned: 0 };
        assert(environment@.scopes =~= EnvironmentView::initial().scopes);
        environment
    }

    /// Whether the environment is well-formed, which every operation asks
    /// for and ensures.
    pub fn is_well_formed(&self) -> (well_formed: bool)
        ensures
            well_formed == self@.well_formed(),
    {
        if self.current >= self.scopes.len() || self.pinned > self.scopes.len() {
            return false;
        }
        let mut i: usize = 0;
        while i < self.scopes.len()
            invariant
                i <= self.scopes@.len(),
                forall|j: int|
                    0 <= j < i ==> (#[trigger] self@.scopes[j].enclosing matches Some(outer)
                        ==> outer < j),
            decreases self.scopes@.len() - i,
        {
            match self.scopes[i].enclosing {
                Some(outer) => {
                    if outer >= i {
                        assert(self@.scopes[i as int].enclosing == Some(outer as nat));
                        return false;
                    }
                },
                None => {},
            }
            assert(self@.scopes[i as int] == self.scopes@[i as int]@);
            i = i + 1;
        }
        true
    }

    /// How many scopes there are.
    pub fn scopes(&self) -> (count: usize)
        ensures
            count == self@.scopes.len(),
    {
        self.scopes.len()
    }

    /// The index of the scope in force.
    pub fn current(&self) -> (scope: usize)
        ensures
            scope == self@.current,
    {
        self.current
    }

    /// Puts scope `scope` in force, if there is such a scope.
    pub fn select(&mut self, scope: usize)
        requires
            old(self)@.well_formed(),
        ensures
            final(self)@ == old(self)@.select(scope as nat),
            final(self)@.well_formed(),
    {
        if scope < self.scopes.len() {
            self.current = scope;
        }
    }

    /// Has a function capture the scope in force, and returns the index of
    /// that scope. The scope and the scopes before it are kept for good.
    pub fn capture(&mut self) -> (scope: usize)
        requires
            old(self)@.well_formed(),
        ensures
            final(self)@ == old(self)@.capture(),
            final(self)@.well_formed(),
            scope == old(self)@.current,
    {
        if self.pinned <= self.current {
            assert(self.current < self.scopes.len());
            self.pinned = self.current + 1;
        }
        self.current
    }

    /// Ends the block or the call that was entered from scope `scope`: puts
    /// that scope in force again and gives up the scopes that were opened
    /// since, unless they are kept for good. Does nothing if there is no
    /// such scope.
    pub fn leave(&mut self, scope: usize)
        requires
            old(self)@.well_formed(),
        ensures
            final(self)@ == old(self)@.leave(scope as nat),
            final(self)@.well_formed(),
    {
        if scope < self.scopes.len() {
            let kept = if self.pinned > scope {
                self.pinned
            } else {
                scope + 1
            };
            self.scopes.truncate(kept);
            self.current = scope;
            assert(self@.scopes =~= old(self)@.leave(scope as nat).scopes);
        }
    }

    /// Opens a fresh scope whose enclosing scope is `enclosing`, puts it in
    /// force and returns its index. A scope that does not exist encloses
    /// nothing.
    pub fn with_enclosing(&mut self, enclosing: usize) -> (scope: usize)
        requires
            old(self)@.well_formed(),
        ensures
            final(self)@ == old(self)@.with_enclosing(enclosing as nat),
            final(self)@.well_formed(),
            scope == final(self)@.current,
    {
        let outer = if enclosing < self.scopes.len() {
            Some(enclosing)
        } else {
            None
        };
        let scope = self.scopes.len();
        self.scopes.push(Scope { bindings: Vec::new(), enclosing: outer });
        self.current = scope;
        assert(self@.scopes =~= old(self)@.with_enclosing(enclosing as nat).scopes);
        scope
    }

    /// Binds `name` to `value` in the scope in force, whatever the name was
    /// bound to there or further out.
    pub fn define(&mut self, name: String, value: Value<'a>)
        requires
            old(self)@.well_formed(),
        ensures
            final(self)@ == old(self)@.define(name@, value@),
            final(self)@.well_formed(),
    {
        let scope = self.current;
        self.bind(scope, name, value);
    }

    /// Reads `name`: the value that the nearest scope binds it to, on the
    /// way from the scope in force outward. Fails with a `ReferenceError`
    /// where no scope binds the name.
    pub fn get(&self, name: &String) -> (result: Result<Value<'a>, JsEngineError>)
        requires
            self@.well_formed(),
        ensures
            match result {
                Ok(value) => self@.lookup(name@) == Some(value@),
                Err(e) => self@.lookup(name@) is None && e@ == (ErrorView::ReferenceError {
                    message: not_defined(name@),
                }),
            },
    {
        match self.holder(name) {
            Some((scope, index)) => Ok(self.scopes[scope].bindings[index].value.clone()),
            None => Err(Self::reference_error(name)),
        }
    }

    /// Assigns `value` to `name` in the nearest scope that binds the name,
    /// on the way from the scope in force outward. Fails with a
    /// `ReferenceError`, and changes nothing, where no scope binds the name.
    pub fn assign(&mut self, name: &String, value: Value<'a>) -> (result: Result<
        (),
        JsEngineError,
    >)
        requires
            old(self)@.well_formed(),
        ensures
            final(self)@.well_formed(),
            match result {
                Ok(()) => old(self)@.assign(name@, value@) == Some(final(self)@),
                Err(e) => old(self)@.assign(name@, value@) is None && final(self)@ == old(self)@
                    && e@ == (ErrorView::ReferenceError { message: not_defined(name@) }),
            },
    {
        match self.holder(name) {
            Some((scope, _)) => {
                self.bind(scope, name.clone(), value);
                Ok(())
            },
            None => Err(Self::reference_error(name)),
        }
    }

    /// The nearest scope that binds `name`, and the index of the binding in
    /// it.
    fn holder(&self, name: &String) -> (found: Option<(usize, usize)>)
        requires
            self@.well_formed(),
        ensures
            match found {
                Some((scope, index)) => {
                    &&& self@.holder(name@) == Some(scope as nat)
                    &&& scope < self.scopes@.len()
                    &&& index < self.scopes@[scope as int].bindings@.len()
                    &&& self.scopes@[scope as int].bindings@[index as int].value@
                        == self@.scopes[scope as int].bindings[name@]
                },
                None => self@.holder(name@) is None,
            },
    {
        let mut scope = self.current;
        loop
            invariant
                self@.well_formed(),
                scope < self.scopes@.len(),
                self@.holder_from(scope as nat, name@) == self@.holder(name@),
            decreases scope,
        {
            assert(self@.scopes[scope as int] == self.scopes@[scope as int]@);
            match self.scopes[scope].find(name) {
                Some(index) => {
                    return Some((scope, index));
                },
                None => {},
            }
            match self.scopes[scope].enclosing {
                Some(outer) => {
                    scope = outer;
                },
                None => {
                    return None;
                },
            }
        }
    }

    /// Binds `name` to `value` in scope `scope`.
    fn bind(&mut self, scope: usize, name: String, value: Value<'a>)
        requires
            old(self)@.well_formed(),
            scope < old(self).scopes@.len(),
        ensures
            final(self)@ == old(self)@.bind(scope as nat, name@, value@),
            final(self)@.well_formed(),
    {
        let ghost before = self.scopes@[scope as int].bindings@;
        let found = self.scopes[scope].find(&name);
        let binding = Binding { name, value };
        match found {
            Some(index) => {
                proof {
                    lemma_rebind(before, index as int, binding);
                }
                self.scopes[scope].bindings[index] = binding;
            },
            None => {
                assert(before.push(binding).drop_last() =~= before);
                self.scopes[scope].bindings.push(binding);
            },
        }
        assert(self@.scopes =~= old(self)@.bind(scope as nat, name@, value@).scopes);
    }

    /// The error that the use of the unbound name `name` raises.
    fn reference_error(name: &String) -> (e: JsEngineError)
        ensures
            e@ == (ErrorView::ReferenceError { message: not_defined(name@) }),
    {
        let mut message = String::new();
        message.push('\'');
        message.append(name.as_str());
        message.append("' is not defined");
        assert(message@ =~= not_defined(name@));
        JsEngineError::ReferenceError { message }
    }
}

} // verus!
