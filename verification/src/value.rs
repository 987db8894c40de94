//! Values, variables and the environment a line is evaluated against.

use vstd::prelude::*;

verus! {

/// What a value is: a boolean, a text, or the absence of a value.
pub enum ValueView {
    Bool(bool),
    Str(Seq<char>),
    Empty,
}

/// The value of a variable, and the result of evaluating a line. `Empty` is
/// the result of a conditional whose condition is false and that has no
/// `else` branch.
#[derive(Debug, PartialEq)]
pub enum VariableValue {
    Bool(bool),
    Str(String),
    Empty,
}

impl View for VariableValue {
    type V = ValueView;

    open spec fn view(&self) -> ValueView {
        match self {
            VariableValue::Bool(b) => ValueView::Bool(*b),
            VariableValue::Str(s) => ValueView::Str(s@),
            VariableValue::Empty => ValueView::Empty,
        }
    }
}

impl Clone for VariableValue {
    fn clone(&self) -> (copy: Self)
        ensures
            copy@ == self@,
    {
        match self {
            VariableValue::Bool(b) => VariableValue::Bool(*b),
            VariableValue::Str(s) => VariableValue::Str(s.clone()),
            VariableValue::Empty => VariableValue::Empty,
        }
    }
}

/// A name bound to a value.
#[derive(Debug)]
pub struct Variable<T: Clone> {
    pub key: String,
    pub value: T,
}

impl<T: Clone> Clone for Variable<T> {
    fn clone(&self) -> (copy: Self)
        ensures
            copy.key@ == self.key@,
            cloned::<T>(self.value, copy.value),
    {
        Variable { key: self.key.clone(), value: self.value.clone() }
    }
}

impl<T: Clone> Variable<T> {
    /// Binds `key` to `value`.
    pub fn new(key: String, value: T) -> (variable: Variable<T>)
        ensures
            variable.key == key,
            variable.value == value,
    {
        Variable { key, value }
    }
}

/// Whether one of `vars` has the name `name`.
spec fn binds(vars: Seq<Variable<VariableValue>>, name: Seq<char>) -> bool {
    exists|i: int| 0 <= i < vars.len() && #[trigger] vars[i].key@ == name
}

/// The position in `vars` of a variable with the name `name`, where there is
/// one.
spec fn position_of(vars: Seq<Variable<VariableValue>>, name: Seq<char>) -> int {
    choose|i: int| 0 <= i < vars.len() && #[trigger] vars[i].key@ == name
}

/// Whether no two of `vars` have the same name.
spec fn distinct_names(vars: Seq<Variable<VariableValue>>) -> bool {
    forall|i: int, j: int|
        0 <= i < vars.len() && 0 <= j < vars.len() && #[trigger] vars[i].key@
            == #[trigger] vars[j].key@ ==> i == j
}

/// The mapping from names to values that `vars` stands for.
spec fn bindings(vars: Seq<Variable<VariableValue>>) -> Map<Seq<char>, ValueView> {
    Map::new(|name: Seq<char>| binds(vars, name), |name: Seq<char>| vars[position_of(vars, name)].value@)
}

/// A mapping from variable names to values. Each name is bound at most once.
#[derive(Debug)]
pub struct Environment {
    vars: Vec<Variable<VariableValue>>,
}

impl View for Environment {
    type V = Map<Seq<char>, ValueView>;

    closed spec fn view(&self) -> Map<Seq<char>, ValueView> {
        bindings(self.vars@)
    }
}

impl Environment {
    #[verifier::type_invariant]
    spec fn unique_names(&self) -> bool {
        distinct_names(self.vars@)
    }

    /// An environment that binds no name.
    pub fn new() -> (env: Environment)
        ensures
            env@ == Map::<Seq<char>, ValueView>::empty(),
    {
        let env = Environment { vars: Vec::new() };
        assert(env@ =~= Map::<Seq<char>, ValueView>::empty());
        env
    }

    /// The position of the variable named `name`, if there is one.
    fn find(&self, name: &String) -> (found: Option<usize>)
        ensures
            match found {
                Some(i) => i < self.vars@.len() && self.vars@[i as int].key@ == name@,
                None => !binds(self.vars@, name@),
            },
    {
        let mut i: usize = 0;
        while i < self.vars.len()
            invariant
                i <= self.vars@.len(),
                forall|j: int| 0 <= j < i ==> self.vars@[j].key@ != name@,
            decreases self.vars@.len() - i,
        {
            if self.vars[i].key == *name {
                return Some(i);
            }
            i += 1;
        }
        None
    }

    /// The value that `name` is bound to, if it is bound.
    pub fn get(&self, name: &String) -> (value: Option<&VariableValue>)
        ensures
            match value {
                Some(v) => self@.contains_key(name@) && v@ == self@[name@],
                None => !self@.contains_key(name@),
            },
    {
        proof {
            use_type_invariant(self);
        }
        match self.find(name) {
            Some(i) => {
                assert(binds(self.vars@, name@));
                Some(&self.vars[i].value)
            },
            None => None,
        }
    }

    /// Whether `name` is bound.
    pub fn contains_key(&self, name: &String) -> (bound: bool)
        ensures
            bound == self@.contains_key(name@),
    {
        self.find(name).is_some()
    }

    /// Binds `key` to `value`. A value that `key` was bound to before is
    /// replaced.
    pub fn insert(&mut self, key: String, value: VariableValue)
        ensures
            final(self)@ == old(self)@.insert(key@, value@),
    {
        proof {
            use_type_invariant(&*self);
        }
        let found = self.find(&key);
        let ghost name = key@;
        let ghost val = value@;
        let mut taken = Environment { vars: Vec::new() };
        core::mem::swap(self, &mut taken);
        let mut vars = taken.vars;
        let ghost before = vars@;
        match found {
            Some(i) => {
                vars.set(i, Variable { key, value });
                self.vars = vars;
                proof {
                    let after = self.vars@;
                    assert(distinct_names(after));
                    assert forall|n: Seq<char>| binds(after, n) == (binds(before, n) || n == name) by {
                        if binds(before, n) {
                            let j = position_of(before, n);
                            assert(after[j].key@ == n);
                        }
                        if n == name {
                            assert(after[i as int].key@ == n);
                        }
                        if binds(after, n) {
                            let j = position_of(after, n);
                            assert(before[j].key@ == n);
                        }
                    }
                    assert forall|n: Seq<char>| binds(after, n) implies #[trigger] bindings(after)[n]
                        == bindings(before).insert(name, val)[n] by {
                        let j = position_of(after, n);
                        if n != name {
                            assert(before[j].key@ == n);
                            assert(position_of(before, n) == j);
                        }
                    }
                    assert(bindings(after) =~= bindings(before).insert(name, val));
                }
            },
            None => {
                vars.push(Variable { key, value });
                self.vars = vars;
                proof {
                    let after = self.vars@;
                    let last = before.len() as int;
                    assert(after[last].key@ == name);
                    assert forall|a: int, b: int|
                        0 <= a < after.len() && 0 <= b < after.len() && #[trigger] after[a].key@
                            == #[trigger] after[b].key@ implies a == b by {
                        if a < last && b < last {
                            assert(before[a].key@ == before[b].key@);
                        } else if a < last {
                            assert(before[a].key@ == name);
                        } else if b < last {
                            assert(before[b].key@ == name);
                        }
                    }
                    assert forall|n: Seq<char>| binds(after, n) == (binds(before, n) || n == name) by {
                        if binds(before, n) {
                            let j = position_of(before, n);
                            assert(after[j].key@ == n);
                        }
                        if binds(after, n) {
                            let j = position_of(after, n);
                            if j < last {
                                assert(before[j].key@ == n);
                            }
                        }
                    }
                    assert forall|n: Seq<char>| binds(after, n) implies #[trigger] bindings(after)[n]
                        == bindings(before).insert(name, val)[n] by {
                        let j = position_of(after, n);
                        if n != name {
                            assert(before[j].key@ == n);
                            assert(position_of(before, n) == j);
                        } else {
                            assert(j == last);
                        }
                    }
                    assert(bindings(after) =~= bindings(before).insert(name, val));
                }
            },
        }
    }
}

} // verus!
