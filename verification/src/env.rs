//! The runtime environment of the interpreter: one flat table of scalars and
//! one of arrays, each keyed by name, with the arrays kept in the order of
//! their first declaration.

use vstd::prelude::*;
use crate::ast::DataType;
use crate::scalar::ZERO;
use crate::semantics::{
    assign_elem, assign_scalar, bind_scalar, declare, empty_env, read_array, read_elem,
    read_scalar, zeros, EnvView, EvalError, EvalErrorView,
};

verus! {

/// The names of a table, in order.
pub open spec fn names_of(v: Seq<String>) -> Seq<Seq<char>> {
    Seq::new(v.len(), |i: int| v[i]@)
}

/// The contents of the arrays of a table, in order.
pub open spec fn contents_of(v: Seq<Vec<u32>>) -> Seq<Seq<u32>> {
    Seq::new(v.len(), |i: int| v[i]@)
}

/// No name occurs twice.
pub open spec fn distinct(names: Seq<Seq<char>>) -> bool {
    forall|i: int, j: int| 0 <= i < j < names.len() ==> names[i] != names[j]
}

/// The place of a name in a table that holds it.
pub open spec fn slot(names: Seq<Seq<char>>, key: Seq<char>) -> int {
    choose|i: int| 0 <= i < names.len() && names[i] == key
}

/// The map from each name of a table to the value beside it.
pub open spec fn table<V>(names: Seq<Seq<char>>, values: Seq<V>) -> Map<Seq<char>, V> {
    Map::new(|key: Seq<char>| names.contains(key), |key: Seq<char>| values[slot(names, key)])
}

proof fn lemma_slot(names: Seq<Seq<char>>, i: int)
    requires
        distinct(names),
        0 <= i < names.len(),
    ensures
        slot(names, names[i]) == i,
        names.contains(names[i]),
{
    let j = slot(names, names[i]);
    assert(0 <= j < names.len() && names[j] == names[i]);
    if j < i {
        assert(names[j] != names[i]);
    } else if i < j {
        assert(names[i] != names[j]);
    }
}

proof fn lemma_table_update<V>(names: Seq<Seq<char>>, values: Seq<V>, i: int, v: V)
    requires
        distinct(names),
        names.len() == values.len(),
        0 <= i < names.len(),
    ensures
        table(names, values.update(i, v)) == table(names, values).insert(names[i], v),
{
    lemma_slot(names, i);
    let a = table(names, values.update(i, v));
    let b = table(names, values).insert(names[i], v);
    assert forall|key: Seq<char>| a.dom().contains(key) implies #[trigger] a[key] == b[key] by {
        let j = slot(names, key);
        assert(0 <= j < names.len() && names[j] == key);
        lemma_slot(names, j);
    }
    assert(a =~= b);
}

proof fn lemma_table_push<V>(names: Seq<Seq<char>>, values: Seq<V>, key: Seq<char>, v: V)
    requires
        distinct(names),
        names.len() == values.len(),
        !names.contains(key),
    ensures
        distinct(names.push(key)),
        table(names.push(key), values.push(v)) == table(names, values).insert(key, v),
{
    let grown = names.push(key);
    assert forall|i: int, j: int| 0 <= i < j < grown.len() implies grown[i] != grown[j] by {
        if j == names.len() {
            assert(names.contains(names[i]));
        } else {
            assert(names[i] != names[j]);
        }
    }
    let a = table(grown, values.push(v));
    let b = table(names, values).insert(key, v);
    assert forall|k: Seq<char>| a.dom().contains(k) <==> b.dom().contains(k) by {
        if grown.contains(k) {
            let j = choose|j: int| 0 <= j < grown.len() && grown[j] == k;
            if j < names.len() {
                assert(names[j] == k);
            }
        }
        if names.contains(k) {
            let j = choose|j: int| 0 <= j < names.len() && names[j] == k;
            assert(grown[j] == k);
        }
        if k == key {
            assert(grown[names.len() as int] == k);
        }
    }
    assert forall|k: Seq<char>| a.dom().contains(k) implies #[trigger] a[k] == b[k] by {
        let j = slot(grown, k);
        assert(0 <= j < grown.len() && grown[j] == k);
        if j < names.len() {
            assert(names[j] == k);
            lemma_slot(names, j);
        }
    }
    assert(a =~= b);
}

/// Finds a name in a table.
fn find(names: &Vec<String>, name: &String) -> (r: Option<usize>)
    ensures
        match r {
            Some(i) => i < names.len() && names_of(names@)[i as int] == name@,
            None => !names_of(names@).contains(name@),
        },
{
    let mut i: usize = 0;
    while i < names.len()
        invariant
            i <= names.len(),
            forall|j: int| 0 <= j < i ==> names_of(names@)[j] != name@,
        decreases names.len() - i,
    {
        if names[i] == *name {
            return Some(i);
        }
        i += 1;
    }
    None
}

/// The runtime environment.
pub struct ExecutionEnv {
    scalar_names: Vec<String>,
    scalar_values: Vec<u32>,
    array_names: Vec<String>,
    array_values: Vec<Vec<u32>>,
    printed: Vec<u32>,
}

impl View for ExecutionEnv {
    type V = EnvView;

    closed spec fn view(&self) -> EnvView {
        EnvView {
            scalars: table(names_of(self.scalar_names@), self.scalar_values@),
            arrays: table(names_of(self.array_names@), contents_of(self.array_values@)),
            order: names_of(self.array_names@),
            printed: self.printed@,
        }
    }
}

impl ExecutionEnv {
    /// Each table holds one value for each of its names, and no name twice.
    pub closed spec fn wf(&self) -> bool {
        &&& self.scalar_names.len() == self.scalar_values.len()
        &&& self.array_names.len() == self.array_values.len()
        &&& distinct(names_of(self.scalar_names@))
        &&& distinct(names_of(self.array_names@))
    }

    /// An environment that holds nothing.
    pub fn new() -> (r: Self)
        ensures
            r.wf(),
            r@ == empty_env(),
    {
        let r = Self {
            scalar_names: Vec::new(),
            scalar_values: Vec::new(),
            array_names: Vec::new(),
            array_values: Vec::new(),
            printed: Vec::new(),
        };
        assert(r@.scalars =~= Map::<Seq<char>, u32>::empty());
        assert(r@.arrays =~= Map::<Seq<char>, Seq<u32>>::empty());
        assert(r@.order =~= Seq::<Seq<char>>::empty());
        r
    }

    /// Declares a name: an array type makes a zero-filled array, any other
    /// type a zero scalar.
    pub fn declare(&mut self, name: &String, dtype: &DataType)
        requires
            old(self).wf(),
        ensures
            final(self).wf(),
            final(self)@ == declare(old(self)@, name@, *dtype),
    {
        match dtype {
            DataType::Array(_, size) => {
                let mut fresh: Vec<u32> = Vec::new();
                let mut k: usize = 0;
                while k < *size
                    invariant
                        k <= *size,
                        fresh@ == zeros(k as nat),
                    decreases *size - k,
                {
                    fresh.push(ZERO);
                    k += 1;
                    assert(fresh@ =~= zeros(k as nat));
                }
                self.put_array(name, fresh);
            },
            _ => {
                self.set_scalar(name, ZERO);
            },
        }
    }

    fn put_array(&mut self, name: &String, items: Vec<u32>)
        requires
            old(self).wf(),
        ensures
            final(self).wf(),
            final(self)@ == (EnvView {
                arrays: old(self)@.arrays.insert(name@, items@),
                order: if old(self)@.arrays.dom().contains(name@) {
                    old(self)@.order
                } else {
                    old(self)@.order.push(name@)
                },
                ..old(self)@
            }),
    {
        let ghost names = names_of(self.array_names@);
        let ghost values = contents_of(self.array_values@);
        match find(&self.array_names, name) {
            Some(i) => {
                proof {
                    lemma_table_update(names, values, i as int, items@);
                    lemma_slot(names, i as int);
                }
                self.array_values.set(i, items);
                assert(contents_of(self.array_values@) =~= values.update(i as int, items@));
            },
            None => {
                proof {
                    lemma_table_push(names, values, name@, items@);
                }
                self.array_names.push(name.clone());
                self.array_values.push(items);
                assert(names_of(self.array_names@) =~= names.push(name@));
                assert(contents_of(self.array_values@) =~= values.push(items@));
            },
        }
    }

    /// Sets a scalar, creating it if the name is new.
    pub fn set_scalar(&mut self, name: &String, value: u32)
        requires
            old(self).wf(),
        ensures
            final(self).wf(),
            final(self)@ == bind_scalar(old(self)@, name@, value),
    {
        let ghost names = names_of(self.scalar_names@);
        match find(&self.scalar_names, name) {
            Some(i) => {
                proof {
                    lemma_table_update(names, self.scalar_values@, i as int, value);
                }
                self.scalar_values.set(i, value);
            },
            None => {
                proof {
                    lemma_table_push(names, self.scalar_values@, name@, value);
                }
                self.scalar_names.push(name.clone());
                self.scalar_values.push(value);
                assert(names_of(self.scalar_names@) =~= names.push(name@));
            },
        }
    }

    /// Reads a scalar.
    pub fn get_scalar(&self, name: &String) -> (r: Result<u32, EvalError>)
        requires
            self.wf(),
        ensures
            match read_scalar(self@, name@) {
                Ok(v) => r == Ok::<u32, EvalError>(v),
                Err(e) => r is Err && r->Err_0@ == e,
            },
    {
        match find(&self.scalar_names, name) {
            Some(i) => {
                proof {
                    lemma_slot(names_of(self.scalar_names@), i as int);
                }
                Ok(self.scalar_values[i])
            },
            None => Err(EvalError::UndefinedVariable(name.clone())),
        }
    }

    /// Assigns to a scalar that exists.
    pub fn assign_scalar(&mut self, name: &String, value: u32) -> (r: Result<(), EvalError>)
        requires
            old(self).wf(),
        ensures
            final(self).wf(),
            match assign_scalar(old(self)@, name@, value) {
                Ok(env) => r is Ok && final(self)@ == env,
                Err(e) => r is Err && r->Err_0@ == e && final(self)@ == old(self)@,
            },
    {
        let ghost names = names_of(self.scalar_names@);
        match find(&self.scalar_names, name) {
            Some(i) => {
                proof {
                    lemma_slot(names, i as int);
                    lemma_table_update(names, self.scalar_values@, i as int, value);
                }
                self.scalar_values.set(i, value);
                Ok(())
            },
            None => Err(EvalError::UndefinedVariable(name.clone())),
        }
    }

    /// Assigns to an element of an array that exists; a write outside the
    /// array is dropped.
    pub fn set_array_elem(&mut self, name: &String, index: i64, value: u32) -> (r: Result<
        (),
        EvalError,
    >)
        requires
            old(self).wf(),
        ensures
            final(self).wf(),
            match assign_elem(old(self)@, name@, index, value) {
                Ok(env) => r is Ok && final(self)@ == env,
                Err(e) => r is Err && r->Err_0@ == e && final(self)@ == old(self)@,
            },
    {
        let ghost names = names_of(self.array_names@);
        let ghost values = contents_of(self.array_values@);
        match find(&self.array_names, name) {
            Some(i) => {
                proof {
                    lemma_slot(names, i as int);
                }
                if index >= 0 && (index as u64) < (self.array_values[i].len() as u64) {
                    let at: usize = index as usize;
                    proof {
                        lemma_table_update(
                            names,
                            values,
                            i as int,
                            values[i as int].update(at as int, value),
                        );
                    }
                    let inner = &mut self.array_values[i];
                    inner[at] = value;
                    assert(contents_of(self.array_values@) =~= values.update(
                        i as int,
                        values[i as int].update(at as int, value),
                    ));
                }
                Ok(())
            },
            None => Err(EvalError::UndefinedArray(name.clone())),
        }
    }

    /// Reads an element of an array.
    pub fn get_array_elem(&self, name: &String, index: i64) -> (r: Result<u32, EvalError>)
        requires
            self.wf(),
        ensures
            match read_elem(self@, name@, index) {
                Ok(v) => r == Ok::<u32, EvalError>(v),
                Err(e) => r is Err && r->Err_0@ == e,
            },
    {
        match find(&self.array_names, name) {
            Some(i) => {
                proof {
                    lemma_slot(names_of(self.array_names@), i as int);
                }
                if index >= 0 && (index as u64) < (self.array_values[i].len() as u64) {
                    Ok(self.array_values[i][index as usize])
                } else {
                    Err(EvalError::ArrayAccess(name.clone(), index))
                }
            },
            None => Err(EvalError::UndefinedVariable(name.clone())),
        }
    }

    /// The contents of an array.
    pub fn get_array(&self, name: &String) -> (r: Result<&Vec<u32>, EvalError>)
        requires
            self.wf(),
        ensures
            match read_array(self@, name@) {
                Ok(items) => r is Ok && r->Ok_0@ == items,
                Err(e) => r is Err && r->Err_0@ == e,
            },
    {
        match find(&self.array_names, name) {
            Some(i) => {
                proof {
                    lemma_slot(names_of(self.array_names@), i as int);
                }
                Ok(&self.array_values[i])
            },
            None => Err(EvalError::UndefinedVariable(name.clone())),
        }
    }

    /// A copy of the array that was declared first.
    pub fn get_first_array(&self) -> (r: Result<Vec<u32>, EvalError>)
        requires
            self.wf(),
        ensures
            match r {
                Ok(items) => self@.order.len() > 0 && items@ == self@.arrays[self@.order[0]],
                Err(e) => self@.order.len() == 0 && e@ == EvalErrorView::NoArrays,
            },
    {
        if self.array_values.len() == 0 {
            Err(EvalError::NoArrays)
        } else {
            proof {
                lemma_slot(names_of(self.array_names@), 0);
            }
            Ok(self.array_values[0].clone())
        }
    }

    /// Records a printed number.
    pub fn record(&mut self, value: u32)
        requires
            old(self).wf(),
        ensures
            final(self).wf(),
            final(self)@ == (EnvView { printed: old(self)@.printed.push(value), ..old(self)@ }),
    {
        self.printed.push(value);
    }

    /// The numbers printed so far, oldest first.
    pub fn printed(&self) -> (r: Vec<u32>)
        ensures
            r@ == self@.printed,
    {
        self.printed.clone()
    }
}

} // verus!
