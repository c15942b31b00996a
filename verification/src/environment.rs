//! What the process knows of its surroundings: its variables and the home
//! directory.
use crate::lists;
use crate::text;
use crate::text::str_eq;
use vstd::prelude::*;

verus! {

/// A variable with its value, or with the reason why it cannot be read.
#[derive(Debug, PartialEq, Eq)]
pub struct Variable {
    pub name: String,
    pub value: Result<String, String>,
}

/// The home directory, where it is known, and the variables.
#[derive(Debug, PartialEq, Eq)]
pub struct Environment {
    pub home: Option<String>,
    pub variables: Vec<Variable>,
}

pub open spec fn result_text(r: Result<String, String>) -> Result<Seq<char>, Seq<char>> {
    match r {
        Ok(s) => Ok(s@),
        Err(s) => Err(s@),
    }
}

/// The model of an environment: the variable `names[i]` has the value `values[i]`.
#[verifier::ext_equal]
pub struct EnvironmentView {
    pub home: Option<Seq<char>>,
    pub names: Seq<Seq<char>>,
    pub values: Seq<Result<Seq<char>, Seq<char>>>,
}

impl View for Environment {
    type V = EnvironmentView;

    open spec fn view(&self) -> EnvironmentView {
        EnvironmentView {
            home: text::opt_text(self.home),
            names: self.variables@.map_values(|v: Variable| v.name@),
            values: self.variables@.map_values(|v: Variable| result_text(v.value)),
        }
    }
}

pub open spec fn is_name(name: Seq<char>) -> spec_fn(Seq<char>) -> bool {
    |n: Seq<char>| n == name
}

impl EnvironmentView {
    /// The value of a variable, or why there is none.
    pub open spec fn value_of(self, name: Seq<char>) -> Result<Seq<char>, Seq<char>> {
        match lists::first_where(self.names, is_name(name)) {
            Some(i) => self.values[i],
            None => Err("environment variable not found"@),
        }
    }
}

impl Environment {
    /// The value of a variable, or why there is none.
    pub fn lookup(&self, name: &str) -> (out: Result<Option<String>, String>)
        ensures
            match out {
                Ok(value) => value is Some && self@.value_of(name@) == Ok::<Seq<char>, Seq<char>>(
                    value->0@,
                ),
                Err(message) => self@.value_of(name@) == Err::<Seq<char>, Seq<char>>(message@),
            },
    {
        let ghost names = self@.names;
        for i in 0..self.variables.len()
            invariant
                names == self@.names,
                forall|k: int| 0 <= k < i ==> !is_name(name@)(#[trigger] names[k]),
        {
            let variable: &Variable = &self.variables[i];
            assert(names[i as int] == variable.name@);
            assert(self@.values[i as int] == result_text(variable.value));
            if str_eq(variable.name.as_str(), name) {
                proof {
                    lists::first_is(names, is_name(name@), i as int);
                }
                return match &variable.value {
                    Ok(value) => Ok(Some(value.clone())),
                    Err(message) => Err(message.clone()),
                };
            }
        }
        proof {
            lists::first_is_none(names, is_name(name@));
        }
        Err("environment variable not found".to_owned())
    }
}

} // verus!
