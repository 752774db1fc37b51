//! The process environment: home, working directory and variables.

use vstd::prelude::*;
use vstd::utf8;

use crate::path::PathBuf;
use crate::text;

verus! {

/// A variable of the environment: a textual name and any bytes.
#[derive(Debug, PartialEq, Eq)]
pub struct Variable {
    pub name: String,
    pub value: Vec<u8>,
}

impl Clone for Variable {
    fn clone(&self) -> (r: Self)
        ensures
            r.name@ == self.name@,
            r.value@ == self.value@,
    {
        Variable { name: self.name.clone(), value: self.value.clone() }
    }
}

/// The last value that a list of variables gives each name.
pub open spec fn variables_map(s: Seq<Variable>) -> Map<Seq<char>, Seq<u8>>
    decreases s.len(),
{
    if s.len() == 0 {
        Map::empty()
    } else {
        variables_map(s.drop_last()).insert(s.last().name@, s.last().value@)
    }
}

#[verifier::ext_equal]
pub struct EnvironmentView {
    pub home: Seq<u8>,
    pub cwd: Seq<u8>,
    pub variables: Map<Seq<char>, Seq<u8>>,
}

impl EnvironmentView {
    pub open spec fn variable(self, name: Seq<char>) -> Option<Seq<u8>> {
        if self.variables.contains_key(name) {
            Some(self.variables[name])
        } else {
            None
        }
    }
}

#[derive(Debug)]
pub struct Environment {
    home: PathBuf,
    cwd: PathBuf,
    variables: Vec<Variable>,
}

impl View for Environment {
    type V = EnvironmentView;

    closed spec fn view(&self) -> EnvironmentView {
        EnvironmentView {
            home: self.home@,
            cwd: self.cwd@,
            variables: variables_map(self.variables@),
        }
    }
}

impl Clone for Environment {
    fn clone(&self) -> (r: Self)
        ensures
            r@ == self@,
    {
        let mut variables: Vec<Variable> = Vec::new();
        for i in 0..self.variables.len()
            invariant
                variables_map(variables@) == variables_map(self.variables@.take(i as int)),
        {
            let ghost before = variables@;
            variables.push(self.variables[i].clone());
            assert(variables@.drop_last() =~= before);
            assert(self.variables@.take(i + 1).drop_last() =~= self.variables@.take(i as int));
        }
        assert(self.variables@.take(self.variables.len() as int) =~= self.variables@);
        Environment { home: self.home.clone(), cwd: self.cwd.clone(), variables }
    }
}

/// Why the environment of a process cannot be used.
#[derive(Clone, Copy, Debug, PartialEq, Eq, Structural)]
pub enum VarError {
    NotPresent,
}

/// The variables whose names are text.
pub open spec fn textual_variables(s: Seq<(Vec<u8>, Vec<u8>)>) -> Map<Seq<char>, Seq<u8>>
    decreases s.len(),
{
    if s.len() == 0 {
        Map::empty()
    } else {
        let before = textual_variables(s.drop_last());
        if utf8::valid_utf8(s.last().0@) {
            before.insert(utf8::decode_utf8(s.last().0@), s.last().1@)
        } else {
            before
        }
    }
}

impl Environment {
    /// The environment of a process that has these variables, a home that resolves to
    /// `canonical_home` if it resolves, and this working directory if it has one.
    pub fn current(
        process_variables: Vec<(Vec<u8>, Vec<u8>)>,
        canonical_home: Option<PathBuf>,
        current_dir: Option<PathBuf>,
    ) -> (r: Result<Self, VarError>)
        ensures
            r is Ok <==> textual_variables(process_variables@).contains_key("HOME"@)
                && current_dir is Some,
            r is Ok ==> r->Ok_0@ == (EnvironmentView {
                home: match canonical_home {
                    Some(home) => home@,
                    None => textual_variables(process_variables@)["HOME"@],
                },
                cwd: current_dir->0@,
                variables: textual_variables(process_variables@),
            }),
    {
        let mut variables: Vec<Variable> = Vec::new();
        let mut i: usize = 0;
        assert(process_variables@.take(0).len() == 0);
        while i < process_variables.len()
            invariant
                i <= process_variables@.len(),
                variables_map(variables@) == textual_variables(process_variables@.take(i as int)),
            decreases process_variables.len() - i,
        {
            let ghost before = variables@;
            let name = text::decoded(process_variables[i].0.clone());
            let value = process_variables[i].1.clone();
            assert(process_variables@.take(i + 1).drop_last() =~= process_variables@.take(
                i as int,
            ));
            if let Some(name) = name {
                variables.push(Variable { name, value });
                assert(variables@.drop_last() =~= before);
            }
            i = i + 1;
        }
        assert(process_variables@.take(i as int) =~= process_variables@);
        let home = find_variable(&variables, "HOME");
        match (home, current_dir) {
            (Some(at), Some(cwd)) => {
                let home = match canonical_home {
                    Some(home) => home,
                    None => PathBuf::from_bytes(variables[at].value.clone()),
                };
                Ok(Environment { home, cwd, variables })
            },
            _ => Err(VarError::NotPresent),
        }
    }

    pub fn from_values(home: PathBuf, cwd: PathBuf, variables: Vec<Variable>) -> (r: Self)
        ensures
            r@ == (EnvironmentView {
                home: home@,
                cwd: cwd@,
                variables: variables_map(variables@),
            }),
    {
        Environment { home, cwd, variables }
    }

    pub fn home(&self) -> (r: &PathBuf)
        ensures
            r@ == self@.home,
    {
        &self.home
    }

    pub fn cwd(&self) -> (r: &PathBuf)
        ensures
            r@ == self@.cwd,
    {
        &self.cwd
    }

    pub fn variable(&self, name: &str) -> (r: Option<&Vec<u8>>)
        ensures
            r is Some <==> self@.variable(name@) is Some,
            r is Some ==> r->0@ == self@.variable(name@)->0,
    {
        match find_variable(&self.variables, name) {
            Some(at) => Some(&self.variables[at].value),
            None => None,
        }
    }
}

/// The place of the last variable with a name.
fn find_variable(variables: &Vec<Variable>, name: &str) -> (r: Option<usize>)
    ensures
        r is Some <==> variables_map(variables@).contains_key(name@),
        r is Some ==> r->0 < variables@.len() && variables@[r->0 as int].value@
            == variables_map(variables@)[name@],
{
    let mut i: usize = variables.len();
    assert(variables@.take(i as int) =~= variables@);
    while i > 0
        invariant
            i <= variables@.len(),
            variables_map(variables@).contains_key(name@) == variables_map(
                variables@.take(i as int),
            ).contains_key(name@),
            variables_map(variables@.take(i as int)).contains_key(name@) ==> variables_map(
                variables@,
            )[name@] == variables_map(variables@.take(i as int))[name@],
        decreases i,
    {
        let ghost t = variables@.take(i as int);
        assert(t.drop_last() =~= variables@.take(i - 1));
        assert(t.last() == variables@[i - 1]);
        if text::same(&variables[i - 1].name, name) {
            return Some(i - 1);
        }
        i = i - 1;
    }
    None
}

} // verus!
