//! The evaluation context: the variables and the functions that names are
//! bound to. A later binding of a name replaces an earlier one, and nothing
//! is ever removed.
use vstd::prelude::*;
use vstd::string::*;
use crate::error::{Error, Failure};
use crate::term::{closed_all, Closed, Function, Term};

verus! {

/// The bit pattern of the binary64 number nearest to the circle constant.
pub const PI: u64 = 0x4009_21FB_5444_2D18;

/// Mathematical model of a context: what each bound name stands for.
pub struct Bindings {
    pub vars: Map<Seq<char>, u64>,
    pub fns: Map<Seq<char>, Function>,
}

/// What the name is bound to, if it is bound.
pub open spec fn lookup<V>(m: Map<Seq<char>, V>, name: Seq<char>) -> Option<V> {
    if m.contains_key(name) {
        Some(m[name])
    } else {
        None
    }
}

/// The bindings that a list of definitions makes, the later ones first.
pub open spec fn table<V>(entries: Seq<(String, V)>) -> Map<Seq<char>, V>
    decreases entries.len(),
{
    if entries.len() == 0 {
        Map::empty()
    } else {
        table(entries.drop_last()).insert(entries.last().0@, entries.last().1)
    }
}

/// The standard functions under their names.
pub open spec fn builtins() -> Map<Seq<char>, Function> {
    Map::<Seq<char>, Function>::empty().insert("sin"@, Function::Sin).insert(
        "cos"@,
        Function::Cos,
    ).insert("tan"@, Function::Tan).insert("max"@, Function::Max).insert(
        "min"@,
        Function::Min,
    ).insert("ceil"@, Function::Ceil).insert("floor"@, Function::Floor).insert(
        "round"@,
        Function::Round,
    ).insert("cbrt"@, Function::Cbrt)
}

/// The standard context: the constant `PI` and the standard functions.
pub open spec fn standard() -> Bindings {
    Bindings { vars: Map::<Seq<char>, u64>::empty().insert("PI"@, PI), fns: builtins() }
}

/// What calling the function bound to `name` with the given arguments
/// yields: nothing where the name is unbound, the complaint where the
/// function refuses that many arguments, else the application.
pub open spec fn apply(b: Bindings, name: Seq<char>, args: Seq<Closed>) -> Option<
    Result<Closed, Failure>,
> {
    if b.fns.contains_key(name) {
        let function = b.fns[name];
        if function.accepts(args.len()) {
            Some(Ok(Closed::Apply { function, args }))
        } else {
            Some(Err(Failure::Other(function.complaint(args.len()))))
        }
    } else {
        None
    }
}

fn find<V: Copy>(entries: &Vec<(String, V)>, name: &str) -> (r: Option<V>)
    ensures
        r == lookup(table(entries@), name@),
{
    let key: String = name.to_owned();
    let mut i: usize = entries.len();
    assert(entries@.subrange(0, i as int) =~= entries@);
    while i > 0
        invariant
            i <= entries.len(),
            key@ == name@,
            lookup(table(entries@), name@) == lookup(
                table(entries@.subrange(0, i as int)),
                name@,
            ),
        decreases i,
    {
        assert(entries@.subrange(0, i as int).drop_last() =~= entries@.subrange(0, i - 1));
        i -= 1;
        if entries[i].0 == key {
            return Some(entries[i].1);
        }
    }
    None
}

/// An evaluation context with variables and functions.
#[derive(Debug)]
pub struct Interpreter {
    globals: Vec<(String, u64)>,
    fns: Vec<(String, Function)>,
}

impl View for Interpreter {
    type V = Bindings;

    closed spec fn view(&self) -> Bindings {
        Bindings { vars: table(self.globals@), fns: table(self.fns@) }
    }
}

impl Default for Interpreter {
    /// A context that binds nothing.
    fn default() -> (r: Interpreter)
        ensures
            r@ == (Bindings { vars: Map::empty(), fns: Map::empty() }),
    {
        Interpreter { globals: Vec::new(), fns: Vec::new() }
    }
}

impl Interpreter {
    /// The standard context.
    pub fn new() -> (r: Interpreter)
        ensures
            r@ == standard(),
    {
        let mut obj = Interpreter::bare();
        obj.define_var("PI".to_owned(), PI);
        obj
    }

    /// A context that binds the standard functions and no variable.
    pub(crate) fn bare() -> (r: Interpreter)
        ensures
            r@ == (Bindings { vars: Map::empty(), fns: builtins() }),
    {
        let mut obj = Interpreter::default();
        obj.define_fn("sin".to_owned(), Function::Sin);
        obj.define_fn("cos".to_owned(), Function::Cos);
        obj.define_fn("tan".to_owned(), Function::Tan);
        obj.define_fn("max".to_owned(), Function::Max);
        obj.define_fn("min".to_owned(), Function::Min);
        obj.define_fn("ceil".to_owned(), Function::Ceil);
        obj.define_fn("floor".to_owned(), Function::Floor);
        obj.define_fn("round".to_owned(), Function::Round);
        obj.define_fn("cbrt".to_owned(), Function::Cbrt);
        obj
    }

    /// Binds a variable to a value; an earlier binding of the name is
    /// replaced.
    pub fn define_var(&mut self, name: String, value: u64)
        ensures
            final(self)@.vars == old(self)@.vars.insert(name@, value),
            final(self)@.fns == old(self)@.fns,
    {
        assert(self.globals@.push((name, value)).drop_last() =~= self.globals@);
        self.globals.push((name, value));
    }

    /// Binds a function name; an earlier binding of the name is replaced.
    pub fn define_fn(&mut self, name: String, function: Function)
        ensures
            final(self)@.fns == old(self)@.fns.insert(name@, function),
            final(self)@.vars == old(self)@.vars,
    {
        assert(self.fns@.push((name, function)).drop_last() =~= self.fns@);
        self.fns.push((name, function));
    }

    /// The value of a variable, if the name is bound.
    pub fn get_var(&self, name: &str) -> (r: Option<u64>)
        ensures
            r == lookup(self@.vars, name@),
    {
        find(&self.globals, name)
    }

    /// Calls the function bound to `name` with the given arguments.
    pub fn call_fn(&self, name: &str, args: Vec<Term>) -> (r: Option<Result<Term, Error>>)
        ensures
            match r {
                None => apply(self@, name@, closed_all(args@)) is None,
                Some(Ok(t)) => apply(self@, name@, closed_all(args@)) == Some(
                    Ok::<Closed, Failure>(t@),
                ),
                Some(Err(e)) => apply(self@, name@, closed_all(args@)) == Some(
                    Err::<Closed, Failure>(e@),
                ),
            },
    {
        match find(&self.fns, name) {
            None => None,
            Some(function) => match function.check(args.len()) {
                Some(message) => Some(Err(Error::other(message))),
                None => {
                    let term = Term::Apply { function, args };
                    assert(term@->Apply_args =~= closed_all(args@));
                    Some(Ok(term))
                },
            },
        }
    }
}

} // verus!
