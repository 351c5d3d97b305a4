//! The declared types of the SSA variables of a function being translated: a variable is
//! declared once, with its type, before it is used.

use vstd::prelude::*;

verus! {

/// An SSA variable of the function being translated, by index.
#[derive(Debug, Clone, Copy, PartialEq, Eq, Hash)]
pub struct Variable(pub u32);

/// An error encountered when using a variable.
#[derive(Debug, Copy, Clone, PartialEq, Eq)]
pub enum UseVariableError {
    /// The variable is used before its declaration.
    UsedBeforeDeclared(Variable),
}

/// An error encountered when declaring a variable.
#[derive(Debug, Copy, Clone, PartialEq, Eq)]
pub enum DeclareVariableError {
    /// The variable is already declared.
    DeclaredMultipleTimes(Variable),
}

/// The declared types of a function's variables, indexed by variable. Entries up to the
/// highest variable ever declared exist; an entry without a type is an undeclared variable.
pub struct VariableTypes<T> {
    types: Vec<Option<T>>,
}

/// The entries of a table after declaring variable `v` with type `ty`: the table grows with
/// undeclared entries up to `v`, whose entry becomes `ty`.
pub open spec fn spec_declare<T>(types: Seq<Option<T>>, v: nat, ty: T) -> Seq<Option<T>> {
    if v < types.len() {
        types.update(v as int, Some(ty))
    } else {
        (types + Seq::new((v - types.len()) as nat, |i: int| None::<T>)).push(Some(ty))
    }
}

/// Whether variable `v` is declared in a table.
pub open spec fn spec_declared<T>(types: Seq<Option<T>>, v: nat) -> bool {
    v < types.len() && types[v as int] is Some
}

impl<T> View for VariableTypes<T> {
    type V = Seq<Option<T>>;

    closed spec fn view(&self) -> Seq<Option<T>> {
        self.types@
    }
}

impl<T> VariableTypes<T> {
    /// An empty table: no variable is declared.
    pub fn new() -> (r: Self)
        ensures
            r@ == Seq::<Option<T>>::empty(),
    {
        VariableTypes { types: Vec::new() }
    }

    /// Records the type of `var`, growing the table as needed.
    fn set_type(&mut self, var: Variable, ty: T)
        requires
            var.0 < u32::MAX,
        ensures
            final(self)@ == spec_declare(old(self)@, var.0 as nat, ty),
    {
        let index = var.0 as usize;
        if index < self.types.len() {
            self.types.set(index, Some(ty));
        } else {
            let ghost start = self.types@;
            while self.types.len() < index
                invariant
                    start.len() <= self.types@.len() <= index,
                    self.types@ == start + Seq::new(
                        (self.types@.len() - start.len()) as nat,
                        |i: int| None::<T>,
                    ),
                decreases index - self.types@.len(),
            {
                let ghost before = self.types@;
                self.types.push(None);
                assert(self.types@ =~= start + Seq::new(
                    (self.types@.len() - start.len()) as nat,
                    |i: int| None::<T>,
                ));
            }
            self.types.push(Some(ty));
        }
    }

    /// The declared type of a variable, if it is declared.
    pub fn variable_type(&self, var: Variable) -> (r: Option<&T>)
        ensures
            match r {
                Some(t) => spec_declared(self@, var.0 as nat) && self@[var.0 as int] == Some(*t),
                None => !spec_declared(self@, var.0 as nat),
            },
    {
        let index = var.0 as usize;
        if index < self.types.len() {
            match &self.types[index] {
                Some(t) => Some(t),
                None => None,
            }
        } else {
            None
        }
    }

    /// Declares the type of a variable, so that it can be used later. Returns an error, and
    /// changes nothing, if the variable has been declared before.
    pub fn try_declare_var(&mut self, var: Variable, ty: T) -> (r: Result<(), DeclareVariableError>)
        requires
            var.0 < u32::MAX,
        ensures
            spec_declared(old(self)@, var.0 as nat) ==> r == Err::<(), DeclareVariableError>(
                DeclareVariableError::DeclaredMultipleTimes(var),
            ) && final(self)@ == old(self)@,
            !spec_declared(old(self)@, var.0 as nat) ==> r is Ok && final(self)@ == spec_declare(
                old(self)@,
                var.0 as nat,
                ty,
            ),
    {
        let index = var.0 as usize;
        if index < self.types.len() && self.types[index].is_some() {
            return Err(DeclareVariableError::DeclaredMultipleTimes(var));
        }
        self.set_type(var, ty);
        Ok(())
    }

    /// Declares the type of a variable that must not have been declared before.
    pub fn declare_var(&mut self, var: Variable, ty: T)
        requires
            var.0 < u32::MAX,
            !spec_declared(old(self)@, var.0 as nat),
        ensures
            final(self)@ == spec_declare(old(self)@, var.0 as nat, ty),
    {
        let _ = self.try_declare_var(var, ty);
    }

    /// Declares the type of a variable unless it is already declared, in which case nothing
    /// changes.
    pub fn declare_var_only(&mut self, var: Variable, ty: T)
        requires
            var.0 < u32::MAX,
        ensures
            spec_declared(old(self)@, var.0 as nat) ==> final(self)@ == old(self)@,
            !spec_declared(old(self)@, var.0 as nat) ==> final(self)@ == spec_declare(
                old(self)@,
                var.0 as nat,
                ty,
            ),
    {
        let index = var.0 as usize;
        if index < self.types.len() && self.types[index].is_some() {
            return;
        }
        self.set_type(var, ty);
    }

    /// The declared type of a variable about to be used: an error when the table has no entry
    /// for it. A variable with an entry must be declared.
    pub fn try_use_var_type(&self, var: Variable) -> (r: Result<&T, UseVariableError>)
        requires
            (var.0 as nat) < self@.len() ==> spec_declared(self@, var.0 as nat),
        ensures
            match r {
                Ok(t) => spec_declared(self@, var.0 as nat) && self@[var.0 as int] == Some(*t),
                Err(e) => e == UseVariableError::UsedBeforeDeclared(var) && !spec_declared(
                    self@,
                    var.0 as nat,
                ),
            },
    {
        let index = var.0 as usize;
        if index < self.types.len() {
            match &self.types[index] {
                Some(t) => Ok(t),
                None => Err(UseVariableError::UsedBeforeDeclared(var)),
            }
        } else {
            Err(UseVariableError::UsedBeforeDeclared(var))
        }
    }
}

/// A declared variable has the type it was declared with (so declaring it again is refused, and
/// using it gives that type), and declaring a variable leaves the declarations of the other
/// variables as they were.
pub proof fn lemma_declare_then_use<T>(types: Seq<Option<T>>, v: nat, ty: T, w: nat)
    ensures
        spec_declared(spec_declare(types, v, ty), v),
        spec_declare(types, v, ty)[v as int] == Some(ty),
        w != v ==> (spec_declared(spec_declare(types, v, ty), w) == spec_declared(types, w)),
        w != v && spec_declared(types, w) ==> spec_declare(types, v, ty)[w as int] == types[w as int],
{
    if v >= types.len() && w != v && w < spec_declare(types, v, ty).len() {
        if w >= types.len() {
            assert(spec_declare(types, v, ty)[w as int] == None::<T>);
        }
    }
}

} // verus!
