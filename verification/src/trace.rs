//! How the arguments of a tracing attribute reach the items below the item
//! that carries it, and which names they let through.

use vstd::prelude::*;

verus! {

/// The arguments of a tracing attribute, as they apply to an item: written
/// on the item itself, or passed down from an item around it.
#[derive(Debug)]
pub enum AttrApplication<A> {
    Directly(A),
    Indirectly(A),
}

/// Whether the value of an argument is printed, or only its name.
#[derive(Debug)]
pub enum Inclusion<T> {
    Value(T),
    Skip(T),
}

impl<A> AttrApplication<A> {
    /// The arguments themselves.
    pub open spec fn args(self) -> A {
        match self {
            AttrApplication::Directly(args) => args,
            AttrApplication::Indirectly(args) => args,
        }
    }

    /// The same arguments one level further down, where they no longer
    /// apply directly.
    pub fn demote(self) -> (r: Self)
        ensures
            r == AttrApplication::Indirectly(self.args()),
    {
        match self {
            AttrApplication::Directly(args) => AttrApplication::Indirectly(args),
            AttrApplication::Indirectly(args) => AttrApplication::Indirectly(args),
        }
    }

    pub fn is_direct(&self) -> (r: bool)
        ensures
            r == (*self is Directly),
    {
        match self {
            AttrApplication::Directly(_) => true,
            AttrApplication::Indirectly(_) => false,
        }
    }

    /// The arguments, whichever way they apply.
    pub fn deref(&self) -> (r: &A)
        ensures
            *r == self.args(),
    {
        match self {
            AttrApplication::Directly(attr) => attr,
            AttrApplication::Indirectly(attr) => attr,
        }
    }
}

/// Which names a tracing attribute applies to: only those that it lists, or
/// all but those.
#[derive(Debug)]
pub enum Filter {
    Enable(Vec<String>),
    Disable(Vec<String>),
}

/// `name` is one of `names`.
pub open spec fn lists(names: Seq<String>, name: Seq<char>) -> bool {
    exists|i: int| 0 <= i < names.len() && (#[trigger] names[i])@ == name
}

/// Whether `name` is one of `names`.
pub fn is_listed(names: &Vec<String>, name: &String) -> (r: bool)
    ensures
        r == lists(names@, name@),
{
    let mut i: usize = 0;
    while i < names.len()
        invariant
            i <= names.len(),
            forall|j: int| 0 <= j < i ==> (#[trigger] names[j])@ != name@,
        decreases names.len() - i,
    {
        if names[i] == *name {
            return true;
        }
        i = i + 1;
    }
    false
}

impl Filter {
    /// The names that the filter lets through.
    pub open spec fn passes(self, name: Seq<char>) -> bool {
        match self {
            Filter::Enable(names) => lists(names@, name),
            Filter::Disable(names) => !lists(names@, name),
        }
    }

    /// Whether the filter lets `name` through.
    pub fn lets_through(&self, name: &String) -> (r: bool)
        ensures
            r == self.passes(name@),
    {
        match self {
            Filter::Enable(names) => is_listed(names, name),
            Filter::Disable(names) => !is_listed(names, name),
        }
    }
}

/// Some attribute that applies directly stops `name`.
pub open spec fn is_stopped(attrs: Seq<AttrApplication<Filter>>, name: Seq<char>) -> bool {
    exists|i: int|
        0 <= i < attrs.len() && (#[trigger] attrs[i]) is Directly && !attrs[i].args().passes(name)
}

/// How an argument with the given name is traced: by name alone if an
/// attribute that applies directly stops it, and with its value if none
/// does.
pub fn inclusion_of(attrs: &[AttrApplication<Filter>], name: String) -> (r: Inclusion<String>)
    ensures
        is_stopped(attrs@, name@) ==> r == Inclusion::Skip(name),
        !is_stopped(attrs@, name@) ==> r == Inclusion::Value(name),
{
    let mut i: usize = 0;
    while i < attrs.len()
        invariant
            i <= attrs.len(),
            forall|j: int|
                0 <= j < i ==> !((#[trigger] attrs[j]) is Directly && !attrs[j].args().passes(
                    name@,
                )),
        decreases attrs.len() - i,
    {
        if attrs[i].is_direct() && !attrs[i].deref().lets_through(&name) {
            return Inclusion::Skip(name);
        }
        i = i + 1;
    }
    Inclusion::Value(name)
}

/// What `create_context` hands to an item: the arguments of the items around
/// it, all indirect and in their order, then the item's own, if it has any.
pub open spec fn context_of<A>(given: Seq<AttrApplication<A>>, local: Option<A>) -> Seq<
    AttrApplication<A>,
> {
    let passed = Seq::new(given.len(), |i: int| AttrApplication::Indirectly(given[i].args()));
    match local {
        Some(args) => passed.push(AttrApplication::Directly(args)),
        None => passed,
    }
}

/// The arguments that apply to an item below: those given from above,
/// demoted, and the item's own.
pub fn create_context<A>(given: Vec<AttrApplication<A>>, local: Option<A>) -> (r: Vec<
    AttrApplication<A>,
>)
    ensures
        r@ == context_of(given@, local),
{
    let ghost all = given@;
    let mut given = given;
    let mut reversed: Vec<AttrApplication<A>> = Vec::new();
    while given.len() > 0
        invariant
            given.len() + reversed.len() == all.len(),
            forall|i: int| 0 <= i < given.len() ==> given[i] == all[i],
            forall|i: int|
                0 <= i < reversed.len() ==> #[trigger] reversed[i] == AttrApplication::Indirectly(
                    all[all.len() - 1 - i].args(),
                ),
        decreases given.len(),
    {
        match given.pop() {
            Some(attr) => {
                reversed.push(attr.demote());
            },
            None => {},
        }
    }
    let mut context: Vec<AttrApplication<A>> = Vec::new();
    while reversed.len() > 0
        invariant
            context.len() + reversed.len() == all.len(),
            forall|i: int|
                0 <= i < reversed.len() ==> #[trigger] reversed[i] == AttrApplication::Indirectly(
                    all[all.len() - 1 - i].args(),
                ),
            forall|i: int|
                0 <= i < context.len() ==> #[trigger] context[i] == AttrApplication::Indirectly(
                    all[i].args(),
                ),
        decreases reversed.len(),
    {
        match reversed.pop() {
            Some(attr) => {
                context.push(attr);
            },
            None => {},
        }
    }
    assert(context@ =~= Seq::new(all.len(), |i: int| AttrApplication::Indirectly(all[i].args())));
    match local {
        Some(args) => {
            context.push(AttrApplication::Directly(args));
        },
        None => {},
    }
    context
}

} // verus!
