use vstd::prelude::*;

verus! {

/// Long-form help of a command: a fixed text, or a producer that builds it on demand.
pub enum LongHelp<F> {
    Static(String),
    Dynamic(F),
}

/// Metadata of one invocable command.
pub struct CommandDescriptor<F> {
    pub name: String,
    pub category: Option<String>,
    pub short_help: Option<String>,
    pub long_help: Option<LongHelp<F>>,
    pub hidden: bool,
}

/// The names of a registry, as character sequences.
pub open spec fn names_of(names: Seq<String>) -> Seq<Seq<char>> {
    names.map_values(|s: String| s@)
}

/// `i` is the position of the first descriptor named `name`.
pub open spec fn is_first_named<F>(reg: Seq<CommandDescriptor<F>>, name: Seq<char>, i: int) -> bool {
    &&& 0 <= i < reg.len()
    &&& reg[i].name@ == name
    &&& forall|j: int| 0 <= j < i ==> reg[j].name@ != name
}

/// No descriptor of the registry is named `name`.
pub open spec fn is_unknown<F>(reg: Seq<CommandDescriptor<F>>, name: Seq<char>) -> bool {
    forall|j: int| 0 <= j < reg.len() ==> reg[j].name@ != name
}

/// Position of the first descriptor named `name`, if any.
pub fn find_command<F>(registry: &Vec<CommandDescriptor<F>>, name: &String) -> (r: Option<usize>)
    ensures
        match r {
            Some(i) => is_first_named(registry@, name@, i as int),
            None => is_unknown(registry@, name@),
        },
{
    let mut i: usize = 0;
    while i < registry.len()
        invariant
            i <= registry@.len(),
            forall|j: int| 0 <= j < i ==> registry@[j].name@ != name@,
        decreases registry@.len() - i,
    {
        if registry[i].name == *name {
            return Some(i);
        }
        i = i + 1;
    }
    None
}

/// Whether `name` is among `names`.
pub fn contains_name(names: &Vec<String>, name: &String) -> (r: bool)
    ensures
        r == names_of(names@).contains(name@),
{
    let mut i: usize = 0;
    while i < names.len()
        invariant
            i <= names@.len(),
            forall|j: int| 0 <= j < i ==> names@[j]@ != name@,
        decreases names@.len() - i,
    {
        if names[i] == *name {
            assert(names_of(names@)[i as int] == name@);
            return true;
        }
        i = i + 1;
    }
    assert(!names_of(names@).contains(name@)) by {
        if names_of(names@).contains(name@) {
            let k = choose|k: int| 0 <= k < names_of(names@).len() && names_of(names@)[k] == name@;
            assert(names@[k]@ == name@);
        }
    }
    false
}

} // verus!
