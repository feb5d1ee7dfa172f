use vstd::prelude::*;
use crate::command::{CommandDescriptor, LongHelp, find_command, is_first_named, is_unknown, names_of};
use crate::groups::grouped;
use crate::menu::{keys_of, menu, menu_text, sections, visible_indices};

verus! {

/// Text shown for a command that has neither long nor short help.
pub open spec fn no_help_text() -> Seq<char> {
    "No help available"@
}

/// Reply to a help query naming no known command.
pub open spec fn no_such_command_text(name: Seq<char>) -> Seq<char> {
    "No such command `"@ + name + "`"@
}

/// `r` is the help text of descriptor `d`: its long help when present (the
/// producer's output for a dynamic one), else its short help, else the fallback.
pub open spec fn is_help_of<F: Fn() -> String>(d: CommandDescriptor<F>, r: String) -> bool {
    match d.long_help {
        Some(LongHelp::Static(s)) => r@ == s@,
        Some(LongHelp::Dynamic(f)) => call_ensures(f, (), r),
        None => match d.short_help {
            Some(s) => r@ == s@,
            None => r@ == no_help_text(),
        },
    }
}

/// Every dynamic producer of the registry may be called.
pub open spec fn producers_callable<F: Fn() -> String>(reg: Seq<CommandDescriptor<F>>) -> bool {
    forall|i: int|
        0 <= i < reg.len() ==> match #[trigger] reg[i].long_help {
            Some(LongHelp::Dynamic(f)) => call_requires(f, ()),
            _ => true,
        }
}

/// Help text of one descriptor.
pub fn command_help<F: Fn() -> String>(d: &CommandDescriptor<F>) -> (r: String)
    requires
        match d.long_help {
            Some(LongHelp::Dynamic(f)) => call_requires(f, ()),
            _ => true,
        },
    ensures
        is_help_of(*d, r),
{
    match &d.long_help {
        Some(LongHelp::Static(s)) => s.clone(),
        Some(LongHelp::Dynamic(f)) => f(),
        None => match &d.short_help {
            Some(s) => s.clone(),
            None => String::from_str("No help available"),
        },
    }
}

/// Help for the command named `name`, or a message saying that no such command exists.
pub fn command_query<F: Fn() -> String>(registry: &Vec<CommandDescriptor<F>>, name: &String) -> (r: String)
    requires
        producers_callable(registry@),
    ensures
        forall|i: int| is_first_named(registry@, name@, i) ==> is_help_of(registry@[i], r),
        is_unknown(registry@, name@) ==> r@ == no_such_command_text(name@),
{
    match find_command(registry, name) {
        Some(i) => {
            assert(match registry@[i as int].long_help {
                Some(LongHelp::Dynamic(f)) => call_requires(f, ()),
                _ => true,
            });
            command_help(&registry[i])
        },
        None => {
            let mut r = String::from_str("No such command `");
            r.append(name.as_str());
            r.append("`");
            r
        },
    }
}

/// The help reply: for a named command its help text, or a message that it does not
/// exist; with no name, the full menu.
pub fn help<F: Fn() -> String>(
    registry: &Vec<CommandDescriptor<F>>,
    slash_names: &Vec<String>,
    command: Option<String>,
) -> (r: String)
    requires
        producers_callable(registry@),
    ensures
        match command {
            Some(name) => {
                &&& forall|i: int| is_first_named(registry@, name@, i) ==> is_help_of(registry@[i], r)
                &&& is_unknown(registry@, name@) ==> r@ == no_such_command_text(name@)
            },
            None => r@ == menu_text(registry@, names_of(slash_names@)),
        },
{
    match command {
        Some(name) => command_query(registry, &name),
        None => menu(registry, slash_names),
    }
}

/// The help of a command does not depend on whether it is hidden from the menu.
pub proof fn lemma_help_ignores_hidden<F: Fn() -> String>(d: CommandDescriptor<F>, r: String)
    ensures
        is_help_of(d, r) == is_help_of(CommandDescriptor { hidden: !d.hidden, ..d }, r),
{
}

/// The reply to an unknown name holds that name verbatim, and nothing of any descriptor.
pub proof fn lemma_unknown_name_echoed(name: Seq<char>)
    ensures
        no_such_command_text(name).subrange(17, 17 + name.len() as int) == name,
        no_such_command_text(name).len() == name.len() + 18,
{
    reveal_strlit("No such command `");
    reveal_strlit("`");
    assert(no_such_command_text(name).subrange(17, 17 + name.len() as int) =~= name);
}

/// Every position kept by `visible_indices` is a visible one taken from `idx`.
pub proof fn lemma_visible_indices<F>(reg: Seq<CommandDescriptor<F>>, idx: Seq<usize>)
    ensures
        forall|u: int|
            0 <= u < visible_indices(reg, idx).len() ==> !reg[(#[trigger] visible_indices(reg, idx)[u]) as int].hidden
                && idx.contains(visible_indices(reg, idx)[u]),
    decreases idx.len(),
{
    if idx.len() > 0 {
        lemma_visible_indices(reg, idx.drop_last());
        let rest = visible_indices(reg, idx.drop_last());
        assert forall|u: int| 0 <= u < rest.len() implies idx.contains(#[trigger] rest[u]) by {
            let w = choose|w: int| 0 <= w < idx.drop_last().len() && idx.drop_last()[w] == rest[u];
            assert(idx[w] == rest[u]);
        }
        assert(idx[idx.len() - 1] == idx.last());
    }
}

/// The full menu lists no hidden descriptor: every position in every section is visible.
pub proof fn lemma_menu_skips_hidden<F>(reg: Seq<CommandDescriptor<F>>)
    ensures
        ({
            let ss = sections(reg, grouped(keys_of(reg)));
            forall|k: int, t: int|
                0 <= k < ss.len() && 0 <= t < ss[k].1.len() ==> !reg[(#[trigger] ss[k].1[t]) as int].hidden
        }),
{
    lemma_sections_visible(reg, grouped(keys_of(reg)));
}

proof fn lemma_sections_visible<F>(reg: Seq<CommandDescriptor<F>>, gs: Seq<crate::groups::Group>)
    ensures
        ({
            let ss = sections(reg, gs);
            forall|k: int, t: int|
                0 <= k < ss.len() && 0 <= t < ss[k].1.len() ==> !reg[(#[trigger] ss[k].1[t]) as int].hidden
        }),
    decreases gs.len(),
{
    if gs.len() > 0 {
        lemma_sections_visible(reg, gs.drop_last());
        lemma_visible_indices(reg, gs.last().1);
    }
}

} // verus!
