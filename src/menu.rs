use vstd::prelude::*;
use crate::command::{CommandDescriptor, contains_name, names_of};
use crate::groups::{
    CategoryKey, Group, grouped, into_groups, lemma_grouping, new_groups, push_to_group,
};

verus! {

/// Category keys of a registry, in registry order.
pub open spec fn keys_of<F>(reg: Seq<CommandDescriptor<F>>) -> Seq<CategoryKey> {
    reg.map_values(|d: CommandDescriptor<F>| d.category.deep_view())
}

/// The positions of `idx` whose descriptor is not hidden, in order.
pub open spec fn visible_indices<F>(reg: Seq<CommandDescriptor<F>>, idx: Seq<usize>) -> Seq<usize>
    decreases idx.len(),
{
    if idx.len() == 0 {
        Seq::empty()
    } else {
        let rest = visible_indices(reg, idx.drop_last());
        if reg[idx.last() as int].hidden {
            rest
        } else {
            rest.push(idx.last())
        }
    }
}

/// The groups as the menu shows them: hidden descriptors dropped, then empty groups dropped.
pub open spec fn sections<F>(reg: Seq<CommandDescriptor<F>>, gs: Seq<Group>) -> Seq<Group>
    decreases gs.len(),
{
    if gs.len() == 0 {
        Seq::empty()
    } else {
        let rest = sections(reg, gs.drop_last());
        let v = visible_indices(reg, gs.last().1);
        if v.len() == 0 {
            rest
        } else {
            rest.push((gs.last().0, v))
        }
    }
}

/// Marker of a menu line: `/` for a command also offered as a slash command, else `?`.
pub open spec fn marker_of(name: Seq<char>, slash: Seq<Seq<char>>) -> char {
    if slash.contains(name) {
        '/'
    } else {
        '?'
    }
}

/// A name padded with spaces to at least twelve characters.
pub open spec fn padded(name: Seq<char>) -> Seq<char> {
    if name.len() >= 12 {
        name
    } else {
        name + Seq::new((12 - name.len()) as nat, |_i: int| ' ')
    }
}

/// Short help of a descriptor, empty where it has none.
pub open spec fn short_or_empty<F>(d: CommandDescriptor<F>) -> Seq<char> {
    match d.short_help {
        Some(s) => s@,
        None => Seq::empty(),
    }
}

/// The menu line of one descriptor.
pub open spec fn item_line<F>(d: CommandDescriptor<F>, slash: Seq<Seq<char>>) -> Seq<char> {
    "  "@ + seq![marker_of(d.name@, slash)] + padded(d.name@) + short_or_empty(d) + "\n"@
}

/// The header line of a category; commands without one go under "Commands".
pub open spec fn header(k: CategoryKey) -> Seq<char> {
    let label = match k {
        Some(c) => c,
        None => "Commands"@,
    };
    label + ":\n"@
}

/// The lines of the descriptors at positions `idx`.
pub open spec fn lines_text<F>(reg: Seq<CommandDescriptor<F>>, slash: Seq<Seq<char>>, idx: Seq<usize>) -> Seq<char>
    decreases idx.len(),
{
    if idx.len() == 0 {
        Seq::empty()
    } else {
        lines_text(reg, slash, idx.drop_last()) + item_line(reg[idx.last() as int], slash)
    }
}

/// Each section as its header followed by its lines.
pub open spec fn sections_text<F>(reg: Seq<CommandDescriptor<F>>, slash: Seq<Seq<char>>, ss: Seq<Group>) -> Seq<char>
    decreases ss.len(),
{
    if ss.len() == 0 {
        Seq::empty()
    } else {
        sections_text(reg, slash, ss.drop_last()) + header(ss.last().0) + lines_text(reg, slash, ss.last().1)
    }
}

/// The closing lines of the menu.
pub open spec fn menu_footer() -> Seq<char> {
    "\nType ?help command for more info on a command."@
        + "\nYou can edit your message to the bot and the bot will edit its response."@ + "\n```"@
}

/// The full menu: a preformatted block of the visible commands by category, then the footer.
pub open spec fn menu_text<F>(reg: Seq<CommandDescriptor<F>>, slash: Seq<Seq<char>>) -> Seq<char> {
    "```\n"@ + sections_text(reg, slash, sections(reg, grouped(keys_of(reg)))) + menu_footer()
}

/// Marker of the menu line of the command `name`.
pub fn marker(name: &String, slash_names: &Vec<String>) -> (r: char)
    ensures
        r == marker_of(name@, names_of(slash_names@)),
        r == '/' || r == '?',
{
    if contains_name(slash_names, name) {
        '/'
    } else {
        '?'
    }
}

/// Menu line of one descriptor.
pub fn menu_line<F>(d: &CommandDescriptor<F>, slash_names: &Vec<String>) -> (r: String)
    ensures
        r@ == item_line(*d, names_of(slash_names@)),
{
    proof {
        reveal_strlit("/");
        reveal_strlit("?");
        reveal_strlit(" ");
    }
    let mut r = String::from_str("  ");
    let m = marker(&d.name, slash_names);
    if m == '/' {
        r.append("/");
    } else {
        r.append("?");
    }
    let ghost before = r@;
    r.append(d.name.as_str());
    let len = d.name.as_str().unicode_len();
    let mut n: usize = len;
    while n < 12
        invariant
            len == d.name@.len(),
            len <= n,
            n <= 12 || n == len,
            r@ == before + d.name@ + Seq::new((n - len) as nat, |_i: int| ' '),
        decreases 12 - n,
    {
        let ghost prev = r@;
        r.append(" ");
        proof {
            reveal_strlit(" ");
            assert(r@ == prev + seq![' ']);
        }
        n = n + 1;
        assert(r@ =~= before + d.name@ + Seq::new((n - len) as nat, |_i: int| ' '));
    }
    assert(before + d.name@ + Seq::new((n - len) as nat, |_i: int| ' ') =~= before + padded(d.name@));
    match &d.short_help {
        Some(s) => r.append(s.as_str()),
        None => {},
    }
    r.append("\n");
    assert(r@ =~= item_line(*d, names_of(slash_names@)));
    r
}

/// Copy of a category label.
fn copy_category(c: &Option<String>) -> (r: Option<String>)
    ensures
        r.deep_view() == c.deep_view(),
{
    match c {
        Some(s) => Some(s.clone()),
        None => None,
    }
}

/// The full menu of the registry's visible commands.
pub fn menu<F>(registry: &Vec<CommandDescriptor<F>>, slash_names: &Vec<String>) -> (r: String)
    ensures
        r@ == menu_text(registry@, names_of(slash_names@)),
{
    let ghost reg = registry@;
    let ghost slash = names_of(slash_names@);
    let ghost keys = keys_of(reg);
    let mut groups = new_groups();
    let mut i: usize = 0;
    while i < registry.len()
        invariant
            i <= reg.len(),
            reg == registry@,
            keys == keys_of(reg),
            crate::groups::groups_of(groups) == grouped(keys.take(i as int)),
        decreases reg.len() - i,
    {
        let key = copy_category(&registry[i].category);
        push_to_group(&mut groups, key, i);
        assert(keys.take(i + 1).drop_last() =~= keys.take(i as int));
        i = i + 1;
    }
    assert(keys.take(reg.len() as int) =~= keys);
    let ghost gs = grouped(keys);
    proof {
        lemma_grouping(keys);
    }
    let entries = into_groups(groups);
    let mut out = String::from_str("```\n");
    let mut k: usize = 0;
    while k < entries.len()
        invariant
            k <= entries@.len(),
            entries@.len() == gs.len(),
            reg == registry@,
            slash == names_of(slash_names@),
            forall|a: int|
                0 <= a < entries@.len() ==> (#[trigger] entries@[a]).0.deep_view() == gs[a].0
                    && entries@[a].1@ == gs[a].1,
            forall|a: int, t: int|
                0 <= a < gs.len() && 0 <= t < gs[a].1.len() ==> (#[trigger] gs[a].1[t]) < reg.len(),
            out@ == "```\n"@ + sections_text(reg, slash, sections(reg, gs.take(k as int))),
        decreases entries@.len() - k,
    {
        let (category, idx) = &entries[k];
        let mut lines = String::new();
        let mut any = false;
        let mut t: usize = 0;
        while t < idx.len()
            invariant
                t <= idx@.len(),
                idx@ == gs[k as int].1,
                reg == registry@,
                slash == names_of(slash_names@),
                forall|u: int| 0 <= u < idx@.len() ==> (#[trigger] idx@[u]) < reg.len(),
                lines@ == lines_text(reg, slash, visible_indices(reg, idx@.take(t as int))),
                any == (visible_indices(reg, idx@.take(t as int)).len() > 0),
            decreases idx@.len() - t,
        {
            let j = idx[t];
            let ghost v = visible_indices(reg, idx@.take(t as int));
            assert(idx@.take(t + 1).drop_last() =~= idx@.take(t as int));
            assert(idx@.take(t + 1).last() == j);
            assert(v.push(j).drop_last() =~= v);
            if !registry[j].hidden {
                let line = menu_line(&registry[j], slash_names);
                lines.append(line.as_str());
                any = true;
            }
            t = t + 1;
        }
        assert(idx@.take(idx@.len() as int) =~= idx@);
        assert(gs.take(k + 1).drop_last() =~= gs.take(k as int));
        if any {
            let ghost ss = sections(reg, gs.take(k as int));
            let ghost v = visible_indices(reg, gs[k as int].1);
            assert(sections(reg, gs.take(k + 1)) == ss.push((gs[k as int].0, v)));
            assert(ss.push((gs[k as int].0, v)).drop_last() =~= ss);
            match category {
                Some(c) => out.append(c.as_str()),
                None => out.append("Commands"),
            }
            out.append(":\n");
            out.append(lines.as_str());
        }
        k = k + 1;
    }
    assert(gs.take(gs.len() as int) =~= gs);
    out.append("\nType ?help command for more info on a command.");
    out.append("\nYou can edit your message to the bot and the bot will edit its response.");
    out.append("\n```");
    out
}

} // verus!
