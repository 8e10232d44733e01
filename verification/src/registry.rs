use vstd::prelude::*;

use crate::text::{dashes, pad_right, push_padded, repeat, str_equal};
use vstd::string::StringExecFns;

verus! {

/// A tool of the server: its name, its group, and whether it is enabled
/// when no option says otherwise.
#[derive(Clone, Copy, Debug)]
pub struct ToolInfo {
    pub name: &'static str,
    pub group: &'static str,
    pub enabled_by_default: bool,
}

/// Every tool, in listing order.
pub open spec fn registry() -> Seq<(Seq<char>, Seq<char>, bool)> {
    seq![
        ("list_libraries"@, "default"@, true),
        ("search_library"@, "default"@, true),
        ("get_library_items"@, "default"@, true),
        ("get_item"@, "default"@, true),
        ("get_in_progress"@, "default"@, true),
        ("get_listening_stats"@, "default"@, true),
        ("get_recent_sessions"@, "default"@, true),
        ("get_metadata_object"@, "metadata"@, true),
        ("find_items_missing_metadata"@, "metadata"@, true),
        ("update_progress"@, "progress"@, false),
        ("create_bookmark"@, "progress"@, false),
        ("delete_bookmark"@, "progress"@, false),
        ("quick_match_item"@, "metadata"@, false),
        ("batch_quick_match_items"@, "metadata"@, false),
        ("batch_update_metadata"@, "metadata"@, false),
    ]
}

pub open spec fn info_model(t: ToolInfo) -> (Seq<char>, Seq<char>, bool) {
    (t.name@, t.group@, t.enabled_by_default)
}

pub open spec fn infos_model(v: Seq<ToolInfo>) -> Seq<(Seq<char>, Seq<char>, bool)> {
    Seq::new(v.len(), |i: int| info_model(v[i]))
}

pub open spec fn strs_model(v: Seq<String>) -> Seq<Seq<char>> {
    Seq::new(v.len(), |i: int| v[i]@)
}

pub open spec fn names_model(v: Seq<&'static str>) -> Seq<Seq<char>> {
    Seq::new(v.len(), |i: int| v[i]@)
}

/// Whether `name` is the name of a tool.
pub open spec fn is_tool(name: Seq<char>) -> bool {
    exists|i: int| 0 <= i < registry().len() && #[trigger] registry()[i].0 == name
}

/// Whether `name` is the name of a tool that is enabled by default.
pub open spec fn enabled_by_default(name: Seq<char>) -> bool {
    exists|i: int| 0 <= i < registry().len() && #[trigger] registry()[i].0 == name && registry()[i].2
}

/// Whether a tool is enabled: it is enabled by default or named by an
/// enable option, and no disable option names it.  Names of unknown tools
/// given to an enable option count as enabled.
pub open spec fn tool_enabled(name: Seq<char>, enable: Seq<Seq<char>>, disable: Seq<Seq<char>>) -> bool {
    (enabled_by_default(name) || enable.contains(name)) && !disable.contains(name)
}

fn tool(name: &'static str, group: &'static str, enabled_by_default: bool) -> (r: ToolInfo)
    ensures
        info_model(r) == (name@, group@, enabled_by_default),
{
    ToolInfo { name, group, enabled_by_default }
}

/// Every tool, in listing order.
pub fn tool_registry() -> (r: Vec<ToolInfo>)
    ensures
        infos_model(r@) == registry(),
{
    let mut v: Vec<ToolInfo> = Vec::new();
    v.push(tool("list_libraries", "default", true));
    v.push(tool("search_library", "default", true));
    v.push(tool("get_library_items", "default", true));
    v.push(tool("get_item", "default", true));
    v.push(tool("get_in_progress", "default", true));
    v.push(tool("get_listening_stats", "default", true));
    v.push(tool("get_recent_sessions", "default", true));
    v.push(tool("get_metadata_object", "metadata", true));
    v.push(tool("find_items_missing_metadata", "metadata", true));
    v.push(tool("update_progress", "progress", false));
    v.push(tool("create_bookmark", "progress", false));
    v.push(tool("delete_bookmark", "progress", false));
    v.push(tool("quick_match_item", "metadata", false));
    v.push(tool("batch_quick_match_items", "metadata", false));
    v.push(tool("batch_update_metadata", "metadata", false));
    assert(infos_model(v@) =~= registry());
    v
}

/// Whether `name` names a tool.
pub fn is_known_tool(name: &str) -> (r: bool)
    ensures
        r == is_tool(name@),
{
    let tools = tool_registry();
    let mut i: usize = 0;
    while i < tools.len()
        invariant
            i <= tools@.len(),
            infos_model(tools@) == registry(),
            forall|j: int| 0 <= j < i ==> registry()[j].0 != name@,
        decreases tools@.len() - i,
    {
        assert(info_model(tools@[i as int]) == registry()[i as int]);
        if str_equal(tools[i].name, name) {
            assert(registry()[i as int].0 == name@);
            return true;
        }
        i = i + 1;
    }
    assert(tools@.len() == registry().len());
    false
}

fn contains_name(list: &Vec<String>, name: &str) -> (r: bool)
    ensures
        r == strs_model(list@).contains(name@),
{
    let mut i: usize = 0;
    while i < list.len()
        invariant
            i <= list@.len(),
            forall|j: int| 0 <= j < i ==> list@[j]@ != name@,
        decreases list@.len() - i,
    {
        if str_equal(list[i].as_str(), name) {
            assert(strs_model(list@)[i as int] == name@);
            return true;
        }
        i = i + 1;
    }
    assert forall|j: int| 0 <= j < strs_model(list@).len() implies strs_model(list@)[j] != name@ by {
        assert(strs_model(list@)[j] == list@[j]@);
    }
    false
}

/// Adds `name` to a list of distinct names unless it is there.
fn add_name(list: &mut Vec<String>, name: &str)
    requires
        strs_model(old(list)@).no_duplicates(),
    ensures
        strs_model(final(list)@).no_duplicates(),
        forall|x: Seq<char>|
            #![trigger strs_model(final(list)@).contains(x)]
            strs_model(final(list)@).contains(x) <==> (strs_model(old(list)@).contains(x) || x
                == name@),
{
    let ghost before = strs_model(list@);
    if !contains_name(list, name) {
        list.push(String::from_str(name));
        assert(strs_model(list@) =~= before.push(name@));
        assert forall|x: Seq<char>| strs_model(list@).contains(x) <==> (before.contains(x) || x
            == name@) by {
            if before.contains(x) {
                let j = choose|j: int| 0 <= j < before.len() && before[j] == x;
                assert(strs_model(list@)[j] == x);
            }
            if x == name@ {
                assert(strs_model(list@)[before.len() as int] == x);
            }
            if strs_model(list@).contains(x) && x != name@ {
                let j = choose|j: int| 0 <= j < strs_model(list@).len() && strs_model(list@)[j] == x;
                assert(before[j] == x);
            }
        }
    }
}

/// Removes `name` from a list of distinct names.
fn remove_name(list: &mut Vec<String>, name: &str)
    requires
        strs_model(old(list)@).no_duplicates(),
    ensures
        strs_model(final(list)@).no_duplicates(),
        forall|x: Seq<char>|
            #![trigger strs_model(final(list)@).contains(x)]
            strs_model(final(list)@).contains(x) <==> (strs_model(old(list)@).contains(x) && x
                != name@),
{
    let ghost before = strs_model(list@);
    let mut kept: Vec<String> = Vec::new();
    let mut i: usize = 0;
    while i < list.len()
        invariant
            i <= list@.len(),
            before == strs_model(list@),
            before.no_duplicates(),
            strs_model(kept@).no_duplicates(),
            forall|x: Seq<char>|
                strs_model(kept@).contains(x) <==> (before.take(i as int).contains(x) && x
                    != name@),
        decreases list@.len() - i,
    {
        let ghost kb = strs_model(kept@);
        let ghost t0 = before.take(i as int);
        let ghost t1 = before.take(i + 1);
        assert(t1 =~= t0.push(before[i as int]));
        let keep = !str_equal(list[i].as_str(), name);
        if keep {
            assert(!kb.contains(before[i as int])) by {
                if kb.contains(before[i as int]) {
                    let j = choose|j: int| 0 <= j < i && t0[j] == before[i as int];
                    assert(before[j] == before[i as int]);
                }
            }
            kept.push(list[i].clone());
            assert(strs_model(kept@) =~= kb.push(before[i as int]));
        }
        assert forall|x: Seq<char>| strs_model(kept@).contains(x) <==> (t1.contains(x) && x
            != name@) by {
            if t0.contains(x) {
                let j = choose|j: int| 0 <= j < t0.len() && t0[j] == x;
                assert(t1[j] == x);
            }
            if t1.contains(x) && x != before[i as int] {
                let j = choose|j: int| 0 <= j < t1.len() && t1[j] == x;
                assert(t0[j] == x);
            }
            if keep && x == before[i as int] {
                assert(strs_model(kept@)[kb.len() as int] == x);
                assert(t1[i as int] == x);
            }
            if keep && kb.contains(x) {
                let j = choose|j: int| 0 <= j < kb.len() && kb[j] == x;
                assert(strs_model(kept@)[j] == x);
            }
            if keep && strs_model(kept@).contains(x) && x != before[i as int] {
                let j = choose|j: int| 0 <= j < strs_model(kept@).len() && strs_model(kept@)[j] == x;
                assert(kb[j] == x);
            }
        }
        i = i + 1;
    }
    assert(before.take(i as int) =~= before);
    *list = kept;
}

/// The tools that are enabled, as `tool_enabled` decides, each named once.
pub fn compute_enabled_tools(enable: &Vec<String>, disable: &Vec<String>) -> (r: Vec<String>)
    ensures
        strs_model(r@).no_duplicates(),
        forall|name: Seq<char>|
            strs_model(r@).contains(name) <==> tool_enabled(
                name,
                strs_model(enable@),
                strs_model(disable@),
            ),
{
    let tools = tool_registry();
    let mut enabled: Vec<String> = Vec::new();
    assert(strs_model(enabled@) =~= Seq::<Seq<char>>::empty());
    let mut i: usize = 0;
    while i < tools.len()
        invariant
            i <= tools@.len(),
            infos_model(tools@) == registry(),
            strs_model(enabled@).no_duplicates(),
            forall|x: Seq<char>|
                strs_model(enabled@).contains(x) <==> exists|j: int|
                    0 <= j < i && #[trigger] registry()[j].0 == x && registry()[j].2,
        decreases tools@.len() - i,
    {
        assert(info_model(tools@[i as int]) == registry()[i as int]);
        let ghost s0 = strs_model(enabled@);
        if tools[i].enabled_by_default {
            add_name(&mut enabled, tools[i].name);
        }
        assert forall|x: Seq<char>| strs_model(enabled@).contains(x) <==> exists|j: int|
            0 <= j < i + 1 && #[trigger] registry()[j].0 == x && registry()[j].2 by {
            if strs_model(enabled@).contains(x) {
                if !s0.contains(x) {
                    assert(registry()[i as int].0 == x && registry()[i as int].2);
                }
            }
            if exists|j: int| 0 <= j < i + 1 && #[trigger] registry()[j].0 == x && registry()[j].2 {
                let j = choose|j: int| 0 <= j < i + 1 && #[trigger] registry()[j].0 == x && registry()[j].2;
                if j < i {
                    assert(s0.contains(x));
                }
            }
        }
        i = i + 1;
    }
    let mut k: usize = 0;
    while k < enable.len()
        invariant
            k <= enable@.len(),
            strs_model(enabled@).no_duplicates(),
            forall|x: Seq<char>|
                #![trigger strs_model(enabled@).contains(x)]
                strs_model(enabled@).contains(x) <==> (enabled_by_default(x) || strs_model(
                    enable@,
                ).take(k as int).contains(x)),
        decreases enable@.len() - k,
    {
        let ghost s0 = strs_model(enabled@);
        add_name(&mut enabled, enable[k].as_str());
        let ghost taken = strs_model(enable@).take(k + 1);
        assert(taken =~= strs_model(enable@).take(k as int).push(enable@[k as int]@));
        assert forall|x: Seq<char>| strs_model(enabled@).contains(x) <==> (enabled_by_default(x)
            || taken.contains(x)) by {
            if strs_model(enable@).take(k as int).contains(x) {
                let j = choose|j: int| 0 <= j < k && strs_model(enable@).take(k as int)[j] == x;
                assert(taken[j] == x);
            }
            if taken.contains(x) && x != enable@[k as int]@ {
                let j = choose|j: int| 0 <= j < k + 1 && taken[j] == x;
                assert(strs_model(enable@).take(k as int)[j] == x);
            }
            if x == enable@[k as int]@ {
                assert(taken[k as int] == x);
            }
        }
        k = k + 1;
    }
    assert(strs_model(enable@).take(k as int) =~= strs_model(enable@));
    let mut d: usize = 0;
    while d < disable.len()
        invariant
            d <= disable@.len(),
            strs_model(enabled@).no_duplicates(),
            forall|x: Seq<char>|
                #![trigger strs_model(enabled@).contains(x)]
                strs_model(enabled@).contains(x) <==> ((enabled_by_default(x) || strs_model(
                    enable@,
                ).contains(x)) && !strs_model(disable@).take(d as int).contains(x)),
        decreases disable@.len() - d,
    {
        let ghost s0 = strs_model(enabled@);
        remove_name(&mut enabled, disable[d].as_str());
        let ghost taken = strs_model(disable@).take(d + 1);
        assert(taken =~= strs_model(disable@).take(d as int).push(disable@[d as int]@));
        assert forall|x: Seq<char>| strs_model(enabled@).contains(x) <==> ((enabled_by_default(x)
            || strs_model(enable@).contains(x)) && !taken.contains(x)) by {
            if strs_model(disable@).take(d as int).contains(x) {
                let j = choose|j: int| 0 <= j < d && strs_model(disable@).take(d as int)[j] == x;
                assert(taken[j] == x);
            }
            if taken.contains(x) && x != disable@[d as int]@ {
                let j = choose|j: int| 0 <= j < d + 1 && taken[j] == x;
                assert(strs_model(disable@).take(d as int)[j] == x);
            }
            if x == disable@[d as int]@ {
                assert(taken[d as int] == x);
            }
        }
        d = d + 1;
    }
    assert(strs_model(disable@).take(d as int) =~= strs_model(disable@));
    enabled
}

/// The names of the tools among `tools` that `enabled` does not name, in
/// their order.
pub open spec fn not_enabled(tools: Seq<(Seq<char>, Seq<char>, bool)>, enabled: Seq<Seq<char>>) -> Seq<
    Seq<char>,
>
    decreases tools.len(),
{
    if tools.len() == 0 {
        Seq::empty()
    } else {
        let rest = not_enabled(tools.drop_last(), enabled);
        if enabled.contains(tools.last().0) {
            rest
        } else {
            rest.push(tools.last().0)
        }
    }
}

/// The tools that are not enabled, in listing order: the ones the server
/// does not offer.
pub fn disabled_tools(enabled: &Vec<String>) -> (r: Vec<&'static str>)
    ensures
        names_model(r@) == not_enabled(registry(), strs_model(enabled@)),
{
    let tools = tool_registry();
    let mut out: Vec<&'static str> = Vec::new();
    let mut i: usize = 0;
    while i < tools.len()
        invariant
            i <= tools@.len(),
            infos_model(tools@) == registry(),
            names_model(out@) == not_enabled(registry().take(i as int), strs_model(enabled@)),
        decreases tools@.len() - i,
    {
        assert(info_model(tools@[i as int]) == registry()[i as int]);
        assert(registry().take(i + 1).drop_last() =~= registry().take(i as int));
        let ghost before = names_model(out@);
        if !contains_name(enabled, tools[i].name) {
            out.push(tools[i].name);
            assert(names_model(out@) =~= before.push(registry()[i as int].0));
        }
        i = i + 1;
    }
    assert(registry().take(i as int) =~= registry());
    out
}

/// A line of the tool table: the first two columns padded to 30 and 10
/// characters, separated by single spaces.
pub open spec fn table_line(first: Seq<char>, second: Seq<char>, third: Seq<char>) -> Seq<char> {
    pad_right(first, 30) + seq![' '] + pad_right(second, 10) + seq![' '] + third
}

/// The state a tool starts in.
pub open spec fn default_state(enabled: bool) -> Seq<char> {
    if enabled {
        "enabled"@
    } else {
        "disabled"@
    }
}

/// The tool table: a header, a rule of dashes, and one line per tool giving
/// its name, its default state and its group.
pub open spec fn tool_table_lines() -> Seq<Seq<char>> {
    seq![table_line("TOOL"@, "DEFAULT"@, "GROUP"@), repeat('-', 55)] + Seq::new(
        registry().len(),
        |i: int| table_line(registry()[i].0, default_state(registry()[i].2), registry()[i].1),
    )
}

fn table_row(first: &str, second: &str, third: &str) -> (r: String)
    ensures
        r@ == table_line(first@, second@, third@),
{
    proof {
        reveal_strlit(" ");
    }
    let mut line = String::new();
    push_padded(&mut line, first, 30);
    line.append(" ");
    push_padded(&mut line, second, 10);
    line.append(" ");
    line.append(third);
    assert(line@ =~= table_line(first@, second@, third@));
    line
}

/// The lines that list every tool with its default state.
pub fn tool_table() -> (r: Vec<String>)
    ensures
        strs_model(r@) == tool_table_lines(),
{
    let tools = tool_registry();
    let mut lines: Vec<String> = Vec::new();
    lines.push(table_row("TOOL", "DEFAULT", "GROUP"));
    lines.push(dashes(55));
    let mut i: usize = 0;
    while i < tools.len()
        invariant
            i <= tools@.len(),
            infos_model(tools@) == registry(),
            strs_model(lines@) == tool_table_lines().take(i + 2),
        decreases tools@.len() - i,
    {
        assert(info_model(tools@[i as int]) == registry()[i as int]);
        let state = if tools[i].enabled_by_default {
            "enabled"
        } else {
            "disabled"
        };
        let ghost before = strs_model(lines@);
        lines.push(table_row(tools[i].name, state, tools[i].group));
        assert(strs_model(lines@) =~= before.push(tool_table_lines()[i + 2]));
        i = i + 1;
        assert(tool_table_lines().take(i + 2) =~= tool_table_lines().take(i + 1).push(
            tool_table_lines()[i + 1],
        ));
    }
    assert(tool_table_lines().take(i + 2) =~= tool_table_lines());
    lines
}

proof fn lemma_not_enabled_members(
    tools: Seq<(Seq<char>, Seq<char>, bool)>,
    enabled: Seq<Seq<char>>,
    name: Seq<char>,
)
    ensures
        not_enabled(tools, enabled).contains(name) <==> (!enabled.contains(name) && exists|i: int|
            0 <= i < tools.len() && #[trigger] tools[i].0 == name),
    decreases tools.len(),
{
    if tools.len() > 0 {
        let init = tools.drop_last();
        lemma_not_enabled_members(init, enabled, name);
        let rest = not_enabled(init, enabled);
        if exists|i: int| 0 <= i < init.len() && #[trigger] init[i].0 == name {
            let i = choose|i: int| 0 <= i < init.len() && #[trigger] init[i].0 == name;
            assert(tools[i].0 == name);
        }
        if exists|i: int| 0 <= i < tools.len() && #[trigger] tools[i].0 == name {
            let i = choose|i: int| 0 <= i < tools.len() && #[trigger] tools[i].0 == name;
            if i < init.len() {
                assert(init[i].0 == name);
            }
        }
        if !enabled.contains(tools.last().0) {
            let out = rest.push(tools.last().0);
            if rest.contains(name) {
                let k = choose|k: int| 0 <= k < rest.len() && rest[k] == name;
                assert(out[k] == name);
            }
            if name == tools.last().0 {
                assert(out[rest.len() as int] == name);
            }
            if out.contains(name) && name != tools.last().0 {
                let k = choose|k: int| 0 <= k < out.len() && out[k] == name;
                assert(rest[k] == name);
            }
        }
    }
}

/// The server offers exactly the enabled tools: a tool is left out if and
/// only if it is not enabled.
pub proof fn law_left_out_exactly_when_not_enabled(enabled: Seq<Seq<char>>, name: Seq<char>)
    ensures
        not_enabled(registry(), enabled).contains(name) <==> (is_tool(name) && !enabled.contains(
            name,
        )),
{
    lemma_not_enabled_members(registry(), enabled, name);
}

/// A tool is enabled exactly when a default or an enable option turns it on
/// and no disable option turns it off: a disable option always wins.
pub proof fn law_disable_wins(enable: Seq<Seq<char>>, disable: Seq<Seq<char>>, name: Seq<char>)
    requires
        disable.contains(name),
    ensures
        !tool_enabled(name, enable, disable),
{
}

/// With no options, exactly the tools enabled by default are enabled.
pub proof fn law_no_options_gives_defaults(name: Seq<char>)
    ensures
        tool_enabled(name, Seq::empty(), Seq::empty()) == enabled_by_default(name),
{
}

/// An enable option turns on any tool that no disable option names.
pub proof fn law_enable_turns_on(enable: Seq<Seq<char>>, disable: Seq<Seq<char>>, name: Seq<char>)
    requires
        enable.contains(name),
        !disable.contains(name),
    ensures
        tool_enabled(name, enable, disable),
{
}

} // verus!
