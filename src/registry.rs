//! Tool definitions by name, and the permission check applied to them.
use vstd::prelude::*;
use crate::text::str_eq;

verus! {

/// Which tools a turn may use. `Unrestricted` permits every tool; a
/// `Restricted` list permits exactly the names in it, so an empty list
/// permits none.
pub enum AllowedTools {
    Unrestricted,
    Restricted(Vec<String>),
}

/// The names of a list of strings.
pub open spec fn names_of(v: Seq<String>) -> Seq<Seq<char>> {
    v.map_values(|s: String| s@)
}

/// `allowed` permits the tool called `name`.
pub open spec fn permits(allowed: AllowedTools, name: Seq<char>) -> bool {
    match allowed {
        AllowedTools::Unrestricted => true,
        AllowedTools::Restricted(list) => names_of(list@).contains(name),
    }
}

/// What the model is told about one tool.
pub struct ToolDefinition {
    pub name: String,
    pub description: String,
    /// JSON schema of the tool's arguments, as JSON text.
    pub parameters: String,
}

/// A tool definition as plain values.
pub struct DefinitionView {
    pub name: Seq<char>,
    pub description: Seq<char>,
    pub parameters: Seq<char>,
}

impl View for ToolDefinition {
    type V = DefinitionView;

    open spec fn view(&self) -> DefinitionView {
        DefinitionView {
            name: self.name@,
            description: self.description@,
            parameters: self.parameters@,
        }
    }
}

impl ToolDefinition {
    pub fn new(name: &str, description: &str, parameters: &str) -> (r: ToolDefinition)
        ensures
            r@ == (DefinitionView { name: name@, description: description@, parameters: parameters@ }),
    {
        ToolDefinition {
            name: String::from_str(name),
            description: String::from_str(description),
            parameters: String::from_str(parameters),
        }
    }

    /// An equal copy.
    pub fn duplicate(&self) -> (r: ToolDefinition)
        ensures
            r@ == self@,
    {
        ToolDefinition {
            name: self.name.clone(),
            description: self.description.clone(),
            parameters: self.parameters.clone(),
        }
    }
}

/// The views of a list of definitions.
pub open spec fn views_of(defs: Seq<ToolDefinition>) -> Seq<DefinitionView> {
    defs.map_values(|d: ToolDefinition| d@)
}

/// The definitions in `defs` that `allowed` permits, in their order.
pub open spec fn permitted(defs: Seq<DefinitionView>, allowed: AllowedTools) -> Seq<DefinitionView>
    decreases defs.len(),
{
    if defs.len() == 0 {
        seq![]
    } else {
        let rest = permitted(defs.drop_last(), allowed);
        if permits(allowed, defs.last().name) {
            rest.push(defs.last())
        } else {
            rest
        }
    }
}

/// Whether `list` holds `name`.
fn list_contains(list: &Vec<String>, name: &str) -> (r: bool)
    ensures
        r == names_of(list@).contains(name@),
        r <==> exists|i: int| 0 <= i < list@.len() && list@[i]@ == name@,
{
    let mut i: usize = 0;
    while i < list.len()
        invariant
            i <= list@.len(),
            forall|j: int| 0 <= j < i ==> list@[j]@ != name@,
        decreases list@.len() - i,
    {
        if str_eq(list[i].as_str(), name) {
            assert(names_of(list@).len() == list@.len());
            assert(names_of(list@)[i as int] == name@);
            return true;
        }
        i = i + 1;
    }
    assert forall|j: int| 0 <= j < names_of(list@).len() implies names_of(list@)[j] != name@ by {
        assert(names_of(list@)[j] == list@[j]@);
    }
    false
}

/// The tools known to the agent, one definition per name.
pub struct ToolRegistry {
    tools: Vec<ToolDefinition>,
}

impl ToolRegistry {
    /// Whether the tool called `tool_name` may run under `allowed`.
    ///
    /// Every name is permitted when the list is unset, no name when it is empty,
    /// and otherwise exactly the names it holds.
    pub fn is_tool_allowed(tool_name: &str, allowed: &AllowedTools) -> (r: bool)
        ensures
            r == permits(*allowed, tool_name@),
            *allowed is Unrestricted ==> r,
            (*allowed is Restricted && allowed->Restricted_0@.len() == 0) ==> !r,
            *allowed is Restricted ==> (r <==> exists|i: int|
                0 <= i < allowed->Restricted_0@.len() && allowed->Restricted_0@[i]@ == tool_name@),
    {
        match allowed {
            AllowedTools::Unrestricted => true,
            AllowedTools::Restricted(list) => list_contains(list, tool_name),
        }
    }

    /// The registered definitions, in registration order.
    pub closed spec fn definitions(&self) -> Seq<DefinitionView> {
        views_of(self.tools@)
    }

    /// No two definitions share a name.
    pub closed spec fn well_formed(&self) -> bool {
        forall|i: int, j: int|
            0 <= i < j < self.tools@.len() ==> self.tools@[i]@.name != self.tools@[j]@.name
    }

    pub fn new() -> (r: ToolRegistry)
        ensures
            r.well_formed(),
            r.definitions().len() == 0,
    {
        ToolRegistry { tools: Vec::new() }
    }

    /// Position of the definition called `name`.
    fn position(&self, name: &str) -> (r: Option<usize>)
        ensures
            match r {
                Some(i) => i < self.definitions().len() && self.definitions()[i as int].name
                    == name@,
                None => forall|i: int|
                    0 <= i < self.definitions().len() ==> self.definitions()[i].name != name@,
            },
    {
        let mut i: usize = 0;
        while i < self.tools.len()
            invariant
                i <= self.tools@.len(),
                forall|j: int| 0 <= j < i ==> self.tools@[j]@.name != name@,
            decreases self.tools@.len() - i,
        {
            if str_eq(self.tools[i].name.as_str(), name) {
                return Some(i);
            }
            i = i + 1;
        }
        None
    }

    /// Adds a definition, replacing the one of the same name if there is one.
    pub fn register(&mut self, tool: ToolDefinition)
        requires
            old(self).well_formed(),
        ensures
            final(self).well_formed(),
            exists|i: int|
                0 <= i < final(self).definitions().len() && final(self).definitions()[i] == tool@,
            forall|i: int|
                0 <= i < old(self).definitions().len() && old(self).definitions()[i].name
                    != tool@.name ==> final(self).definitions().contains(
                    old(self).definitions()[i],
                ),
            forall|i: int|
                0 <= i < final(self).definitions().len() && final(self).definitions()[i].name
                    != tool@.name ==> old(self).definitions().contains(
                    final(self).definitions()[i],
                ),
    {
        let ghost before = self.tools@;
        let ghost t = tool@;
        match self.position(tool.name.as_str()) {
            Some(i) => {
                self.tools.set(i, tool);
                assert(views_of(self.tools@)[i as int] == t);
                assert(self.definitions()[i as int] == t);
                assert forall|a: int, b: int|
                    0 <= a < b < self.tools@.len() implies self.tools@[a]@.name
                        != self.tools@[b]@.name by {
                    assert(self.tools@[a]@.name == before[a]@.name);
                    assert(self.tools@[b]@.name == before[b]@.name);
                }
                assert forall|k: int|
                    0 <= k < before.len() && before[k]@.name != t.name implies views_of(
                        self.tools@,
                    ).contains(views_of(before)[k]) by {
                    assert(views_of(self.tools@)[k] == views_of(before)[k]);
                }
                assert forall|k: int|
                    0 <= k < self.tools@.len() && self.tools@[k]@.name != t.name implies views_of(
                        before,
                    ).contains(views_of(self.tools@)[k]) by {
                    assert(views_of(self.tools@)[k] == views_of(before)[k]);
                }
            },
            None => {
                self.tools.push(tool);
                assert(views_of(self.tools@)[before.len() as int] == t);
                assert(self.definitions()[before.len() as int] == t);
                assert forall|a: int, b: int|
                    0 <= a < b < self.tools@.len() implies self.tools@[a]@.name
                        != self.tools@[b]@.name by {
                    assert(self.tools@[a] == before[a]);
                    if b < before.len() {
                        assert(self.tools@[b] == before[b]);
                    } else {
                        assert(views_of(before)[a] == before[a]@);
                    }
                }
                assert forall|k: int|
                    0 <= k < before.len() && before[k]@.name != t.name implies views_of(
                        self.tools@,
                    ).contains(views_of(before)[k]) by {
                    assert(views_of(self.tools@)[k] == views_of(before)[k]);
                }
                assert forall|k: int|
                    0 <= k < self.tools@.len() && self.tools@[k]@.name != t.name implies views_of(
                        before,
                    ).contains(views_of(self.tools@)[k]) by {
                    assert(views_of(self.tools@)[k] == views_of(before)[k]);
                }
            },
        }
    }

    /// The definition called `name`, if one is registered.
    pub fn get(&self, name: &str) -> (r: Option<ToolDefinition>)
        ensures
            match r {
                Some(d) => self.definitions().contains(d@) && d@.name == name@,
                None => forall|i: int|
                    0 <= i < self.definitions().len() ==> self.definitions()[i].name != name@,
            },
    {
        match self.position(name) {
            Some(i) => {
                let d = self.tools[i].duplicate();
                assert(self.definitions()[i as int] == d@);
                Some(d)
            },
            None => None,
        }
    }

    /// Every registered definition, in registration order.
    pub fn list_definitions(&self) -> (r: Vec<ToolDefinition>)
        ensures
            views_of(r@) == self.definitions(),
    {
        let mut r: Vec<ToolDefinition> = Vec::new();
        let mut i: usize = 0;
        while i < self.tools.len()
            invariant
                i <= self.tools@.len(),
                views_of(r@) == views_of(self.tools@.subrange(0, i as int)),
            decreases self.tools@.len() - i,
        {
            let d = self.tools[i].duplicate();
            let ghost before = r@;
            r.push(d);
            assert(r@ == before.push(d));
            assert(views_of(before).len() == before.len());
            assert forall|k: int| 0 <= k < i implies r@[k]@ == self.tools@[k]@ by {
                assert(r@[k] == before[k]);
                assert(views_of(before)[k] == views_of(self.tools@.subrange(0, i as int))[k]);
            }
            i = i + 1;
            assert(views_of(r@) =~= views_of(self.tools@.subrange(0, i as int)));
        }
        assert(self.tools@.subrange(0, i as int) =~= self.tools@);
        r
    }

    /// The definitions that `allowed` permits, in registration order.
    pub fn list_definitions_for_permissions(&self, allowed: &AllowedTools) -> (r: Vec<
        ToolDefinition,
    >)
        ensures
            views_of(r@) == permitted(self.definitions(), *allowed),
    {
        let mut r: Vec<ToolDefinition> = Vec::new();
        let mut i: usize = 0;
        while i < self.tools.len()
            invariant
                i <= self.tools@.len(),
                views_of(r@) == permitted(views_of(self.tools@.subrange(0, i as int)), *allowed),
            decreases self.tools@.len() - i,
        {
            let ghost prefix = views_of(self.tools@.subrange(0, i as int + 1));
            assert(prefix.drop_last() =~= views_of(self.tools@.subrange(0, i as int)));
            assert(prefix.last() == self.tools@[i as int]@);
            if Self::is_tool_allowed(self.tools[i].name.as_str(), allowed) {
                let d = self.tools[i].duplicate();
                let ghost before = r@;
                r.push(d);
                assert(r@ == before.push(d));
                assert(views_of(r@) =~= permitted(prefix, *allowed));
            }
            i = i + 1;
        }
        assert(self.tools@.subrange(0, i as int) =~= self.tools@);
        r
    }
}

} // verus!
