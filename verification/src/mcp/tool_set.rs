//! The tools gathered from the connected peers, each under its name.

use super::names::{
    entries_view, lemma_mapping_at, lemma_put, lemma_relabel, lemma_relabel_put, mapping,
    names_distinct, names_of, position, put, put_all, relabel, NameMap,
};
use super::tool_adaptor::{AdaptorView, McpToolAdaptor};
use vstd::prelude::*;

verus! {

/// Every entry stands under the name of its own tool.
pub open spec fn keyed_by_name(s: Seq<(Seq<char>, AdaptorView)>) -> bool {
    forall|i: int| 0 <= i < s.len() ==> (#[trigger] s[i]).0 == s[i].1.tool.name
}

/// The invokable tools of all peers, each under its name. A name occurs
/// once: where two tools share it, the one added last stays.
#[derive(Debug)]
pub struct ToolSet {
    tools: NameMap<McpToolAdaptor>,
}

impl ToolSet {
    /// The invariant of the type: every tool stands under its own name.
    #[verifier::type_invariant]
    pub closed spec fn wf(&self) -> bool {
        keyed_by_name(self.entries()) && names_distinct(self.tools.entries())
    }

    /// The tools in the order in which their names first arrived.
    pub closed spec fn entries(&self) -> Seq<(Seq<char>, AdaptorView)> {
        relabel(self.tools.entries(), |a: McpToolAdaptor| a@)
    }

    /// The mapping from each tool's name to the tool.
    pub open spec fn view(&self) -> Map<Seq<char>, AdaptorView> {
        mapping(self.entries())
    }

    /// The names of the tools in the order in which they first arrived.
    pub open spec fn spec_names(&self) -> Seq<Seq<char>> {
        names_of(self.entries())
    }

    /// What holds of every tool set: no name occurs twice and every tool
    /// stands under its own name.
    pub proof fn lemma_wf(&self)
        requires
            self.wf(),
        ensures
            names_distinct(self.entries()),
            keyed_by_name(self.entries()),
    {
        lemma_relabel(self.tools.entries(), |a: McpToolAdaptor| a@);
    }

    /// A tool set without tools.
    pub fn new() -> (set: Self)
        ensures
            set.entries() == Seq::<(Seq<char>, AdaptorView)>::empty(),
    {
        let set = ToolSet { tools: NameMap::new() };
        assert(set.entries() =~= Seq::<(Seq<char>, AdaptorView)>::empty());
        set
    }

    /// The number of tools.
    pub fn len(&self) -> (n: usize)
        ensures
            n == self.entries().len(),
    {
        self.tools.len()
    }

    /// The names of the tools in the order in which they first arrived.
    pub fn names(&self) -> (names: Vec<String>)
        ensures
            names.deep_view() == self.spec_names(),
    {
        let mut names: Vec<String> = Vec::new();
        let mut i: usize = 0;
        let n = self.tools.len();
        proof {
            use_type_invariant(self);
            lemma_relabel(self.tools.entries(), |a: McpToolAdaptor| a@);
        }
        while i < n
            invariant
                i <= n,
                n == self.tools.entries().len(),
                names_of(self.tools.entries()) == self.spec_names(),
                names@.len() == i,
                forall|j: int| 0 <= j < i ==> names@[j]@ == self.spec_names()[j],
            decreases n - i,
        {
            names.push(self.tools.name_at(i).clone());
            i += 1;
        }
        assert(names.deep_view() =~= self.spec_names());
        names
    }

    /// Whether a tool called `name` is present.
    pub fn contains(&self, name: &str) -> (b: bool)
        ensures
            b == self@.dom().contains(name@),
    {
        proof {
            use_type_invariant(self);
            lemma_relabel(self.tools.entries(), |a: McpToolAdaptor| a@);
        }
        self.tools.contains(name)
    }

    /// The tool called `name`.
    pub fn get(&self, name: &str) -> (r: Option<&McpToolAdaptor>)
        ensures
            r is Some <==> self@.dom().contains(name@),
            r matches Some(tool) ==> tool@ == self@[name@] && tool@.tool.name == name@,
    {
        proof {
            use_type_invariant(self);
            lemma_relabel(self.tools.entries(), |a: McpToolAdaptor| a@);
        }
        let r = self.tools.get(name);
        proof {
            if r is Some {
                let at = position(self.entries(), name@);
                lemma_mapping_at(self.entries(), at);
            }
        }
        r
    }

    /// The tool at position `i` of the order in which names first arrived.
    pub fn tool_at(&self, i: usize) -> (tool: &McpToolAdaptor)
        requires
            i < self.entries().len(),
        ensures
            tool@ == self.entries()[i as int].1,
    {
        self.tools.value_at(i)
    }

    /// Adds `tool` under its name. A tool of that name that is already
    /// present gives way to it.
    pub fn add_tool(&mut self, tool: McpToolAdaptor)
        ensures
            final(self).entries() == put(old(self).entries(), tool@.tool.name, tool@),
    {
        proof {
            use_type_invariant(&*self);
            lemma_relabel_put(
                self.tools.entries(),
                |a: McpToolAdaptor| a@,
                tool@.tool.name,
                tool,
            );
            lemma_relabel(self.tools.entries(), |a: McpToolAdaptor| a@);
            lemma_put(self.tools.entries(), tool@.tool.name, tool);
        }
        let ghost before = self.entries();
        let name = tool.name();
        let mut tools: NameMap<McpToolAdaptor> = NameMap::new();
        core::mem::swap(&mut tools, &mut self.tools);
        tools.insert(name, tool);
        proof {
            let after = put(before, tool@.tool.name, tool@);
            assert(relabel(tools.entries(), |a: McpToolAdaptor| a@) == after);
            assert(keyed_by_name(after)) by {
                assert forall|i: int| 0 <= i < after.len() implies (#[trigger] after[i]).0
                    == after[i].1.tool.name by {
                    if i < before.len() {
                        assert(before[i].0 == before[i].1.tool.name);
                    }
                }
            }
        }
        self.tools = tools;
    }

    /// Adds every tool of `other`, in its order. Where both sets hold a
    /// name, the tool of `other` stays.
    pub fn add_tools(&mut self, other: ToolSet)
        ensures
            final(self).entries() == put_all(
                old(self).entries(),
                other.entries(),
                other.entries().len() as int,
            ),
    {
        proof {
            use_type_invariant(&other);
        }
        let ghost base = self.entries();
        let ghost extra = other.entries();
        let entries = other.tools.into_entries();
        let ghost raw = entries@;
        let count = entries.len();
        let mut i: usize = 0;
        for entry in it: entries
            invariant
                it.seq() == raw,
                count == raw.len(),
                i == it.index(),
                extra == relabel(
                    entries_view(raw),
                    |a: McpToolAdaptor| a@,
                ),
                keyed_by_name(extra),
                self.entries() == put_all(base, extra, i as int),
        {
            assert(i < count);
            assert(extra[i as int].1 == entry.1@);
            assert(extra[i as int].0 == extra[i as int].1.tool.name);
            self.add_tool(entry.1);
            i += 1;
        }
    }
}

} // verus!
