use crate::syntax_c1::display_into;
use crate::syntax_c1::spec_display;
use crate::syntax_c1::NodeValue;
use vstd::prelude::*;
use vstd::string::StrSliceExecFns;
use vstd::string::StringExecFns;

verus! {

/// The identifier of a tree node.
pub type ID = u64;

/// An ordered tree of C1 syntax nodes.  Every node owns its children and
/// carries an id assigned at construction.
#[derive(Debug)]
pub struct SyntaxTree {
    pub value: NodeValue,
    pub id: ID,
    pub children: Vec<SyntaxTree>,
}

/// The indentation for a nesting depth: two spaces per level.
pub open spec fn spec_indent(depth: int) -> Seq<char>
    decreases depth,
{
    if depth <= 0 {
        Seq::<char>::empty()
    } else {
        spec_indent(depth - 1) + "  "@
    }
}

/// The canonical multiline rendering of a tree at a nesting depth: the
/// node's line, and, when it has children, a bracketed block holding the
/// children separated by commas.
pub open spec fn spec_print(t: SyntaxTree, depth: int) -> Seq<char>
    decreases t, 0int,
{
    spec_indent(depth) + spec_display(t.value) + if t.children@.len() == 0 {
        Seq::<char>::empty()
    } else {
        "\n"@ + spec_indent(depth) + "[\n"@ + spec_print_list(t.children@, depth + 1) + "\n"@
            + spec_indent(depth) + "]"@
    }
}

/// The renderings of a list of siblings, separated by `",\n"`.
pub open spec fn spec_print_list(cs: Seq<SyntaxTree>, depth: int) -> Seq<char>
    decreases cs, 1int,
{
    if cs.len() == 0 {
        Seq::<char>::empty()
    } else if cs.len() == 1 {
        spec_print(cs[0], depth)
    } else {
        spec_print(cs[0], depth) + ",\n"@ + spec_print_list(cs.drop_first(), depth)
    }
}

/// Extending a sibling prefix by one more child appends a separator and the
/// child's rendering.
proof fn lemma_print_list_snoc(cs: Seq<SyntaxTree>, i: int, depth: int)
    requires
        0 <= i < cs.len(),
    ensures
        spec_print_list(cs.take(i + 1), depth) == if i == 0 {
            spec_print(cs[0], depth)
        } else {
            spec_print_list(cs.take(i), depth) + ",\n"@ + spec_print(cs[i], depth)
        },
    decreases i,
{
    if i == 0 {
        assert(cs.take(1).len() == 1);
        assert(cs.take(1)[0] == cs[0]);
    } else {
        let ds = cs.drop_first();
        lemma_print_list_snoc(ds, i - 1, depth);
        assert(cs.take(i + 1).drop_first() =~= ds.take(i));
        assert(cs.take(i).drop_first() =~= ds.take(i - 1));
        assert(cs.take(i + 1)[0] == cs[0]);
        assert(cs.take(i)[0] == cs[0]);
        assert(ds[i - 1] == cs[i]);
        assert(cs.take(i + 1).len() == i + 1);
        assert(cs.take(i).len() == i);
        if i == 1 {
            assert(ds.take(1).len() == 1);
            assert(ds.take(1)[0] == ds[0]);
            assert(spec_print_list(cs.take(2), depth) =~= spec_print_list(cs.take(1), depth)
                + ",\n"@ + spec_print(cs[1], depth));
        } else {
            assert(spec_print_list(cs.take(i + 1), depth) =~= spec_print_list(cs.take(i), depth)
                + ",\n"@ + spec_print(cs[i], depth));
        }
    }
}

impl SyntaxTree {
    /// Creates a childless leaf holding `value`.
    pub fn new(value: NodeValue) -> (r: Self)
        ensures
            r.value == value,
            r.id == 0,
            r.children@.len() == 0,
    {
        SyntaxTree { value, id: 0, children: Vec::new() }
    }

    /// Creates a childless leaf holding `value` with a caller-chosen id.
    pub fn with_id(value: NodeValue, id: ID) -> (r: Self)
        ensures
            r.value == value,
            r.id == id,
            r.children@.len() == 0,
    {
        SyntaxTree { value, id, children: Vec::new() }
    }

    /// The node's id.
    pub fn id(&self) -> (r: ID)
        ensures
            r == self.id,
    {
        self.id
    }

    /// Attaches an existing tree as the rightmost child.
    pub fn append(&mut self, child: SyntaxTree)
        ensures
            final(self).value == old(self).value,
            final(self).id == old(self).id,
            final(self).children@ =~= old(self).children@.push(child),
    {
        self.children.push(child);
    }

    /// Renders the tree in the canonical bracketed multiline form.
    pub fn print(&self) -> (r: String)
        ensures
            r@ == spec_print(*self, 0),
    {
        let mut out = String::new();
        let prefix = String::new();
        proof {
            assert(prefix@ =~= spec_indent(0));
        }
        print_into(self, &prefix, Ghost(0int), &mut out);
        proof {
            assert(out@ =~= spec_print(*self, 0));
        }
        out
    }
}

/// Appends the rendering of `t` at the given depth to `out`; `prefix` is the
/// indentation for that depth.
fn print_into(t: &SyntaxTree, prefix: &String, Ghost(depth): Ghost<int>, out: &mut String)
    requires
        depth >= 0,
        prefix@ == spec_indent(depth),
    ensures
        final(out)@ == old(out)@ + spec_print(*t, depth),
    decreases *t,
{
    out.append(prefix.as_str());
    display_into(&t.value, out);
    if t.children.len() > 0 {
        out.append("\n");
        out.append(prefix.as_str());
        out.append("[\n");
        let ghost base = out@;

        let mut child_prefix = String::new();
        child_prefix.append(prefix.as_str());
        child_prefix.append("  ");
        proof {
            assert(child_prefix@ =~= spec_indent(depth + 1));
        }

        let n = t.children.len();
        let mut i: usize = 0;
        while i < n
            invariant
                0 < n == t.children@.len(),
                i <= n,
                depth >= 0,
                child_prefix@ == spec_indent(depth + 1),
                out@ == base + if i == 0 {
                    Seq::<char>::empty()
                } else {
                    spec_print_list(t.children@.take(i as int), depth + 1)
                },
            decreases n - i,
        {
            if i > 0 {
                out.append(",\n");
            }
            print_into(&t.children[i], &child_prefix, Ghost(depth + 1), out);
            proof {
                lemma_print_list_snoc(t.children@, i as int, depth + 1);
                assert(out@ =~= base + spec_print_list(t.children@.take(i + 1), depth + 1));
            }
            i += 1;
        }
        proof {
            assert(t.children@.take(n as int) =~= t.children@);
        }
        out.append("\n");
        out.append(prefix.as_str());
        out.append("]");
        proof {
            assert(out@ =~= old(out)@ + spec_print(*t, depth));
        }
    } else {
        proof {
            assert(out@ =~= old(out)@ + spec_print(*t, depth));
        }
    }
}

} // verus!
