//! The epic tree as text: each issue on its own row, children indented
//! under their parent with box-drawing connectors.
use vstd::prelude::*;
use crate::number::{decimal_digits, decimal_string};
use crate::text::push_char;

verus! {

/// An issue in the epic tree, with the issues under it.
pub struct TreeNode {
    pub slug: String,
    pub issue_type: String,
    pub status: String,
    pub priority: String,
    pub title: String,
    pub children: Vec<TreeNode>,
}

/// One row: `<prefix><connector>@slug  [type/status/priority]  title`.
pub open spec fn tree_row(prefix: Seq<char>, connector: Seq<char>, n: TreeNode) -> Seq<char> {
    prefix + connector + seq!['@'] + n.slug@ + "  ["@ + n.issue_type@ + seq!['/'] + n.status@ + seq!['/']
        + n.priority@ + "]  "@ + n.title@
}

/// The connector in front of a child: the last child closes the branch.
pub open spec fn connector(last: bool) -> Seq<char> {
    if last {
        "└─ "@
    } else {
        "├─ "@
    }
}

/// What a child's own children are indented by, under `prefix`.
pub open spec fn continuation(last: bool) -> Seq<char> {
    if last {
        "   "@
    } else {
        "│  "@
    }
}

/// The rows of the children `kids[i..]` (and everything under them) of a
/// node whose children are indented by `prefix`.
pub open spec fn forest_rows(prefix: Seq<char>, kids: Seq<TreeNode>, i: int) -> Seq<Seq<char>>
    decreases kids, kids.len() - i,
{
    if i < 0 || i >= kids.len() {
        seq![]
    } else {
        let c = kids[i];
        let last = i == kids.len() - 1;
        proof {
            assert(decreases_to!(kids => kids[i]));
        }
        seq![tree_row(prefix, connector(last), c)] + forest_rows(prefix + continuation(last), c.children@, 0)
            + forest_rows(prefix, kids, i + 1)
    }
}

/// How many issues lie under the children `kids[i..]`, themselves included.
pub open spec fn descendants(kids: Seq<TreeNode>, i: int) -> nat
    decreases kids, kids.len() - i,
{
    if i < 0 || i >= kids.len() {
        0
    } else {
        proof {
            assert(decreases_to!(kids => kids[i]));
        }
        1 + descendants(kids[i].children@, 0) + descendants(kids, i + 1)
    }
}

fn row_text(prefix: &str, conn: &str, n: &TreeNode) -> (r: String)
    ensures
        r@ == tree_row(prefix@, conn@, *n),
{
    let mut m = String::from_str(prefix);
    m.append(conn);
    push_char(&mut m, '@');
    m.append(n.slug.as_str());
    m.append("  [");
    m.append(n.issue_type.as_str());
    push_char(&mut m, '/');
    m.append(n.status.as_str());
    push_char(&mut m, '/');
    m.append(n.priority.as_str());
    m.append("]  ");
    m.append(n.title.as_str());
    m
}

pub open spec fn row_views(s: Seq<String>) -> Seq<Seq<char>> {
    Seq::new(s.len(), |i: int| s[i]@)
}

fn push_forest(out: &mut Vec<String>, prefix: &str, kids: &Vec<TreeNode>)
    ensures
        row_views(final(out)@) == row_views(old(out)@) + forest_rows(prefix@, kids@, 0),
    decreases kids@,
{
    let ghost start = row_views(out@);
    let mut i: usize = 0;
    while i < kids.len()
        invariant
            i <= kids.len(),
            start + forest_rows(prefix@, kids@, 0) == row_views(out@) + forest_rows(prefix@, kids@, i as int),
        decreases kids.len() - i,
    {
        let last = i + 1 == kids.len();
        let c = &kids[i];
        let conn = if last {
            "└─ "
        } else {
            "├─ "
        };
        let cont = if last {
            "   "
        } else {
            "│  "
        };
        let ghost before = row_views(out@);
        let ghost rest = forest_rows(prefix@, kids@, i as int);
        let ghost sub = forest_rows(prefix@ + continuation(last), c.children@, 0);
        assert(rest == seq![tree_row(prefix@, connector(last), *c)] + sub + forest_rows(prefix@, kids@, i + 1));
        out.push(row_text(prefix, conn, c));
        assert(row_views(out@) =~= before.push(tree_row(prefix@, connector(last), *c)));
        let mut child_prefix = String::from_str(prefix);
        child_prefix.append(cont);
        proof {
            assert(decreases_to!(kids@ => kids@[i as int]));
        }
        push_forest(out, child_prefix.as_str(), &c.children);
        i = i + 1;
        assert(start + forest_rows(prefix@, kids@, 0) =~= row_views(out@) + forest_rows(prefix@, kids@, i as int));
    }
    assert(forest_rows(prefix@, kids@, i as int) =~= Seq::<Seq<char>>::empty());
    assert(row_views(out@) =~= row_views(out@) + forest_rows(prefix@, kids@, i as int));
}

/// The closing line of the tree: how many issues lie under the root.
pub open spec fn count_text(n: nat) -> Seq<char> {
    decimal_digits(n) + if n == 1 {
        " descendant"@
    } else {
        " descendants"@
    }
}

/// The epic tree as printed lines: the root flush left, every descendant
/// on its own row under it, then a blank line and the descendant count.
pub open spec fn tree_lines(root: TreeNode) -> Seq<Seq<char>> {
    seq![tree_row(seq![], seq![], root)] + forest_rows(seq![], root.children@, 0) + seq![
        seq![],
        count_text(descendants(root.children@, 0)),
    ]
}

/// The lines of the human-readable epic tree under `root`.
pub fn epic_tree_lines(root: &TreeNode) -> (r: Vec<String>)
    ensures
        row_views(r@) == tree_lines(*root),
{
    let mut out: Vec<String> = Vec::new();
    proof {
        reveal_strlit("");
        assert(""@ =~= Seq::<char>::empty());
    }
    out.push(row_text("", "", root));
    let ghost head = row_views(out@);
    assert(head =~= seq![tree_row(seq![], seq![], *root)]);
    push_forest(&mut out, "", &root.children);
    proof {
        crate::laws::law_tree_rows_count(seq![], root.children@, 0);
        assert(row_views(out@).len() == out@.len());
        assert(out@.len() == 1 + descendants(root.children@, 0));
    }
    let n = out.len() - 1;
    out.push(String::new());
    let mut last = decimal_string(n);
    if n == 1 {
        last.append(" descendant");
    } else {
        last.append(" descendants");
    }
    out.push(last);
    assert(row_views(out@) =~= tree_lines(*root));
    out
}

} // verus!
