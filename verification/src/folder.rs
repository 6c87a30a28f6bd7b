//! The folder tree of an archive and the list of all its messages.
//!
//! The folders are kept in one vector, every folder behind its parent, and
//! name their subfolders by index. The list of all messages walks the tree
//! depth first: the messages of a folder in their own order, then each
//! subfolder in turn.

use vstd::multiset::Multiset;
use vstd::prelude::*;

verus! {

/// A message of the archive: its identifier in the store and the name of
/// the folder that holds it.
#[derive(Debug)]
pub struct MessageRef {
    pub folder: String,
    pub id: u32,
}

pub struct RefModel {
    pub folder: Seq<char>,
    pub id: u32,
}

impl View for MessageRef {
    type V = RefModel;

    open spec fn view(&self) -> RefModel {
        RefModel { folder: self.folder@, id: self.id }
    }
}

/// The references that a list holds.
pub open spec fn refs_of(v: Seq<MessageRef>) -> Seq<RefModel> {
    Seq::new(v.len(), |i: int| v[i]@)
}

impl MessageRef {
    /// A copy of the reference.
    pub fn copy(&self) -> (r: MessageRef)
        ensures
            r@ == self@,
    {
        MessageRef { folder: self.folder.clone(), id: self.id }
    }
}

/// A copy of a list of references.
pub fn copy_refs(v: &Vec<MessageRef>) -> (r: Vec<MessageRef>)
    ensures
        refs_of(r@) == refs_of(v@),
{
    let mut r: Vec<MessageRef> = Vec::new();
    let mut i: usize = 0;
    while i < v.len()
        invariant
            i <= v.len(),
            r@.len() == i,
            refs_of(r@) == refs_of(v@.take(i as int)),
        decreases v.len() - i,
    {
        let ghost before = r@;
        r.push(v[i].copy());
        proof {
            assert forall|j: int| 0 <= j < i + 1 implies refs_of(r@)[j] == refs_of(
                v@.take(i + 1),
            )[j] by {
                if j < i {
                    assert(refs_of(before)[j] == refs_of(v@.take(i as int))[j]);
                }
            }
            assert(refs_of(r@) =~= refs_of(v@.take(i + 1)));
        }
        i += 1;
    }
    proof {
        assert(v@.take(v.len() as int) =~= v@);
    }
    r
}

/// One folder of the tree.
pub struct FolderNode {
    name: String,
    readable: bool,
    messages: Vec<u32>,
    children: Vec<usize>,
}

pub struct NodeModel {
    /// The display name.
    pub name: Seq<char>,
    /// Whether the store could open the folder.
    pub readable: bool,
    /// The identifiers of the messages, in the order of the store.
    pub messages: Seq<u32>,
    /// The indices of the subfolders, in the order of the store.
    pub children: Seq<int>,
}

impl View for FolderNode {
    type V = NodeModel;

    closed spec fn view(&self) -> NodeModel {
        NodeModel {
            name: self.name@,
            readable: self.readable,
            messages: self.messages@,
            children: Seq::new(self.children@.len(), |k: int| self.children@[k] as int),
        }
    }
}

/// The folders of an archive.
pub struct FolderTree {
    nodes: Vec<FolderNode>,
}

impl View for FolderTree {
    type V = Seq<NodeModel>;

    closed spec fn view(&self) -> Seq<NodeModel> {
        Seq::new(self.nodes@.len(), |i: int| self.nodes@[i]@)
    }
}

/// Every subfolder stands behind its parent and within the tree.
pub open spec fn tree_wf(t: Seq<NodeModel>) -> bool {
    forall|i: int, k: int|
        0 <= i < t.len() && 0 <= k < t[i].children.len() ==> i < #[trigger] t[i].children[k]
            < t.len()
}

/// The rows of one folder: its messages in their order, each with the
/// folder's name.
pub open spec fn node_rows(n: NodeModel) -> Seq<RefModel> {
    Seq::new(n.messages.len(), |k: int| RefModel { folder: n.name, id: n.messages[k] })
}

/// The rows of folder `i` and of all folders below it, depth first. A
/// folder that could not be opened has no rows and is not entered.
pub open spec fn flatten(t: Seq<NodeModel>, i: int) -> Seq<RefModel>
    decreases t.len() - i, t[i].children.len() + 1,
{
    if 0 <= i < t.len() && t[i].readable {
        node_rows(t[i]) + flatten_from(t, i, 0)
    } else {
        Seq::empty()
    }
}

/// The rows below the subfolders of folder `i` from the `k`-th on.
pub open spec fn flatten_from(t: Seq<NodeModel>, i: int, k: int) -> Seq<RefModel>
    decreases t.len() - i, t[i].children.len() - k,
{
    if 0 <= i < t.len() && 0 <= k < t[i].children.len() {
        let c = t[i].children[k];
        (if i < c < t.len() {
            flatten(t, c)
        } else {
            Seq::empty()
        }) + flatten_from(t, i, k + 1)
    } else {
        Seq::empty()
    }
}

/// The number of messages in folder `i` and in all folders that the walk
/// reaches from it: the sum of what each of these folders holds.
pub open spec fn content_count(t: Seq<NodeModel>, i: int) -> nat
    decreases t.len() - i, t[i].children.len() + 1,
{
    if 0 <= i < t.len() && t[i].readable {
        t[i].messages.len() + content_count_from(t, i, 0)
    } else {
        0
    }
}

/// The number of messages below the subfolders of folder `i` from the
/// `k`-th on.
pub open spec fn content_count_from(t: Seq<NodeModel>, i: int, k: int) -> nat
    decreases t.len() - i, t[i].children.len() - k,
{
    if 0 <= i < t.len() && 0 <= k < t[i].children.len() {
        let c = t[i].children[k];
        (if i < c < t.len() {
            content_count(t, c)
        } else {
            0
        }) + content_count_from(t, i, k + 1)
    } else {
        0
    }
}

/// The tree `t` with one more folder, which becomes the last subfolder of
/// `parent` where one is given.
pub open spec fn tree_with(t: Seq<NodeModel>, parent: Option<int>, node: NodeModel) -> Seq<
    NodeModel,
> {
    let grown = t.push(node);
    match parent {
        Some(p) => grown.update(
            p,
            NodeModel { children: t[p].children.push(t.len() as int), ..t[p] },
        ),
        None => grown,
    }
}

/// A folder that could be opened and has no subfolders yet. A folder whose
/// own name cannot be read is called `Unknown`.
pub open spec fn opened_node(name: Option<String>, messages: Seq<u32>) -> NodeModel {
    NodeModel {
        name: match name {
            Some(n) => n@,
            None => "Unknown"@,
        },
        readable: true,
        messages,
        children: Seq::empty(),
    }
}

/// A folder that could not be opened.
pub open spec fn unreadable_node() -> NodeModel {
    NodeModel { name: Seq::empty(), readable: false, messages: Seq::empty(), children: Seq::empty() }
}

/// The index of a parent as a mathematical value.
pub open spec fn parent_index(parent: Option<usize>) -> Option<int> {
    match parent {
        Some(p) => Some(p as int),
        None => None,
    }
}

/// Whether `parent` names a folder that the tree does not hold.
pub open spec fn parent_missing(t: Seq<NodeModel>, parent: Option<usize>) -> bool {
    match parent {
        Some(p) => p >= t.len(),
        None => false,
    }
}

impl FolderTree {
    /// Every subfolder stands behind its parent and within the tree.
    pub open spec fn wf(&self) -> bool {
        tree_wf(self@)
    }

    /// A tree without folders.
    pub fn new() -> (r: FolderTree)
        ensures
            r.wf(),
            r@ == Seq::<NodeModel>::empty(),
    {
        let r = FolderTree { nodes: Vec::new() };
        proof {
            assert(r@ =~= Seq::<NodeModel>::empty());
        }
        r
    }

    /// The number of folders.
    pub fn len(&self) -> (n: usize)
        ensures
            n == self@.len(),
    {
        self.nodes.len()
    }

    /// The name of folder `i`, where the tree holds such a folder and the
    /// store could open it.
    pub fn name(&self, i: usize) -> (r: Option<&str>)
        ensures
            r is Some <==> (i < self@.len() && self@[i as int].readable),
            r matches Some(n) ==> n@ == self@[i as int].name,
    {
        if i < self.nodes.len() && self.nodes[i].readable {
            Some(self.nodes[i].name.as_str())
        } else {
            None
        }
    }

    fn attach(&mut self, parent: Option<usize>, node: FolderNode) -> (r: Option<usize>)
        requires
            old(self).wf(),
            node@.children.len() == 0,
        ensures
            final(self).wf(),
            parent_missing(old(self)@, parent) ==> r is None && final(self)@ == old(self)@,
            !parent_missing(old(self)@, parent) ==> r == Some(old(self)@.len() as usize) 
                && final(self)@ == tree_with(old(self)@, parent_index(parent), node@),
    {
        let at: usize = self.nodes.len();
        let ghost before = self@;
        match parent {
            Some(p) => {
                if p >= at {
                    return None;
                }
                self.nodes[p].children.push(at);
                proof {
                    assert(self.nodes@[p as int]@.children =~= before[p as int].children.push(
                        at as int,
                    ));
                }
                self.nodes.push(node);
                proof {
                    let after = tree_with(before, Some(p as int), node@);
                    assert forall|j: int| 0 <= j < after.len() implies self@[j] == after[j] by {
                        if j != p && j < at {
                            assert(self@[j] == before[j]);
                        }
                    }
                    assert(self@ =~= after);
                }
            },
            None => {
                self.nodes.push(node);
                proof {
                    assert(self@ =~= tree_with(before, None, node@));
                }
            },
        }
        Some(at)
    }

    /// Adds a folder that the store could open, with its messages, as the
    /// last subfolder of `parent`, or as a root where no parent is given.
    /// A folder whose name cannot be read is called `Unknown`. Returns the
    /// index of the new folder; nothing is added where `parent` is no
    /// folder of the tree.
    pub fn add_folder(&mut self, parent: Option<usize>, name: Option<String>, messages: Vec<u32>) -> (r: Option<usize>)
        requires
            old(self).wf(),
        ensures
            final(self).wf(),
            parent_missing(old(self)@, parent) ==> r is None && final(self)@ == old(self)@,
            !parent_missing(old(self)@, parent) ==> r == Some(old(self)@.len() as usize) 
                && final(self)@ == tree_with(old(self)@, parent_index(parent), opened_node(name, messages@)),
    {
        let shown = match name {
            Some(n) => n,
            None => "Unknown".to_owned(),
        };
        let node = FolderNode { name: shown, readable: true, messages, children: Vec::new() };
        proof {
            assert(node@.children =~= Seq::<int>::empty());
        }
        self.attach(parent, node)
    }

    /// Records a subfolder that the store could not open. It takes its
    /// place among the subfolders of `parent` and has no rows.
    pub fn add_unreadable(&mut self, parent: Option<usize>) -> (r: Option<usize>)
        requires
            old(self).wf(),
        ensures
            final(self).wf(),
            parent_missing(old(self)@, parent) ==> r is None && final(self)@ == old(self)@,
            !parent_missing(old(self)@, parent) ==> r == Some(old(self)@.len() as usize) 
                && final(self)@ == tree_with(old(self)@, parent_index(parent), unreadable_node()),
    {
        let node = FolderNode {
            name: String::new(),
            readable: false,
            messages: Vec::new(),
            children: Vec::new(),
        };
        proof {
            assert(node@.children =~= Seq::<int>::empty());
        }
        self.attach(parent, node)
    }

    /// The rows of one folder alone; none for an index that names no
    /// folder.
    pub fn folder_rows(&self, i: usize) -> (rows: Vec<MessageRef>)
        ensures
            refs_of(rows@) == (if i < self@.len() {
                node_rows(self@[i as int])
            } else {
                Seq::empty()
            }),
    {
        let mut rows: Vec<MessageRef> = Vec::new();
        if i < self.nodes.len() {
            self.push_rows(i, &mut rows);
            proof {
                assert(refs_of(rows@) =~= node_rows(self@[i as int]));
            }
        } else {
            proof {
                assert(refs_of(rows@) =~= Seq::<RefModel>::empty());
            }
        }
        rows
    }

    fn push_rows(&self, i: usize, out: &mut Vec<MessageRef>)
        requires
            i < self@.len(),
        ensures
            refs_of(final(out)@) == refs_of(old(out)@) + node_rows(self@[i as int]),
    {
        let node = &self.nodes[i];
        let mut k: usize = 0;
        while k < node.messages.len()
            invariant
                k <= node.messages.len(),
                node == self.nodes@[i as int],
                i < self.nodes@.len(),
                out@.len() == old(out)@.len() + k,
                refs_of(out@) == refs_of(old(out)@) + node_rows(node@).take(k as int),
            decreases node.messages.len() - k,
        {
            let ghost before = out@;
            out.push(MessageRef { folder: node.name.clone(), id: node.messages[k] });
            proof {
                let want = refs_of(old(out)@) + node_rows(node@).take(k + 1);
                assert forall|j: int| 0 <= j < want.len() implies refs_of(out@)[j] == want[j] by {
                    if j < before.len() {
                        assert(refs_of(before)[j] == (refs_of(old(out)@) + node_rows(node@).take(
                            k as int,
                        ))[j]);
                    }
                }
                assert(refs_of(out@) =~= want);
            }
            k += 1;
        }
        proof {
            assert(node_rows(node@).take(node.messages.len() as int) =~= node_rows(node@));
        }
    }

    fn collect_into(&self, i: usize, out: &mut Vec<MessageRef>)
        requires
            self.wf(),
            i < self@.len(),
        ensures
            refs_of(final(out)@) == refs_of(old(out)@) + flatten(self@, i as int),
        decreases self@.len() - i,
    {
        let node = &self.nodes[i];
        if !node.readable {
            proof {
                assert(refs_of(out@) =~= refs_of(old(out)@) + flatten(self@, i as int));
            }
            return;
        }
        self.push_rows(i, out);
        let ghost own = refs_of(out@);
        let mut k: usize = 0;
        proof {
            assert(own + flatten_from(self@, i as int, 0) =~= refs_of(old(out)@) + flatten(
                self@,
                i as int,
            ));
        }
        while k < node.children.len()
            invariant
                self.wf(),
                i < self@.len(),
                node == self.nodes@[i as int],
                k <= node.children.len(),
                refs_of(out@) + flatten_from(self@, i as int, k as int) == refs_of(old(out)@)
                    + flatten(self@, i as int),
            decreases node.children.len() - k,
        {
            let c: usize = node.children[k];
            let ghost before = refs_of(out@);
            proof {
                assert(self@[i as int].children[k as int] == c);
                assert(i < c < self@.len());
            }
            self.collect_into(c, out);
            proof {
                assert(refs_of(out@) + flatten_from(self@, i as int, k + 1) =~= before + (flatten(
                    self@,
                    c as int,
                ) + flatten_from(self@, i as int, k + 1)));
            }
            k += 1;
        }
        proof {
            assert(refs_of(out@) + flatten_from(self@, i as int, node.children.len() as int)
                =~= refs_of(out@));
        }
    }

    /// All messages of folder `root` and of the folders below it, depth
    /// first: the messages of a folder, then its subfolders in their order.
    /// Folders that could not be opened are passed over.
    pub fn collect_all_messages(&self, root: usize) -> (rows: Vec<MessageRef>)
        requires
            self.wf(),
        ensures
            refs_of(rows@) == flatten(self@, root as int),
    {
        let mut rows: Vec<MessageRef> = Vec::new();
        if root < self.nodes.len() {
            self.collect_into(root, &mut rows);
            proof {
                assert(refs_of(rows@) =~= flatten(self@, root as int));
            }
        } else {
            proof {
                assert(refs_of(rows@) =~= flatten(self@, root as int));
            }
        }
        rows
    }
}

/// The list of all messages has as many rows as the folders that the walk
/// reaches hold messages together.
pub proof fn lemma_row_count(t: Seq<NodeModel>, i: int)
    ensures
        flatten(t, i).len() == content_count(t, i),
    decreases t.len() - i, t[i].children.len() + 1,
{
    if 0 <= i < t.len() && t[i].readable {
        lemma_row_count_from(t, i, 0);
    }
}

pub proof fn lemma_row_count_from(t: Seq<NodeModel>, i: int, k: int)
    ensures
        flatten_from(t, i, k).len() == content_count_from(t, i, k),
    decreases t.len() - i, t[i].children.len() - k,
{
    if 0 <= i < t.len() && 0 <= k < t[i].children.len() {
        let c = t[i].children[k];
        if i < c < t.len() {
            lemma_row_count(t, c);
        }
        lemma_row_count_from(t, i, k + 1);
    }
}

/// The sum of `f` over the items of `s`.
pub open spec fn sum_over(s: Seq<int>, f: spec_fn(int) -> nat) -> nat
    decreases s.len(),
{
    if s.len() == 0 {
        0
    } else {
        f(s[0]) + sum_over(s.skip(1), f)
    }
}

/// The number of messages that subfolder `c` of folder `i` adds.
pub open spec fn count_in(t: Seq<NodeModel>, i: int, c: int) -> nat {
    if i < c < t.len() {
        content_count(t, c)
    } else {
        0
    }
}

/// The number of messages that each subfolder of folder `i` adds.
pub open spec fn count_below(t: Seq<NodeModel>, i: int) -> spec_fn(int) -> nat {
    |c: int| count_in(t, i, c)
}

/// Two trees with the same folders, each with the same subfolders in
/// whatever order.
pub open spec fn same_but_sibling_order(a: Seq<NodeModel>, b: Seq<NodeModel>) -> bool {
    &&& a.len() == b.len()
    &&& forall|i: int|
        0 <= i < a.len() ==> {
            &&& (#[trigger] a[i]).readable == b[i].readable
            &&& a[i].messages.len() == b[i].messages.len()
            &&& a[i].children.to_multiset() == b[i].children.to_multiset()
        }
}

proof fn lemma_sum_split(s: Seq<int>, f: spec_fn(int) -> nat, j: int)
    requires
        0 <= j < s.len(),
    ensures
        sum_over(s, f) == f(s[j]) + sum_over(s.remove(j), f),
    decreases j,
{
    if j == 0 {
        assert(s.remove(0) =~= s.skip(1));
    } else {
        let rest = s.skip(1);
        lemma_sum_split(rest, f, j - 1);
        assert(s.remove(j).skip(1) =~= rest.remove(j - 1));
        assert(s.remove(j)[0] == s[0]);
    }
}

/// The sum over a sequence does not depend on the order of its items.
pub proof fn lemma_sum_any_order(s1: Seq<int>, s2: Seq<int>, f: spec_fn(int) -> nat)
    requires
        s1.to_multiset() == s2.to_multiset(),
    ensures
        sum_over(s1, f) == sum_over(s2, f),
    decreases s1.len(),
{
    s1.to_multiset_ensures();
    s2.to_multiset_ensures();
    if s1.len() > 0 {
        let x = s1[0];
        assert(s1.contains(x));
        assert(s1.to_multiset().count(x) > 0);
        assert(s2.to_multiset().count(x) > 0);
        assert(s2.contains(x));
        let j = choose|j: int| 0 <= j < s2.len() && s2[j] == x;
        assert(s1.skip(1) =~= s1.remove(0));
        vstd::seq_lib::to_multiset_remove(s1, 0);
        vstd::seq_lib::to_multiset_remove(s2, j);
        lemma_sum_any_order(s1.skip(1), s2.remove(j), f);
        lemma_sum_split(s2, f, j);
    }
}

proof fn lemma_count_from_is_sum(t: Seq<NodeModel>, i: int, k: int)
    requires
        0 <= i < t.len(),
        0 <= k <= t[i].children.len(),
    ensures
        content_count_from(t, i, k) == sum_over(t[i].children.skip(k), count_below(t, i)),
    decreases t[i].children.len() - k,
{
    let rest = t[i].children.skip(k);
    if k < t[i].children.len() {
        lemma_count_from_is_sum(t, i, k + 1);
        assert(rest.skip(1) =~= t[i].children.skip(k + 1));
        assert(rest[0] == t[i].children[k]);
    }
}

/// The number of rows does not depend on the order in which the
/// subfolders of a folder stand.
pub proof fn lemma_sibling_order(a: Seq<NodeModel>, b: Seq<NodeModel>, i: int)
    requires
        same_but_sibling_order(a, b),
    ensures
        content_count(a, i) == content_count(b, i),
        flatten(a, i).len() == flatten(b, i).len(),
    decreases a.len() - i,
{
    lemma_row_count(a, i);
    lemma_row_count(b, i);
    if 0 <= i < a.len() && a[i].readable {
        assert(b[i].readable);
        assert forall|c: int| #[trigger] count_in(a, i, c) == count_in(b, i, c) by {
            if i < c < a.len() {
                lemma_sibling_order(a, b, c);
            }
        }
        assert(count_below(a, i) =~= count_below(b, i));
        lemma_count_from_is_sum(a, i, 0);
        lemma_count_from_is_sum(b, i, 0);
        assert(a[i].children.skip(0) =~= a[i].children);
        assert(b[i].children.skip(0) =~= b[i].children);
        lemma_sum_any_order(a[i].children, b[i].children, count_below(a, i));
    }
}

/// All rows of the multisets that `f` gives for the items of `s`.
pub open spec fn union_over(s: Seq<int>, f: spec_fn(int) -> Multiset<RefModel>) -> Multiset<
    RefModel,
>
    decreases s.len(),
{
    if s.len() == 0 {
        Multiset::empty()
    } else {
        f(s[0]).add(union_over(s.skip(1), f))
    }
}

/// The rows that subfolder `c` of folder `i` adds, in no order.
pub open spec fn rows_in(t: Seq<NodeModel>, i: int, c: int) -> Multiset<RefModel> {
    if i < c < t.len() {
        flatten(t, c).to_multiset()
    } else {
        Multiset::empty()
    }
}

/// The rows that each subfolder of folder `i` adds, in no order.
pub open spec fn rows_below(t: Seq<NodeModel>, i: int) -> spec_fn(int) -> Multiset<RefModel> {
    |c: int| rows_in(t, i, c)
}

/// Two trees that hold the same folders, with the same names and messages,
/// each with the same subfolders in whatever order.
pub open spec fn same_folders(a: Seq<NodeModel>, b: Seq<NodeModel>) -> bool {
    &&& a.len() == b.len()
    &&& forall|i: int|
        0 <= i < a.len() ==> {
            &&& (#[trigger] a[i]).name == b[i].name
            &&& a[i].readable == b[i].readable
            &&& a[i].messages == b[i].messages
            &&& a[i].children.to_multiset() == b[i].children.to_multiset()
        }
}

proof fn lemma_union_split(s: Seq<int>, f: spec_fn(int) -> Multiset<RefModel>, j: int)
    requires
        0 <= j < s.len(),
    ensures
        union_over(s, f) == f(s[j]).add(union_over(s.remove(j), f)),
    decreases j,
{
    if j == 0 {
        assert(s.remove(0) =~= s.skip(1));
    } else {
        let rest = s.skip(1);
        lemma_union_split(rest, f, j - 1);
        assert(s.remove(j).skip(1) =~= rest.remove(j - 1));
        assert(s.remove(j)[0] == s[0]);
        let tail = union_over(rest.remove(j - 1), f);
        assert(union_over(s.remove(j), f) == f(s[0]).add(tail));
        assert(f(s[0]).add(f(s[j]).add(tail)) =~= f(s[j]).add(f(s[0]).add(tail)));
    }
}

/// The rows gathered over a sequence do not depend on the order of its
/// items.
pub proof fn lemma_union_any_order(
    s1: Seq<int>,
    s2: Seq<int>,
    f: spec_fn(int) -> Multiset<RefModel>,
)
    requires
        s1.to_multiset() == s2.to_multiset(),
    ensures
        union_over(s1, f) == union_over(s2, f),
    decreases s1.len(),
{
    s1.to_multiset_ensures();
    s2.to_multiset_ensures();
    if s1.len() > 0 {
        let x = s1[0];
        assert(s1.contains(x));
        assert(s1.to_multiset().count(x) > 0);
        assert(s2.to_multiset().count(x) > 0);
        assert(s2.contains(x));
        let j = choose|j: int| 0 <= j < s2.len() && s2[j] == x;
        assert(s1.skip(1) =~= s1.remove(0));
        vstd::seq_lib::to_multiset_remove(s1, 0);
        vstd::seq_lib::to_multiset_remove(s2, j);
        lemma_union_any_order(s1.skip(1), s2.remove(j), f);
        lemma_union_split(s2, f, j);
    }
}

proof fn lemma_no_rows()
    ensures
        Seq::<RefModel>::empty().to_multiset() == Multiset::<RefModel>::empty(),
{
    broadcast use vstd::multiset::group_multiset_axioms;

    let none = Seq::<RefModel>::empty();
    none.to_multiset_ensures();
    assert forall|r: RefModel| none.to_multiset().count(r) == 0 by {
        assert(!none.contains(r));
    }
    assert(none.to_multiset() =~= Multiset::<RefModel>::empty());
}

proof fn lemma_rows_from_is_union(t: Seq<NodeModel>, i: int, k: int)
    requires
        0 <= i < t.len(),
        0 <= k <= t[i].children.len(),
    ensures
        flatten_from(t, i, k).to_multiset() == union_over(
            t[i].children.skip(k),
            rows_below(t, i),
        ),
    decreases t[i].children.len() - k,
{
    let rest = t[i].children.skip(k);
    if k < t[i].children.len() {
        lemma_rows_from_is_union(t, i, k + 1);
        assert(rest.skip(1) =~= t[i].children.skip(k + 1));
        assert(rest[0] == t[i].children[k]);
        let c = t[i].children[k];
        let head = if i < c < t.len() {
            flatten(t, c)
        } else {
            Seq::empty()
        };
        vstd::seq_lib::lemma_multiset_commutative(head, flatten_from(t, i, k + 1));
        lemma_no_rows();
        assert(head.to_multiset() == rows_in(t, i, c));
    } else {
        lemma_no_rows();
        assert(flatten_from(t, i, k) =~= Seq::<RefModel>::empty());
    }
}

/// The rows of the list of all messages do not depend on the order in
/// which the subfolders of a folder stand, but for their own order: two
/// trees that differ in that order alone give the same rows, each as often
/// as the other.
pub proof fn lemma_sibling_order_rows(a: Seq<NodeModel>, b: Seq<NodeModel>, i: int)
    requires
        same_folders(a, b),
    ensures
        flatten(a, i).to_multiset() == flatten(b, i).to_multiset(),
        flatten(a, i).len() == flatten(b, i).len(),
    decreases a.len() - i,
{
    if 0 <= i < a.len() && a[i].readable {
        assert(b[i].readable);
        assert forall|c: int| #[trigger] rows_in(a, i, c) == rows_in(b, i, c) by {
            if i < c < a.len() {
                lemma_sibling_order_rows(a, b, c);
            }
        }
        assert(rows_below(a, i) =~= rows_below(b, i));
        lemma_rows_from_is_union(a, i, 0);
        lemma_rows_from_is_union(b, i, 0);
        assert(a[i].children.skip(0) =~= a[i].children);
        assert(b[i].children.skip(0) =~= b[i].children);
        lemma_union_any_order(a[i].children, b[i].children, rows_below(a, i));
        assert(node_rows(a[i]) =~= node_rows(b[i]));
        vstd::seq_lib::lemma_multiset_commutative(node_rows(a[i]), flatten_from(a, i, 0));
        vstd::seq_lib::lemma_multiset_commutative(node_rows(b[i]), flatten_from(b, i, 0));
    } else {
        assert(flatten(a, i) =~= flatten(b, i));
    }
    flatten(a, i).to_multiset_ensures();
    flatten(b, i).to_multiset_ensures();
}

} // verus!
