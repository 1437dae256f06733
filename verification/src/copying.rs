//! The walk through a project that copies it for a dry run.
use crate::runner::{CopyAction, Entry, EntryKind, copy_action, copy_dir_filtered, is_left_out};
use crate::text::{Text, lemma_views_push, views};
use vstd::prelude::*;

verus! {

/// A directory or file that is still to be copied.
#[derive(Debug)]
pub struct Pending {
    /// The names that lead to it from the project.
    pub path: Vec<String>,
    /// Whether it is a directory.
    pub is_dir: bool,
}

/// What a directory or file that is still to be copied stands for.
pub ghost struct PendingModel {
    /// The names that lead to it from the project.
    pub path: Seq<Text>,
    /// Whether it is a directory.
    pub is_dir: bool,
}

impl View for Pending {
    type V = PendingModel;

    open spec fn view(&self) -> PendingModel {
        PendingModel { path: views(self.path@), is_dir: self.is_dir }
    }
}

/// What of the entries of a directory is to be copied, in their order.
pub open spec fn kept(dir: Seq<Text>, entries: Seq<Entry<Text>>) -> Seq<PendingModel>
    decreases entries.len(),
{
    if entries.len() == 0 {
        Seq::empty()
    } else {
        let others = kept(dir, entries.drop_first());
        let path = dir.push(entries[0].name);
        match copy_action(entries[0]) {
            CopyAction::Skip => others,
            CopyAction::Descend => seq![PendingModel { path, is_dir: true }] + others,
            CopyAction::CopyFile => seq![PendingModel { path, is_dir: false }] + others,
        }
    }
}

/// The path of an entry of a directory.
fn entry_path(dir: &Vec<String>, name: &str) -> (r: Vec<String>)
    ensures
        views(r@) == views(dir@).push(name@),
{
    let mut path: Vec<String> = Vec::new();
    let mut i: usize = 0;
    assert(views(path@) =~= views(dir@).take(0));
    while i < dir.len()
        invariant
            i <= dir@.len(),
            views(path@) == views(dir@).take(i as int),
        decreases dir@.len() - i,
    {
        let part = dir[i].clone();
        proof {
            lemma_views_push(path@, part);
            assert(views(dir@).take(i + 1) =~= views(dir@).take(i as int).push(views(dir@)[i as int]));
        }
        path.push(part);
        i += 1;
    }
    let last = name.to_owned();
    proof {
        assert(views(dir@).take(i as int) =~= views(dir@));
        lemma_views_push(path@, last);
    }
    path.push(last);
    path
}

/// A walk through a project: what is still to be copied.
pub struct Walk {
    pending: Vec<Pending>,
}

impl View for Walk {
    type V = Seq<PendingModel>;

    closed spec fn view(&self) -> Seq<PendingModel> {
        views(self.pending@).reverse()
    }
}

impl Walk {
    /// The walk that starts with the project.
    pub fn new() -> (r: Walk)
        ensures
            r@ == seq![PendingModel { path: Seq::empty(), is_dir: true }],
    {
        let mut pending: Vec<Pending> = Vec::new();
        let root = Pending { path: Vec::new(), is_dir: true };
        assert(root@.path =~= Seq::<Text>::empty());
        pending.push(root);
        let r = Walk { pending };
        assert(r@ =~= seq![PendingModel { path: Seq::empty(), is_dir: true }]);
        r
    }

    /// What is to be copied next. A directory is made, and its entries are handed to `listed`.
    pub fn next(&mut self) -> (r: Option<Pending>)
        ensures
            match r {
                Some(pending) => old(self)@.len() > 0 && pending@ == old(self)@[0] && final(self)@
                    == old(self)@.drop_first(),
                None => old(self)@.len() == 0 && final(self)@ == old(self)@,
            },
    {
        let r = self.pending.pop();
        assert(r is Some ==> self@ =~= old(self)@.drop_first());
        r
    }

    /// Goes on with the entries of a directory: first what is to be copied of them, and then what
    /// was still to be copied.
    pub fn listed(&mut self, dir: &Vec<String>, entries: &Vec<Entry<String>>)
        ensures
            final(self)@ == kept(views(dir@), views(entries@)) + old(self)@,
    {
        let ghost all = views(entries@);
        let ghost path = views(dir@);
        let actions = copy_dir_filtered(entries);
        let mut i: usize = entries.len();
        assert(actions@.len() == all.len());
        assert(all.skip(i as int) =~= Seq::<Entry<Text>>::empty());
        assert(kept(path, all.skip(i as int)) + self@ =~= self@);
        while i > 0
            invariant
                i <= entries@.len(),
                all == views(entries@),
                path == views(dir@),
                actions@ == all.map_values(|entry: Entry<Text>| copy_action(entry)),
                self@ == kept(path, all.skip(i as int)) + old(self)@,
            decreases i,
        {
            i -= 1;
            let ghost before = self@;
            let ghost rest = all.skip(i as int);
            assert(rest.drop_first() =~= all.skip(i + 1));
            assert(rest[0] == entries@[i as int]@);
            assert(actions@[i as int] == copy_action(rest[0]));
            let is_dir = match actions[i] {
                CopyAction::Skip => {
                    continue;
                },
                CopyAction::Descend => true,
                CopyAction::CopyFile => false,
            };
            let pending = Pending { path: entry_path(dir, entries[i].name.as_str()), is_dir };
            let ghost stack = self.pending@;
            self.pending.push(pending);
            proof {
                lemma_views_push(stack, pending);
                assert(self@ =~= seq![pending@] + before);
                assert(seq![pending@] + (kept(path, all.skip(i + 1)) + old(self)@) =~= (
                seq![pending@] + kept(path, all.skip(i + 1))) + old(self)@);
            }
        }
        assert(all.skip(0) =~= all);
    }
}

/// What lies at a place of a file system.
pub ghost enum Tree {
    /// A file.
    File,
    /// Neither a file nor a directory.
    Other,
    /// A directory with its entries.
    Dir(Seq<Branch>),
}

/// An entry of a directory, with what lies there.
pub ghost struct Branch {
    /// Its name.
    pub name: Text,
    /// What lies there.
    pub tree: Tree,
}

/// The entry of a directory as it is listed.
pub open spec fn listing(branches: Seq<Branch>) -> Seq<Entry<Text>> {
    branches.map_values(
        |b: Branch|
            Entry {
                name: b.name,
                kind: match b.tree {
                    Tree::File => EntryKind::File,
                    Tree::Other => EntryKind::Other,
                    Tree::Dir(_) => EntryKind::Dir,
                },
            },
    )
}

/// Something that is still to be copied, with what lies there.
pub ghost struct Item {
    /// The names that lead to it from the project.
    pub path: Seq<Text>,
    /// What lies there.
    pub tree: Tree,
}

/// What is still to be copied, by what lies there.
pub open spec fn pending_of(items: Seq<Item>) -> Seq<PendingModel> {
    items.map_values(|item: Item| PendingModel { path: item.path, is_dir: item.tree is Dir })
}

/// What of the entries of a directory is to be copied, with what lies there.
pub open spec fn opened(dir: Seq<Text>, branches: Seq<Branch>) -> Seq<Item>
    decreases branches.len(),
{
    if branches.len() == 0 {
        Seq::empty()
    } else {
        let others = opened(dir, branches.drop_first());
        if is_left_out(branches[0].name) || branches[0].tree is Other {
            others
        } else {
            seq![Item { path: dir.push(branches[0].name), tree: branches[0].tree }] + others
        }
    }
}

/// What is still to be copied when the next of it was.
pub open spec fn after_next(items: Seq<Item>) -> Seq<Item> {
    match items[0].tree {
        Tree::Dir(branches) => opened(items[0].path, branches) + items.drop_first(),
        _ => items.drop_first(),
    }
}

/// What is copied when `n` more directories and files are, in order.
pub open spec fn copied_in(items: Seq<Item>, n: nat) -> Seq<PendingModel>
    decreases n,
{
    if n == 0 || items.len() == 0 {
        Seq::empty()
    } else {
        seq![pending_of(items)[0]] + copied_in(after_next(items), (n - 1) as nat)
    }
}

/// What is still to be copied when `n` more directories and files were.
pub open spec fn left_after(items: Seq<Item>, n: nat) -> Seq<Item>
    decreases n,
{
    if n == 0 || items.len() == 0 {
        items
    } else {
        left_after(after_next(items), (n - 1) as nat)
    }
}

/// What is copied of what lies at a place: a directory before its entries, these in their order.
pub open spec fn copy_of(tree: Tree, path: Seq<Text>) -> Seq<PendingModel>
    decreases tree,
{
    match tree {
        Tree::File => seq![PendingModel { path, is_dir: false }],
        Tree::Other => Seq::empty(),
        Tree::Dir(branches) => seq![PendingModel { path, is_dir: true }] + copy_of_all(
            branches,
            path,
        ),
    }
}

/// What is copied of the entries of a directory.
pub open spec fn copy_of_all(branches: Seq<Branch>, dir: Seq<Text>) -> Seq<PendingModel>
    decreases branches,
{
    if branches.len() == 0 {
        Seq::empty()
    } else {
        let others = copy_of_all(branches.drop_first(), dir);
        let first = branches[0];
        if is_left_out(first.name) {
            others
        } else {
            copy_of(first.tree, dir.push(first.name)) + others
        }
    }
}

/// Whether names lead from a tree to a directory or file.
pub open spec fn leads_to(tree: Tree, path: Seq<Text>, is_dir: bool) -> bool
    decreases path.len(),
{
    if path.len() == 0 {
        if is_dir {
            tree is Dir
        } else {
            tree is File
        }
    } else {
        tree matches Tree::Dir(branches) && exists|i: int|
            0 <= i < branches.len() && (#[trigger] branches[i]).name == path[0] && leads_to(
                branches[i].tree,
                path.drop_first(),
                is_dir,
            )
    }
}

/// Whether none of the names of a path is left out of a copy.
pub open spec fn is_clear(path: Seq<Text>) -> bool {
    forall|i: int| 0 <= i < path.len() ==> !is_left_out(#[trigger] path[i])
}

/// How many directories, files and other things there are in a tree.
pub open spec fn size(tree: Tree) -> nat
    decreases tree,
{
    match tree {
        Tree::Dir(branches) => 1 + size_of_all(branches),
        _ => 1,
    }
}

/// How many directories, files and other things there are among entries and below them.
pub open spec fn size_of_all(branches: Seq<Branch>) -> nat
    decreases branches,
{
    if branches.len() == 0 {
        0
    } else {
        size(branches[0].tree) + size_of_all(branches.drop_first())
    }
}

/// How many directories, files and other things are still to be copied, at most.
spec fn work(items: Seq<Item>) -> nat
    decreases items.len(),
{
    if items.len() == 0 {
        0
    } else {
        size(items[0].tree) + work(items.drop_first())
    }
}

/// What is copied of all that is still to be copied.
spec fn copy_of_items(items: Seq<Item>) -> Seq<PendingModel>
    decreases items.len(),
{
    if items.len() == 0 {
        Seq::empty()
    } else {
        copy_of(items[0].tree, items[0].path) + copy_of_items(items.drop_first())
    }
}

/// What is to be copied of entries is what is to be copied of their listing.
proof fn lemma_opened(dir: Seq<Text>, branches: Seq<Branch>)
    ensures
        pending_of(opened(dir, branches)) == kept(dir, listing(branches)),
        work(opened(dir, branches)) <= size_of_all(branches),
        copy_of_items(opened(dir, branches)) == copy_of_all(branches, dir),
        forall|i: int|
            0 <= i < opened(dir, branches).len() ==> !((#[trigger] opened(dir, branches)[i]).tree
                is Other),
    decreases branches.len(),
{
    let all = listing(branches);
    let found = opened(dir, branches);
    if branches.len() == 0 {
        assert(pending_of(found) =~= kept(dir, all));
    } else {
        let first = branches[0];
        let others = opened(dir, branches.drop_first());
        lemma_opened(dir, branches.drop_first());
        assert(all.drop_first() =~= listing(branches.drop_first()));
        if is_left_out(first.name) || first.tree is Other {
            if !is_left_out(first.name) {
                assert(copy_of(first.tree, dir.push(first.name)) =~= Seq::empty());
            }
            assert(copy_of_all(branches, dir) =~= copy_of_items(others));
        } else {
            let item = Item { path: dir.push(first.name), tree: first.tree };
            assert(found =~= seq![item] + others);
            assert(found.drop_first() =~= others);
            assert(pending_of(found) =~= seq![pending_of(found)[0]] + pending_of(others));
        }
    }
}

/// What is copied of two lists is what is copied of each.
proof fn lemma_items_together(a: Seq<Item>, b: Seq<Item>)
    ensures
        copy_of_items(a + b) == copy_of_items(a) + copy_of_items(b),
        work(a + b) == work(a) + work(b),
    decreases a.len(),
{
    if a.len() == 0 {
        assert(a + b =~= b);
        assert(copy_of_items(a) + copy_of_items(b) =~= copy_of_items(b));
    } else {
        lemma_items_together(a.drop_first(), b);
        assert((a + b).drop_first() =~= a.drop_first() + b);
        let first = copy_of(a[0].tree, a[0].path);
        assert(first + (copy_of_items(a.drop_first()) + copy_of_items(b)) =~= (first
            + copy_of_items(a.drop_first())) + copy_of_items(b));
    }
}

/// A walk that is handed the entries of each directory as they lie there goes through the tree: what
/// is still to be copied is, in the same order, what lies at the places still to be copied.
pub proof fn law_walk_follows_the_tree(items: Seq<Item>)
    requires
        items.len() > 0,
    ensures
        pending_of(after_next(items)) == match items[0].tree {
            Tree::Dir(branches) => kept(items[0].path, listing(branches)) + pending_of(
                items,
            ).drop_first(),
            _ => pending_of(items).drop_first(),
        },
{
    assert(pending_of(items.drop_first()) =~= pending_of(items).drop_first());
    if let Tree::Dir(branches) = items[0].tree {
        lemma_opened(items[0].path, branches);
        assert(pending_of(after_next(items)) =~= pending_of(opened(items[0].path, branches))
            + pending_of(items.drop_first()));
    }
}

/// A walk ends, and has then copied all that it had to.
proof fn lemma_walk(items: Seq<Item>, n: nat)
    requires
        work(items) <= n,
        forall|i: int| 0 <= i < items.len() ==> !((#[trigger] items[i]).tree is Other),
    ensures
        left_after(items, n).len() == 0,
        copied_in(items, n) == copy_of_items(items),
    decreases n,
{
    if items.len() > 0 {
        let rest = items.drop_first();
        let next = after_next(items);
        let first = pending_of(items)[0];
        assert(!(items[0].tree is Other));
        if let Tree::Dir(branches) = items[0].tree {
            let found = opened(items[0].path, branches);
            lemma_opened(items[0].path, branches);
            lemma_items_together(found, rest);
            assert forall|i: int| 0 <= i < next.len() implies !((#[trigger] next[i]).tree
                is Other) by {
                if i < found.len() {
                    assert(next[i] == found[i]);
                } else {
                    assert(next[i] == items[i - found.len() + 1]);
                }
            }
            lemma_walk(next, (n - 1) as nat);
            assert(seq![first] + (copy_of_items(found) + copy_of_items(rest)) =~= (seq![first]
                + copy_of_items(found)) + copy_of_items(rest));
        } else {
            assert forall|i: int| 0 <= i < next.len() implies !((#[trigger] next[i]).tree
                is Other) by {
                assert(next[i] == items[i + 1]);
            }
            lemma_walk(next, (n - 1) as nat);
        }
    }
}

/// A path is among what is copied of a tree exactly where its names lead to a directory or file of
/// the tree, and none of them is left out.
proof fn lemma_copy_of(tree: Tree, base: Seq<Text>, path: Seq<Text>, is_dir: bool)
    ensures
        copy_of(tree, base).contains(PendingModel { path, is_dir }) <==> base.is_prefix_of(path)
            && leads_to(tree, path.skip(base.len() as int), is_dir) && is_clear(
            path.skip(base.len() as int),
        ),
    decreases tree,
{
    let wanted = PendingModel { path, is_dir };
    let rest = path.skip(base.len() as int);
    let all = copy_of(tree, base);
    if base.is_prefix_of(path) && rest.len() == 0 {
        assert(path =~= base);
    }
    match tree {
        Tree::File => {
            if all.contains(wanted) {
                assert(all[0] == wanted);
            } else {
                assert(all[0] != wanted);
            }
        },
        Tree::Other => {},
        Tree::Dir(branches) => {
            let below = copy_of_all(branches, base);
            lemma_copy_of_all(branches, base, path, is_dir);
            assert(all.contains(wanted) <==> all[0] == wanted || below.contains(wanted)) by {
                if all.contains(wanted) && all[0] != wanted {
                    let k = choose|k: int| 0 <= k < all.len() && all[k] == wanted;
                    assert(below[k - 1] == wanted);
                }
                if below.contains(wanted) {
                    let k = choose|k: int| 0 <= k < below.len() && below[k] == wanted;
                    assert(all[k + 1] == wanted);
                }
            }
            if all[0] == wanted {
                assert(path =~= base && rest.len() == 0);
            }
            if path.len() > base.len() {
                assert(path[base.len() as int] == rest[0]);
                assert(path.skip(base.len() as int + 1) =~= rest.drop_first());
            }
        },
    }
}

/// A path is among what is copied of the entries of a directory exactly where its names lead to one
/// of them or below it, and none of them is left out.
proof fn lemma_copy_of_all(branches: Seq<Branch>, dir: Seq<Text>, path: Seq<Text>, is_dir: bool)
    ensures
        copy_of_all(branches, dir).contains(PendingModel { path, is_dir }) <==> {
            let n = dir.len() as int;
            &&& dir.is_prefix_of(path)
            &&& path.len() > n
            &&& is_clear(path.skip(n))
            &&& exists|i: int|
                0 <= i < branches.len() && (#[trigger] branches[i]).name == path[n] && leads_to(
                    branches[i].tree,
                    path.skip(n + 1),
                    is_dir,
                )
        },
    decreases branches,
{
    let wanted = PendingModel { path, is_dir };
    let n = dir.len() as int;
    let all = copy_of_all(branches, dir);
    if branches.len() > 0 {
        let first = branches[0];
        let others = branches.drop_first();
        let later = copy_of_all(others, dir);
        lemma_copy_of_all(others, dir, path, is_dir);
        let deeper = dir.push(first.name);
        let here = copy_of(first.tree, deeper);
        lemma_copy_of(first.tree, deeper, path, is_dir);
        // The names below the first entry are those of the path after it.
        assert(deeper.is_prefix_of(path) <==> dir.is_prefix_of(path) && path.len() > n && path[n]
            == first.name) by {
            if deeper.is_prefix_of(path) {
                assert(path.take(n) =~= deeper.take(n));
                assert(dir =~= path.subrange(0, n));
                assert(path[n] == deeper[n]);
            }
            if dir.is_prefix_of(path) && path.len() > n && path[n] == first.name {
                assert(deeper =~= path.subrange(0, n + 1));
            }
        }
        if path.len() > n {
            let (long, short) = (path.skip(n), path.skip(n + 1));
            assert(long[0] == path[n]);
            assert(short =~= long.drop_first());
            assert(is_clear(long) <==> !is_left_out(path[n]) && is_clear(short)) by {
                if is_clear(long) {
                    assert forall|i: int| 0 <= i < short.len() implies !is_left_out(
                        #[trigger] short[i],
                    ) by {
                        assert(short[i] == long[i + 1]);
                    }
                }
                if !is_left_out(path[n]) && is_clear(short) {
                    assert forall|i: int| 0 <= i < long.len() implies !is_left_out(
                        #[trigger] long[i],
                    ) by {
                        if i > 0 {
                            assert(long[i] == short[i - 1]);
                        }
                    }
                }
            }
        }
        let one = |b: Branch| b.name == path[n] && leads_to(b.tree, path.skip(n + 1), is_dir);
        assert((exists|i: int| 0 <= i < branches.len() && one(#[trigger] branches[i])) <==> one(
            first,
        ) || (exists|i: int| 0 <= i < others.len() && one(#[trigger] others[i]))) by {
            if exists|i: int| 0 <= i < branches.len() && one(#[trigger] branches[i]) {
                let i = choose|i: int| 0 <= i < branches.len() && one(#[trigger] branches[i]);
                if i > 0 {
                    assert(others[i - 1] == branches[i]);
                    assert(one(others[i - 1]));
                }
            }
            if one(first) {
                assert(one(branches[0]));
            }
            if exists|i: int| 0 <= i < others.len() && one(#[trigger] others[i]) {
                let i = choose|i: int| 0 <= i < others.len() && one(#[trigger] others[i]);
                assert(one(branches[i + 1]));
            }
        }
        if !is_left_out(first.name) {
            assert(all =~= here + later);
            assert(all.contains(wanted) <==> here.contains(wanted) || later.contains(wanted)) by {
                if all.contains(wanted) {
                    let k = choose|k: int| 0 <= k < all.len() && all[k] == wanted;
                    if k < here.len() {
                        assert(here[k] == wanted);
                    } else {
                        assert(later[k - here.len()] == wanted);
                    }
                }
                if here.contains(wanted) {
                    let k = choose|k: int| 0 <= k < here.len() && here[k] == wanted;
                    assert(all[k] == wanted);
                }
                if later.contains(wanted) {
                    let k = choose|k: int| 0 <= k < later.len() && later[k] == wanted;
                    assert(all[here.len() + k] == wanted);
                }
            }
        }
    }
}

/// The walk through a project ends, and has then copied a directory or file exactly where none of
/// the names that lead to it is left out of a copy: directories before what lies in them, and all in
/// the order in which they are listed.
pub proof fn law_copy_is_complete(project: Seq<Branch>, path: Seq<Text>, is_dir: bool)
    ensures
        ({
            let root = Tree::Dir(project);
            let start = seq![Item { path: Seq::empty(), tree: root }];
            let copied = copied_in(start, size(root));
            &&& pending_of(start) == seq![PendingModel { path: Seq::empty(), is_dir: true }]
            &&& left_after(start, size(root)).len() == 0
            &&& copied == copy_of(root, Seq::empty())
            &&& copied.contains(PendingModel { path, is_dir }) <==> leads_to(root, path, is_dir)
                && is_clear(path)
        }),
{
    let root = Tree::Dir(project);
    let start = seq![Item { path: Seq::<Text>::empty(), tree: root }];
    assert(pending_of(start) =~= seq![PendingModel { path: Seq::empty(), is_dir: true }]);
    assert(start.drop_first() =~= Seq::<Item>::empty());
    assert(work(start.drop_first()) == 0);
    lemma_walk(start, size(root));
    assert(copy_of_items(start.drop_first()) =~= Seq::empty());
    assert(copy_of_items(start) =~= copy_of(root, Seq::empty()));
    lemma_copy_of(root, Seq::empty(), path, is_dir);
    assert(path.skip(0) =~= path);
    assert(Seq::<Text>::empty() =~= path.subrange(0, 0));
}

} // verus!
