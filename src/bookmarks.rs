use vstd::prelude::*;
use crate::enhanced::{check_named_item, path_exists, spec_named_item_check, text_bytes, EnhancedError};
use crate::byte_util::str_equal;

verus! {

broadcast use {vstd::seq::axiom_seq_index_decreases, vstd::std_specs::vec::axiom_vec_decreases_to_view};

/// An outline entry: a title, a 0-based page and nested entries.
#[derive(Debug)]
pub struct Bookmark {
    /// the title
    pub title: String,
    /// the target page, from 0
    pub page: usize,
    /// the nested entries
    pub children: Vec<Bookmark>,
}

/// The number of entries in a list of outline trees, nested ones included.
pub open spec fn forest_count(s: Seq<Bookmark>) -> nat
    decreases s,
{
    if s.len() == 0 {
        0
    } else {
        forest_count(s.drop_last()) + 1 + forest_count(s.last().children@)
    }
}

/// The first entry, in pre-order (each entry before its nested entries, the
/// trees in order), of a list of outline trees that has the title `t`.
pub open spec fn forest_first(s: Seq<Bookmark>, t: Seq<char>) -> Option<Bookmark>
    decreases s,
{
    if s.len() == 0 {
        None
    } else {
        match forest_first(s.drop_last(), t) {
            Some(b) => Some(b),
            None => if s.last().title@ == t {
                Some(s.last())
            } else {
                forest_first(s.last().children@, t)
            },
        }
    }
}

proof fn lemma_forest_first_title(s: Seq<Bookmark>, t: Seq<char>)
    ensures
        forest_first(s, t) matches Some(b) ==> b.title@ == t,
    decreases s,
{
    if s.len() > 0 {
        lemma_forest_first_title(s.drop_last(), t);
        lemma_forest_first_title(s.last().children@, t);
    }
}

/// Whether one entry is valid on its own: a title of 1 to 500 bytes and a
/// page below `max_page`.
pub open spec fn entry_valid(b: Bookmark, max_page: usize) -> bool {
    b.title@.len() > 0 && text_bytes(b.title@).len() <= 500 && b.page < max_page
}

/// Whether every entry of a list of outline trees is valid.
pub open spec fn forest_valid(s: Seq<Bookmark>, max_page: usize) -> bool
    decreases s,
{
    if s.len() == 0 {
        true
    } else {
        forest_valid(s.drop_last(), max_page) && entry_valid(s.last(), max_page) && forest_valid(
            s.last().children@,
            max_page,
        )
    }
}

proof fn lemma_forest_count_prefix(s: Seq<Bookmark>, k: int)
    requires
        0 <= k <= s.len(),
    ensures
        forest_count(s.subrange(0, k)) <= forest_count(s),
    decreases s.len() - k,
{
    if k < s.len() {
        lemma_forest_count_prefix(s, k + 1);
        assert(s.subrange(0, k + 1).drop_last() =~= s.subrange(0, k));
    } else {
        assert(s.subrange(0, k) =~= s);
    }
}

proof fn lemma_single(b: Bookmark, t: Seq<char>, max_page: usize)
    ensures
        forest_count(seq![b]) == 1 + forest_count(b.children@),
        forest_first(seq![b], t) == if b.title@ == t {
            Some(b)
        } else {
            forest_first(b.children@, t)
        },
        forest_valid(seq![b], max_page) == (entry_valid(b, max_page) && forest_valid(
            b.children@,
            max_page,
        )),
{
    let e = Seq::<Bookmark>::empty();
    assert(seq![b].drop_last() =~= e);
    assert(forest_count(e) == 0);
    assert(forest_first(e, t) is None);
    assert(forest_valid(e, max_page));
}

impl Bookmark {
    /// An entry with a title and page and no nested entries.
    pub fn new(title: &str, page: usize) -> (r: Bookmark)
        ensures
            r.title@ == title@,
            r.page == page,
            r.children@.len() == 0,
    {
        Bookmark { title: title.to_owned(), page, children: Vec::new() }
    }

    /// Appends a nested entry.
    pub fn add_child(&mut self, child: Bookmark)
        ensures
            final(self).title == old(self).title,
            final(self).page == old(self).page,
            final(self).children@ == old(self).children@.push(child),
    {
        self.children.push(child);
    }

    /// The number of entries in this tree, this one included.
    pub fn count_all(&self) -> (r: usize)
        requires
            forest_count(seq![*self]) <= usize::MAX,
        ensures
            r == forest_count(seq![*self]),
        decreases self,
    {
        proof {
            lemma_single(*self, Seq::empty(), 0);
        }
        let mut total: usize = 1;
        let mut i: usize = 0;
        while i < self.children.len()
            invariant
                forest_count(seq![*self]) == 1 + forest_count(self.children@),
                forest_count(seq![*self]) <= usize::MAX,
                i <= self.children@.len(),
                total == 1 + forest_count(self.children@.subrange(0, i as int)),
            decreases self.children@.len() - i,
        {
            let ghost s = self.children@;
            proof {
                assert(s.subrange(0, i + 1).drop_last() =~= s.subrange(0, i as int));
                lemma_forest_count_prefix(s, i + 1);
                lemma_single(s[i as int], Seq::empty(), 0);
            }
            let c = self.children[i].count_all();
            total = total + c;
            i = i + 1;
        }
        assert(self.children@.subrange(0, i as int) =~= self.children@);
        total
    }

    /// The first entry of this tree, in pre-order, with the given title.
    pub fn find_by_title(&self, title: &str) -> (r: Option<&Bookmark>)
        ensures
            r is Some <==> forest_first(seq![*self], title@) is Some,
            r matches Some(b) ==> forest_first(seq![*self], title@) == Some(*b),
            r matches Some(b) ==> b.title@ == title@,
        decreases self,
    {
        proof {
            lemma_single(*self, title@, 0);
            lemma_forest_first_title(seq![*self], title@);
        }
        if str_equal(self.title.as_str(), title) {
            return Some(self);
        }
        let mut i: usize = 0;
        while i < self.children.len()
            invariant
                forest_first(seq![*self], title@) == forest_first(self.children@, title@),
                i <= self.children@.len(),
                forest_first(self.children@.subrange(0, i as int), title@) is None,
            decreases self.children@.len() - i,
        {
            let ghost s = self.children@;
            proof {
                assert(s.subrange(0, i + 1).drop_last() =~= s.subrange(0, i as int));
                lemma_single(s[i as int], title@, 0);
            }
            match self.children[i].find_by_title(title) {
                Some(found) => {
                    proof {
                        lemma_forest_first_prefix(s, i + 1, title@);
                    }
                    return Some(found);
                },
                None => {},
            }
            i = i + 1;
        }
        assert(self.children@.subrange(0, i as int) =~= self.children@);
        None
    }

    /// Checks every entry of this tree: a non-empty title of at most 500
    /// bytes and a page below `max_page`.
    pub fn validate(&self, max_page: usize) -> (r: Result<(), EnhancedError>)
        ensures
            r is Ok <==> forest_valid(seq![*self], max_page),
            r is Err ==> r == Err::<(), EnhancedError>(EnhancedError::InvalidParameter),
        decreases self,
    {
        proof {
            lemma_single(*self, Seq::empty(), max_page);
        }
        if self.title.as_str().is_empty() || self.title.as_str().as_bytes().len() > 500 || self.page
            >= max_page {
            return Err(EnhancedError::InvalidParameter);
        }
        let mut i: usize = 0;
        while i < self.children.len()
            invariant
                forest_valid(seq![*self], max_page) == (entry_valid(*self, max_page)
                    && forest_valid(self.children@, max_page)),
                entry_valid(*self, max_page),
                i <= self.children@.len(),
                forest_valid(self.children@.subrange(0, i as int), max_page),
            decreases self.children@.len() - i,
        {
            let ghost s = self.children@;
            proof {
                assert(s.subrange(0, i + 1).drop_last() =~= s.subrange(0, i as int));
                lemma_single(s[i as int], Seq::empty(), max_page);
            }
            match self.children[i].validate(max_page) {
                Err(e) => {
                    proof {
                        lemma_forest_valid_prefix(s, i + 1, max_page);
                    }
                    return Err(e);
                },
                Ok(()) => {},
            }
            i = i + 1;
        }
        assert(self.children@.subrange(0, i as int) =~= self.children@);
        Ok(())
    }
}

proof fn lemma_forest_first_prefix(s: Seq<Bookmark>, k: int, t: Seq<char>)
    requires
        0 <= k <= s.len(),
        forest_first(s.subrange(0, k), t) is Some,
    ensures
        forest_first(s, t) == forest_first(s.subrange(0, k), t),
    decreases s.len() - k,
{
    if k < s.len() {
        assert(s.subrange(0, k + 1).drop_last() =~= s.subrange(0, k));
        lemma_forest_first_prefix(s, k + 1, t);
    } else {
        assert(s.subrange(0, k) =~= s);
    }
}

proof fn lemma_forest_valid_prefix(s: Seq<Bookmark>, k: int, max_page: usize)
    requires
        0 <= k <= s.len(),
        !forest_valid(s.subrange(0, k), max_page),
    ensures
        !forest_valid(s, max_page),
    decreases s.len() - k,
{
    if k < s.len() {
        assert(s.subrange(0, k + 1).drop_last() =~= s.subrange(0, k));
        lemma_forest_valid_prefix(s, k + 1, max_page);
    } else {
        assert(s.subrange(0, k) =~= s);
    }
}

/// The page count that outline entries are checked against.
pub const MAX_OUTLINE_PAGES: usize = 1000;

/// The outcome of adding an outline tree, given whether the PDF exists.
pub fn check_bookmark_add(pdf_exists: bool, bookmark: &Bookmark) -> (r: Result<(), EnhancedError>)
    ensures
        !pdf_exists ==> r == Err::<(), EnhancedError>(EnhancedError::FileNotFound),
        pdf_exists ==> (r is Ok <==> forest_valid(seq![*bookmark], MAX_OUTLINE_PAGES)),
        pdf_exists && r is Err ==> r == Err::<(), EnhancedError>(EnhancedError::InvalidParameter),
{
    if !pdf_exists {
        return Err(EnhancedError::FileNotFound);
    }
    bookmark.validate(MAX_OUTLINE_PAGES)
}

/// Adds an outline tree to a PDF file: the file must exist and every entry
/// must be valid for a document of up to 1000 pages; writing the outline is
/// not yet performed.
pub fn add_bookmark(pdf_path: &str, bookmark: &Bookmark) -> (r: Result<(), EnhancedError>)
    ensures
        r is Ok ==> forest_valid(seq![*bookmark], MAX_OUTLINE_PAGES),
{
    check_bookmark_add(path_exists(pdf_path), bookmark)
}

/// Removes an outline entry by title from a PDF file: the file must exist
/// and the title must not be empty; removal itself is not yet performed.
pub fn remove_bookmark(pdf_path: &str, title: &str) -> (r: Result<(), EnhancedError>)
    ensures
        title@.len() == 0 ==> r is Err,
        r is Err ==> r == spec_named_item_check(false, title@) || r == spec_named_item_check(
            true,
            title@,
        ),
{
    check_named_item(path_exists(pdf_path), title)
}

/// Reads the outline of a PDF file: the file must exist; the outline is not
/// parsed yet, so the list is empty.
pub fn get_bookmarks(pdf_path: &str) -> (r: Result<Vec<Bookmark>, EnhancedError>)
    ensures
        r matches Ok(v) ==> v@.len() == 0,
        r matches Err(e) ==> e == EnhancedError::FileNotFound,
{
    bookmark_listing(path_exists(pdf_path))
}

/// The outline of a PDF, given whether it exists: the outline is not parsed
/// yet, so an existing file has an empty one.
pub fn bookmark_listing(pdf_exists: bool) -> (r: Result<Vec<Bookmark>, EnhancedError>)
    ensures
        pdf_exists ==> (r matches Ok(v) && v@.len() == 0),
        !pdf_exists ==> (r matches Err(e) && e == EnhancedError::FileNotFound),
{
    if !pdf_exists {
        return Err(EnhancedError::FileNotFound);
    }
    Ok(Vec::new())
}

/// An outline tree as a value: title, page and nested trees.
pub struct OutlineNode {
    /// the title
    pub title: Seq<char>,
    /// the target page
    pub page: usize,
    /// the nested trees
    pub children: Seq<OutlineNode>,
}

/// The values of a list of outline trees.
pub open spec fn forest_view(s: Seq<Bookmark>) -> Seq<OutlineNode>
    decreases s,
{
    if s.len() == 0 {
        Seq::empty()
    } else {
        forest_view(s.drop_last()).push(
            OutlineNode {
                title: s.last().title@,
                page: s.last().page,
                children: forest_view(s.last().children@),
            },
        )
    }
}

/// The value of one outline tree.
pub open spec fn node_view(b: Bookmark) -> OutlineNode {
    OutlineNode { title: b.title@, page: b.page, children: forest_view(b.children@) }
}

/// Attaches `b` at depth `level` below the last tree of each level; at depth
/// 0 it becomes the last tree. Where a level has no tree, nothing changes.
pub open spec fn attach_node(nodes: Seq<OutlineNode>, b: OutlineNode, level: nat) -> Seq<
    OutlineNode,
>
    decreases level,
{
    if level == 0 {
        nodes.push(b)
    } else if nodes.len() == 0 {
        nodes
    } else {
        let last = nodes.last();
        nodes.drop_last().push(
            OutlineNode {
                title: last.title,
                page: last.page,
                children: attach_node(last.children, b, (level - 1) as nat),
            },
        )
    }
}

/// The trees built from a flat outline of (title, page, level), and the depth
/// of the latest kept entry plus one (0 before any): level 0 starts a new tree;
/// a level up to that depth nests the entry below the latest entry one level
/// up; a deeper level leaves the entry out.
pub open spec fn spec_hierarchy(s: Seq<(String, usize, usize)>) -> (Seq<OutlineNode>, nat)
    decreases s.len(),
{
    if s.len() == 0 {
        (Seq::empty(), 0)
    } else {
        let prev = spec_hierarchy(s.drop_last());
        let e = s.last();
        let leaf = OutlineNode { title: e.0@, page: e.1, children: Seq::empty() };
        if e.2 == 0 {
            (prev.0.push(leaf), 1)
        } else if e.2 <= prev.1 {
            (attach_node(prev.0, leaf, e.2 as nat), (e.2 + 1) as nat)
        } else {
            prev
        }
    }
}

proof fn lemma_forest_view_push(s: Seq<Bookmark>, b: Bookmark)
    ensures
        forest_view(s.push(b)) == forest_view(s).push(node_view(b)),
{
    assert(s.push(b).drop_last() =~= s);
}

/// Attaches an entry at depth `level` below the last entry of each level.
fn attach(nodes: Vec<Bookmark>, b: Bookmark, level: usize) -> (r: Vec<Bookmark>)
    ensures
        forest_view(r@) == attach_node(forest_view(nodes@), node_view(b), level as nat),
    decreases level,
{
    let mut nodes = nodes;
    let ghost old_nodes = nodes@;
    if level == 0 {
        nodes.push(b);
        proof {
            lemma_forest_view_push(old_nodes, b);
        }
        return nodes;
    }
    match nodes.pop() {
        None => {
            assert(old_nodes =~= Seq::<Bookmark>::empty());
            nodes
        },
        Some(last) => {
            assert(old_nodes.drop_last() == nodes@);
            assert(old_nodes.last() == last);
            let Bookmark { title, page, children } = last;
            let children = attach(children, b, level - 1);
            let nb = Bookmark { title, page, children };
            let ghost rest = nodes@;
            nodes.push(nb);
            proof {
                lemma_forest_view_push(rest, nb);
                assert(old_nodes.len() > 0);
                assert(forest_view(old_nodes).drop_last() =~= forest_view(rest));
                assert(forest_view(old_nodes).last() == node_view(last));
                assert(forest_view(old_nodes).len() > 0);
            }
            nodes
        },
    }
}

/// Builds outline trees from a flat list of (title, page, level): an entry
/// of level 0 starts a new tree, one of level `n` is nested below the latest
/// entry of level `n - 1`, and one whose level skips a step is left out.
pub fn create_hierarchy(bookmarks: Vec<(String, usize, usize)>) -> (r: Vec<Bookmark>)
    ensures
        forest_view(r@) == spec_hierarchy(bookmarks@).0,
{
    let mut roots: Vec<Bookmark> = Vec::new();
    let mut depth: usize = 0;
    let mut i: usize = 0;
    let n = bookmarks.len();
    while i < n
        invariant
            n == bookmarks@.len(),
            i <= bookmarks@.len(),
            depth <= i,
            forest_view(roots@) == spec_hierarchy(bookmarks@.subrange(0, i as int)).0,
            depth as nat == spec_hierarchy(bookmarks@.subrange(0, i as int)).1,
        decreases bookmarks@.len() - i,
    {
        proof {
            assert(bookmarks@.subrange(0, i + 1).drop_last() =~= bookmarks@.subrange(0, i as int));
            assert(bookmarks@.subrange(0, i + 1).last() == bookmarks@[i as int]);
        }
        let title = bookmarks[i].0.clone();
        let page = bookmarks[i].1;
        let level = bookmarks[i].2;
        let b = Bookmark { title, page, children: Vec::new() };
        proof {
            assert(b.children@ =~= Seq::<Bookmark>::empty());
            assert(forest_view(b.children@) =~= Seq::<OutlineNode>::empty());
        }
        if level == 0 {
            let ghost before = roots@;
            roots.push(b);
            proof {
                lemma_forest_view_push(before, b);
            }
            depth = 1;
        } else if level <= depth {
            roots = attach(roots, b, level);
            depth = level + 1;
        }
        i = i + 1;
    }
    assert(bookmarks@.subrange(0, i as int) =~= bookmarks@);
    roots
}

} // verus!
