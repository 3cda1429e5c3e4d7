//! The file tree shown beside the documents: files, and directories whose
//! children are filled in lazily by an explicit expansion — `None` children
//! mean not yet expanded. Enumerating a directory on disk is the caller's
//! concern; ordering and presentation are verified here.

use vstd::prelude::*;
use vstd::multiset::Multiset;
use vstd::string::StrSliceExecFns;
use vstd::string::StringExecFns;
use crate::text::line_len;

verus! {

broadcast use vstd::seq_lib::group_to_multiset_ensures;

/// A node of the file tree.
#[derive(Debug)]
pub enum FileTree {
    /// Represents a file.
    File { path: String },
    /// Represents a directory. `files` is `None` until the directory is
    /// expanded: expansion is an explicit operation, not a side effect of
    /// traversal.
    Dir { path: String, files: Option<Vec<FileTree>> },
}

/// The name part of a path: everything after the last separator, the whole
/// path if it has none.
pub open spec fn file_name_of(p: Seq<char>) -> Seq<char>
    decreases p.len(),
{
    if p.len() == 0 {
        p
    } else if exists|i: int| 0 <= i < p.len() && p[i] == '/' {
        file_name_of(p.skip(1))
    } else {
        p
    }
}

/// A node is hidden when its file name starts with a dot.
pub open spec fn hidden(p: Seq<char>) -> bool {
    file_name_of(p).len() > 0 && file_name_of(p)[0] == '.'
}

proof fn lemma_file_name_no_slash(p: Seq<char>)
    requires
        forall|i: int| 0 <= i < p.len() ==> p[i] != '/',
    ensures
        file_name_of(p) == p,
{
}

proof fn lemma_file_name_after_slash(p: Seq<char>, j: int)
    requires
        0 <= j < p.len(),
        p[j] == '/',
        forall|i: int| j < i < p.len() ==> p[i] != '/',
    ensures
        file_name_of(p) == p.skip(j + 1),
    decreases p.len(),
{
    assert(exists|i: int| 0 <= i < p.len() && p[i] == '/');
    if j == 0 {
        let q = p.skip(1);
        assert(forall|i: int| 0 <= i < q.len() ==> q[i] != '/');
        lemma_file_name_no_slash(q);
    } else {
        let q = p.skip(1);
        assert(q[j - 1] == '/');
        assert(forall|i: int| j - 1 < i < q.len() ==> q[i] != '/');
        lemma_file_name_after_slash(q, j - 1);
        assert(q.skip(j) =~= p.skip(j + 1));
    }
}

impl FileTree {
    /// The node's path.
    pub open spec fn path_view(self) -> Seq<char> {
        match self {
            FileTree::File { path } => path@,
            FileTree::Dir { path, .. } => path@,
        }
    }

    /// Whether the node is a directory.
    pub open spec fn is_dir_node(self) -> bool {
        self is Dir
    }

    /// Whether a directory node has been expanded.
    pub open spec fn is_expanded(self) -> bool {
        match self {
            FileTree::File { .. } => false,
            FileTree::Dir { files, .. } => files is Some,
        }
    }

    /// The number of nodes in the tree.
    pub open spec fn size(self) -> nat
        decreases self,
    {
        match self {
            FileTree::File { .. } => 1,
            FileTree::Dir { files: Option::None, .. } => 1,
            FileTree::Dir { files: Option::Some(v), .. } => 1 + vec_size(v@),
        }
    }
}

/// The number of nodes in a sequence of trees.
pub open spec fn vec_size(s: Seq<FileTree>) -> nat
    decreases s,
{
    if s.len() == 0 {
        0
    } else {
        s[0].size() + vec_size(s.skip(1))
    }
}

proof fn lemma_member_size(s: Seq<FileTree>, i: int)
    requires
        0 <= i < s.len(),
    ensures
        s[i].size() <= vec_size(s),
    decreases s,
{
    if i > 0 {
        lemma_member_size(s.skip(1), i - 1);
    }
}

/// Every path that appears anywhere in the tree, with multiplicity.
pub open spec fn all_paths(t: FileTree) -> Multiset<Seq<char>>
    decreases t,
{
    match t {
        FileTree::File { path } => Multiset::empty().insert(path@),
        FileTree::Dir { path, files: Option::None } => Multiset::empty().insert(path@),
        FileTree::Dir { path, files: Option::Some(v) } => Multiset::empty().insert(path@).add(
            paths_of_vec(v@),
        ),
    }
}

/// Every path in a sequence of trees, with multiplicity.
pub open spec fn paths_of_vec(s: Seq<FileTree>) -> Multiset<Seq<char>>
    decreases s,
{
    if s.len() == 0 {
        Multiset::empty()
    } else {
        all_paths(s[0]).add(paths_of_vec(s.skip(1)))
    }
}

proof fn lemma_paths_of_vec_push(s: Seq<FileTree>, e: FileTree)
    ensures
        paths_of_vec(s.push(e)) =~= paths_of_vec(s).add(all_paths(e)),
    decreases s,
{
    if s.len() == 0 {
        assert(s.push(e).skip(1) =~= Seq::<FileTree>::empty());
        assert(s.push(e)[0] == e);
        assert(paths_of_vec(s.push(e)) == all_paths(e).add(paths_of_vec(
            Seq::<FileTree>::empty(),
        )));
        assert(paths_of_vec(Seq::<FileTree>::empty()) == Multiset::<Seq<char>>::empty());
        assert(paths_of_vec(s) == Multiset::<Seq<char>>::empty());
    } else {
        assert(s.push(e)[0] == s[0]);
        assert(s.push(e).skip(1) =~= s.skip(1).push(e));
        assert(s.push(e).len() != 0);
        assert(paths_of_vec(s.push(e)) == all_paths(s[0]).add(paths_of_vec(
            s.skip(1).push(e),
        )));
        lemma_paths_of_vec_push(s.skip(1), e);
        assert(paths_of_vec(s) == all_paths(s[0]).add(paths_of_vec(s.skip(1))));
    }
}

proof fn lemma_paths_of_vec_insert(s: Seq<FileTree>, pos: int, e: FileTree)
    requires
        0 <= pos <= s.len(),
    ensures
        paths_of_vec(s.insert(pos, e)) =~= paths_of_vec(s).add(all_paths(e)),
    decreases pos,
{
    if pos == 0 {
        assert(s.insert(0, e)[0] == e);
        assert(s.insert(0, e).skip(1) =~= s);
    } else {
        assert(s.insert(pos, e)[0] == s[0]);
        assert(s.insert(pos, e).skip(1) =~= s.skip(1).insert(pos - 1, e));
        lemma_paths_of_vec_insert(s.skip(1), pos - 1, e);
    }
}

/// A directory bearing this path that has not been expanded yet, reachable
/// through expanded directories only.
pub open spec fn has_unexpanded(t: FileTree, p: Seq<char>) -> bool
    decreases t,
{
    match t {
        FileTree::File { .. } => false,
        FileTree::Dir { path, files: Option::None } => path@ == p,
        FileTree::Dir { path, files: Option::Some(v) } => vec_has_unexpanded(v@, p),
    }
}

/// Some tree of the sequence holds a reachable unexpanded directory with
/// this path.
pub open spec fn vec_has_unexpanded(s: Seq<FileTree>, p: Seq<char>) -> bool
    decreases s,
{
    s.len() > 0 && (has_unexpanded(s[0], p) || vec_has_unexpanded(s.skip(1), p))
}

proof fn lemma_vec_has_unexpanded_index(s: Seq<FileTree>, p: Seq<char>)
    ensures
        vec_has_unexpanded(s, p) <==> exists|j: int|
            0 <= j < s.len() && has_unexpanded(#[trigger] s[j], p),
    decreases s,
{
    if s.len() > 0 {
        lemma_vec_has_unexpanded_index(s.skip(1), p);
        if vec_has_unexpanded(s.skip(1), p) {
            let j = choose|j: int| 0 <= j < s.skip(1).len() && has_unexpanded(s.skip(1)[j], p);
            assert(has_unexpanded(s[j + 1], p));
        }
        if exists|j: int| 0 <= j < s.len() && has_unexpanded(#[trigger] s[j], p) {
            let j = choose|j: int| 0 <= j < s.len() && has_unexpanded(#[trigger] s[j], p);
            if j > 0 {
                assert(has_unexpanded(s.skip(1)[j - 1], p));
            }
        }
    }
}

proof fn lemma_paths_of_vec_pointwise(s1: Seq<FileTree>, s2: Seq<FileTree>)
    requires
        s1.len() == s2.len(),
        forall|q: int| 0 <= q < s1.len() ==> all_paths(#[trigger] s2[q]) == all_paths(s1[q]),
    ensures
        paths_of_vec(s2) == paths_of_vec(s1),
    decreases s1,
{
    if s1.len() > 0 {
        assert forall|q: int| 0 <= q < s1.skip(1).len() implies all_paths(
            #[trigger] s2.skip(1)[q],
        ) == all_paths(s1.skip(1)[q]) by {
            assert(s2.skip(1)[q] == s2[q + 1]);
            assert(s1.skip(1)[q] == s1[q + 1]);
        }
        lemma_paths_of_vec_pointwise(s1.skip(1), s2.skip(1));
        assert(all_paths(s2[0]) == all_paths(s1[0]));
    }
}

proof fn lemma_paths_of_vec_add_at(
    s1: Seq<FileTree>,
    s2: Seq<FileTree>,
    j: int,
    extra: Multiset<Seq<char>>,
)
    requires
        s1.len() == s2.len(),
        0 <= j < s1.len(),
        forall|q: int|
            0 <= q < s1.len() && q != j ==> all_paths(#[trigger] s2[q]) == all_paths(s1[q]),
        all_paths(s2[j]) == all_paths(s1[j]).add(extra),
    ensures
        paths_of_vec(s2) =~= paths_of_vec(s1).add(extra),
    decreases s1,
{
    if j == 0 {
        assert forall|q: int| 0 <= q < s1.skip(1).len() implies all_paths(
            #[trigger] s2.skip(1)[q],
        ) == all_paths(s1.skip(1)[q]) by {
            assert(s2.skip(1)[q] == s2[q + 1]);
            assert(s1.skip(1)[q] == s1[q + 1]);
        }
        lemma_paths_of_vec_pointwise(s1.skip(1), s2.skip(1));
    } else {
        assert forall|q: int|
            0 <= q < s1.skip(1).len() && q != j - 1 implies all_paths(
            #[trigger] s2.skip(1)[q],
        ) == all_paths(s1.skip(1)[q]) by {
            assert(s2.skip(1)[q] == s2[q + 1]);
            assert(s1.skip(1)[q] == s1[q + 1]);
        }
        assert(s2.skip(1)[j - 1] == s2[j]);
        assert(s1.skip(1)[j - 1] == s1[j]);
        lemma_paths_of_vec_add_at(s1.skip(1), s2.skip(1), j - 1, extra);
        assert(all_paths(s2[0]) == all_paths(s1[0]));
    }
}

/// The shape of a tree, level by level: a node's path, kind and expansion,
/// and the signatures of its immediate children as a multiset. Two trees
/// with equal signatures are rearrangements of one another within each
/// directory — no entry can migrate between levels or directories.
pub struct TreeSig {
    pub path: Seq<char>,
    pub dir: bool,
    pub expanded: bool,
    pub children: Multiset<TreeSig>,
}

impl FileTree {
    /// The level-by-level signature of the tree.
    pub open spec fn sig(self) -> TreeSig
        decreases self,
    {
        match self {
            FileTree::File { path } => TreeSig {
                path: path@,
                dir: false,
                expanded: false,
                children: Multiset::empty(),
            },
            FileTree::Dir { path, files: Option::None } => TreeSig {
                path: path@,
                dir: true,
                expanded: false,
                children: Multiset::empty(),
            },
            FileTree::Dir { path, files: Option::Some(v) } => TreeSig {
                path: path@,
                dir: true,
                expanded: true,
                children: sigs_of(v@),
            },
        }
    }
}

/// The signatures of a sequence of trees, as a multiset.
pub open spec fn sigs_of(s: Seq<FileTree>) -> Multiset<TreeSig>
    decreases s,
{
    if s.len() == 0 {
        Multiset::empty()
    } else {
        Multiset::empty().insert(s[0].sig()).add(sigs_of(s.skip(1)))
    }
}

proof fn lemma_sigs_of_push(s: Seq<FileTree>, e: FileTree)
    ensures
        sigs_of(s.push(e)) =~= sigs_of(s).insert(e.sig()),
    decreases s,
{
    if s.len() == 0 {
        assert(s.push(e).skip(1) =~= Seq::<FileTree>::empty());
        assert(s.push(e)[0] == e);
        assert(sigs_of(s.push(e)) == Multiset::empty().insert(e.sig()).add(sigs_of(
            Seq::<FileTree>::empty(),
        )));
        assert(sigs_of(Seq::<FileTree>::empty()) == Multiset::<TreeSig>::empty());
        assert(sigs_of(s) == Multiset::<TreeSig>::empty());
    } else {
        assert(s.push(e)[0] == s[0]);
        assert(s.push(e).skip(1) =~= s.skip(1).push(e));
        assert(s.push(e).len() != 0);
        assert(sigs_of(s.push(e)) == Multiset::empty().insert(s[0].sig()).add(sigs_of(
            s.skip(1).push(e),
        )));
        lemma_sigs_of_push(s.skip(1), e);
        assert(sigs_of(s) == Multiset::empty().insert(s[0].sig()).add(sigs_of(s.skip(1))));
    }
}

proof fn lemma_sigs_of_insert(s: Seq<FileTree>, pos: int, e: FileTree)
    requires
        0 <= pos <= s.len(),
    ensures
        sigs_of(s.insert(pos, e)) =~= sigs_of(s).insert(e.sig()),
    decreases pos,
{
    if pos == 0 {
        assert(s.insert(0, e)[0] == e);
        assert(s.insert(0, e).skip(1) =~= s);
    } else {
        assert(s.insert(pos, e)[0] == s[0]);
        assert(s.insert(pos, e).skip(1) =~= s.skip(1).insert(pos - 1, e));
        lemma_sigs_of_insert(s.skip(1), pos - 1, e);
    }
}

/// Lexicographic order on paths, by character code.
pub open spec fn lex_le(a: Seq<char>, b: Seq<char>) -> bool
    decreases a.len(),
{
    if a.len() == 0 {
        true
    } else if b.len() == 0 {
        false
    } else if a[0] == b[0] {
        lex_le(a.skip(1), b.skip(1))
    } else {
        (a[0] as u32) < (b[0] as u32)
    }
}

proof fn lemma_lex_le_total(a: Seq<char>, b: Seq<char>)
    ensures
        lex_le(a, b) || lex_le(b, a),
    decreases a.len(),
{
    if a.len() > 0 && b.len() > 0 && a[0] == b[0] {
        lemma_lex_le_total(a.skip(1), b.skip(1));
    } else if a.len() > 0 && b.len() > 0 {
        assert((a[0] as u32) != (b[0] as u32)) by {
            if (a[0] as u32) == (b[0] as u32) {
                vstd::utf8::char_u32_cast(a[0], a[0] as u32);
                vstd::utf8::char_u32_cast(b[0], b[0] as u32);
            }
        }
    }
}

proof fn lemma_lex_le_trans(a: Seq<char>, b: Seq<char>, c: Seq<char>)
    requires
        lex_le(a, b),
        lex_le(b, c),
    ensures
        lex_le(a, c),
    decreases a.len(),
{
    if a.len() > 0 && b.len() > 0 && c.len() > 0 && a[0] == b[0] && b[0] == c[0] {
        lemma_lex_le_trans(a.skip(1), b.skip(1), c.skip(1));
    }
}

/// The display order of the tree: hidden entries first, then directories
/// before files, then paths in lexicographic order.
pub open spec fn node_le(a: FileTree, b: FileTree) -> bool {
    if hidden(a.path_view()) != hidden(b.path_view()) {
        hidden(a.path_view())
    } else if a.is_dir_node() != b.is_dir_node() {
        a.is_dir_node()
    } else {
        lex_le(a.path_view(), b.path_view())
    }
}

proof fn lemma_node_le_total(a: FileTree, b: FileTree)
    ensures
        node_le(a, b) || node_le(b, a),
{
    lemma_lex_le_total(a.path_view(), b.path_view());
}

proof fn lemma_node_le_trans(a: FileTree, b: FileTree, c: FileTree)
    requires
        node_le(a, b),
        node_le(b, c),
    ensures
        node_le(a, c),
{
    if hidden(a.path_view()) == hidden(b.path_view()) && hidden(b.path_view()) == hidden(
        c.path_view(),
    ) && a.is_dir_node() == b.is_dir_node() && b.is_dir_node() == c.is_dir_node() {
        lemma_lex_le_trans(a.path_view(), b.path_view(), c.path_view());
    }
}

/// One level of entries stands in display order.
pub open spec fn level_sorted(s: Seq<FileTree>) -> bool {
    forall|i: int, j: int| 0 <= i < j < s.len() ==> node_le(#[trigger] s[i], #[trigger] s[j])
}

/// The whole tree stands in display order, level by level.
pub open spec fn tree_sorted(t: FileTree) -> bool
    decreases t,
{
    match t {
        FileTree::File { .. } => true,
        FileTree::Dir { files: Option::None, .. } => true,
        FileTree::Dir { files: Option::Some(v), .. } => level_sorted(v@) && forall|i: int|
            0 <= i < v@.len() ==> tree_sorted(#[trigger] v@[i]),
    }
}

impl FileTree {
    /// Takes a path and turns it into a string, stripping the verbatim
    /// prefix some platforms put in front of canonical paths.
    pub fn path_to_string(path: &String) -> (r: String)
        ensures
            r@ == if path@.len() >= 4 && path@.subrange(0, 4) == seq!['\\', '\\', '?', '\\'] {
                path@.skip(4)
            } else {
                path@
            },
    {
        let n = line_len(path);
        if n >= 4 {
            let c0 = path.as_str().get_char(0);
            let c1 = path.as_str().get_char(1);
            let c2 = path.as_str().get_char(2);
            let c3 = path.as_str().get_char(3);
            if c0 == '\\' && c1 == '\\' && c2 == '?' && c3 == '\\' {
                proof {
                    assert(path@.subrange(0, 4) =~= seq!['\\', '\\', '?', '\\']);
                }
                return String::from_str(path.as_str().substring_char(4, n));
            }
            proof {
                assert(path@.subrange(0, 4) != seq!['\\', '\\', '?', '\\']) by {
                    if path@.subrange(0, 4) == seq!['\\', '\\', '?', '\\'] {
                        assert(path@.subrange(0, 4)[0] == '\\');
                        assert(path@.subrange(0, 4)[1] == '\\');
                        assert(path@.subrange(0, 4)[2] == '?');
                        assert(path@.subrange(0, 4)[3] == '\\');
                    }
                }
            }
        }
        path.clone()
    }

    /// Work out if this node is hidden or not: whether the name after the
    /// last path separator starts with a dot.
    pub fn is_hidden(&self) -> (r: bool)
        ensures
            r == hidden(self.path_view()),
    {
        let p: &String = match self {
            FileTree::File { path } => path,
            FileTree::Dir { path, .. } => path,
        };
        let n = line_len(p);
        let mut j = n;
        while j > 0 && p.as_str().get_char(j - 1) != '/'
            invariant
                j <= n,
                n == p@.len(),
                forall|i: int| j <= i < n ==> p@[i] != '/',
            decreases j,
        {
            j = j - 1;
        }
        proof {
            if j == 0 {
                lemma_file_name_no_slash(p@);
                assert(file_name_of(p@) == p@.skip(0));
                assert(p@.skip(0) =~= p@);
            } else {
                lemma_file_name_after_slash(p@, j - 1);
            }
        }
        if j < n {
            let c = p.as_str().get_char(j);
            proof {
                assert(file_name_of(p@) == p@.skip(j as int));
                assert(file_name_of(p@)[0] == p@[j as int]);
            }
            c == '.'
        } else {
            proof {
                assert(file_name_of(p@).len() == 0);
            }
            false
        }
    }

    /// The glyph shown in front of this node: it distinguishes files from
    /// directories, hidden from visible, and open from closed folders.
    pub fn icon(&self) -> (r: &str)
        ensures
            r@ == self.icon_view(),
    {
        let is_file = match self {
            FileTree::File { .. } => true,
            FileTree::Dir { .. } => false,
        };
        let is_expanded = match self {
            FileTree::File { .. } => false,
            FileTree::Dir { files, .. } => files.is_some(),
        };
        let is_hidden = self.is_hidden();
        match (is_file, is_hidden, is_expanded) {
            (false, false, false) => "󰉖  ",
            (false, true, false) => "󱞞  ",
            (false, _, true) => "󰷏  ",
            (true, false, _) => "󰈤  ",
            (true, true, _) => "󰘓  ",
        }
    }

    /// Which glyph belongs to a node.
    pub open spec fn icon_view(self) -> Seq<char> {
        if self.is_dir_node() {
            if self.is_expanded() {
                "󰷏  "@
            } else if hidden(self.path_view()) {
                "󱞞  "@
            } else {
                "󰉖  "@
            }
        } else {
            if hidden(self.path_view()) {
                "󰘓  "@
            } else {
                "󰈤  "@
            }
        }
    }

    /// Whether `self` comes no later than `other` in display order.
    fn le(&self, other: &FileTree) -> (r: bool)
        ensures
            r == node_le(*self, *other),
    {
        let sh = self.is_hidden();
        let oh = other.is_hidden();
        if sh != oh {
            return sh;
        }
        let sd = match self {
            FileTree::Dir { .. } => true,
            FileTree::File { .. } => false,
        };
        let od = match other {
            FileTree::Dir { .. } => true,
            FileTree::File { .. } => false,
        };
        if sd != od {
            return sd;
        }
        let a: &String = match self {
            FileTree::File { path } => path,
            FileTree::Dir { path, .. } => path,
        };
        let b: &String = match other {
            FileTree::File { path } => path,
            FileTree::Dir { path, .. } => path,
        };
        let alen = line_len(a);
        let blen = line_len(b);
        let mut i: usize = 0;
        proof {
            assert(a@.skip(0) =~= a@);
            assert(b@.skip(0) =~= b@);
        }
        loop
            invariant
                i <= alen,
                i <= blen,
                alen == a@.len(),
                blen == b@.len(),
                node_le(*self, *other) == lex_le(a@, b@),
                lex_le(a@, b@) == lex_le(a@.skip(i as int), b@.skip(i as int)),
            decreases alen - i,
        {
            if i >= alen {
                proof {
                    assert(a@.skip(i as int).len() == 0);
                }
                return true;
            }
            if i >= blen {
                proof {
                    assert(a@.skip(i as int).len() > 0);
                    assert(b@.skip(i as int).len() == 0);
                }
                return false;
            }
            let ca = a.as_str().get_char(i);
            let cb = b.as_str().get_char(i);
            proof {
                assert(a@.skip(i as int)[0] == a@[i as int]);
                assert(b@.skip(i as int)[0] == b@[i as int]);
            }
            if ca != cb {
                return (ca as u32) < (cb as u32);
            }
            proof {
                assert(a@.skip(i as int).skip(1) =~= a@.skip(i + 1));
                assert(b@.skip(i as int).skip(1) =~= b@.skip(i + 1));
            }
            i = i + 1;
        }
    }

    /// Sort a file tree, at every level, so that hidden entries come
    /// first, then directories before files, then paths alphabetically.
    /// The set of paths in the tree, with multiplicity, is unchanged.
    pub fn sort(&mut self)
        ensures
            tree_sorted(*final(self)),
            final(self).sig() == old(self).sig(),
            all_paths(*final(self)) == all_paths(*old(self)),
            final(self).path_view() == old(self).path_view(),
            final(self).is_dir_node() == old(self).is_dir_node(),
            final(self).is_expanded() == old(self).is_expanded(),
    {
        let mut tmp = FileTree::File { path: String::new() };
        core::mem::swap(self, &mut tmp);
        let sorted = tmp.into_sorted();
        *self = sorted;
    }

    /// The tree, sorted at every level.
    fn into_sorted(self) -> (r: FileTree)
        ensures
            tree_sorted(r),
            r.sig() == self.sig(),
            all_paths(r) == all_paths(self),
            r.path_view() == self.path_view(),
            r.is_dir_node() == self.is_dir_node(),
            r.is_expanded() == self.is_expanded(),
        decreases self.size(),
    {
        match self {
            FileTree::File { path } => FileTree::File { path },
            FileTree::Dir { path, files: None } => FileTree::Dir { path, files: None },
            FileTree::Dir { path, files: Some(mut fs) } => {
                let ghost orig = fs@;
                let mut done: Vec<FileTree> = Vec::new();
                proof {
                    assert(fs@.skip(0) =~= orig);
                    assert(paths_of_vec(done@) =~= Multiset::empty());
                    assert(sigs_of(done@) =~= Multiset::<TreeSig>::empty());
                }
                while fs.len() > 0
                    invariant
                        self.size() == 1 + vec_size(orig),
                        fs@ == orig.skip(orig.len() - fs@.len()),
                        fs@.len() <= orig.len(),
                        forall|i: int| 0 <= i < done@.len() ==> tree_sorted(#[trigger] done@[i]),
                        paths_of_vec(done@).add(paths_of_vec(fs@)) =~= paths_of_vec(orig),
                        sigs_of(done@).add(sigs_of(fs@)) =~= sigs_of(orig),
                    decreases fs@.len(),
                {
                    let ghost fs_pre = fs@;
                    let child = fs.remove(0);
                    proof {
                        let idx = orig.len() - fs_pre.len();
                        assert(child == orig[idx]);
                        lemma_member_size(orig, idx);
                        assert(fs@ =~= orig.skip(orig.len() - fs@.len()));
                        assert(self.size() == 1 + vec_size(orig));
                        assert(child.size() < self.size());
                    }
                    let sorted_child = child.into_sorted();
                    let ghost done_pre = done@;
                    done.push(sorted_child);
                    proof {
                        assert(fs@ =~= fs_pre.skip(1));
                        lemma_paths_of_vec_push(done_pre, sorted_child);
                        assert(paths_of_vec(fs_pre) =~= all_paths(child).add(paths_of_vec(fs@)));
                        assert(paths_of_vec(done@).add(paths_of_vec(fs@)) =~= paths_of_vec(orig));
                        lemma_sigs_of_push(done_pre, sorted_child);
                        assert(sigs_of(fs_pre) =~= Multiset::empty().insert(child.sig()).add(
                            sigs_of(fs@),
                        ));
                        assert(sigs_of(done@).add(sigs_of(fs@)) =~= sigs_of(orig));
                    }
                }
                proof {
                    assert(paths_of_vec(fs@) =~= Multiset::empty());
                    assert(paths_of_vec(done@) =~= paths_of_vec(orig));
                    assert(sigs_of(fs@) =~= Multiset::<TreeSig>::empty());
                    assert(sigs_of(done@) =~= sigs_of(orig));
                }
                let ghost pre_sort = done@;
                sort_level(&mut done);
                proof {
                    assert forall|i: int| 0 <= i < done@.len() implies tree_sorted(
                        #[trigger] done@[i],
                    ) by {
                        assert(pre_sort.contains(done@[i]));
                        let j = choose|j: int| 0 <= j < pre_sort.len() && pre_sort[j] == done@[i];
                        assert(tree_sorted(pre_sort[j]));
                    }
                }
                let r = FileTree::Dir { path, files: Some(done) };
                proof {
                    assert(tree_sorted(r));
                    assert(r.sig() == self.sig()) by {
                        assert(sigs_of(done@) == sigs_of(orig));
                    }
                }
                r
            }
        }
    }
}

proof fn lemma_sigs_of_pointwise(s1: Seq<FileTree>, s2: Seq<FileTree>)
    requires
        s1.len() == s2.len(),
        forall|q: int| 0 <= q < s1.len() ==> (#[trigger] s2[q]).sig() == s1[q].sig(),
    ensures
        sigs_of(s2) == sigs_of(s1),
    decreases s1,
{
    if s1.len() > 0 {
        assert forall|q: int| 0 <= q < s1.skip(1).len() implies (#[trigger] s2.skip(1)[q]).sig()
            == s1.skip(1)[q].sig() by {
            assert(s2.skip(1)[q] == s2[q + 1]);
            assert(s1.skip(1)[q] == s1[q + 1]);
        }
        lemma_sigs_of_pointwise(s1.skip(1), s2.skip(1));
        assert(s2[0].sig() == s1[0].sig());
    }
}

impl FileTree {
    /// Fill in the children of the first not-yet-expanded directory bearing
    /// the given path, reachable through expanded directories, and report
    /// whether one was found. On success the tree's paths grow by exactly
    /// the children's paths; when nothing was found, the tree keeps its
    /// signature and its paths exactly. Expansion is an explicit operation:
    /// enumerating the directory on disk is the caller's concern, and the
    /// entries are handed over as plain values.
    pub fn expand_at(&mut self, needle: &str, children: Vec<FileTree>) -> (r: bool)
        ensures
            r == has_unexpanded(*old(self), needle@),
            !r ==> final(self).sig() == old(self).sig() && all_paths(*final(self)) == all_paths(
                *old(self),
            ),
            r ==> all_paths(*final(self)) == all_paths(*old(self)).add(
                paths_of_vec(children@),
            ),
            final(self).path_view() == old(self).path_view(),
            final(self).is_dir_node() == old(self).is_dir_node(),
    {
        let needle_string = String::from_str(needle);
        let mut payload = Some(children);
        let mut tmp = FileTree::File { path: String::new() };
        core::mem::swap(self, &mut tmp);
        let (tree, found) = tmp.expanded_at(&needle_string, &mut payload);
        *self = tree;
        found
    }

    /// The expansion itself, threading the children until a node takes
    /// them.
    fn expanded_at(self, needle: &String, payload: &mut Option<Vec<FileTree>>) -> (res: (
        FileTree,
        bool,
    ))
        requires
            (*old(payload)) is Some,
        ensures
            res.1 == has_unexpanded(self, needle@),
            !res.1 ==> res.0.sig() == self.sig() && all_paths(res.0) == all_paths(self)
                && *final(payload) == *old(payload),
            res.1 ==> all_paths(res.0) == all_paths(self).add(
                paths_of_vec((*old(payload))->0@),
            ),
            res.0.path_view() == self.path_view(),
            res.0.is_dir_node() == self.is_dir_node(),
        decreases self.size(),
    {
        match self {
            FileTree::File { path } => (FileTree::File { path }, false),
            FileTree::Dir { path, files: None } => {
                if path.eq(needle) {
                    match payload.take() {
                        Some(kids) => {
                            let r = FileTree::Dir { path, files: Some(kids) };
                            proof {
                                assert(all_paths(r) =~= all_paths(self).add(
                                    paths_of_vec((*old(payload))->0@),
                                ));
                            }
                            (r, true)
                        }
                        None => {
                            proof {
                                // the payload is present until a node takes it
                                assert(false);
                            }
                            (FileTree::Dir { path, files: None }, false)
                        }
                    }
                } else {
                    (FileTree::Dir { path, files: None }, false)
                }
            }
            FileTree::Dir { path, files: Some(mut fs) } => {
                let ghost orig = fs@;
                let n = fs.len();
                let mut i: usize = 0;
                let mut found = false;
                proof {
                    assert(self.size() == 1 + vec_size(orig));
                }
                while i < n && !found
                    invariant
                        (*old(payload)) is Some,
                        self.size() == 1 + vec_size(orig),
                        n == orig.len(),
                        fs@.len() == n,
                        i <= n,
                        forall|j: int| i <= j < n ==> fs@[j] == #[trigger] orig[j],
                        !found ==> *payload == *old(payload),
                        !found ==> forall|j: int|
                            0 <= j < i ==> all_paths(#[trigger] fs@[j]) == all_paths(orig[j]),
                        !found ==> forall|j: int|
                            0 <= j < i ==> (#[trigger] fs@[j]).sig() == orig[j].sig(),
                        !found ==> forall|j: int|
                            0 <= j < i ==> !has_unexpanded(#[trigger] orig[j], needle@),
                        found ==> i >= 1,
                        found ==> has_unexpanded(orig[i - 1], needle@),
                        found ==> all_paths(fs@[i - 1]) == all_paths(orig[i - 1]).add(
                            paths_of_vec((*old(payload))->0@),
                        ),
                        found ==> forall|j: int|
                            0 <= j < i - 1 ==> all_paths(#[trigger] fs@[j]) == all_paths(
                                orig[j],
                            ),
                    decreases n - i,
                {
                    let ghost fs_pre = fs@;
                    let child = fs.remove(i);
                    proof {
                        assert(child == orig[i as int]);
                        lemma_member_size(orig, i as int);
                        assert(child.size() < self.size());
                    }
                    let (node, hit) = child.expanded_at(needle, payload);
                    fs.insert(i, node);
                    proof {
                        assert(fs@ =~= fs_pre.update(i as int, node));
                    }
                    if hit {
                        found = true;
                    }
                    i = i + 1;
                }
                let r = FileTree::Dir { path, files: Some(fs) };
                proof {
                    lemma_vec_has_unexpanded_index(orig, needle@);
                    if found {
                        let hit_at = i - 1;
                        assert forall|q: int|
                            0 <= q < n && q != hit_at implies all_paths(#[trigger] fs@[q])
                            == all_paths(orig[q]) by {
                            if q >= i {
                                assert(fs@[q] == orig[q]);
                            }
                        }
                        lemma_paths_of_vec_add_at(
                            orig,
                            fs@,
                            hit_at,
                            paths_of_vec((*old(payload))->0@),
                        );
                        assert(all_paths(r) =~= all_paths(self).add(
                            paths_of_vec((*old(payload))->0@),
                        ));
                        assert(vec_has_unexpanded(orig, needle@));
                    } else {
                        assert forall|q: int| 0 <= q < n implies all_paths(#[trigger] fs@[q])
                            == all_paths(orig[q]) by {}
                        assert forall|q: int| 0 <= q < n implies (#[trigger] fs@[q]).sig()
                            == orig[q].sig() by {}
                        lemma_paths_of_vec_pointwise(orig, fs@);
                        lemma_sigs_of_pointwise(orig, fs@);
                        assert(all_paths(r) =~= all_paths(self));
                        assert(r.sig() == self.sig());
                        assert(!vec_has_unexpanded(orig, needle@));
                    }
                }
                (r, found)
            }
        }
    }
}

/// Sort one level of entries into display order; the entries themselves are
/// kept, as a multiset, and their paths with them.
fn sort_level(v: &mut Vec<FileTree>)
    ensures
        level_sorted(final(v)@),
        final(v)@.to_multiset() == old(v)@.to_multiset(),
        paths_of_vec(final(v)@) == paths_of_vec(old(v)@),
        sigs_of(final(v)@) == sigs_of(old(v)@),
        forall|i: int|
            0 <= i < final(v)@.len() ==> old(v)@.contains(#[trigger] final(v)@[i]),
{
    let ghost orig = v@;
    let mut out: Vec<FileTree> = Vec::new();
    proof {
        assert(out@.to_multiset().add(v@.to_multiset()) =~= orig.to_multiset());
        assert(paths_of_vec(out@).add(paths_of_vec(v@)) =~= paths_of_vec(orig));
        assert(sigs_of(out@).add(sigs_of(v@)) =~= sigs_of(orig));
        assert(v@.skip(0) =~= orig);
    }
    while v.len() > 0
        invariant
            v@ == orig.skip(orig.len() - v@.len()),
            v@.len() <= orig.len(),
            level_sorted(out@),
            out@.to_multiset().add(v@.to_multiset()) =~= orig.to_multiset(),
            paths_of_vec(out@).add(paths_of_vec(v@)) =~= paths_of_vec(orig),
            sigs_of(out@).add(sigs_of(v@)) =~= sigs_of(orig),
            forall|i: int| 0 <= i < out@.len() ==> orig.contains(#[trigger] out@[i]),
        decreases v@.len(),
    {
        let ghost v_pre = v@;
        let e = v.remove(0);
        proof {
            assert(e == orig[orig.len() - v_pre.len()]);
            assert(orig.contains(e));
            assert(v@ =~= orig.skip(orig.len() - v@.len()));
            assert(v_pre.to_multiset() =~= v@.to_multiset().insert(e)) by {
                assert(v_pre.remove(0) =~= v@);
                assert(v_pre.to_multiset().remove(e) =~= v@.to_multiset());
                assert(v_pre.to_multiset().count(e) > 0);
            }
            assert(paths_of_vec(v_pre) =~= all_paths(e).add(paths_of_vec(v@)));
            assert(sigs_of(v_pre) =~= Multiset::empty().insert(e.sig()).add(sigs_of(v@)));
        }
        let mut pos: usize = 0;
        while pos < out.len() && out[pos].le(&e)
            invariant
                pos <= out@.len(),
                forall|i: int| 0 <= i < pos ==> node_le(#[trigger] out@[i], e),
            decreases out@.len() - pos,
        {
            pos = pos + 1;
        }
        let ghost out_pre = out@;
        proof {
            if pos < out_pre.len() {
                lemma_node_le_total(out_pre[pos as int], e);
            }
        }
        out.insert(pos, e);
        proof {
            // order around the insertion point
            assert forall|i: int, j: int| 0 <= i < j < out@.len() implies node_le(
                #[trigger] out@[i],
                #[trigger] out@[j],
            ) by {
                if j < pos {
                    assert(out@[i] == out_pre[i]);
                    assert(out@[j] == out_pre[j]);
                } else if j == pos {
                    assert(out@[j] == e);
                    assert(out@[i] == out_pre[i]);
                    assert(node_le(out_pre[i], e));
                } else if i < pos {
                    assert(out@[i] == out_pre[i]);
                    assert(out@[j] == out_pre[j - 1]);
                    assert(i < j - 1);
                    assert(node_le(out_pre[i], out_pre[j - 1]));
                } else if i == pos {
                    assert(out@[i] == e);
                    assert(out@[j] == out_pre[j - 1]);
                    assert(node_le(e, out_pre[pos as int]));
                    if j - 1 == pos {
                        assert(out@[j] == out_pre[pos as int]);
                    } else {
                        assert(node_le(out_pre[pos as int], out_pre[j - 1]));
                        lemma_node_le_trans(e, out_pre[pos as int], out_pre[j - 1]);
                    }
                } else {
                    assert(out@[i] == out_pre[i - 1]);
                    assert(out@[j] == out_pre[j - 1]);
                    assert(node_le(out_pre[i - 1], out_pre[j - 1]));
                }
            }
            // bookkeeping of the multisets
            assert(out@.to_multiset() =~= out_pre.to_multiset().insert(e)) by {
                assert(out@.remove(pos as int) =~= out_pre);
                assert(out@.to_multiset().remove(out@[pos as int]) =~= out_pre.to_multiset());
                assert(out@[pos as int] == e);
                assert(out@.to_multiset().count(e) > 0) by {
                    assert(out@.contains(e));
                }
            }
            lemma_paths_of_vec_insert(out_pre, pos as int, e);
            lemma_sigs_of_insert(out_pre, pos as int, e);
        }
    }
    proof {
        assert(v@.to_multiset().len() == 0);
        assert(v@.to_multiset() =~= Multiset::empty());
        assert(out@.to_multiset() =~= orig.to_multiset());
        assert(paths_of_vec(v@) =~= Multiset::empty());
        assert(paths_of_vec(out@) =~= paths_of_vec(orig));
        assert(sigs_of(v@) =~= Multiset::<TreeSig>::empty());
        assert(sigs_of(out@) =~= sigs_of(orig));
    }
    *v = out;
}

} // verus!
