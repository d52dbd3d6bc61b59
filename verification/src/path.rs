//! Paths of nodes and of directories, component by component.
//!
//! Two texts are the same path when they have the same components: repeated slashes, a slash at
//! the end and a `.` anywhere but in front make no difference.

use vstd::prelude::*;

verus! {

/// A path as its components.
#[verifier::ext_equal]
pub ghost struct PathView {
    /// Whether it starts at the root.
    pub rooted: bool,
    pub parts: Seq<Seq<char>>,
}

/// How far a text was split: the components that are complete, the piece that is not, and whether
/// that is the first piece.
pub ghost struct Split {
    pub parts: Seq<Seq<char>>,
    pub piece: Seq<char>,
    pub first: bool,
}

/// Whether a piece between slashes is a component. A `.` is one only in front.
pub open spec fn counts(piece: Seq<char>, first: bool) -> bool {
    piece.len() > 0 && (piece != seq!['.'] || first)
}

impl Split {
    /// The components when nothing more comes.
    pub open spec fn finished(self) -> Seq<Seq<char>> {
        if counts(self.piece, self.first) {
            self.parts.push(self.piece)
        } else {
            self.parts
        }
    }

    /// One more character.
    pub open spec fn then_char(self, c: char) -> Split {
        if c == '/' {
            Split { parts: self.finished(), piece: seq![], first: false }
        } else {
            Split { piece: self.piece.push(c), ..self }
        }
    }
}

/// A text, split at its slashes.
pub open spec fn split(text: Seq<char>) -> Split
    decreases text.len(),
{
    if text.len() == 0 {
        Split { parts: seq![], piece: seq![], first: true }
    } else {
        split(text.drop_last()).then_char(text.last())
    }
}

/// The path that a text spells.
pub open spec fn parsed(text: Seq<char>) -> PathView {
    PathView { rooted: text.len() > 0 && text[0] == '/', parts: split(text).finished() }
}

/// The components with a slash between each two.
pub open spec fn joined(parts: Seq<Seq<char>>) -> Seq<char>
    decreases parts.len(),
{
    if parts.len() == 0 {
        seq![]
    } else if parts.len() == 1 {
        parts[0]
    } else {
        joined(parts.drop_last()).push('/') + parts.last()
    }
}

impl PathView {
    /// The plain text of a path.
    pub open spec fn text(self) -> Seq<char> {
        if self.rooted {
            seq!['/'] + joined(self.parts)
        } else {
            joined(self.parts)
        }
    }

    /// Whether there is nothing in it.
    pub open spec fn is_nothing(self) -> bool {
        !self.rooted && self.parts.len() == 0
    }

    /// The path without its last component.
    pub open spec fn parent(self) -> Option<PathView> {
        if self.parts.len() == 0 {
            None
        } else {
            Some(PathView { parts: self.parts.drop_last(), ..self })
        }
    }

    /// The last component, where it is a name.
    pub open spec fn file_name(self) -> Option<Seq<char>> {
        if self.parts.len() == 0 || self.parts.last() == seq!['.'] || self.parts.last() == seq![
            '.',
            '.',
        ] {
            None
        } else {
            Some(self.parts.last())
        }
    }

    /// The path with one more component.
    pub open spec fn child(self, name: Seq<char>) -> PathView {
        PathView { parts: self.parts.push(name), ..self }
    }

    /// Whether this path is `base` or lies below it. Every path lies below the empty one.
    pub open spec fn starts_with(self, base: PathView) -> bool {
        ||| base.is_nothing()
        ||| {
            &&& self.rooted == base.rooted
            &&& base.parts.len() <= self.parts.len()
            &&& self.parts.take(base.parts.len() as int) == base.parts
        }
    }
}

/// A path and the text it was written as.
#[verifier::ext_equal]
pub ghost struct Spelled {
    pub path: PathView,
    pub text: Seq<char>,
}

/// A path in its plain spelling.
pub open spec fn plain(path: PathView) -> Spelled {
    Spelled { path, text: path.text() }
}

/// The components of `path` as they go on from those of `base`. A `.` in front is a component
/// only where nothing stands before it.
pub open spec fn tail_on(base: PathView, path: PathView) -> Seq<Seq<char>> {
    if !path.rooted && !base.is_nothing() && path.parts.len() > 0 && path.parts[0] == seq!['.'] {
        path.parts.skip(1)
    } else {
        path.parts
    }
}

/// A path: its text as it was written, and its components.
#[derive(Debug)]
pub struct NodePath {
    text: String,
    rooted: bool,
    parts: Vec<String>,
}

impl View for NodePath {
    type V = PathView;

    closed spec fn view(&self) -> PathView {
        PathView {
            rooted: self.rooted,
            parts: Seq::new(self.parts@.len(), |i: int| self.parts@[i]@),
        }
    }
}

impl NodePath {
    /// The text of the path.
    pub closed spec fn words(&self) -> Seq<char> {
        self.text@
    }

    /// The path together with its text.
    pub open spec fn spelled(&self) -> Spelled {
        Spelled { path: self@, text: self.words() }
    }

    /// The path that `text` spells.
    pub fn new(text: &str) -> (p: NodePath)
        ensures
            p@ == parsed(text@),
            p.words() == text@,
    {
        let chars = crate::text::chars_of(text);
        let rooted = chars.len() > 0 && chars[0] == '/';
        let mut parts: Vec<String> = Vec::new();
        let mut piece = String::new();
        let mut first = true;
        let mut i: usize = 0;
        while i < chars.len()
            invariant
                i <= chars@.len(),
                chars@ == text@,
                first == split(text@.take(i as int)).first,
                piece@ == split(text@.take(i as int)).piece,
                Seq::new(parts@.len(), |k: int| parts@[k]@) == split(text@.take(i as int)).parts,
            decreases chars@.len() - i,
        {
            let c: char = chars[i];
            proof {
                assert(text@.take(i + 1).drop_last() =~= text@.take(i as int));
                assert(text@.take(i + 1).last() == c);
            }
            if c == '/' {
                let ghost before = Seq::new(parts@.len(), |k: int| parts@[k]@);
                if is_component(&piece, first) {
                    parts.push(piece);
                    assert(Seq::new(parts@.len(), |k: int| parts@[k]@) =~= before.push(piece@));
                }
                piece = String::new();
                first = false;
            } else {
                piece.push(c);
            }
            i = i + 1;
        }
        assert(text@.take(text@.len() as int) =~= text@);
        let ghost before = Seq::new(parts@.len(), |k: int| parts@[k]@);
        if is_component(&piece, first) {
            parts.push(piece);
            assert(Seq::new(parts@.len(), |k: int| parts@[k]@) =~= before.push(piece@));
        }
        let p = NodePath { text: text.to_owned(), rooted, parts };
        assert(p@.parts =~= parsed(text@).parts);
        p
    }

    /// The path of these components.
    fn of_parts(rooted: bool, parts: Vec<String>) -> (p: NodePath)
        ensures
            p@.rooted == rooted,
            p@.parts =~= Seq::new(parts@.len(), |i: int| parts@[i]@),
            p.words() == p@.text(),
    {
        let mut text = String::new();
        let ghost whole = Seq::new(parts@.len(), |i: int| parts@[i]@);
        if rooted {
            text.push('/');
        }
        let ghost root = text@;
        let mut i: usize = 0;
        while i < parts.len()
            invariant
                i <= parts@.len(),
                whole == Seq::new(parts@.len(), |i: int| parts@[i]@),
                text@ == root + joined(whole.take(i as int)),
            decreases parts@.len() - i,
        {
            proof {
                assert(whole.take(i + 1).drop_last() =~= whole.take(i as int));
                assert(whole.take(i + 1).last() == parts@[i as int]@);
            }
            if i > 0 {
                text.push('/');
            }
            text.append(parts[i].as_str());
            i = i + 1;
            assert(text@ =~= root + joined(whole.take(i as int)));
        }
        assert(whole.take(parts@.len() as int) =~= whole);
        let p = NodePath { text, rooted, parts };
        assert(p@.parts =~= whole);
        assert(p.words() =~= p@.text());
        p
    }

    /// The text of the path.
    pub fn text(&self) -> (s: &str)
        ensures
            s@ == self.words(),
    {
        self.text.as_str()
    }

    /// The same path once more.
    pub fn copy(&self) -> (p: NodePath)
        ensures
            p@ == self@,
            p.words() == self.words(),
    {
        let p = NodePath {
            text: self.text.clone(),
            rooted: self.rooted,
            parts: copy_parts(&self.parts, self.parts.len()),
        };
        assert(p@.parts =~= self@.parts);
        p
    }

    /// Whether two paths are the same.
    pub fn same(&self, other: &NodePath) -> (r: bool)
        ensures
            r == (self@ == other@),
    {
        if self.rooted != other.rooted || self.parts.len() != other.parts.len() {
            assert(self@.rooted != other@.rooted || self@.parts.len() != other@.parts.len());
            return false;
        }
        let shared = shared_parts(&self.parts, &other.parts);
        if shared == self.parts.len() {
            assert(self@ =~= other@);
            true
        } else {
            assert(self@.parts[shared as int] != other@.parts[shared as int]);
            false
        }
    }

    /// Whether there is nothing in the path.
    pub fn is_nothing(&self) -> (r: bool)
        ensures
            r == self@.is_nothing(),
    {
        !self.rooted && self.parts.len() == 0
    }

    /// The path without its last component, in its plain spelling.
    pub fn parent(&self) -> (r: Option<NodePath>)
        ensures
            match r {
                Some(p) => self@.parent() == Some(p@) && p.words() == p@.text(),
                None => self@.parent() is None,
            },
    {
        if self.parts.len() == 0 {
            return None;
        }
        let p = NodePath::of_parts(self.rooted, copy_parts(&self.parts, self.parts.len() - 1));
        assert(p@.parts =~= self@.parts.drop_last());
        Some(p)
    }

    /// The last component, where it is a name.
    pub fn file_name(&self) -> (r: Option<String>)
        ensures
            match r {
                Some(s) => self@.file_name() == Some(s@),
                None => self@.file_name() is None,
            },
    {
        if self.parts.len() == 0 {
            return None;
        }
        let last = &self.parts[self.parts.len() - 1];
        if is_dots(last) {
            return None;
        }
        Some(last.clone())
    }

    /// The path with one more component.
    pub fn child(&self, name: &str) -> (p: NodePath)
        ensures
            p@ == self@.child(name@),
            p.words() == p@.text(),
    {
        let mut parts = copy_parts(&self.parts, self.parts.len());
        parts.push(name.to_owned());
        let p = NodePath::of_parts(self.rooted, parts);
        assert(p@.parts =~= self@.parts.push(name@));
        p
    }

    /// Whether this path is `base` or lies below it. Every path lies below the empty one.
    pub fn starts_with(&self, base: &NodePath) -> (r: bool)
        ensures
            r == self@.starts_with(base@),
    {
        if !base.rooted && base.parts.len() == 0 {
            return true;
        }
        if self.rooted != base.rooted || base.parts.len() > self.parts.len() {
            return false;
        }
        let shared = shared_parts(&base.parts, &self.parts);
        proof {
            let head = self@.parts.take(base@.parts.len() as int);
            if shared == base.parts.len() {
                assert(head =~= base@.parts);
            } else {
                assert(head[shared as int] != base@.parts[shared as int]);
            }
        }
        shared == base.parts.len()
    }

    /// The path that `path`, taken from this path on, leads to.
    pub fn under(&self, path: &NodePath) -> (p: NodePath)
        ensures
            p@ == (PathView { parts: self@.parts + tail_on(self@, path@), ..self@ }),
            p.words() == p@.text(),
    {
        let nothing = !self.rooted && self.parts.len() == 0;
        let from: usize = if !path.rooted && !nothing && path.parts.len() > 0 && crate::text::same(
            path.parts[0].as_str(),
            ".",
        ) {
            1
        } else {
            0
        };
        proof {
            reveal_strlit(".");
            assert("."@ =~= seq!['.']);
        }
        let mut parts = copy_parts(&self.parts, self.parts.len());
        let mut i: usize = from;
        assert(self.parts@.take(self.parts@.len() as int) =~= self.parts@);
        assert(parts@ =~= self.parts@ + path.parts@.subrange(from as int, from as int));
        while i < path.parts.len()
            invariant
                from <= i <= path.parts@.len(),
                parts@ == self.parts@ + path.parts@.subrange(from as int, i as int),
            decreases path.parts@.len() - i,
        {
            parts.push(path.parts[i].clone());
            i = i + 1;
            assert(parts@ =~= self.parts@ + path.parts@.subrange(from as int, i as int));
        }
        let p = NodePath::of_parts(self.rooted, parts);
        assert(p@.parts =~= self@.parts + tail_on(self@, path@));
        p
    }

    /// The rest of this path below `base`, as a path from the root on.
    pub fn below(&self, base: &NodePath) -> (r: Option<NodePath>)
        ensures
            match r {
                Some(p) => self@.starts_with(base@) && p@ == (PathView {
                    rooted: true,
                    parts: self@.parts.skip(base@.parts.len() as int),
                }) && p.words() == p@.text(),
                None => !self@.starts_with(base@),
            },
    {
        if !self.starts_with(base) {
            return None;
        }
        let from = base.parts.len();
        assert(base@.parts.len() == from);
        assert(self@.parts.len() == self.parts@.len());
        let mut parts: Vec<String> = Vec::new();
        let mut i: usize = from;
        while i < self.parts.len()
            invariant
                from <= i <= self.parts@.len(),
                parts@ == self.parts@.subrange(from as int, i as int),
            decreases self.parts@.len() - i,
        {
            parts.push(self.parts[i].clone());
            i = i + 1;
            assert(parts@ =~= self.parts@.subrange(from as int, i as int));
        }
        let p = NodePath::of_parts(true, parts);
        assert(p@.parts =~= self@.parts.skip(from as int));
        Some(p)
    }

    /// The deepest path that both paths start with.
    pub fn common(&self, other: &NodePath) -> (p: NodePath)
        ensures
            p@ == common(self@, other@),
            p.words() == p@.text(),
    {
        if self.rooted != other.rooted {
            let p = NodePath::of_parts(false, Vec::new());
            assert(p@.parts =~= seq![]);
            return p;
        }
        let shared = shared_parts(&self.parts, &other.parts);
        let p = NodePath::of_parts(self.rooted, copy_parts(&self.parts, shared));
        proof {
            lemma_shared(self@.parts, other@.parts, shared as int);
            assert(p@.parts =~= self@.parts.take(shared as int));
        }
        p
    }
}

/// How many components two lists have in common, from the front.
pub open spec fn shared_len(a: Seq<Seq<char>>, b: Seq<Seq<char>>) -> nat
    decreases a.len(),
{
    if a.len() == 0 || b.len() == 0 || a[0] != b[0] {
        0
    } else {
        1 + shared_len(a.drop_first(), b.drop_first())
    }
}

/// The deepest path that two paths start with. Paths of which only one is rooted share nothing.
pub open spec fn common(a: PathView, b: PathView) -> PathView {
    if a.rooted != b.rooted {
        PathView { rooted: false, parts: seq![] }
    } else {
        PathView { rooted: a.rooted, parts: a.parts.take(shared_len(a.parts, b.parts) as int) }
    }
}

proof fn lemma_shared(a: Seq<Seq<char>>, b: Seq<Seq<char>>, n: int)
    requires
        0 <= n <= a.len(),
        n <= b.len(),
        forall|i: int| 0 <= i < n ==> a[i] == b[i],
        n == a.len() || n == b.len() || a[n] != b[n],
    ensures
        shared_len(a, b) == n,
    decreases n,
{
    if n > 0 {
        let (x, y) = (a.drop_first(), b.drop_first());
        assert forall|i: int| 0 <= i < n - 1 implies x[i] == y[i] by {
            assert(a[i + 1] == b[i + 1]);
        }
        if n < a.len() && n < b.len() {
            assert(x[n - 1] == a[n]);
            assert(y[n - 1] == b[n]);
        }
        lemma_shared(x, y, n - 1);
    }
}

/// How many components two lists have in common, from the front.
fn shared_parts(a: &Vec<String>, b: &Vec<String>) -> (n: usize)
    ensures
        n <= a@.len(),
        n <= b@.len(),
        forall|i: int| 0 <= i < n ==> a@[i]@ == b@[i]@,
        n == a@.len() || n == b@.len() || a@[n as int]@ != b@[n as int]@,
{
    let mut n: usize = 0;
    while n < a.len() && n < b.len() && a[n] == b[n]
        invariant
            n <= a@.len(),
            n <= b@.len(),
            forall|i: int| 0 <= i < n ==> a@[i]@ == b@[i]@,
        decreases a@.len() - n,
    {
        n = n + 1;
    }
    n
}

/// The first `n` components once more.
fn copy_parts(parts: &Vec<String>, n: usize) -> (r: Vec<String>)
    requires
        n <= parts@.len(),
    ensures
        r@ == parts@.take(n as int),
{
    let mut r: Vec<String> = Vec::new();
    let mut i: usize = 0;
    while i < n
        invariant
            i <= n <= parts@.len(),
            r@ == parts@.take(i as int),
        decreases n - i,
    {
        r.push(parts[i].clone());
        i = i + 1;
        assert(r@ =~= parts@.take(i as int));
    }
    r
}

/// Whether a component is `.` or `..`.
fn is_dots(part: &String) -> (r: bool)
    ensures
        r == (part@ == seq!['.'] || part@ == seq!['.', '.']),
{
    proof {
        reveal_strlit(".");
        reveal_strlit("..");
        assert("."@ =~= seq!['.']);
        assert(".."@ =~= seq!['.', '.']);
    }
    crate::text::same(part.as_str(), ".") || crate::text::same(part.as_str(), "..")
}

/// Whether a piece between slashes is a component.
fn is_component(piece: &String, first: bool) -> (r: bool)
    ensures
        r == counts(piece@, first),
{
    proof {
        reveal_strlit(".");
        assert("."@ =~= seq!['.']);
    }
    !piece.as_str().is_empty() && (first || !crate::text::same(piece.as_str(), "."))
}

/// The paths of a list.
pub open spec fn views(paths: Seq<NodePath>) -> Seq<PathView> {
    Seq::new(paths.len(), |i: int| paths[i]@)
}

/// The paths of a list together with their texts.
pub open spec fn spellings(paths: Seq<NodePath>) -> Seq<Spelled> {
    Seq::new(paths.len(), |i: int| paths[i].spelled())
}

/// The same paths once more.
pub fn copy_paths(paths: &Vec<NodePath>) -> (r: Vec<NodePath>)
    ensures
        spellings(r@) == spellings(paths@),
        views(r@) == views(paths@),
{
    let mut r: Vec<NodePath> = Vec::new();
    let mut i: usize = 0;
    while i < paths.len()
        invariant
            i <= paths@.len(),
            r@.len() == i,
            forall|k: int| 0 <= k < i ==> r@[k].spelled() == (#[trigger] paths@[k]).spelled(),
        decreases paths@.len() - i,
    {
        r.push(paths[i].copy());
        i = i + 1;
    }
    proof {
        assert forall|k: int| 0 <= k < r@.len() implies r@[k]@ == paths@[k]@ by {
            assert(r@[k].spelled() == paths@[k].spelled());
        }
        assert(spellings(r@) =~= spellings(paths@));
        assert(views(r@) =~= views(paths@));
    }
    r
}

/// Whether a list of components is one that a text can spell: none is empty, none holds a slash,
/// and none is a `.` but the first of a path that does not start at the root.
pub open spec fn spellable(v: PathView) -> bool {
    forall|i: int|
        0 <= i < v.parts.len() ==> counts(#[trigger] v.parts[i], i == 0 && !v.rooted)
            && !v.parts[i].contains('/')
}

proof fn lemma_split_piece(before: Seq<char>, piece: Seq<char>)
    requires
        !piece.contains('/'),
    ensures
        split(before + piece) == (Split { piece: split(before).piece + piece, ..split(before) }),
    decreases piece.len(),
{
    if piece.len() == 0 {
        assert(before + piece =~= before);
        assert(split(before).piece + piece =~= split(before).piece);
    } else {
        let whole = before + piece;
        assert(whole.drop_last() =~= before + piece.drop_last());
        assert(piece.contains(piece.last()));
        assert forall|c: char| piece.drop_last().contains(c) implies piece.contains(c) by {
            let i = choose|i: int| 0 <= i < piece.len() - 1 && piece.drop_last()[i] == c;
            assert(piece[i] == c);
        }
        lemma_split_piece(before, piece.drop_last());
        assert((split(before).piece + piece.drop_last()).push(piece.last()) =~= split(before).piece
            + piece);
    }
}

proof fn lemma_split_joined(root: Seq<char>, parts: Seq<Seq<char>>, first: bool)
    requires
        split(root) == (Split { parts: seq![], piece: seq![], first }),
        parts.len() > 0,
        forall|i: int|
            0 <= i < parts.len() ==> counts(#[trigger] parts[i], i == 0 && first)
                && !parts[i].contains('/'),
    ensures
        split(root + joined(parts)) == (Split {
            parts: parts.drop_last(),
            piece: parts.last(),
            first: first && parts.len() == 1,
        }),
    decreases parts.len(),
{
    if parts.len() == 1 {
        lemma_split_piece(root, parts[0]);
        assert(seq![] + parts[0] =~= parts[0]);
        assert(parts.drop_last() =~= seq![]);
    } else {
        let head = parts.drop_last();
        assert forall|i: int| 0 <= i < head.len() implies counts(
            #[trigger] head[i],
            i == 0 && first,
        ) && !head[i].contains('/') by {
            assert(parts[i] == head[i]);
        }
        lemma_split_joined(root, head, first);
        let before = root + joined(head);
        let cut = before.push('/');
        assert(cut.drop_last() =~= before);
        assert(head.drop_last().push(head.last()) =~= head);
        assert(head.last() == parts[parts.len() - 2]);
        assert(split(cut) == (Split { parts: head, piece: seq![], first: false }));
        lemma_split_piece(cut, parts.last());
        assert(seq![] + parts.last() =~= parts.last());
        assert(root + joined(parts) =~= cut + parts.last());
    }
}

/// The plain text of a path spells that path again.
pub proof fn a_path_is_spelled_by_its_text(v: PathView)
    requires
        spellable(v),
    ensures
        parsed(v.text()) == v,
{
    let root = if v.rooted {
        seq!['/']
    } else {
        seq![]
    };
    reveal_with_fuel(split, 2);
    if v.rooted {
        assert(seq!['/'].drop_last() =~= seq![]);
    }
    assert(split(root) == (Split { parts: seq![], piece: seq![], first: !v.rooted }));
    assert(v.text() =~= root + joined(v.parts));
    if v.parts.len() == 0 {
        assert(v.text() =~= root);
        assert(v.parts =~= seq![]);
    } else {
        lemma_split_joined(root, v.parts, !v.rooted);
        assert(v.parts.drop_last().push(v.parts.last()) =~= v.parts);
        assert(counts(v.parts[v.parts.len() - 1], v.parts.len() == 1 && !v.rooted));
        assert(parsed(v.text()).parts =~= v.parts);
        if !v.rooted {
            lemma_joined_front(v.parts);
            assert(counts(v.parts[0], true));
            assert(v.parts[0].contains(v.parts[0][0]));
        }
    }
}

/// A joined list starts as its first component does.
proof fn lemma_joined_front(parts: Seq<Seq<char>>)
    requires
        parts.len() > 0,
        parts[0].len() > 0,
    ensures
        joined(parts).len() > 0,
        joined(parts)[0] == parts[0][0],
    decreases parts.len(),
{
    if parts.len() > 1 {
        lemma_joined_front(parts.drop_last());
    }
}

proof fn lemma_split_spellable(text: Seq<char>)
    ensures
        ({
            let s = split(text);
            let rooted = text.len() > 0 && text[0] == '/';
            &&& spellable(PathView { rooted, parts: s.parts })
            &&& !s.piece.contains('/')
            &&& s.first ==> s.parts.len() == 0 && s.piece == text
        }),
    decreases text.len(),
{
    if text.len() > 0 {
        let before = split(text.drop_last());
        let c = text.last();
        lemma_split_spellable(text.drop_last());
        let rooted = text[0] == '/';
        assert(before.piece.push(c).drop_last() =~= before.piece);
        if c == '/' {
            let done = before.finished();
            if text.len() == 1 {
                assert(done =~= seq![]);
            } else {
                assert(text.drop_last()[0] == text[0]);
                if before.first && rooted {
                    assert(before.piece[0] == '/');
                    assert(before.piece.contains('/'));
                }
                assert forall|i: int| 0 <= i < done.len() implies counts(
                    #[trigger] done[i],
                    i == 0 && !rooted,
                ) && !done[i].contains('/') by {
                    if i < before.parts.len() {
                        let w = PathView { rooted, parts: before.parts };
                        assert(spellable(w));
                        assert(done[i] == w.parts[i]);
                    }
                }
            }
        } else {
            let piece = before.piece.push(c);
            assert(!piece.contains('/')) by {
                if piece.contains('/') {
                    let i = choose|i: int| 0 <= i < piece.len() && piece[i] == '/';
                    assert(before.piece[i] == '/');
                }
            }
            if text.len() == 1 {
                assert(before.parts =~= seq![]);
            } else {
                assert(text.drop_last()[0] == text[0]);
            }
            if before.first {
                assert(piece =~= text);
            }
        }
    }
}

/// Whatever a text spells, the plain text of that path spells it too.
pub proof fn every_spelled_path_is_spellable(text: Seq<char>)
    ensures
        spellable(parsed(text)),
        parsed(parsed(text).text()) == parsed(text),
{
    lemma_split_spellable(text);
    let s = split(text);
    let v = parsed(text);
    assert forall|i: int| 0 <= i < v.parts.len() implies counts(
        #[trigger] v.parts[i],
        i == 0 && !v.rooted,
    ) && !v.parts[i].contains('/') by {
        if i < s.parts.len() {
            let w = PathView { rooted: v.rooted, parts: s.parts };
            assert(spellable(w));
            assert(v.parts[i] == w.parts[i]);
        } else if s.first && v.rooted {
            assert(s.piece.contains(text[0]));
        }
    }
    a_path_is_spelled_by_its_text(v);
}

// ---- what a path is ------------------------------------------------------------------------

proof fn lemma_split_on(a: Seq<char>, b: Seq<char>, c: Seq<char>)
    requires
        split(a) == split(b),
    ensures
        split(a + c) == split(b + c),
    decreases c.len(),
{
    if c.len() == 0 {
        assert(a + c =~= a && b + c =~= b);
    } else {
        lemma_split_on(a, b, c.drop_last());
        assert((a + c).drop_last() =~= a + c.drop_last());
        assert((b + c).drop_last() =~= b + c.drop_last());
    }
}

/// Repeated slashes, a slash at the end and a dot between two slashes make no difference.
pub proof fn slashes_and_dots_make_no_difference(a: Seq<char>, b: Seq<char>)
    ensures
        parsed(a + seq!['/', '/'] + b) == parsed(a + seq!['/'] + b),
        parsed(a + seq!['/', '.', '/'] + b) == parsed(a + seq!['/'] + b),
        a.len() > 0 ==> parsed(a.push('/')) == parsed(a),
        a.len() > 0 ==> parsed(a + seq!['/', '.']) == parsed(a),
{
    let one = a + seq!['/'];
    let two = a + seq!['/', '/'];
    let dot = a + seq!['/', '.', '/'];
    assert(one.drop_last() =~= a);
    assert(two.drop_last() =~= one);
    let dotted = a + seq!['/', '.'];
    assert(dotted.drop_last() =~= one);
    assert(dot.drop_last() =~= dotted);
    assert(one.last() == '/' && dotted.last() == '.' && dot.last() == '/' && two.last() == '/');
    assert(split(one).piece.len() == 0 && !split(one).first);
    assert(split(dotted) == split(one).then_char('.'));
    assert(split(dotted).piece =~= seq!['.']);
    assert(split(two) == split(one));
    assert(split(dot) == split(one));
    lemma_split_on(two, one, b);
    lemma_split_on(dot, one, b);
    assert(a.push('/') =~= one);
}

/// A text without a slash is one component, unless it is empty; one with a slash in front starts at
/// the root and one without does not.
pub proof fn a_name_is_one_component(name: Seq<char>)
    requires
        name.len() > 0,
        !name.contains('/'),
    ensures
        parsed(name) == (PathView { rooted: false, parts: seq![name] }),
        name != seq!['.'] ==> parsed(seq!['/'] + name) == (PathView {
            rooted: true,
            parts: seq![name],
        }),
{
    let root = seq!['/'];
    reveal_with_fuel(split, 2);
    assert(root.drop_last() =~= seq![]);
    assert(split(root) == (Split { parts: seq![], piece: seq![], first: false }));
    lemma_split_piece(seq![], name);
    lemma_split_piece(root, name);
    assert(seq![] + name =~= name);
    assert(name[0] != '/') by {
        if name[0] == '/' {
            assert(name.contains('/'));
        }
    }
    assert(parsed(name).parts =~= seq![name]);
    if name != seq!['.'] {
        assert(parsed(root + name).parts =~= seq![name]);
    }
}

/// One more component is the last one: it is the name, what it was added to is the parent, and the
/// path lies below it and below all that it lies below.
pub proof fn a_child_lies_below_its_parent(v: PathView, base: PathView, name: Seq<char>)
    ensures
        v.child(name).parent() == Some(v),
        name != seq!['.'] && name != seq!['.', '.'] ==> v.child(name).file_name() == Some(name),
        v.starts_with(v),
        v.child(name).starts_with(v),
        v.starts_with(base) ==> v.child(name).starts_with(base),
        v.parts.len() > 0 ==> v.parent() is Some && v.parent()->0.child(v.parts.last()) == v,
        v.parts.len() == 0 ==> v.parent() is None && v.file_name() is None,
        !base.is_nothing() && v.starts_with(base) ==> v.parts.len() >= base.parts.len() && v.rooted
            == base.rooted && forall|i: int|
            0 <= i < base.parts.len() ==> v.parts[i] == #[trigger] base.parts[i],
{
    assert(v.child(name).parts.drop_last() =~= v.parts);
    assert(v.parts.take(v.parts.len() as int) =~= v.parts);
    assert(v.child(name).parts.take(v.parts.len() as int) =~= v.parts);
    if v.starts_with(base) && !base.is_nothing() {
        let n = base.parts.len() as int;
        assert(v.child(name).parts.take(n) =~= v.parts.take(n));
        assert forall|i: int| 0 <= i < n implies v.parts[i] == #[trigger] base.parts[i] by {
            assert(v.parts.take(n)[i] == base.parts[i]);
        }
    }
    if v.parts.len() > 0 {
        assert(v.parts.drop_last().push(v.parts.last()) =~= v.parts);
    }
}

/// What two paths have in common is the deepest path that both lie below, and it does not matter
/// which comes first.
pub proof fn the_common_path_is_the_deepest(a: PathView, b: PathView, other: PathView)
    ensures
        a.starts_with(common(a, b)),
        b.starts_with(common(a, b)),
        common(a, b) == common(b, a),
        a.starts_with(other) && b.starts_with(other) ==> common(a, b).starts_with(other),
{
    if a.rooted == b.rooted {
        let n = lemma_shared_is_longest(a.parts, b.parts);
        lemma_shared(a.parts, b.parts, n);
        lemma_shared(b.parts, a.parts, n);
        assert(a.parts.take(n) =~= b.parts.take(n));
        assert(a.parts.take(n).len() == n);
        if a.starts_with(other) && b.starts_with(other) && !other.is_nothing() {
            let m = other.parts.len() as int;
            if m > n {
                assert(a.parts[n] == a.parts.take(m)[n]);
                assert(b.parts[n] == b.parts.take(m)[n]);
            }
            assert(a.parts.take(n).take(m) =~= a.parts.take(m));
        }
    } else {
        assert(common(a, b) =~= common(b, a));
    }
}

proof fn lemma_shared_is_longest(a: Seq<Seq<char>>, b: Seq<Seq<char>>) -> (n: int)
    ensures
        0 <= n <= a.len(),
        n <= b.len(),
        forall|i: int| 0 <= i < n ==> a[i] == b[i],
        n == a.len() || n == b.len() || a[n] != b[n],
    decreases a.len(),
{
    if a.len() == 0 || b.len() == 0 || a[0] != b[0] {
        0
    } else {
        let (x, y) = (a.drop_first(), b.drop_first());
        let m = lemma_shared_is_longest(x, y);
        assert forall|i: int| 0 <= i < m + 1 implies a[i] == b[i] by {
            if i > 0 {
                assert(x[i - 1] == y[i - 1]);
            }
        }
        if m < x.len() && m < y.len() {
            assert(x[m] == a[m + 1] && y[m] == b[m + 1]);
        }
        m + 1
    }
}

/// Only the path that has no root and no component is nothing.
pub proof fn only_an_empty_path_is_nothing(p: PathView)
    ensures
        p.is_nothing() <==> p == (PathView { rooted: false, parts: seq![] }),
{
    if p.is_nothing() {
        assert(p.parts =~= seq![]);
    }
}

} // verus!
