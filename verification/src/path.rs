//! Filesystem paths as sequences of components.
//!
//! A path is either rooted (it starts at `/`) or relative, followed by its
//! components. Two paths are equal exactly when they have the same
//! components, as paths compare in std: repeated separators, and `.`
//! components anywhere but at the start of a relative path, carry no meaning;
//! a relative path that starts with `.` keeps it as its first component.
//! Walking up a path drops its last component.
use vstd::prelude::*;

verus! {

/// The mathematical model of a path.
pub struct PathModel {
    pub rooted: bool,
    pub parts: Seq<Seq<char>>,
}

/// A normal component: not empty, not `.`, and free of separators.
pub open spec fn is_component(c: Seq<char>) -> bool {
    &&& c.len() > 0
    &&& c != seq!['.']
    &&& !c.contains('/')
}

/// Adds the text gathered since the last separator as a component, unless it
/// is empty or `.`.
pub open spec fn keep_segment(done: Seq<Seq<char>>, seg: Seq<char>) -> Seq<Seq<char>> {
    if seg.len() == 0 || seg == seq!['.'] {
        done
    } else {
        done.push(seg)
    }
}

/// Splits `s` at each `/`: the components completed so far and the text after
/// the last separator.
pub open spec fn scan_components(s: Seq<char>) -> (Seq<Seq<char>>, Seq<char>)
    decreases s.len(),
{
    if s.len() == 0 {
        (seq![], seq![])
    } else {
        let prev = scan_components(s.drop_last());
        if s.last() == '/' {
            (keep_segment(prev.0, prev.1), seq![])
        } else {
            (prev.0, prev.1.push(s.last()))
        }
    }
}

/// Whether `s` is a relative path whose first component is `.`: it starts
/// with a `.` that is followed by a separator or by nothing.
pub open spec fn starts_at_current(s: Seq<char>) -> bool {
    &&& s.len() > 0
    &&& s[0] == '.'
    &&& (s.len() == 1 || s[1] == '/')
}

/// The path that a string names.
pub open spec fn parse_path(s: Seq<char>) -> PathModel {
    let st = scan_components(s);
    let rest = keep_segment(st.0, st.1);
    PathModel {
        rooted: s.len() > 0 && s[0] == '/',
        parts: if starts_at_current(s) {
            seq![seq!['.']] + rest
        } else {
            rest
        },
    }
}

/// The components written one after the other, separated by `/`.
pub open spec fn render_parts(parts: Seq<Seq<char>>) -> Seq<char>
    decreases parts.len(),
{
    if parts.len() == 0 {
        seq![]
    } else if parts.len() == 1 {
        parts[0]
    } else {
        render_parts(parts.drop_last()) + seq!['/'] + parts.last()
    }
}

impl PathModel {
    /// Every component is a normal one, but for a `.` at the start of a
    /// relative path.
    pub open spec fn valid(self) -> bool {
        forall|i: int|
            0 <= i < self.parts.len() ==> is_component(#[trigger] self.parts[i]) || (i == 0
                && !self.rooted && self.parts[i] == seq!['.'])
    }

    /// The canonical text of the path.
    pub open spec fn render(self) -> Seq<char> {
        if self.rooted {
            seq!['/'] + render_parts(self.parts)
        } else {
            render_parts(self.parts)
        }
    }

    /// The path without its last component; none for a path without components.
    pub open spec fn parent(self) -> Option<PathModel> {
        if self.parts.len() == 0 {
            None
        } else {
            Some(PathModel { rooted: self.rooted, parts: self.parts.drop_last() })
        }
    }

    /// `other` appended to `self`; a rooted `other` replaces `self`. A
    /// leading `.` of `other` stays only where `self` is the empty relative
    /// path, since it no longer starts the joined path otherwise.
    pub open spec fn join(self, other: PathModel) -> PathModel {
        if other.rooted {
            other
        } else {
            let tail = if other.parts.len() > 0 && other.parts[0] == seq!['.'] && (self.rooted
                || self.parts.len() > 0) {
                other.parts.skip(1)
            } else {
                other.parts
            };
            PathModel { rooted: self.rooted, parts: self.parts + tail }
        }
    }

    /// Whether `base` is `self` or one of its ancestors.
    pub open spec fn starts_with(self, base: PathModel) -> bool {
        &&& self.rooted == base.rooted
        &&& base.parts.len() <= self.parts.len()
        &&& self.parts.subrange(0, base.parts.len() as int) == base.parts
    }

    /// The relative path that leads from `base` to `self`, when `base` is an
    /// ancestor of `self` or `self` itself.
    pub open spec fn strip_prefix(self, base: PathModel) -> Option<PathModel> {
        if self.starts_with(base) {
            Some(PathModel { rooted: false, parts: self.parts.skip(base.parts.len() as int) })
        } else {
            None
        }
    }

    /// The path after `k` steps up, while there is a parent.
    pub open spec fn ancestor(self, k: nat) -> Option<PathModel>
        decreases k,
    {
        if k == 0 {
            Some(self)
        } else {
            match self.parent() {
                Some(p) => p.ancestor((k - 1) as nat),
                None => None,
            }
        }
    }
}

proof fn lemma_scan_plain_suffix(pre: Seq<char>, t: Seq<char>)
    requires
        !t.contains('/'),
    ensures
        scan_components(pre + t) == (scan_components(pre).0, scan_components(pre).1 + t),
    decreases t.len(),
{
    if t.len() == 0 {
        assert(pre + t =~= pre);
        assert(scan_components(pre).1 + t =~= scan_components(pre).1);
    } else {
        let t0 = t.drop_last();
        assert(!t0.contains('/')) by {
            if t0.contains('/') {
                let j = choose|j: int| 0 <= j < t0.len() && t0[j] == '/';
                assert(t[j] == '/');
            }
        }
        lemma_scan_plain_suffix(pre, t0);
        assert((pre + t).drop_last() =~= pre + t0);
        assert((pre + t).last() == t.last());
        assert(t.last() != '/') by {
            assert(t[t.len() - 1] == t.last());
        }
        assert(scan_components(pre).1 + t0.push(t.last()) =~= scan_components(pre).1 + t);
        assert((scan_components(pre).1 + t0).push(t.last()) =~= scan_components(pre).1 + t);
    }
}

proof fn lemma_scan_separator(pre: Seq<char>)
    ensures
        scan_components(pre + seq!['/']) == (
            keep_segment(scan_components(pre).0, scan_components(pre).1),
            Seq::<char>::empty(),
        ),
{
    assert((pre + seq!['/']).drop_last() =~= pre);
}

proof fn lemma_scan_rendered(pre: Seq<char>, ps: Seq<Seq<char>>)
    requires
        scan_components(pre).1 == Seq::<char>::empty(),
        ps.len() > 0,
        forall|i: int| 0 <= i < ps.len() ==> is_component(#[trigger] ps[i]),
    ensures
        scan_components(pre + render_parts(ps)) == (
            scan_components(pre).0 + ps.drop_last(),
            ps.last(),
        ),
    decreases ps.len(),
{
    let d = scan_components(pre).0;
    if ps.len() == 1 {
        assert(is_component(ps[0]));
        lemma_scan_plain_suffix(pre, ps[0]);
        assert(Seq::<char>::empty() + ps[0] =~= ps[0]);
        assert(d + ps.drop_last() =~= d);
    } else {
        let init = ps.drop_last();
        assert forall|i: int| 0 <= i < init.len() implies is_component(#[trigger] init[i]) by {
            assert(init[i] == ps[i]);
        }
        lemma_scan_rendered(pre, init);
        let mid = pre + render_parts(init);
        lemma_scan_separator(mid);
        assert(is_component(init.last())) by {
            assert(init.last() == ps[ps.len() - 2]);
        }
        assert(keep_segment(d + init.drop_last(), init.last()) =~= d + init);
        assert(is_component(ps.last())) by {
            assert(ps.last() == ps[ps.len() - 1]);
        }
        lemma_scan_plain_suffix(mid + seq!['/'], ps.last());
        assert(pre + render_parts(ps) =~= (mid + seq!['/']) + ps.last());
        assert(Seq::<char>::empty() + ps.last() =~= ps.last());
    }
}

proof fn lemma_render_parts_first(ps: Seq<Seq<char>>)
    requires
        ps.len() > 0,
    ensures
        render_parts(ps).len() >= ps[0].len(),
        forall|i: int| 0 <= i < ps[0].len() ==> render_parts(ps)[i] == ps[0][i],
    decreases ps.len(),
{
    if ps.len() > 1 {
        lemma_render_parts_first(ps.drop_last());
    }
}

proof fn lemma_render_parts_cons(x: Seq<char>, q: Seq<Seq<char>>)
    requires
        q.len() > 0,
    ensures
        render_parts(seq![x] + q) == x + seq!['/'] + render_parts(q),
    decreases q.len(),
{
    let ps = seq![x] + q;
    if q.len() == 1 {
        assert(ps.drop_last() =~= seq![x]);
        assert(ps.last() == q[0]);
        assert(render_parts(seq![x]) == x);
        assert(render_parts(q) == q[0]);
        assert(render_parts(ps) == render_parts(ps.drop_last()) + seq!['/'] + ps.last());
    } else {
        assert(render_parts(q) == render_parts(q.drop_last()) + seq!['/'] + q.last());
        assert(render_parts(ps) == render_parts(ps.drop_last()) + seq!['/'] + ps.last());
        lemma_render_parts_cons(x, q.drop_last());
        assert(ps.drop_last() =~= seq![x] + q.drop_last());
        assert(ps.last() == q.last());
        assert(x + seq!['/'] + render_parts(q.drop_last()) + seq!['/'] + q.last() =~= x + seq![
            '/',
        ] + (render_parts(q.drop_last()) + seq!['/'] + q.last()));
    }
}

/// Reading the text of a path gives the path back.
pub proof fn lemma_parse_render(p: PathModel)
    requires
        p.valid(),
    ensures
        parse_path(p.render()) == p,
{
    let ps = p.parts;
    let s = p.render();
    if ps.len() == 0 {
        if p.rooted {
            assert(s =~= seq!['/']);
            lemma_scan_separator(Seq::<char>::empty());
            assert(Seq::<char>::empty() + seq!['/'] =~= seq!['/']);
        } else {
            assert(s =~= Seq::<char>::empty());
        }
        assert(parse_path(s).parts =~= ps);
    } else if !p.rooted && ps[0] == seq!['.'] {
        let q = ps.skip(1);
        assert(ps =~= seq![seq!['.']] + q);
        lemma_scan_plain_suffix(Seq::<char>::empty(), seq!['.']);
        assert(Seq::<char>::empty() + seq!['.'] =~= seq!['.']);
        if q.len() == 0 {
            assert(s == seq!['.']);
            assert(parse_path(s).parts =~= ps);
        } else {
            lemma_render_parts_cons(seq!['.'], q);
            let pre = seq!['.', '/'];
            lemma_scan_separator(seq!['.']);
            assert(seq!['.'] + seq!['/'] =~= pre);
            assert(scan_components(pre).0 =~= Seq::<Seq<char>>::empty());
            assert forall|i: int| 0 <= i < q.len() implies is_component(#[trigger] q[i]) by {
                assert(q[i] == ps[i + 1]);
            }
            lemma_scan_rendered(pre, q);
            assert(s =~= pre + render_parts(q));
            assert(is_component(q.last())) by {
                assert(q.last() == q[q.len() - 1]);
            }
            assert(keep_segment(Seq::<Seq<char>>::empty() + q.drop_last(), q.last()) =~= q);
            assert(s[0] == '.' && s[1] == '/');
            assert(parse_path(s).parts =~= ps);
        }
    } else {
        assert(is_component(ps[0]));
        let pre: Seq<char> = if p.rooted {
            seq!['/']
        } else {
            Seq::<char>::empty()
        };
        if p.rooted {
            lemma_scan_separator(Seq::<char>::empty());
            assert(Seq::<char>::empty() + seq!['/'] =~= seq!['/']);
        }
        assert forall|i: int| 0 <= i < ps.len() implies is_component(#[trigger] ps[i]) by {
            if i > 0 {
                assert(is_component(ps[i]) || (i == 0 && !p.rooted && ps[i] == seq!['.']));
            }
        }
        lemma_scan_rendered(pre, ps);
        assert(s == pre + render_parts(ps));
        assert(scan_components(pre).0 =~= Seq::<Seq<char>>::empty());
        assert(is_component(ps.last())) by {
            assert(ps.last() == ps[ps.len() - 1]);
        }
        assert(keep_segment(Seq::<Seq<char>>::empty() + ps.drop_last(), ps.last()) =~= ps);
        if !p.rooted {
            lemma_render_parts_first(ps);
            assert(ps[0].contains(ps[0][0]));
            if ps[0][0] == '.' {
                if ps[0].len() == 1 {
                    assert(ps[0] =~= seq!['.']);
                } else {
                    assert(ps[0].contains(ps[0][1]));
                    assert(s[1] == ps[0][1]);
                }
            }
            assert(!starts_at_current(s));
        }
    }
}

/// Stepping up from a directory's child gives the directory back.
pub proof fn lemma_parent_of_child(p: PathModel, c: Seq<char>)
    requires
        is_component(c),
    ensures
        parse_path(c) == (PathModel { rooted: false, parts: seq![c] }),
        p.join(parse_path(c)).parent() == Some(p),
{
    lemma_scan_plain_suffix(Seq::<char>::empty(), c);
    assert(Seq::<char>::empty() + c =~= c);
    assert(c.contains(c[0]));
    if c.len() == 1 {
        assert(c[0] != '.') by {
            if c[0] == '.' {
                assert(c =~= seq!['.']);
            }
        }
    } else {
        assert(c.contains(c[1]));
    }
    assert(!starts_at_current(c));
    assert(parse_path(c).parts =~= seq![c]);
    assert((p.parts + seq![c]).drop_last() =~= p.parts);
}

/// Walking up `k` steps leaves the first `len - k` components: there are
/// exactly `len + 1` steps, each to a strictly shorter path, so no path is met
/// twice.
pub proof fn lemma_ancestor(p: PathModel, k: nat)
    ensures
        p.ancestor(k) is Some <==> k <= p.parts.len(),
        k <= p.parts.len() ==> p.ancestor(k) == Some(
            PathModel { rooted: p.rooted, parts: p.parts.take(p.parts.len() - k) },
        ),
    decreases k,
{
    if k == 0 {
        assert(p.parts.take(p.parts.len() as int) =~= p.parts);
    } else if p.parts.len() > 0 {
        let q = p.parent().unwrap();
        lemma_ancestor(q, (k - 1) as nat);
        if k <= p.parts.len() {
            assert(q.parts.take(q.parts.len() - (k - 1)) =~= p.parts.take(p.parts.len() - k));
        }
    }
}


pub open spec fn view_parts(parts: Seq<String>) -> Seq<Seq<char>> {
    parts.map_values(|p: String| p@)
}

/// A path of the library: rooted or relative, then its components.
#[derive(Debug, Clone, PartialEq, Eq)]
pub struct FsPath {
    rooted: bool,
    parts: Vec<String>,
}

impl View for FsPath {
    type V = PathModel;

    closed spec fn view(&self) -> PathModel {
        PathModel { rooted: self.rooted, parts: view_parts(self.parts@) }
    }
}

proof fn lemma_scan_valid(s: Seq<char>)
    ensures
        forall|i: int|
            0 <= i < scan_components(s).0.len() ==> is_component(
                #[trigger] scan_components(s).0[i],
            ),
        !scan_components(s).1.contains('/'),
    decreases s.len(),
{
    if s.len() > 0 {
        lemma_scan_valid(s.drop_last());
        let prev = scan_components(s.drop_last());
        if s.last() != '/' {
            assert forall|c: char| #[trigger] prev.1.push(s.last()).contains(c) implies c != '/' by {
                let j = choose|j: int| 0 <= j < prev.1.push(s.last()).len() && prev.1.push(s.last())[j] == c;
                if j < prev.1.len() {
                    assert(prev.1.contains(c));
                }
            }
        }
    }
}

proof fn lemma_parse_valid(s: Seq<char>)
    ensures
        parse_path(s).valid(),
{
    lemma_scan_valid(s);
    let st = scan_components(s);
    let rest = keep_segment(st.0, st.1);
    assert forall|i: int| 0 <= i < rest.len() implies is_component(#[trigger] rest[i]) by {
        if i < st.0.len() {
            assert(is_component(st.0[i]));
        }
    }
    if starts_at_current(s) {
        let parts = seq![seq!['.']] + rest;
        assert forall|i: int| 0 < i < parts.len() implies is_component(#[trigger] parts[i]) by {
            assert(parts[i] == rest[i - 1]);
        }
    }
}

/// Whether a component is `.`.
fn is_current_dir(part: &String) -> (r: bool)
    ensures
        r == (part@ == seq!['.']),
{
    let text = part.as_str();
    let n = text.unicode_len();
    if n == 1 && text.get_char(0) == '.' {
        assert(text@ =~= seq!['.']);
        true
    } else {
        false
    }
}

/// Whether the text gathered between two separators is kept as a component.
fn is_kept_segment(seg: &str) -> (r: bool)
    ensures
        r == !(seg@.len() == 0 || seg@ == seq!['.']),
{
    let n = seg.unicode_len();
    if n == 0 {
        false
    } else if n == 1 && seg.get_char(0) == '.' {
        assert(seg@ =~= seq!['.']);
        false
    } else {
        assert(seg@.len() != 1 || seg@[0] != '.');
        true
    }
}

fn copy_parts(parts: &Vec<String>, from: usize) -> (r: Vec<String>)
    requires
        from <= parts.len(),
    ensures
        view_parts(r@) == view_parts(parts@).skip(from as int),
{
    let mut out: Vec<String> = Vec::new();
    let mut i = from;
    while i < parts.len()
        invariant
            from <= i <= parts.len(),
            view_parts(out@) == view_parts(parts@).subrange(from as int, i as int),
        decreases parts.len() - i,
    {
        let ghost before = out@;
        let item = parts[i].clone();
        out.push(item);
        assert(view_parts(out@) =~= view_parts(before).push(parts@[i as int]@));
        assert(view_parts(out@) =~= view_parts(parts@).subrange(from as int, i + 1));
        i += 1;
    }
    assert(view_parts(parts@).skip(from as int) =~= view_parts(parts@).subrange(
        from as int,
        parts.len() as int,
    ));
    out
}

impl FsPath {
    /// Reads a path from its text: a leading `/` makes it rooted, and the
    /// components are the texts between separators that are neither empty nor
    /// `.`, after a first `.` component where a relative path starts with
    /// one.
    pub fn parse(s: &str) -> (r: FsPath)
        ensures
            r@ == parse_path(s@),
            r@.valid(),
    {
        proof {
            lemma_parse_valid(s@);
        }
        let n = s.unicode_len();
        let mut parts: Vec<String> = Vec::new();
        let mut start: usize = 0;
        let mut i: usize = 0;
        assert(s@.take(0) =~= seq![]);
        while i < n
            invariant
                n == s@.len(),
                start <= i <= n,
                scan_components(s@.take(i as int)) == (
                    view_parts(parts@),
                    s@.subrange(start as int, i as int),
                ),
            decreases n - i,
        {
            let c = s.get_char(i);
            assert(s@.take(i + 1).drop_last() =~= s@.take(i as int));
            assert(s@.take(i + 1).last() == c);
            if c == '/' {
                let seg = s.substring_char(start, i);
                if is_kept_segment(seg) {
                    let ghost before = parts@;
                    parts.push(String::from_str(seg));
                    assert(view_parts(parts@) =~= view_parts(before).push(seg@));
                }
                start = i + 1;
                assert(s@.subrange(start as int, i + 1) =~= seq![]);
            } else {
                assert(s@.subrange(start as int, i + 1) =~= s@.subrange(
                    start as int,
                    i as int,
                ).push(c));
            }
            i += 1;
        }
        assert(s@.take(n as int) =~= s@);
        let seg = s.substring_char(start, n);
        if is_kept_segment(seg) {
            let ghost before = parts@;
            parts.push(String::from_str(seg));
            assert(view_parts(parts@) =~= view_parts(before).push(seg@));
        }
        let rooted = n > 0 && s.get_char(0) == '/';
        let at_current = n > 0 && s.get_char(0) == '.' && (n == 1 || s.get_char(1) == '/');
        if at_current {
            let ghost before = parts@;
            let dot = String::from_str(".");
            proof {
                reveal_strlit(".");
            }
            assert(dot@ =~= seq!['.']);
            parts.insert(0, dot);
            assert(parts@ =~= seq![dot] + before);
            assert(view_parts(parts@) =~= seq![seq!['.']] + view_parts(before));
        }
        FsPath { rooted, parts }
    }

    /// The canonical text of the path: `/` for a rooted path, then the
    /// components separated by `/`.
    pub fn render(&self) -> (r: String)
        ensures
            r@ == self@.render(),
    {
        let mut out = String::new();
        if self.rooted {
            out.append("/");
            proof {
                reveal_strlit("/");
            }
        }
        let ghost lead = out@;
        assert(lead == if self.rooted { seq!['/'] } else { seq![] });
        let mut i: usize = 0;
        assert(view_parts(self.parts@).take(0) =~= seq![]);
        while i < self.parts.len()
            invariant
                i <= self.parts.len(),
                lead == if self.rooted { seq!['/'] } else { Seq::<char>::empty() },
                out@ == lead + render_parts(view_parts(self.parts@).take(i as int)),
            decreases self.parts.len() - i,
        {
            let ghost ps = view_parts(self.parts@);
            assert(ps.take(i + 1).drop_last() =~= ps.take(i as int));
            if i > 0 {
                out.append("/");
                proof {
                    reveal_strlit("/");
                }
            }
            out.append(self.parts[i].as_str());
            proof {
                if i == 0 {
                    assert(ps.take(1) =~= seq![ps[0]]);
                }
                assert(out@ =~= lead + render_parts(ps.take(i + 1)));
            }
            i += 1;
        }
        assert(view_parts(self.parts@).take(self.parts.len() as int) =~= view_parts(self.parts@));
        out
    }

    /// Whether the path starts at the root.
    pub fn is_absolute(&self) -> (r: bool)
        ensures
            r == self@.rooted,
    {
        self.rooted
    }

    /// A copy of the path.
    pub fn duplicate(&self) -> (r: FsPath)
        ensures
            r@ == self@,
    {
        let parts = copy_parts(&self.parts, 0);
        assert(view_parts(self.parts@).skip(0) =~= view_parts(self.parts@));
        FsPath { rooted: self.rooted, parts }
    }

    /// The path without its last component, or none where there is none to
    /// drop (the root, or the empty relative path).
    pub fn parent(&self) -> (r: Option<FsPath>)
        ensures
            match r {
                Some(p) => self@.parent() == Some(p@),
                None => self@.parent() is None,
            },
    {
        if self.parts.len() == 0 {
            None
        } else {
            let mut parts = copy_parts(&self.parts, 0);
            assert(view_parts(self.parts@).skip(0) =~= view_parts(self.parts@));
            let ghost before = parts@;
            parts.pop();
            assert(view_parts(parts@) =~= view_parts(before).drop_last());
            Some(FsPath { rooted: self.rooted, parts })
        }
    }

    /// `self` followed by the path that `name` names; a rooted `name`
    /// replaces `self`.
    pub fn join(&self, name: &str) -> (r: FsPath)
        ensures
            r@ == self@.join(parse_path(name@)),
    {
        let other = FsPath::parse(name);
        if other.rooted {
            other
        } else {
            let drop_lead = other.parts.len() > 0 && is_current_dir(&other.parts[0]) && (
            self.rooted || self.parts.len() > 0);
            let from: usize = if drop_lead {
                1
            } else {
                0
            };
            let mut tail = copy_parts(&other.parts, from);
            assert(view_parts(other.parts@).skip(0) =~= view_parts(other.parts@));
            let mut parts = copy_parts(&self.parts, 0);
            assert(view_parts(self.parts@).skip(0) =~= view_parts(self.parts@));
            let ghost a = parts@;
            let ghost b = tail@;
            parts.append(&mut tail);
            assert(view_parts(parts@) =~= view_parts(a) + view_parts(b));
            FsPath { rooted: self.rooted, parts }
        }
    }

    /// The relative path from `base` to `self`, when `base` is `self` or one
    /// of its ancestors.
    pub fn strip_prefix(&self, base: &FsPath) -> (r: Option<FsPath>)
        ensures
            match r {
                Some(p) => self@.strip_prefix(base@) == Some(p@),
                None => self@.strip_prefix(base@) is None,
            },
    {
        if self.rooted != base.rooted || base.parts.len() > self.parts.len() {
            return None;
        }
        let ghost mine = view_parts(self.parts@);
        let ghost theirs = view_parts(base.parts@);
        let mut k: usize = 0;
        while k < base.parts.len()
            invariant
                k <= base.parts.len() <= self.parts.len(),
                mine == view_parts(self.parts@),
                theirs == view_parts(base.parts@),
                forall|j: int| 0 <= j < k ==> mine[j] == theirs[j],
            decreases base.parts.len() - k,
        {
            if self.parts[k] != base.parts[k] {
                assert(mine.subrange(0, base.parts.len() as int)[k as int] != theirs[k as int]);
                return None;
            }
            k += 1;
        }
        assert(mine.subrange(0, base.parts.len() as int) =~= theirs);
        let parts = copy_parts(&self.parts, base.parts.len());
        Some(FsPath { rooted: false, parts })
    }
}

/// The text of `base` with `p` pushed onto it, as a path buffer pushes on
/// Unix: a `p` that starts with `/` replaces `base`; otherwise a separator is
/// put between the two unless `base` is empty or already ends with one.
pub open spec fn push_text(base: Seq<char>, p: Seq<char>) -> Seq<char> {
    if p.len() > 0 && p[0] == '/' {
        p
    } else if base.len() == 0 || base.last() == '/' {
        base + p
    } else {
        base + seq!['/'] + p
    }
}

/// `base` joined with `p`, as text.
pub fn join_text(base: &str, p: &str) -> (r: String)
    ensures
        r@ == push_text(base@, p@),
{
    let p_len = p.unicode_len();
    if p_len > 0 && p.get_char(0) == '/' {
        return String::from_str(p);
    }
    let mut out = String::from_str(base);
    let b_len = base.unicode_len();
    if b_len > 0 && base.get_char(b_len - 1) != '/' {
        out.append("/");
        proof {
            reveal_strlit("/");
        }
    }
    out.append(p);
    out
}

} // verus!
