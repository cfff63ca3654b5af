use crate::highlighting::{all_plain, marker, marker_string, plain_tags, reset_sequence, reset_string, Type};
use crate::text::{
    cluster_start, concat, contains, graphemes, graphemes_of, lemma_concat_empty,
    lemma_concat_push, lemma_concat_split, occurs_at, push_char, texts, chars_of,
    first_occurrence_in, cluster_containing, lemma_cluster_of, occurs_at_exec,
};
use vstd::prelude::*;
use vstd::string::*;

verus! {

/// One line of a document: its text, the number of grapheme clusters in it,
/// and a highlight tag for each cluster.
///
/// Every index into a row counts grapheme clusters: insertion, deletion,
/// splitting, highlighting, rendering, and the result of `find`.
pub struct Row {
    string: String,
    len: usize,
    highlighting: Vec<Type>,
}

impl View for Row {
    type V = Seq<char>;

    closed spec fn view(&self) -> Seq<char> {
        self.string@
    }
}

/// The text `s` with `c` put in before cluster `at`, or at the end when
/// `at` is past the last cluster.
pub open spec fn inserted(s: Seq<char>, at: int, c: char) -> Seq<char> {
    let g = graphemes_of(s);
    if at >= g.len() {
        s.push(c)
    } else {
        concat(g.take(at)) + seq![c] + concat(g.skip(at))
    }
}

/// The text `s` without cluster `at`; unchanged when there is none.
pub open spec fn deleted(s: Seq<char>, at: int) -> Seq<char> {
    let g = graphemes_of(s);
    if at >= g.len() {
        s
    } else {
        concat(g.take(at)) + concat(g.skip(at + 1))
    }
}

/// Where `s` is cut when split at cluster `at`.
pub open spec fn split_point(s: Seq<char>, at: int) -> int {
    if at < graphemes_of(s).len() {
        at
    } else {
        graphemes_of(s).len() as int
    }
}

/// The first `at` clusters of `s`.
pub open spec fn split_head(s: Seq<char>, at: int) -> Seq<char> {
    concat(graphemes_of(s).take(split_point(s, at)))
}

/// The clusters of `s` from `at` on.
pub open spec fn split_tail(s: Seq<char>, at: int) -> Seq<char> {
    concat(graphemes_of(s).skip(split_point(s, at)))
}

/// The first occurrence of `q` in `s` starts at character `k`.
pub open spec fn first_occurrence(s: Seq<char>, q: Seq<char>, k: int) -> bool {
    occurs_at(s, q, k) && forall|j: int| 0 <= j < k ==> !occurs_at(s, q, j)
}

/// Cluster `i` of `s` holds the first character of the first occurrence of `q`.
pub open spec fn found_at(s: Seq<char>, q: Seq<char>, i: int) -> bool {
    let g = graphemes_of(s);
    0 <= i < g.len() && exists|k: int|
        first_occurrence(s, q, k) && cluster_start(g, i) <= k < cluster_start(g, i + 1)
}

/// The tag of cluster `i`; `Plain` past the end.
pub open spec fn tag_at(tags: Seq<Type>, i: int) -> Type {
    if 0 <= i < tags.len() {
        tags[i]
    } else {
        Type::Plain
    }
}

/// How a cluster is shown: a tab as four spaces.
pub open spec fn shown(g: Seq<char>) -> Seq<char> {
    if g.len() > 0 && g[0] == '\t' {
        "    "@
    } else {
        g
    }
}

/// Clusters `i..e` as shown, each run of one tag opened by its color
/// switch (when the tag differs from `current`), then a reset.
pub open spec fn rendered(
    g: Seq<Seq<char>>,
    tags: Seq<Type>,
    i: int,
    e: int,
    current: Type,
) -> Seq<char>
    decreases e - i,
{
    if i >= e {
        reset_sequence()
    } else {
        let t = tag_at(tags, i);
        (if t != current {
            marker(t)
        } else {
            Seq::empty()
        }) + shown(g[i]) + rendered(g, tags, i + 1, e, t)
    }
}

/// An occurrence of `q` (non-empty) starts within cluster `i` of `s`.
pub open spec fn starts_in(s: Seq<char>, q: Seq<char>, i: int) -> bool {
    let g = graphemes_of(s);
    q.len() > 0 && 0 <= i < g.len() && exists|k: int|
        occurs_at(s, q, k) && cluster_start(g, i) <= k < cluster_start(g, i + 1)
}

impl Row {
    /// The grapheme clusters of the text.
    pub open spec fn clusters(&self) -> Seq<Seq<char>> {
        graphemes_of(self@)
    }

    /// The cluster count kept with the text.
    pub closed spec fn cached_len(&self) -> nat {
        self.len as nat
    }

    /// The highlight tag of each cluster.
    pub closed spec fn tags(&self) -> Seq<Type> {
        self.highlighting@
    }

    pub open spec fn wf(&self) -> bool {
        &&& concat(self.clusters()) == self@
        &&& forall|i: int| 0 <= i < self.clusters().len() ==> self.clusters()[i].len() > 0
        &&& self.cached_len() == self.clusters().len()
        &&& self.tags().len() == self.clusters().len()
    }

    /// A row holding `string`, with every tag plain.
    fn from_string(string: String) -> (r: Row)
        ensures
            r.wf(),
            r@ == string@,
            all_plain(r.tags()),
    {
        let g = graphemes(string.as_str());
        let n = g.len();
        let tags = plain_tags(n);
        let r = Row { string, len: n, highlighting: tags };
        assert(r.clusters() == texts(g@));
        r
    }

    pub fn from(slice: &str) -> (r: Row)
        ensures
            r.wf(),
            r@ == slice@,
            all_plain(r.tags()),
    {
        Row::from_string(slice.to_owned())
    }

    pub fn default() -> (r: Row)
        ensures
            r.wf(),
            r@ == Seq::<char>::empty(),
            r.clusters().len() == 0,
    {
        let r = Row::from_string(String::new());
        proof {
            lemma_concat_empty(r.clusters());
        }
        r
    }

    /// Clusters `start..end` (kept within the row) as printable text, with a
    /// color switch where the highlight changes and a reset at the end.
    pub fn render(&self, start: usize, end: usize) -> (r: String)
        requires
            self.wf(),
        ensures
            ({
                let n = self.clusters().len() as int;
                let e = if (end as int) < n {
                    end as int
                } else {
                    n
                };
                let s = if (start as int) < e {
                    start as int
                } else {
                    e
                };
                r@ == rendered(self.clusters(), self.tags(), s, e, Type::Plain)
            }),
    {
        let g = graphemes(self.string.as_str());
        let ghost gs = texts(g@);
        let end = if end < g.len() {
            end
        } else {
            g.len()
        };
        let start = if start < end {
            start
        } else {
            end
        };
        let mut result = String::new();
        let mut current = Type::Plain;
        let mut i: usize = start;
        while i < end
            invariant
                gs == texts(g@),
                gs == self.clusters(),
                self.wf(),
                start <= i <= end,
                end <= g@.len(),
                result@ + rendered(gs, self.tags(), i as int, end as int, current) == rendered(
                    gs,
                    self.tags(),
                    start as int,
                    end as int,
                    Type::Plain,
                ),
            decreases end - i,
        {
            let t = if i < self.highlighting.len() {
                self.highlighting[i]
            } else {
                Type::Plain
            };
            let ghost before = result@;
            let ghost rest = rendered(gs, self.tags(), i + 1, end as int, t);
            if t != current {
                result.append(marker_string(t).as_str());
            }
            let piece = g[i].as_str();
            assert(piece@ == gs[i as int]);
            if piece.get_char(0) == '\t' {
                result.append("    ");
            } else {
                result.append(piece);
            }
            proof {
                let head: Seq<char> = if t != current {
                    marker(t)
                } else {
                    Seq::empty()
                };
                assert(result@ == before + (head + shown(gs[i as int])));
                assert(rendered(gs, self.tags(), i as int, end as int, current) == head + shown(
                    gs[i as int],
                ) + rest);
                assert(before + (head + shown(gs[i as int]) + rest) == result@ + rest);
            }
            current = t;
            i += 1;
        }
        result.append(reset_string().as_str());
        result
    }

    pub fn len(&self) -> (r: usize)
        requires
            self.wf(),
        ensures
            r == self.clusters().len(),
    {
        self.len
    }

    pub fn is_empty(&self) -> (r: bool)
        requires
            self.wf(),
        ensures
            r == (self.clusters().len() == 0),
            r == (self@.len() == 0),
    {
        proof {
            if self@.len() == 0 {
                lemma_concat_empty(self.clusters());
            }
        }
        self.len == 0
    }

    /// The text, as a string slice.
    pub fn as_str(&self) -> (r: &str)
        ensures
            r@ == self@,
    {
        self.string.as_str()
    }

    /// The UTF-8 encoding of the text.
    pub fn as_bytes(&self) -> (r: &[u8])
        ensures
            r@ == vstd::utf8::encode_utf8(self@),
    {
        self.string.as_str().as_bytes()
    }

    pub fn insert(&mut self, at: usize, c: char)
        requires
            old(self).wf(),
        ensures
            final(self).wf(),
            final(self)@ == inserted(old(self)@, at as int, c),
            all_plain(final(self).tags()),
    {
        if at >= self.len {
            let mut s = self.string.clone();
            push_char(&mut s, c);
            *self = Row::from_string(s);
            return;
        }
        let g = graphemes(self.string.as_str());
        let ghost gs = texts(g@);
        let mut result = String::new();
        let mut j: usize = 0;
        while j < g.len()
            invariant
                j <= g@.len(),
                gs == texts(g@),
                at < gs.len(),
                result@ == (if j <= at {
                    concat(gs.take(j as int))
                } else {
                    concat(gs.take(at as int)) + seq![c] + concat(gs.subrange(at as int, j as int))
                }),
            decreases g@.len() - j,
        {
            let ghost before = result@;
            if j == at {
                push_char(&mut result, c);
            }
            result.append(g[j].as_str());
            proof {
                if j < at {
                    assert(gs.take(j as int).push(gs[j as int]) == gs.take(j + 1));
                    lemma_concat_push(gs.take(j as int), gs[j as int]);
                } else {
                    let sub = gs.subrange(at as int, j as int);
                    assert(sub.push(gs[j as int]) == gs.subrange(at as int, j + 1));
                    lemma_concat_push(sub, gs[j as int]);
                    if j == at {
                        assert(sub == Seq::<Seq<char>>::empty());
                        assert(concat(sub) == Seq::<char>::empty());
                        assert(result@ == before.push(c) + gs[j as int]);
                        assert(before.push(c) + gs[j as int] == before + seq![c] + (concat(sub)
                            + gs[j as int]));
                    } else {
                        assert(result@ == before + gs[j as int]);
                        assert(before + gs[j as int] == concat(gs.take(at as int)) + seq![c] + (
                        concat(sub) + gs[j as int]));
                    }
                }
            }
            j += 1;
        }
        assert(gs.subrange(at as int, gs.len() as int) == gs.skip(at as int));
        *self = Row::from_string(result);
    }

    pub fn delete(&mut self, at: usize)
        requires
            old(self).wf(),
        ensures
            final(self).wf(),
            final(self)@ == deleted(old(self)@, at as int),
            at < old(self).clusters().len() ==> all_plain(final(self).tags()),
            at >= old(self).clusters().len() ==> *final(self) == *old(self),
    {
        if at >= self.len {
            return;
        }
        let g = graphemes(self.string.as_str());
        let ghost gs = texts(g@);
        let mut result = String::new();
        let mut j: usize = 0;
        while j < g.len()
            invariant
                j <= g@.len(),
                gs == texts(g@),
                at < gs.len(),
                result@ == (if j <= at {
                    concat(gs.take(j as int))
                } else {
                    concat(gs.take(at as int)) + concat(gs.subrange(at + 1, j as int))
                }),
            decreases g@.len() - j,
        {
            let ghost before = result@;
            if j != at {
                result.append(g[j].as_str());
            }
            proof {
                if j < at {
                    assert(gs.take(j as int).push(gs[j as int]) == gs.take(j + 1));
                    lemma_concat_push(gs.take(j as int), gs[j as int]);
                } else if j == at {
                    assert(gs.subrange(at + 1, j + 1) == Seq::<Seq<char>>::empty());
                    assert(result@ == result@ + Seq::<char>::empty());
                } else {
                    let sub = gs.subrange(at + 1, j as int);
                    assert(sub.push(gs[j as int]) == gs.subrange(at + 1, j + 1));
                    lemma_concat_push(sub, gs[j as int]);
                    assert(before + gs[j as int] == concat(gs.take(at as int)) + (concat(sub)
                        + gs[j as int]));
                }
            }
            j += 1;
        }
        assert(gs.subrange(at + 1, gs.len() as int) == gs.skip(at + 1));
        *self = Row::from_string(result);
    }

    pub fn append(&mut self, new: &Row)
        requires
            old(self).wf(),
        ensures
            final(self).wf(),
            final(self)@ == old(self)@ + new@,
            all_plain(final(self).tags()),
    {
        let mut s = self.string.clone();
        s.append(new.string.as_str());
        *self = Row::from_string(s);
    }

    /// Keeps the first `at` clusters and returns the rest as a new row.
    pub fn split(&mut self, at: usize) -> (r: Row)
        requires
            old(self).wf(),
        ensures
            final(self).wf(),
            r.wf(),
            final(self)@ == split_head(old(self)@, at as int),
            r@ == split_tail(old(self)@, at as int),
            all_plain(final(self).tags()),
            all_plain(r.tags()),
    {
        let g = graphemes(self.string.as_str());
        let ghost gs = texts(g@);
        let k: usize = if at < g.len() { at } else { g.len() };
        let mut head = String::new();
        let mut tail = String::new();
        let mut j: usize = 0;
        while j < g.len()
            invariant
                j <= g@.len(),
                gs == texts(g@),
                k <= gs.len(),
                j <= k ==> head@ == concat(gs.take(j as int)) && tail@ == Seq::<char>::empty(),
                j > k ==> head@ == concat(gs.take(k as int)) && tail@ == concat(
                    gs.subrange(k as int, j as int),
                ),
            decreases g@.len() - j,
        {
            if j < k {
                head.append(g[j].as_str());
                proof {
                    assert(gs.take(j as int).push(gs[j as int]) == gs.take(j + 1));
                    lemma_concat_push(gs.take(j as int), gs[j as int]);
                }
            } else {
                tail.append(g[j].as_str());
                proof {
                    let sub = gs.subrange(k as int, j as int);
                    assert(sub.push(gs[j as int]) == gs.subrange(k as int, j + 1));
                    lemma_concat_push(sub, gs[j as int]);
                    if j == k {
                        assert(sub == Seq::<Seq<char>>::empty());
                        assert(tail@ == Seq::<char>::empty() + gs[j as int]);
                    }
                }
            }
            j += 1;
        }
        proof {
            assert(gs.subrange(k as int, gs.len() as int) == gs.skip(k as int));
            if k == gs.len() {
                assert(gs.skip(k as int) == Seq::<Seq<char>>::empty());
            }
        }
        *self = Row::from_string(head);
        Row::from_string(tail)
    }

    /// The cluster in which `query` first occurs; `None` for an empty query
    /// or one that does not occur.
    pub fn find(&self, query: &str) -> (r: Option<usize>)
        requires
            self.wf(),
        ensures
            r is None <==> !contains(self@, query@),
            r matches Some(i) ==> found_at(self@, query@, i as int),
    {
        let q = chars_of(query);
        if q.len() == 0 {
            return None;
        }
        let s = chars_of(self.string.as_str());
        match first_occurrence_in(&s, &q) {
            None => None,
            Some(k) => {
                let g = graphemes(self.string.as_str());
                let i = cluster_containing(&g, k);
                assert(first_occurrence(self@, query@, k as int));
                Some(i)
            },
        }
    }

    /// Every cluster in which an occurrence of `query` starts, left to right;
    /// empty for an empty query. Occurrences may overlap.
    pub fn occurrences(&self, query: &str) -> (r: Vec<usize>)
        requires
            self.wf(),
        ensures
            forall|j: int| 0 <= j < r@.len() ==> starts_in(self@, query@, #[trigger] r@[j] as int),
            forall|j1: int, j2: int| 0 <= j1 < j2 < r@.len() ==> r@[j1] < r@[j2],
            forall|i: int|
                #[trigger] starts_in(self@, query@, i) ==> exists|j: int|
                    0 <= j < r@.len() && r@[j] == i,
            r@.len() == 0 <==> !contains(self@, query@),
    {
        let mut out: Vec<usize> = Vec::new();
        let q = chars_of(query);
        if q.len() == 0 {
            return out;
        }
        let s = chars_of(self.string.as_str());
        let g = graphemes(self.string.as_str());
        let ghost gs = texts(g@);
        let slen = s.len();
        let mut start: usize = 0;
        let mut i: usize = 0;
        while i < g.len()
            invariant
                gs == texts(g@),
                gs == self.clusters(),
                self.wf(),
                s@ == self@,
                slen == s@.len(),
                q@ == query@,
                q@.len() > 0,
                i <= g@.len(),
                start == cluster_start(gs, i as int),
                forall|j: int| 0 <= j < out@.len() ==> starts_in(self@, query@, #[trigger] out@[j] as int),
                forall|j: int| 0 <= j < out@.len() ==> #[trigger] out@[j] < i,
                forall|j1: int, j2: int| 0 <= j1 < j2 < out@.len() ==> out@[j1] < out@[j2],
                forall|i2: int|
                    0 <= i2 < i && #[trigger] starts_in(self@, query@, i2) ==> exists|j: int|
                        0 <= j < out@.len() && out@[j] == i2,
            decreases g@.len() - i,
        {
            let w = g[i].as_str().unicode_len();
            proof {
                assert(gs.take(i as int).push(gs[i as int]) == gs.take(i + 1));
                lemma_concat_push(gs.take(i as int), gs[i as int]);
                lemma_concat_split(gs, i + 1);
                assert(gs[i as int] == g@[i as int]@);
                assert(start + w == cluster_start(gs, i + 1));
                assert(cluster_start(gs, i + 1) <= self@.len());
            }
            let end = start + w;
            let mut k: usize = start;
            let mut found = false;
            while !found && k < end
                invariant
                    start <= k <= end,
                    end <= s@.len(),
                    found ==> occurs_at(s@, q@, k as int) && k < end,
                    !found ==> forall|k2: int| start <= k2 < k ==> !occurs_at(s@, q@, k2),
                decreases end - k + (if found { 0int } else { 1int }),
            {
                if occurs_at_exec(&s, &q, k) {
                    found = true;
                } else {
                    k += 1;
                }
            }
            if found {
                let ghost old_out = out@;
                out.push(i);
                proof {
                    assert(starts_in(self@, query@, i as int));
                    assert forall|i2: int|
                        0 <= i2 < i + 1 && #[trigger] starts_in(self@, query@, i2) implies exists|j: int|
                        0 <= j < out@.len() && out@[j] == i2 by {
                        if i2 == i {
                            assert(out@[out@.len() - 1] == i2);
                        } else {
                            let j = choose|j: int| 0 <= j < old_out.len() && old_out[j] == i2;
                            assert(out@[j] == i2);
                        }
                    }
                }
            } else {
                assert(!starts_in(self@, query@, i as int));
            }
            start = end;
            i += 1;
        }
        proof {
            if contains(self@, query@) {
                let k = choose|k: int| occurs_at(self@, query@, k);
                assert(gs.take(gs.len() as int) == gs);
                lemma_cluster_of(gs, k);
                let c = choose|c: int|
                    0 <= c < gs.len() && #[trigger] cluster_start(gs, c) <= k < cluster_start(gs, c + 1);
                assert(starts_in(self@, query@, c));
                let j = choose|j: int| 0 <= j < out@.len() && out@[j] == c;
                assert(out@[j] == c);
            }
            if out@.len() > 0 {
                assert(starts_in(self@, query@, out@[0] as int));
            }
        }
        out
    }


    /// Sets the tag of cluster `index`; an index past the end is ignored.
    pub fn add_highlighting(&mut self, highlight_type: Type, index: usize)
        requires
            old(self).wf(),
        ensures
            final(self).wf(),
            final(self)@ == old(self)@,
            final(self).tags() == (if index < old(self).tags().len() {
                old(self).tags().update(index as int, highlight_type)
            } else {
                old(self).tags()
            }),
    {
        if index < self.highlighting.len() {
            self.highlighting.set(index, highlight_type);
        }
    }

    pub fn reset_highlighting(&mut self)
        requires
            old(self).wf(),
        ensures
            final(self).wf(),
            final(self)@ == old(self)@,
            all_plain(final(self).tags()),
    {
        self.highlighting = plain_tags(self.len);
    }
}

} // verus!

verus! {

/// Inserting a character into a row and then deleting the cluster at which it
/// landed gives back the row's text (and so its length), provided the
/// character forms a cluster of its own there.
pub proof fn lemma_insert_then_delete(r: Row, at: int, c: char)
    requires
        r.wf(),
        0 <= at,
        graphemes_of(inserted(r@, at, c)) == r.clusters().insert(
            split_point(r@, at),
            seq![c],
        ),
    ensures
        deleted(inserted(r@, at, c), split_point(r@, at)) == r@,
        graphemes_of(deleted(inserted(r@, at, c), split_point(r@, at))).len() == r.clusters().len(),
{
    let g = r.clusters();
    let k = split_point(r@, at);
    let g1 = g.insert(k, seq![c]);
    assert(g1.take(k) == g.take(k));
    assert(g1.skip(k + 1) == g.skip(k));
    lemma_concat_split(g, k);
}

/// Splitting a row and appending the part split off gives back its text.
pub proof fn lemma_split_then_append(r: Row, at: int)
    requires
        r.wf(),
        0 <= at,
    ensures
        split_head(r@, at) + split_tail(r@, at) == r@,
{
    lemma_concat_split(r.clusters(), split_point(r@, at));
}

} // verus!
