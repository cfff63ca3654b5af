use unicode_segmentation::UnicodeSegmentation;
use vstd::prelude::*;

verus! {

/// The grapheme clusters (extended) of a text, in order.
pub uninterp spec fn graphemes_of(s: Seq<char>) -> Seq<Seq<char>>;

/// The texts of a list of strings.
pub open spec fn texts(v: Seq<String>) -> Seq<Seq<char>> {
    v.map_values(|t: String| t@)
}

/// The pieces of `g` written one after another.
pub open spec fn concat(g: Seq<Seq<char>>) -> Seq<char>
    decreases g.len(),
{
    if g.len() == 0 {
        Seq::empty()
    } else {
        concat(g.drop_last()) + g.last()
    }
}

/// Number of characters before cluster `i`.
pub open spec fn cluster_start(g: Seq<Seq<char>>, i: int) -> int {
    concat(g.take(i)).len() as int
}

/// `q` occurs in `s` at character position `k`.
pub open spec fn occurs_at(s: Seq<char>, q: Seq<char>, k: int) -> bool {
    0 <= k && k + q.len() <= s.len() && s.subrange(k, k + q.len()) == q
}

/// `q` is a non-empty piece of `s`.
pub open spec fn contains(s: Seq<char>, q: Seq<char>) -> bool {
    q.len() > 0 && exists|k: int| occurs_at(s, q, k)
}

pub proof fn lemma_concat_push(g: Seq<Seq<char>>, x: Seq<char>)
    ensures
        concat(g.push(x)) == concat(g) + x,
{
    assert(g.push(x).drop_last() == g);
}

pub proof fn lemma_concat_split(g: Seq<Seq<char>>, i: int)
    requires
        0 <= i <= g.len(),
    ensures
        concat(g) == concat(g.take(i)) + concat(g.skip(i)),
    decreases g.len(),
{
    if i == g.len() {
        assert(g.take(i) == g);
        assert(g.skip(i) == Seq::<Seq<char>>::empty());
        assert(concat(g) + Seq::<char>::empty() == concat(g));
    } else {
        let d = g.drop_last();
        lemma_concat_split(d, i);
        assert(d.take(i) == g.take(i));
        assert(g.skip(i).drop_last() == d.skip(i));
        assert(g.skip(i).last() == g.last());
        assert(concat(g.skip(i)) == concat(d.skip(i)) + g.last());
        assert(concat(g) == concat(g.take(i)) + concat(d.skip(i)) + g.last());
    }
}

/// Each character of a join lies in one of the pieces.
pub proof fn lemma_cluster_of(g: Seq<Seq<char>>, k: int)
    requires
        0 <= k < concat(g).len(),
    ensures
        exists|i: int| 0 <= i < g.len() && #[trigger] cluster_start(g, i) <= k < cluster_start(g, i + 1),
    decreases g.len(),
{
    let d = g.drop_last();
    let n = g.len() as int;
    assert(g.take(n) == g);
    assert(g.take(n - 1) == d);
    if k < concat(d).len() {
        lemma_cluster_of(d, k);
        let i = choose|i: int| 0 <= i < d.len() && #[trigger] cluster_start(d, i) <= k < cluster_start(d, i + 1);
        assert(d.take(i) == g.take(i));
        assert(d.take(i + 1) == g.take(i + 1));
        assert(cluster_start(g, i) <= k < cluster_start(g, i + 1));
    } else {
        assert(cluster_start(g, n - 1) <= k < cluster_start(g, n));
    }
}

/// A join of non-empty pieces is empty only when there are none.
pub proof fn lemma_concat_empty(g: Seq<Seq<char>>)
    requires
        forall|i: int| 0 <= i < g.len() ==> g[i].len() > 0,
        concat(g).len() == 0,
    ensures
        g.len() == 0,
{
    if g.len() > 0 {
        assert(g.last().len() > 0);
    }
}

/// The characters of `s`.
pub fn chars_of(s: &str) -> (r: Vec<char>)
    ensures
        r@ == s@,
{
    let n = s.unicode_len();
    let mut r: Vec<char> = Vec::new();
    let mut i: usize = 0;
    while i < n
        invariant
            n == s@.len(),
            i <= n,
            r@ == s@.take(i as int),
        decreases n - i,
    {
        r.push(s.get_char(i));
        assert(s@.take(i + 1) == s@.take(i as int).push(s@[i as int]));
        i += 1;
    }
    assert(s@.take(n as int) == s@);
    r
}

/// Whether `q` occurs in `s` at `k`.
pub fn occurs_at_exec(s: &Vec<char>, q: &Vec<char>, k: usize) -> (r: bool)
    ensures
        r == occurs_at(s@, q@, k as int),
{
    if k > s.len() || q.len() > s.len() - k {
        return false;
    }
    let mut i: usize = 0;
    while i < q.len()
        invariant
            k + q@.len() <= s@.len(),
            s@.len() <= usize::MAX,
            i <= q@.len(),
            forall|j: int| 0 <= j < i ==> s@[k + j] == q@[j],
        decreases q@.len() - i,
    {
        if s[k + i] != q[i] {
            assert(s@.subrange(k as int, k + q@.len())[i as int] != q@[i as int]);
            return false;
        }
        i += 1;
    }
    assert(s@.subrange(k as int, k + q@.len()) == q@);
    true
}

/// The first position at which `q` occurs in `s`.
pub fn first_occurrence_in(s: &Vec<char>, q: &Vec<char>) -> (r: Option<usize>)
    requires
        q@.len() > 0,
    ensures
        r matches Some(k) ==> occurs_at(s@, q@, k as int) && forall|j: int|
            0 <= j < k ==> !occurs_at(s@, q@, j),
        r is None ==> forall|j: int| !occurs_at(s@, q@, j),
{
    let mut k: usize = 0;
    while k < s.len()
        invariant
            q@.len() > 0,
            forall|j: int| 0 <= j < k ==> !occurs_at(s@, q@, j),
        decreases s@.len() - k,
    {
        if occurs_at_exec(s, q, k) {
            return Some(k);
        }
        k += 1;
    }
    None
}

/// The index of the piece of `g` that holds character `k` of their join.
pub fn cluster_containing(g: &Vec<String>, k: usize) -> (r: usize)
    requires
        k < concat(texts(g@)).len(),
    ensures
        r < g@.len(),
        cluster_start(texts(g@), r as int) <= k < cluster_start(texts(g@), r + 1),
{
    let ghost gs = texts(g@);
    let mut i: usize = 0;
    let mut start: usize = 0;
    while i < g.len()
        invariant
            gs == texts(g@),
            k < concat(gs).len(),
            i <= g@.len(),
            start == cluster_start(gs, i as int),
            start <= k,
        decreases g@.len() - i,
    {
        let w = g[i].as_str().unicode_len();
        proof {
            assert(gs.take(i as int).push(gs[i as int]) == gs.take(i + 1));
            lemma_concat_push(gs.take(i as int), gs[i as int]);
        }
        if k - start < w {
            return i;
        }
        start = start + w;
        i += 1;
    }
    assert(gs.take(gs.len() as int) == gs);
    i
}

/// The decimal digit for `d`.
pub open spec fn digit(d: nat) -> char {
    if d == 0 { '0' } else if d == 1 { '1' } else if d == 2 { '2' } else if d == 3 { '3' }
    else if d == 4 { '4' } else if d == 5 { '5' } else if d == 6 { '6' } else if d == 7 { '7' }
    else if d == 8 { '8' } else { '9' }
}

/// `n` written in decimal, without leading zeros.
pub open spec fn decimal(n: nat) -> Seq<char>
    decreases n,
{
    if n < 10 {
        seq![digit(n)]
    } else {
        decimal(n / 10).push(digit(n % 10))
    }
}

fn digit_char(d: usize) -> (r: char)
    requires
        d < 10,
    ensures
        r == digit(d as nat),
{
    if d == 0 { '0' } else if d == 1 { '1' } else if d == 2 { '2' } else if d == 3 { '3' }
    else if d == 4 { '4' } else if d == 5 { '5' } else if d == 6 { '6' } else if d == 7 { '7' }
    else if d == 8 { '8' } else { '9' }
}

/// `n` written in decimal.
pub fn decimal_string(n: usize) -> (r: String)
    ensures
        r@ == decimal(n as nat),
    decreases n,
{
    if n < 10 {
        let mut s = String::new();
        push_char(&mut s, digit_char(n));
        assert(s@ == seq![digit(n as nat)]);
        s
    } else {
        let mut s = decimal_string(n / 10);
        push_char(&mut s, digit_char(n % 10));
        s
    }
}

/// Relies on `UnicodeSegmentation::graphemes` (extended clusters): the clusters
/// it yields are non-empty, consecutive slices of the text that cover it.
#[verifier::external_body]
pub(crate) fn graphemes(s: &str) -> (r: Vec<String>)
    ensures
        texts(r@) == graphemes_of(s@),
        concat(texts(r@)) == s@,
        forall|i: int| 0 <= i < r@.len() ==> r@[i]@.len() > 0,
{
    s.graphemes(true).map(|g| g.to_owned()).collect()
}

/// Relies on `String::push`: the character is added at the end.
#[verifier::external_body]
pub(crate) fn push_char(s: &mut String, c: char)
    ensures
        final(s)@ == old(s)@.push(c),
{
    s.push(c);
}

} // verus!
