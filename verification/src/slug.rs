//! Topic slugs: the URL-safe form of a topic title, and the search for a slug
//! that no topic uses yet.

use vstd::prelude::*;

use crate::text::{chars_of, decimal, decimal_string, lemma_decimal_roundtrip, push_char, push_str, string_of};

verus! {

/// Whether `c` is an ASCII letter or digit.
pub open spec fn is_ascii_alnum(c: char) -> bool {
    let u = c as u32;
    (48 <= u <= 57) || (65 <= u <= 90) || (97 <= u <= 122)
}

/// `c` with ASCII capitals made small; any other character unchanged.
pub open spec fn ascii_lower(c: char) -> char {
    if 65 <= (c as u32) <= 90 {
        ((c as u32) + 32) as char
    } else {
        c
    }
}

/// Whether `c` may stand in a slug: `a-z`, `0-9` or `-`.
pub open spec fn is_slug_char(c: char) -> bool {
    let u = c as u32;
    (48 <= u <= 57) || (97 <= u <= 122) || c == '-'
}

/// One character of a title added to the slug built so far: letters and
/// digits go in lowercased; anything else becomes a single `-`, never at the
/// start and never after another `-`.
pub open spec fn slug_step(acc: Seq<char>, c: char) -> Seq<char> {
    if is_ascii_alnum(c) {
        acc.push(ascii_lower(c))
    } else if acc.len() > 0 && acc.last() != '-' {
        acc.push('-')
    } else {
        acc
    }
}

/// The slug built from all of `t`, before trailing dashes are dropped.
pub open spec fn slug_fold(t: Seq<char>) -> Seq<char>
    decreases t.len(),
{
    if t.len() == 0 {
        seq![]
    } else {
        slug_step(slug_fold(t.drop_last()), t.last())
    }
}

/// `s` without the dashes at its end.
pub open spec fn drop_trailing_dashes(s: Seq<char>) -> Seq<char>
    decreases s.len(),
{
    if s.len() > 0 && s.last() == '-' {
        drop_trailing_dashes(s.drop_last())
    } else {
        s
    }
}

/// The slug of a title: its runs of ASCII letters and digits, lowercased,
/// joined by single dashes.
pub open spec fn slugify_spec(t: Seq<char>) -> Seq<char> {
    drop_trailing_dashes(slug_fold(t))
}

/// What every slug looks like: made of `a-z`, `0-9` and `-`, with no dash at
/// either end and no two dashes in a row.
pub open spec fn is_slug(s: Seq<char>) -> bool {
    &&& forall|i: int| 0 <= i < s.len() ==> is_slug_char(#[trigger] s[i])
    &&& s.len() > 0 ==> s[0] != '-' && s.last() != '-'
    &&& forall|i: int| 0 <= i < s.len() - 1 ==> !(#[trigger] s[i] == '-' && s[i + 1] == '-')
}

fn char_is_ascii_alnum(c: char) -> (b: bool)
    ensures
        b == is_ascii_alnum(c),
{
    let u = c as u32;
    (48 <= u && u <= 57) || (65 <= u && u <= 90) || (97 <= u && u <= 122)
}

fn char_ascii_lower(c: char) -> (l: char)
    ensures
        l == ascii_lower(c),
{
    let u = c as u32;
    if 65 <= u && u <= 90 {
        let b: u8 = (u + 32) as u8;
        b as char
    } else {
        c
    }
}

/// The slug of a title: ASCII letters and digits lowercased, every other run
/// of characters turned into one `-`, with no dash at either end.
pub fn slugify(title: &str) -> (slug: String)
    ensures
        slug@ == slugify_spec(title@),
{
    let v = chars_of(title);
    let mut out: Vec<char> = Vec::new();
    let mut i: usize = 0;
    assert(v@.take(0) =~= Seq::<char>::empty());
    while i < v.len()
        invariant
            i <= v@.len(),
            out@ == slug_fold(v@.take(i as int)),
        decreases v.len() - i,
    {
        let c = v[i];
        assert(v@.take(i + 1).drop_last() == v@.take(i as int));
        assert(v@.take(i + 1).last() == c);
        if char_is_ascii_alnum(c) {
            out.push(char_ascii_lower(c));
        } else if out.len() > 0 && out[out.len() - 1] != '-' {
            out.push('-');
        }
        i += 1;
    }
    assert(v@.take(v@.len() as int) == v@);
    let mut n = out.len();
    assert(out@.take(n as int) == out@);
    while n > 0 && out[n - 1] == '-'
        invariant
            n <= out@.len(),
            drop_trailing_dashes(out@) == drop_trailing_dashes(out@.take(n as int)),
        decreases n,
    {
        assert(out@.take(n as int).drop_last() == out@.take(n - 1));
        n -= 1;
    }
    assert(out@.take(n as int) == out@.subrange(0, n as int));
    string_of(&out, 0, n)
}

/// What the slug built so far always looks like: slug characters only, no
/// dash first and no two dashes in a row.
pub open spec fn fold_ok(s: Seq<char>) -> bool {
    &&& forall|i: int| 0 <= i < s.len() ==> is_slug_char(#[trigger] s[i])
    &&& s.len() > 0 ==> s[0] != '-'
    &&& forall|i: int| 0 <= i < s.len() - 1 ==> !(#[trigger] s[i] == '-' && s[i + 1] == '-')
}

proof fn lemma_lower_is_slug_char(c: char)
    requires
        is_ascii_alnum(c),
    ensures
        is_slug_char(ascii_lower(c)),
        ascii_lower(c) != '-',
{
    let u = c as u32;
    if 65 <= u <= 90 {
        vstd::utf8::char_u32_cast(((u + 32) as u32) as char, (u + 32) as u32);
    }
}

proof fn lemma_fold_ok(t: Seq<char>)
    ensures
        fold_ok(slug_fold(t)),
        slug_fold(t).len() > 0 <==> exists|i: int| 0 <= i < t.len() && is_ascii_alnum(#[trigger] t[i]),
    decreases t.len(),
{
    if t.len() > 0 {
        let p = t.drop_last();
        let c = t.last();
        lemma_fold_ok(p);
        let a = slug_fold(p);
        let s = slug_fold(t);
        if is_ascii_alnum(c) {
            lemma_lower_is_slug_char(c);
            assert(s == a.push(ascii_lower(c)));
            assert forall|i: int| 0 <= i < s.len() implies is_slug_char(#[trigger] s[i]) by {
                if i < a.len() {
                    assert(s[i] == a[i]);
                }
            }
            assert forall|i: int| 0 <= i < s.len() - 1 implies !(#[trigger] s[i] == '-' && s[i + 1]
                == '-') by {
                if i < a.len() - 1 {
                    assert(s[i] == a[i] && s[i + 1] == a[i + 1]);
                }
            }
            assert(is_ascii_alnum(t[t.len() - 1]));
        } else if a.len() > 0 && a.last() != '-' {
            assert(s == a.push('-'));
            assert forall|i: int| 0 <= i < s.len() implies is_slug_char(#[trigger] s[i]) by {
                if i < a.len() {
                    assert(s[i] == a[i]);
                }
            }
            assert forall|i: int| 0 <= i < s.len() - 1 implies !(#[trigger] s[i] == '-' && s[i + 1]
                == '-') by {
                if i < a.len() - 1 {
                    assert(s[i] == a[i] && s[i + 1] == a[i + 1]);
                }
            }
        }
        if exists|i: int| 0 <= i < p.len() && is_ascii_alnum(#[trigger] p[i]) {
            let i = choose|i: int| 0 <= i < p.len() && is_ascii_alnum(#[trigger] p[i]);
            assert(t[i] == p[i]);
        }
        if exists|i: int| 0 <= i < t.len() && is_ascii_alnum(#[trigger] t[i]) {
            let i = choose|i: int| 0 <= i < t.len() && is_ascii_alnum(#[trigger] t[i]);
            if i < p.len() {
                assert(p[i] == t[i]);
            }
        }
    }
}

proof fn lemma_drop_trailing(s: Seq<char>)
    requires
        fold_ok(s),
    ensures
        is_slug(drop_trailing_dashes(s)),
        s.len() > 0 ==> drop_trailing_dashes(s).len() > 0,
    decreases s.len(),
{
    if s.len() > 0 && s.last() == '-' {
        let p = s.drop_last();
        assert forall|i: int| 0 <= i < p.len() implies is_slug_char(#[trigger] p[i]) by {
            assert(p[i] == s[i]);
        }
        assert forall|i: int| 0 <= i < p.len() - 1 implies !(#[trigger] p[i] == '-' && p[i + 1]
            == '-') by {
            assert(p[i] == s[i] && p[i + 1] == s[i + 1]);
        }
        if p.len() > 0 {
            assert(p[0] == s[0]);
        }
        lemma_drop_trailing(p);
    }
}

/// Every slug that `slugify` gives has the form of a slug, and it is empty
/// exactly when the title holds no ASCII letter or digit.
pub proof fn lemma_slugify_shape(t: Seq<char>)
    ensures
        is_slug(slugify_spec(t)),
        slugify_spec(t).len() == 0 <==> forall|i: int| 0 <= i < t.len() ==> !is_ascii_alnum(#[trigger] t[i]),
{
    lemma_fold_ok(t);
    lemma_drop_trailing(slug_fold(t));
    if slugify_spec(t).len() == 0 {
        if slug_fold(t).len() > 0 {
            assert(false);
        }
    }
}

proof fn lemma_fold_of_slug(s: Seq<char>)
    requires
        fold_ok(s),
    ensures
        slug_fold(s) == s,
    decreases s.len(),
{
    if s.len() > 0 {
        let p = s.drop_last();
        let c = s.last();
        assert forall|i: int| 0 <= i < p.len() implies is_slug_char(#[trigger] p[i]) by {
            assert(p[i] == s[i]);
        }
        assert forall|i: int| 0 <= i < p.len() - 1 implies !(#[trigger] p[i] == '-' && p[i + 1]
            == '-') by {
            assert(p[i] == s[i] && p[i + 1] == s[i + 1]);
        }
        if p.len() > 0 {
            assert(p[0] == s[0]);
        }
        lemma_fold_of_slug(p);
        assert(is_slug_char(s[s.len() - 1]));
        if c == '-' {
            assert(p.len() > 0);
            assert(!(s[s.len() - 2] == '-' && s[s.len() - 1] == '-'));
        }
        assert(s == p.push(c));
    }
}

/// Slugifying a slug changes nothing, so slugifying twice is slugifying once.
pub proof fn lemma_slugify_idempotent(t: Seq<char>)
    ensures
        slugify_spec(slugify_spec(t)) == slugify_spec(t),
{
    let s = slugify_spec(t);
    lemma_slugify_shape(t);
    lemma_fold_of_slug(s);
}


/// A title that goes on with a character that is not an ASCII letter or
/// digit, then with a letter or digit: its slug is the slug so far, a dash
/// (unless the slug so far is empty), and that letter or digit lowercased.
/// So every separator between two letters or digits becomes a dash.
pub proof fn lemma_slugify_separator_then_alnum(s: Seq<char>, c: char, b: char)
    requires
        !is_ascii_alnum(c),
        is_ascii_alnum(b),
    ensures
        slugify_spec(s.push(c).push(b)) == (if slugify_spec(s).len() == 0 {
            seq![ascii_lower(b)]
        } else {
            slugify_spec(s) + seq!['-', ascii_lower(b)]
        }),
{
    lemma_fold_ok(s);
    lemma_lower_is_slug_char(b);
    let f = slug_fold(s);
    let lb = ascii_lower(b);
    assert(s.push(c).push(b).drop_last() =~= s.push(c));
    assert(s.push(c).drop_last() =~= s);
    let g = slug_step(f, c);
    assert(s.push(c).last() == c);
    assert(slug_fold(s.push(c)) == g);
    assert(s.push(c).push(b).last() == b);
    assert(slug_fold(s.push(c).push(b)) == slug_step(slug_fold(s.push(c)), b));
    assert(slug_fold(s.push(c).push(b)) == g.push(lb));
    assert(drop_trailing_dashes(g.push(lb)) == g.push(lb));
    if f.len() == 0 {
        assert(g =~= f);
        assert(g.push(lb) =~= seq![lb]);
    } else if f.last() != '-' {
        assert(drop_trailing_dashes(f) == f);
        assert(g.push(lb) =~= f + seq!['-', lb]);
    } else {
        let p = f.drop_last();
        assert(f[0] != '-');
        assert(p.len() > 0);
        assert(p.last() == f[f.len() - 2]);
        assert(!(f[f.len() - 2] == '-' && f[f.len() - 1] == '-'));
        assert(drop_trailing_dashes(p) == p);
        assert(drop_trailing_dashes(f) == p);
        assert(g =~= f);
        assert(g.push(lb) =~= p + seq!['-', lb]);
    }
}

/// A character that is not an ASCII letter or digit at the end of a title
/// leaves its slug as it was.
pub proof fn lemma_slugify_trailing_separator(s: Seq<char>, c: char)
    requires
        !is_ascii_alnum(c),
    ensures
        slugify_spec(s.push(c)) == slugify_spec(s),
{
    let f = slug_fold(s);
    assert(s.push(c).drop_last() =~= s);
    assert(s.push(c).last() == c);
    assert(slug_fold(s.push(c)) == slug_step(f, c));
    if f.len() > 0 && f.last() != '-' {
        assert(f.push('-').drop_last() =~= f);
    }
}

/// An ASCII letter or digit that follows another one, or starts the title,
/// is added to the slug lowercased.
pub proof fn lemma_slugify_alnum_run(s: Seq<char>, b: char)
    requires
        is_ascii_alnum(b),
        s.len() == 0 || is_ascii_alnum(s.last()),
    ensures
        slugify_spec(s.push(b)) == slugify_spec(s).push(ascii_lower(b)),
{
    lemma_lower_is_slug_char(b);
    let f = slug_fold(s);
    assert(s.push(b).drop_last() =~= s);
    assert(s.push(b).last() == b);
    assert(slug_fold(s.push(b)) == f.push(ascii_lower(b)));
    assert(drop_trailing_dashes(f.push(ascii_lower(b))) == f.push(ascii_lower(b)));
    if s.len() > 0 {
        lemma_lower_is_slug_char(s.last());
        assert(s.drop_last().push(s.last()) =~= s);
        assert(f == slug_fold(s.drop_last()).push(ascii_lower(s.last())));
        assert(f.last() != '-');
        assert(drop_trailing_dashes(f) == f);
    } else {
        assert(f =~= Seq::<char>::empty());
    }
}

/// The slug of an empty title is empty.
pub proof fn lemma_slugify_empty()
    ensures
        slugify_spec(Seq::<char>::empty()) == Seq::<char>::empty(),
{
}

/// Between two ASCII letters or digits, any other character becomes a dash.
pub proof fn lemma_slugify_separator(a: char, c: char, b: char)
    requires
        is_ascii_alnum(a),
        !is_ascii_alnum(c),
        is_ascii_alnum(b),
    ensures
        slugify_spec(seq![a, c, b]) == seq![ascii_lower(a), '-', ascii_lower(b)],
{
    lemma_lower_is_slug_char(a);
    let e = Seq::<char>::empty();
    assert(seq![a].drop_last() =~= e);
    assert(seq![a].last() == a);
    assert(slug_fold(e) =~= e);
    assert(slug_fold(seq![a]) == slug_step(slug_fold(e), a));
    assert(slug_fold(seq![a]) =~= seq![ascii_lower(a)]);
    assert(seq![ascii_lower(a)].drop_last() =~= e);
    assert(slugify_spec(seq![a]) =~= seq![ascii_lower(a)]);
    lemma_slugify_separator_then_alnum(seq![a], c, b);
    assert(seq![a].push(c).push(b) =~= seq![a, c, b]);
    assert(seq![ascii_lower(a)] + seq!['-', ascii_lower(b)] =~= seq![
        ascii_lower(a),
        '-',
        ascii_lower(b),
    ]);
}

/// `c` with ASCII small letters made capital (`char::to_ascii_uppercase`).
pub open spec fn ascii_upper(c: char) -> char {
    if 97 <= (c as u32) <= 122 {
        ((c as u32) - 32) as char
    } else {
        c
    }
}

/// `t` with its ASCII letters made capital (`str::to_ascii_uppercase`).
pub open spec fn ascii_uppercase(t: Seq<char>) -> Seq<char> {
    t.map_values(|c: char| ascii_upper(c))
}

proof fn lemma_upper_same_class(c: char)
    ensures
        is_ascii_alnum(ascii_upper(c)) == is_ascii_alnum(c),
        is_ascii_alnum(c) ==> ascii_lower(ascii_upper(c)) == ascii_lower(c),
{
    let u = c as u32;
    if 97 <= u <= 122 {
        vstd::utf8::char_u32_cast(((u - 32) as u32) as char, (u - 32) as u32);
        vstd::utf8::char_u32_cast(c, u);
        let v = (u - 32) as u32;
        assert(ascii_upper(c) as u32 == v);
        assert(ascii_lower(ascii_upper(c)) == ((v + 32) as u32) as char);
        assert((v + 32) as u32 == u);
        vstd::utf8::char_u32_cast(((v + 32) as u32) as char, (v + 32) as u32);
    }
}

/// Capital and small ASCII letters give the same slug.
pub proof fn lemma_slugify_ignores_case(t: Seq<char>)
    ensures
        slugify_spec(ascii_uppercase(t)) == slugify_spec(t),
{
    lemma_fold_ignores_case(t);
}

proof fn lemma_fold_ignores_case(t: Seq<char>)
    ensures
        slug_fold(ascii_uppercase(t)) == slug_fold(t),
    decreases t.len(),
{
    let u = ascii_uppercase(t);
    if t.len() > 0 {
        lemma_fold_ignores_case(t.drop_last());
        assert(u.drop_last() =~= ascii_uppercase(t.drop_last()));
        assert(u.last() == ascii_upper(t.last()));
        lemma_upper_same_class(t.last());
    } else {
        assert(u.len() == 0);
    }
}

/// Whether `p` holds no ASCII letter or digit.
pub open spec fn no_alnum(p: Seq<char>) -> bool {
    forall|i: int| 0 <= i < p.len() ==> !is_ascii_alnum(#[trigger] p[i])
}

proof fn lemma_fold_no_alnum_empty(p: Seq<char>)
    requires
        no_alnum(p),
    ensures
        slug_fold(p) == Seq::<char>::empty(),
    decreases p.len(),
{
    if p.len() > 0 {
        let q = p.drop_last();
        assert forall|i: int| 0 <= i < q.len() implies !is_ascii_alnum(#[trigger] q[i]) by {
            assert(q[i] == p[i]);
        }
        lemma_fold_no_alnum_empty(q);
        assert(!is_ascii_alnum(p[p.len() - 1]));
    }
}

proof fn lemma_fold_after_blank_prefix(p: Seq<char>, t: Seq<char>)
    requires
        slug_fold(p) == Seq::<char>::empty(),
    ensures
        slug_fold(p + t) == slug_fold(t),
    decreases t.len(),
{
    if t.len() == 0 {
        assert(p + t =~= p);
    } else {
        lemma_fold_after_blank_prefix(p, t.drop_last());
        assert((p + t).drop_last() =~= p + t.drop_last());
        assert((p + t).last() == t.last());
    }
}

proof fn lemma_fold_before_blank_suffix(t: Seq<char>, q: Seq<char>)
    requires
        no_alnum(q),
    ensures
        drop_trailing_dashes(slug_fold(t + q)) == drop_trailing_dashes(slug_fold(t)),
    decreases q.len(),
{
    if q.len() == 0 {
        assert(t + q =~= t);
    } else {
        let r = q.drop_last();
        assert forall|i: int| 0 <= i < r.len() implies !is_ascii_alnum(#[trigger] r[i]) by {
            assert(r[i] == q[i]);
        }
        lemma_fold_before_blank_suffix(t, r);
        assert((t + q).drop_last() =~= t + r);
        assert((t + q).last() == q.last());
        assert(!is_ascii_alnum(q[q.len() - 1]));
        let acc = slug_fold(t + r);
        if acc.len() > 0 && acc.last() != '-' {
            assert(acc.push('-').drop_last() =~= acc);
        }
    }
}

/// Separators and punctuation before or after a title (text with no ASCII
/// letter or digit) do not change its slug.
pub proof fn lemma_slugify_ignores_blank_ends(p: Seq<char>, t: Seq<char>, q: Seq<char>)
    requires
        no_alnum(p),
        no_alnum(q),
    ensures
        slugify_spec(p + t + q) == slugify_spec(t),
{
    lemma_fold_no_alnum_empty(p);
    lemma_fold_before_blank_suffix(p + t, q);
    lemma_fold_after_blank_prefix(p, t);
}

proof fn lemma_fold_len(t: Seq<char>)
    ensures
        slug_fold(t).len() <= t.len(),
    decreases t.len(),
{
    if t.len() > 0 {
        lemma_fold_len(t.drop_last());
    }
}

proof fn lemma_drop_trailing_len(s: Seq<char>)
    ensures
        drop_trailing_dashes(s).len() <= s.len(),
    decreases s.len(),
{
    if s.len() > 0 && s.last() == '-' {
        lemma_drop_trailing_len(s.drop_last());
    }
}

/// A slug is never longer than its title.
pub proof fn lemma_slugify_len(t: Seq<char>)
    ensures
        slugify_spec(t).len() <= t.len(),
{
    lemma_fold_len(t);
    lemma_drop_trailing_len(slug_fold(t));
}

// ---------------------------------------------------------------------------
// Finding a free slug
// ---------------------------------------------------------------------------

/// The slug tried after `taken` candidates were found in use: the base slug
/// first, then the base with `-2`, `-3`, and so on appended.
pub open spec fn slug_candidate(base: Seq<char>, taken: int) -> Seq<char> {
    if taken == 0 {
        base
    } else {
        base + seq!['-'] + decimal(taken + 1)
    }
}

/// The search for a slug that no topic uses: it proposes a candidate, and is
/// told to move on while the candidate is taken.
#[derive(Debug)]
pub struct SlugSearch {
    base: String,
    taken: i64,
    candidate: String,
}

impl SlugSearch {
    /// The slug the search starts from.
    pub closed spec fn base_view(&self) -> Seq<char> {
        self.base@
    }

    /// How many candidates were found taken so far.
    pub closed spec fn taken_count(&self) -> int {
        self.taken as int
    }

    #[verifier::type_invariant]
    closed spec fn inv(&self) -> bool {
        &&& 0 <= self.taken < i64::MAX
        &&& self.candidate@ == slug_candidate(self.base@, self.taken as int)
    }

    /// A search that starts at `base`.
    pub fn new(base: &str) -> (s: SlugSearch)
        ensures
            s.base_view() == base@,
            s.taken_count() == 0,
    {
        SlugSearch { base: base.to_owned(), taken: 0, candidate: base.to_owned() }
    }

    /// The slug to try now.
    pub fn candidate(&self) -> (c: &str)
        ensures
            c@ == slug_candidate(self.base_view(), self.taken_count()),
    {
        proof {
            use_type_invariant(self);
        }
        self.candidate.as_str()
    }

    /// How many candidates were found taken so far.
    pub fn taken(&self) -> (n: i64)
        ensures
            n == self.taken_count(),
            0 <= n < i64::MAX,
    {
        proof {
            use_type_invariant(self);
        }
        self.taken
    }

    /// The current candidate is taken: move on to the next one.
    pub fn advance(&mut self)
        requires
            old(self).taken_count() < i64::MAX - 2,
        ensures
            final(self).base_view() == old(self).base_view(),
            final(self).taken_count() == old(self).taken_count() + 1,
    {
        proof {
            use_type_invariant(&*self);
        }
        let taken = self.taken + 1;
        let mut next = self.base.clone();
        push_char(&mut next, '-');
        let n = decimal_string(taken + 1);
        push_str(&mut next, n.as_str());
        assert(next@ =~= slug_candidate(self.base@, taken as int));
        let base = self.base.clone();
        *self = SlugSearch { base, taken, candidate: next };
    }

    /// The candidates reported taken so far, in the order they were tried.
    pub open spec fn reported_taken(&self) -> Seq<Seq<char>> {
        Seq::new(self.taken_count() as nat, |k: int| slug_candidate(self.base_view(), k))
    }

    /// Tells the search whether its current candidate is taken. A taken one
    /// is recorded and the search moves on (`None`); a free one ends the
    /// search: it is the slug to use, the first candidate not reported taken,
    /// every candidate tried before it having been reported taken.
    pub fn report(&mut self, candidate_taken: bool) -> (chosen: Option<String>)
        requires
            candidate_taken ==> old(self).taken_count() < i64::MAX - 2,
        ensures
            final(self).base_view() == old(self).base_view(),
            candidate_taken ==> chosen is None && final(self).taken_count() == old(self).taken_count()
                + 1 && final(self).reported_taken() == old(self).reported_taken().push(
                slug_candidate(old(self).base_view(), old(self).taken_count()),
            ),
            !candidate_taken ==> final(self).taken_count() == old(self).taken_count(),
            !candidate_taken ==> (chosen matches Some(slug) && slug@ == slug_candidate(
                old(self).base_view(),
                old(self).taken_count(),
            ) && !old(self).reported_taken().contains(slug@)),
    {
        proof {
            use_type_invariant(&*self);
        }
        if candidate_taken {
            self.advance();
            assert(final(self).reported_taken() =~= old(self).reported_taken().push(
                slug_candidate(old(self).base_view(), old(self).taken_count()),
            ));
            None
        } else {
            let slug = self.candidate().to_owned();
            proof {
                let r = self.reported_taken();
                if r.contains(slug@) {
                    let k = choose|k: int| 0 <= k < r.len() && r[k] == slug@;
                    lemma_slug_candidates_distinct(self.base_view(), k, self.taken_count());
                }
            }
            Some(slug)
        }
    }
}

/// Whether no slug occurs twice among `slugs`, the slugs of the topic table.
pub open spec fn slugs_distinct(slugs: Seq<Seq<char>>) -> bool {
    forall|i: int, j: int| 0 <= i < j < slugs.len() ==> #[trigger] slugs[i] != #[trigger] slugs[j]
}

/// Adding a topic under the slug a search ends on keeps the topic table's
/// slugs unique: when the table's slugs are pairwise distinct and the search
/// was told its current candidate is free because the table holds no such
/// slug, the table with that one row added has one row more, its earlier rows
/// as they were, and still no slug twice.
pub proof fn lemma_added_topic_keeps_slugs_distinct(table: Seq<Seq<char>>, search: SlugSearch)
    requires
        slugs_distinct(table),
        !table.contains(slug_candidate(search.base_view(), search.taken_count())),
    ensures
        ({
            let after = table.push(slug_candidate(search.base_view(), search.taken_count()));
            &&& slugs_distinct(after)
            &&& after.len() == table.len() + 1
            &&& forall|i: int| 0 <= i < table.len() ==> after[i] == table[i]
        }),
{
    let chosen = slug_candidate(search.base_view(), search.taken_count());
    let after = table.push(chosen);
    assert forall|i: int, j: int| 0 <= i < j < after.len() implies #[trigger] after[i]
        != #[trigger] after[j] by {
        if j == table.len() {
            assert(after[i] == table[i]);
            if table[i] == chosen {
                assert(table.contains(chosen));
            }
        } else {
            assert(after[i] == table[i] && after[j] == table[j]);
        }
    }
}

/// The search never proposes the same slug twice.
pub proof fn lemma_slug_candidates_distinct(base: Seq<char>, i: int, j: int)
    requires
        0 <= i < j < i64::MAX,
    ensures
        slug_candidate(base, i) != slug_candidate(base, j),
{
    let cj = slug_candidate(base, j);
    let dj = decimal(j + 1);
    crate::text::lemma_digits_roundtrip((j + 1) as nat);
    if i == 0 {
        assert(cj.len() > base.len());
    } else {
        let ci = slug_candidate(base, i);
        let di = decimal(i + 1);
        if ci == cj {
            assert(ci.skip(base.len() as int + 1) == di);
            assert(cj.skip(base.len() as int + 1) == dj);
            lemma_decimal_roundtrip((i + 1) as i64);
            lemma_decimal_roundtrip((j + 1) as i64);
        }
    }
}

} // verus!
