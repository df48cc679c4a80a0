//! Seeding a new forum: the list of topics given as `slug:Title,slug:Title`.

use vstd::prelude::*;

use crate::text::{chars_of, find_char, find_char_in, lemma_find_char, string_of};

verus! {

/// `s` cut at every `c`, as `str::split` does: the pieces between the cuts,
/// empty ones included.
pub open spec fn split_on(s: Seq<char>, c: char) -> Seq<Seq<char>>
    decreases s.len(),
{
    if s.len() == 0 {
        seq![Seq::<char>::empty()]
    } else {
        let p = split_on(s.drop_last(), c);
        if s.last() == c {
            p.push(Seq::<char>::empty())
        } else {
            p.update(p.len() - 1, p.last().push(s.last()))
        }
    }
}

/// A piece cut at its first colon: the slug before it and the title after
/// it; `None` when it has no colon.
pub open spec fn split_colon(x: Seq<char>) -> Option<(Seq<char>, Seq<char>)> {
    match find_char(x, ':') {
        Some(i) => Some((x.take(i), x.skip(i + 1))),
        None => None,
    }
}

/// The entries of the non-empty pieces, in order.
pub open spec fn seed_entries(pieces: Seq<Seq<char>>) -> Seq<Option<(Seq<char>, Seq<char>)>>
    decreases pieces.len(),
{
    if pieces.len() == 0 {
        seq![]
    } else {
        let p = seed_entries(pieces.drop_last());
        if pieces.last().len() == 0 {
            p
        } else {
            p.push(split_colon(pieces.last()))
        }
    }
}

/// The view of a parsed entry.
pub open spec fn entry_view(e: Option<(String, String)>) -> Option<(Seq<char>, Seq<char>)> {
    match e {
        Some((a, b)) => Some((a@, b@)),
        None => None,
    }
}

proof fn lemma_split_nonempty(s: Seq<char>, c: char)
    ensures
        split_on(s, c).len() > 0,
    decreases s.len(),
{
    if s.len() > 0 {
        lemma_split_nonempty(s.drop_last(), c);
    }
}

/// Cuts `v` at every comma into pieces.
fn split_commas(v: &Vec<char>) -> (pieces: Vec<Vec<char>>)
    ensures
        pieces@.len() == split_on(v@, ',').len(),
        forall|i: int| 0 <= i < pieces@.len() ==> #[trigger] pieces@[i]@ == split_on(v@, ',')[i],
{
    let mut pieces: Vec<Vec<char>> = Vec::new();
    let mut cur: Vec<char> = Vec::new();
    let mut i: usize = 0;
    assert(v@.take(0) =~= Seq::<char>::empty());
    while i < v.len()
        invariant
            i <= v@.len(),
            pieces@.len() + 1 == split_on(v@.take(i as int), ',').len(),
            forall|j: int| 0 <= j < pieces@.len() ==> #[trigger] pieces@[j]@ == split_on(
                v@.take(i as int),
                ',',
            )[j],
            cur@ == split_on(v@.take(i as int), ',').last(),
        decreases v.len() - i,
    {
        let c = v[i];
        proof {
            lemma_split_nonempty(v@.take(i as int), ',');
        }
        assert(v@.take(i + 1).drop_last() == v@.take(i as int));
        assert(v@.take(i + 1).last() == c);
        if c == ',' {
            let done = cur;
            pieces.push(done);
            cur = Vec::new();
        } else {
            cur.push(c);
        }
        i += 1;
    }
    assert(v@.take(v@.len() as int) == v@);
    pieces.push(cur);
    pieces
}

/// The entries of a `TOPICS` value `slug:Title,slug:Title`: empty pieces are
/// skipped, and each other piece is cut at its first colon (`None` for a
/// piece without one).
pub fn topic_seed_entries(topics: &str) -> (r: Vec<Option<(String, String)>>)
    ensures
        r@.len() == seed_entries(split_on(topics@, ',')).len(),
        forall|i: int| 0 <= i < r@.len() ==> entry_view(#[trigger] r@[i]) == seed_entries(split_on(topics@, ','))[i],
{
    let v = chars_of(topics);
    let pieces = split_commas(&v);
    let ghost ps = split_on(v@, ',');
    let mut out: Vec<Option<(String, String)>> = Vec::new();
    let mut k: usize = 0;
    assert(ps.take(0) =~= Seq::<Seq<char>>::empty());
    while k < pieces.len()
        invariant
            k <= pieces@.len() == ps.len(),
            ps == split_on(v@, ','),
            v@ == topics@,
            forall|i: int| 0 <= i < pieces@.len() ==> #[trigger] pieces@[i]@ == ps[i],
            out@.len() == seed_entries(ps.take(k as int)).len(),
            forall|i: int| 0 <= i < out@.len() ==> entry_view(#[trigger] out@[i]) == seed_entries(ps.take(k as int))[i],
        decreases pieces.len() - k,
    {
        let piece = &pieces[k];
        assert(piece@ == ps[k as int]);
        assert(ps.take(k + 1).drop_last() == ps.take(k as int));
        assert(ps.take(k + 1).last() == ps[k as int]);
        if piece.len() > 0 {
            let entry = match find_char_in(piece, ':') {
                Some(j) => {
                    proof {
                        lemma_find_char(piece@, ':');
                    }
                    let slug = string_of(piece, 0, j);
                    let title = string_of(piece, j + 1, piece.len());
                    assert(slug@ == piece@.take(j as int));
                    assert(title@ == piece@.skip(j + 1));
                    Some((slug, title))
                },
                None => None,
            };
            assert(entry_view(entry) == split_colon(piece@));
            out.push(entry);
        }
        k += 1;
    }
    assert(ps.take(ps.len() as int) == ps);
    out
}

} // verus!
