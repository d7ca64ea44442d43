use vstd::prelude::*;

verus! {

/// The value of one hexadecimal digit, if `b` is one.
pub open spec fn hex_digit(b: u8) -> Option<u8> {
    if 48 <= b && b <= 57 {
        Some((b - 48) as u8)
    } else if 65 <= b && b <= 70 {
        Some((b - 55) as u8)
    } else if 97 <= b && b <= 102 {
        Some((b - 87) as u8)
    } else {
        None
    }
}

/// Whether `p` starts with `%` followed by two hexadecimal digits.
pub open spec fn starts_with_escape(p: Seq<u8>) -> bool {
    p.len() >= 3 && p[0] == 37u8 && hex_digit(p[1]) is Some && hex_digit(p[2]) is Some
}

/// Percent-decoding: each `%` followed by two hexadecimal digits becomes the
/// byte they spell; every other byte stands for itself.
pub open spec fn percent_decoded(p: Seq<u8>) -> Seq<u8>
    decreases p.len(),
{
    if p.len() == 0 {
        Seq::empty()
    } else if starts_with_escape(p) {
        seq![(hex_digit(p[1]).unwrap() * 16 + hex_digit(p[2]).unwrap()) as u8]
            + percent_decoded(p.subrange(3, p.len() as int))
    } else {
        seq![p[0]] + percent_decoded(p.subrange(1, p.len() as int))
    }
}

/// `p` without its leading slashes.
pub open spec fn trim_leading_slashes(p: Seq<u8>) -> Seq<u8>
    decreases p.len(),
{
    if p.len() > 0 && p[0] == 47u8 {
        trim_leading_slashes(p.subrange(1, p.len() as int))
    } else {
        p
    }
}

/// The pieces of `p` between `/` separators, in order, empty pieces included.
pub open spec fn pieces(p: Seq<u8>) -> Seq<Seq<u8>>
    decreases p.len(),
{
    if p.len() == 0 {
        seq![Seq::empty()]
    } else {
        let rest = pieces(p.drop_last());
        if p.last() == 47u8 {
            rest.push(Seq::empty())
        } else {
            rest.update(rest.len() - 1, rest.last().push(p.last()))
        }
    }
}

/// The piece `..`, which names the parent directory.
pub open spec fn is_parent(s: Seq<u8>) -> bool {
    s == seq![46u8, 46u8]
}

/// A piece that names an entry: not empty and not `.`.
pub open spec fn is_named(s: Seq<u8>) -> bool {
    s.len() > 0 && s != seq![46u8]
}

/// The entries that a decoded path names, in order.
pub open spec fn components(d: Seq<u8>) -> Seq<Seq<u8>> {
    pieces(d).filter(named_pred())
}

/// [`is_named`] as a predicate value.
pub open spec fn named_pred() -> spec_fn(Seq<u8>) -> bool {
    |s: Seq<u8>| is_named(s)
}

/// A decoded path that is refused before any file is looked at: it starts at
/// the filesystem root, or it climbs to a parent directory.
pub open spec fn refused(d: Seq<u8>) -> bool {
    (d.len() > 0 && d[0] == 47u8) || exists|i: int|
        0 <= i < pieces(d).len() && #[trigger] is_parent(pieces(d)[i])
}

/// The request path as decoded, before it is split.
pub open spec fn decoded_request(request_path: Seq<u8>) -> Seq<u8> {
    percent_decoded(trim_leading_slashes(request_path))
}

/// A name that stays inside the directory it is joined to.
pub open spec fn is_plain_name(s: Seq<u8>) -> bool {
    is_named(s) && !is_parent(s) && !s.contains(47u8)
}

/// Where a request path leads under the content root.
pub enum Lookup {
    /// The entries to join to the root, in order.
    Entry(Vec<Vec<u8>>),
    /// The path is refused; it is answered as a miss.
    Refused,
}

/// The value of a hexadecimal digit.
pub fn hex_value(b: u8) -> (r: Option<u8>)
    ensures
        r == hex_digit(b),
{
    if 48 <= b && b <= 57 {
        Some(b - 48)
    } else if 65 <= b && b <= 70 {
        Some(b - 55)
    } else if 97 <= b && b <= 102 {
        Some(b - 87)
    } else {
        None
    }
}

fn decode_from(p: &[u8], start: usize) -> (r: Vec<u8>)
    requires
        start <= p@.len(),
    ensures
        r@ == percent_decoded(p@.subrange(start as int, p@.len() as int)),
{
    let mut out: Vec<u8> = Vec::new();
    let mut i: usize = start;
    while i < p.len()
        invariant
            start <= i <= p@.len(),
            out@ + percent_decoded(p@.subrange(i as int, p@.len() as int)) == percent_decoded(
                p@.subrange(start as int, p@.len() as int),
            ),
        decreases p@.len() - i,
    {
        let ghost rest = p@.subrange(i as int, p@.len() as int);
        let mut escaped: Option<u8> = None;
        if p[i] == 37u8 && p.len() - i > 2 {
            match (hex_value(p[i + 1]), hex_value(p[i + 2])) {
                (Some(hi), Some(lo)) => {
                    escaped = Some(hi * 16 + lo);
                },
                _ => {},
            }
        }
        match escaped {
            Some(b) => {
                assert(starts_with_escape(rest));
                assert(rest.subrange(3, rest.len() as int) =~= p@.subrange(
                    i + 3,
                    p@.len() as int,
                ));
                assert(out@.push(b) + percent_decoded(p@.subrange(i + 3, p@.len() as int))
                    =~= out@ + percent_decoded(rest));
                out.push(b);
                i = i + 3;
            },
            None => {
                assert(!starts_with_escape(rest));
                assert(rest.subrange(1, rest.len() as int) =~= p@.subrange(
                    i + 1,
                    p@.len() as int,
                ));
                assert(out@.push(p@[i as int]) + percent_decoded(
                    p@.subrange(i + 1, p@.len() as int),
                ) =~= out@ + percent_decoded(rest));
                out.push(p[i]);
                i = i + 1;
            },
        }
    }
    assert(out@ + percent_decoded(p@.subrange(i as int, p@.len() as int)) =~= out@);
    out
}

/// Percent-decodes `p`.
pub fn percent_decode(p: &[u8]) -> (r: Vec<u8>)
    ensures
        r@ == percent_decoded(p@),
{
    let r = decode_from(p, 0);
    assert(p@.subrange(0, p@.len() as int) =~= p@);
    r
}

proof fn lemma_pieces_len(p: Seq<u8>)
    ensures
        pieces(p).len() >= 1,
    decreases p.len(),
{
    if p.len() > 0 {
        lemma_pieces_len(p.drop_last());
    }
}

proof fn lemma_pieces_have_no_slash(p: Seq<u8>)
    ensures
        forall|i: int| 0 <= i < pieces(p).len() ==> !(#[trigger] pieces(p)[i]).contains(47u8),
    decreases p.len(),
{
    if p.len() > 0 {
        lemma_pieces_have_no_slash(p.drop_last());
        lemma_pieces_len(p.drop_last());
        let rest = pieces(p.drop_last());
        if p.last() != 47u8 {
            assert forall|i: int| 0 <= i < pieces(p).len() implies !(
            #[trigger] pieces(p)[i]).contains(47u8) by {
                if i == rest.len() - 1 {
                    let s = rest.last().push(p.last());
                    if s.contains(47u8) {
                        let j = choose|j: int| 0 <= j < s.len() && s[j] == 47u8;
                        assert(rest.last()[j] == 47u8);
                    }
                }
            }
        } else {
            assert forall|i: int| 0 <= i < pieces(p).len() implies !(
            #[trigger] pieces(p)[i]).contains(47u8) by {
                if i < rest.len() {
                    assert(pieces(p)[i] == rest[i]);
                } else {
                    assert(pieces(p)[i] =~= Seq::<u8>::empty());
                }
            }
        }
    }
}

/// A path that is not refused names only entries that stay inside the
/// directory they are joined to, so the file looked up lies under the root.
pub proof fn lemma_lookup_stays_under_root(d: Seq<u8>)
    requires
        !refused(d),
    ensures
        forall|i: int| 0 <= i < components(d).len() ==> is_plain_name(#[trigger] components(d)[i]),
{
    broadcast use vstd::seq_lib::group_filter_ensures;

    lemma_pieces_have_no_slash(d);
    let ghost named = named_pred();
    assert forall|i: int| 0 <= i < components(d).len() implies is_plain_name(
        #[trigger] components(d)[i],
    ) by {
        let s = components(d)[i];
        assert(pieces(d).filter(named)[i] == s);
        assert(pieces(d).filter(named).contains(s));
        pieces(d).lemma_filter_contains_rev(named, s);
        let j = choose|j: int| 0 <= j < pieces(d).len() && pieces(d)[j] == s;
        assert(!is_parent(pieces(d)[j]));
    }
}

fn is_named_piece(s: &Vec<u8>) -> (r: bool)
    ensures
        r == is_named(s@),
{
    if s.len() == 0 {
        false
    } else if s.len() == 1 && s[0] == 46u8 {
        assert(s@ =~= seq![46u8]);
        false
    } else {
        assert(s@.len() != 1 ==> s@ != seq![46u8]);
        true
    }
}

fn is_parent_piece(s: &Vec<u8>) -> (r: bool)
    ensures
        r == is_parent(s@),
{
    if s.len() == 2 && s[0] == 46u8 && s[1] == 46u8 {
        assert(s@ =~= seq![46u8, 46u8]);
        true
    } else {
        assert(s@.len() != 2 ==> s@ != seq![46u8, 46u8]);
        false
    }
}

fn leading_slashes(p: &[u8]) -> (k: usize)
    ensures
        k <= p@.len(),
        trim_leading_slashes(p@) == p@.subrange(k as int, p@.len() as int),
{
    let mut k: usize = 0;
    assert(p@.subrange(0, p@.len() as int) =~= p@);
    while k < p.len() && p[k] == 47u8
        invariant
            k <= p@.len(),
            trim_leading_slashes(p@) == trim_leading_slashes(p@.subrange(k as int, p@.len() as int)),
        decreases p@.len() - k,
    {
        let ghost rest = p@.subrange(k as int, p@.len() as int);
        assert(rest.subrange(1, rest.len() as int) =~= p@.subrange(k + 1, p@.len() as int));
        k = k + 1;
    }
    k
}

/// Resolves a request path (as it appears in the request line, without the
/// query) to the entries under the content root that it names, or refuses it.
pub fn lookup(request_path: &[u8]) -> (r: Lookup)
    ensures
        r is Refused <==> refused(decoded_request(request_path@)),
        r matches Lookup::Entry(segs) ==> segs@.map_values(|v: Vec<u8>| v@) == components(
            decoded_request(request_path@),
        ),
{
    let k = leading_slashes(request_path);
    let d = decode_from(request_path, k);
    let ghost dd = d@;
    assert(dd == decoded_request(request_path@));
    let ghost named = named_pred();
    let mut segs: Vec<Vec<u8>> = Vec::new();
    let mut cur: Vec<u8> = Vec::new();
    let mut climbs = false;
    let mut i: usize = 0;
    proof {
        reveal(Seq::filter);
        assert(dd.take(0) =~= Seq::<u8>::empty());
        assert(pieces(dd.take(0)).drop_last() =~= Seq::<Seq<u8>>::empty());
    }
    while i < d.len()
        invariant
            i <= dd.len(),
            d@ == dd,
            named == named_pred(),
            pieces(dd.take(i as int)).len() >= 1,
            cur@ == pieces(dd.take(i as int)).last(),
            segs@.map_values(|v: Vec<u8>| v@) == pieces(dd.take(i as int)).drop_last().filter(named),
            climbs == exists|j: int|
                0 <= j < pieces(dd.take(i as int)).len() - 1 && #[trigger] is_parent(
                    pieces(dd.take(i as int))[j],
                ),
        decreases dd.len() - i,
    {
        let ghost ps = pieces(dd.take(i as int));
        let c = d[i];
        assert(dd.take(i + 1).drop_last() =~= dd.take(i as int));
        assert(dd.take(i + 1).last() == c);
        let ghost ps2 = pieces(dd.take(i + 1));
        if c == 47u8 {
            assert(ps2 == ps.push(Seq::empty()));
            assert(ps2.drop_last() =~= ps);
            proof {
                reveal(Seq::filter);
                assert(ps.filter(named) == if named(ps.last()) {
                    ps.drop_last().filter(named).push(ps.last())
                } else {
                    ps.drop_last().filter(named)
                });
            }
            let p = is_parent_piece(&cur);
            assert(named(ps.last()) == is_named(cur@));
            if is_named_piece(&cur) {
                let ghost before = segs@;
                segs.push(cur);
                assert(segs@.map_values(|v: Vec<u8>| v@) =~= before.map_values(|v: Vec<u8>| v@).push(
                    ps.last(),
                ));
            }
            assert(segs@.map_values(|v: Vec<u8>| v@) == ps.filter(named));
            climbs = climbs || p;
            cur = Vec::new();
            proof {
                if climbs {
                    if p {
                        assert(is_parent(ps2[ps.len() - 1]));
                    } else {
                        let j = choose|j: int| 0 <= j < ps.len() - 1 && #[trigger] is_parent(ps[j]);
                        assert(is_parent(ps2[j]));
                    }
                } else {
                    assert forall|j: int| 0 <= j < ps2.len() - 1 implies !#[trigger] is_parent(
                        ps2[j],
                    ) by {
                        assert(ps2[j] == ps[j]);
                    }
                }
                assert(cur@ =~= ps2.last());
            }
        } else {
            let ghost last = ps.last();
            assert(ps2 == ps.update(ps.len() - 1, last.push(c)));
            assert(ps2.drop_last() =~= ps.drop_last());
            cur.push(c);
            assert(segs@.map_values(|v: Vec<u8>| v@) == ps2.drop_last().filter(named));
            proof {
                if climbs {
                    let j = choose|j: int| 0 <= j < ps.len() - 1 && #[trigger] is_parent(ps[j]);
                    assert(is_parent(ps2[j]));
                } else {
                    assert forall|j: int| 0 <= j < ps2.len() - 1 implies !#[trigger] is_parent(
                        ps2[j],
                    ) by {
                        assert(ps2[j] == ps[j]);
                    }
                }
            }
        }
        i = i + 1;
    }
    assert(dd.take(dd.len() as int) =~= dd);
    let ghost ps = pieces(dd);
    let rooted = d.len() > 0 && d[0] == 47u8;
    let last_parent = is_parent_piece(&cur);
    if rooted || climbs || last_parent {
        proof {
            if !rooted {
                if climbs {
                    let j = choose|j: int| 0 <= j < ps.len() - 1 && #[trigger] is_parent(ps[j]);
                    assert(is_parent(ps[j]));
                } else {
                    assert(is_parent(ps[ps.len() - 1]));
                }
            }
        }
        Lookup::Refused
    } else {
        proof {
            assert forall|j: int| 0 <= j < ps.len() implies !#[trigger] is_parent(ps[j]) by {
                if j < ps.len() - 1 {
                } else {
                    assert(ps[j] == cur@);
                }
            }
            reveal(Seq::filter);
            assert(ps.filter(named) == if named(ps.last()) {
                ps.drop_last().filter(named).push(ps.last())
            } else {
                ps.drop_last().filter(named)
            });
        }
        if is_named_piece(&cur) {
            let ghost before = segs@;
            segs.push(cur);
            assert(segs@.map_values(|v: Vec<u8>| v@) =~= before.map_values(|v: Vec<u8>| v@).push(
                ps.last(),
            ));
        }
        Lookup::Entry(segs)
    }
}

} // verus!
