use vstd::prelude::*;
use crate::codec::{Reader, be16, from_be16, put_bytes, put_u16};
use crate::error::InvalidMessage;

verus! {

/// The contents of each byte vector.
pub open spec fn views(v: Seq<Vec<u8>>) -> Seq<Seq<u8>> {
    v.map_values(|x: Vec<u8>| x@)
}

/// The length prefix of an item: one byte, or two big-endian bytes when `wide`.
pub open spec fn prefix(n: nat, wide: bool) -> Seq<u8> {
    if wide {
        be16((n % 65536) as u16)
    } else {
        seq![(n % 256) as u8]
    }
}

/// The width of a length prefix.
pub open spec fn width(wide: bool) -> int {
    if wide { 2 } else { 1 }
}

/// One length-prefixed byte string.
pub open spec fn item(p: Seq<u8>, wide: bool) -> Seq<u8> {
    prefix(p.len(), wide) + p
}

/// A sequence of length-prefixed byte strings, one after another.
pub open spec fn items(ps: Seq<Seq<u8>>, wide: bool) -> Seq<u8>
    decreases ps.len(),
{
    if ps.len() == 0 {
        seq![]
    } else {
        items(ps.drop_last(), wide) + item(ps.last(), wide)
    }
}

/// Every byte string fits its length prefix.
pub open spec fn fits(ps: Seq<Seq<u8>>, wide: bool) -> bool {
    forall|i: int| 0 <= i < ps.len() ==> (#[trigger] ps[i]).len() < if wide { 65536nat } else { 256nat }
}

/// Reads length-prefixed byte strings until the input is used up.
pub open spec fn parse_items(s: Seq<u8>, wide: bool) -> Option<Seq<Seq<u8>>>
    decreases s.len(),
{
    if s.len() == 0 {
        Some(seq![])
    } else if s.len() < width(wide) {
        None
    } else {
        let n: int = if wide { from_be16(s[0], s[1]) as int } else { s[0] as int };
        let w = width(wide);
        if w + n > s.len() {
            None
        } else {
            match parse_items(s.subrange(w + n, s.len() as int), wide) {
                Some(r) => Some(seq![s.subrange(w, w + n)] + r),
                None => None,
            }
        }
    }
}

/// Two-byte codepoints, one after another.
pub open spec fn codes(cs: Seq<u16>) -> Seq<u8>
    decreases cs.len(),
{
    if cs.len() == 0 {
        seq![]
    } else {
        codes(cs.drop_last()) + be16(cs.last())
    }
}

/// Reads two-byte codepoints until the input is used up.
pub open spec fn parse_codes(s: Seq<u8>) -> Option<Seq<u16>>
    decreases s.len(),
{
    if s.len() == 0 {
        Some(seq![])
    } else if s.len() < 2 {
        None
    } else {
        match parse_codes(s.subrange(2, s.len() as int)) {
            Some(r) => Some(seq![from_be16(s[0], s[1])] + r),
            None => None,
        }
    }
}

pub proof fn lemma_items_front(ps: Seq<Seq<u8>>, wide: bool)
    requires
        ps.len() > 0,
    ensures
        items(ps, wide) == item(ps[0], wide) + items(ps.drop_first(), wide),
    decreases ps.len(),
{
    if ps.len() == 1 {
        assert(ps.drop_last() =~= seq![]);
        assert(ps.drop_first() =~= seq![]);
        assert(items(ps, wide) =~= item(ps[0], wide) + items(ps.drop_first(), wide));
    } else {
        lemma_items_front(ps.drop_last(), wide);
        assert(ps.drop_last().drop_first() =~= ps.drop_first().drop_last());
        assert(ps.drop_first().last() == ps.last());
        assert(ps.drop_last()[0] == ps[0]);
        assert(items(ps, wide) =~= item(ps[0], wide) + items(ps.drop_first(), wide));
    }
}

pub proof fn lemma_parse_items(ps: Seq<Seq<u8>>, wide: bool)
    requires
        fits(ps, wide),
    ensures
        parse_items(items(ps, wide), wide) == Some(ps),
    decreases ps.len(),
{
    if ps.len() == 0 {
        assert(items(ps, wide) =~= seq![]);
        assert(ps =~= seq![]);
    } else {
        lemma_items_front(ps, wide);
        let s = items(ps, wide);
        let p = ps[0];
        let rest = ps.drop_first();
        assert(fits(rest, wide)) by {
            assert forall|i: int| 0 <= i < rest.len() implies (#[trigger] rest[i]).len() < if wide { 65536nat } else { 256nat } by {
                assert(rest[i] == ps[i + 1]);
            }
        }
        lemma_parse_items(rest, wide);
        let w = width(wide);
        assert(p.len() < if wide { 65536nat } else { 256nat });
        let n: int = if wide { from_be16(s[0], s[1]) as int } else { s[0] as int };
        assert(n == p.len());
        assert(s.subrange(w, w + n) =~= p);
        assert(s.subrange(w + n, s.len() as int) =~= items(rest, wide));
        assert(seq![p] + rest =~= ps);
    }
}

pub proof fn lemma_codes_front(cs: Seq<u16>)
    requires
        cs.len() > 0,
    ensures
        codes(cs) == be16(cs[0]) + codes(cs.drop_first()),
    decreases cs.len(),
{
    if cs.len() == 1 {
        assert(cs.drop_last() =~= seq![]);
        assert(cs.drop_first() =~= seq![]);
        assert(codes(cs) =~= be16(cs[0]) + codes(cs.drop_first()));
    } else {
        lemma_codes_front(cs.drop_last());
        assert(cs.drop_last().drop_first() =~= cs.drop_first().drop_last());
        assert(cs.drop_first().last() == cs.last());
        assert(cs.drop_last()[0] == cs[0]);
        assert(codes(cs) =~= be16(cs[0]) + codes(cs.drop_first()));
    }
}

pub proof fn lemma_codes_len(cs: Seq<u16>)
    ensures
        codes(cs).len() == 2 * cs.len(),
    decreases cs.len(),
{
    if cs.len() > 0 {
        lemma_codes_len(cs.drop_last());
    }
}

pub proof fn lemma_parse_codes(cs: Seq<u16>)
    ensures
        parse_codes(codes(cs)) == Some(cs),
    decreases cs.len(),
{
    if cs.len() == 0 {
        assert(codes(cs) =~= seq![]);
        assert(cs =~= seq![]);
    } else {
        lemma_codes_front(cs);
        let s = codes(cs);
        lemma_parse_codes(cs.drop_first());
        assert(s.subrange(2, s.len() as int) =~= codes(cs.drop_first()));
        assert(seq![cs[0]] + cs.drop_first() =~= cs);
    }
}

/// Appends the length-prefixed byte strings of `ps`.
pub fn put_items(out: &mut Vec<u8>, ps: &Vec<Vec<u8>>, wide: bool)
    ensures
        final(out)@ == old(out)@ + items(views(ps@), wide),
{
    let mut i: usize = 0;
    while i < ps.len()
        invariant
            i <= ps@.len(),
            out@ == old(out)@ + items(views(ps@).subrange(0, i as int), wide),
        decreases ps@.len() - i,
    {
        let p = &ps[i];
        let n = p.len();
        if wide {
            put_u16(out, (n % 65536) as u16);
        } else {
            out.push((n % 256) as u8);
        }
        put_bytes(out, p.as_slice());
        proof {
            let dv = views(ps@);
            assert(dv.subrange(0, i + 1).drop_last() =~= dv.subrange(0, i as int));
            assert(dv[i as int] == p@);
        }
        i = i + 1;
        assert(out@ =~= old(out)@ + items(views(ps@).subrange(0, i as int), wide));
    }
    assert(views(ps@).subrange(0, i as int) =~= views(ps@));
}

/// Reads length-prefixed byte strings until `r` is used up.
pub fn read_items(r: &mut Reader, wide: bool) -> (res: Result<Vec<Vec<u8>>, InvalidMessage>)
    requires
        old(r).wf(),
    ensures
        final(r).wf(),
        match res {
            Ok(v) => parse_items(old(r).rest_view(), wide) == Some(views(v@)),
            Err(e) => parse_items(old(r).rest_view(), wide) is None && e == InvalidMessage::MissingData,
        },
{
    let mut out: Vec<Vec<u8>> = Vec::new();
    let ghost start = r.rest_view();
    while r.any_left()
        invariant
            r.wf(),
            start == old(r).rest_view(),
            parse_items(start, wide) == match parse_items(r.rest_view(), wide) {
                Some(t) => Some(views(out@) + t),
                None => None::<Seq<Seq<u8>>>,
            },
        decreases r.rest_view().len(),
    {
        let ghost s = r.rest_view();
        let n: usize = if wide {
            match r.read_u16() {
                Some(v) => v as usize,
                None => {
                    assert(parse_items(s, wide) is None);
                    return Err(InvalidMessage::MissingData);
                },
            }
        } else {
            match r.read_u8() {
                Some(v) => v as usize,
                None => { return Err(InvalidMessage::MissingData); },
            }
        };
        let ghost after = r.rest_view();
        proof {
            if wide {
                assert(n == from_be16(s[0], s[1]));
            } else {
                assert(n == s[0]);
            }
        }
        match r.take(n) {
            Some(b) => {
                let v = vstd::slice::slice_to_vec(b);
                proof {
                    assert(parse_items(s, wide) == match parse_items(r.rest_view(), wide) {
                        Some(t) => Some(seq![v@] + t),
                        None => None::<Seq<Seq<u8>>>,
                    }) by {
                        assert(v@ =~= s.subrange(width(wide), width(wide) + n));
                        assert(r.rest_view() =~= s.subrange(width(wide) + n, s.len() as int));
                    }
                    let w = width(wide);
                    assert(after =~= s.subrange(w, s.len() as int));
                    assert(v@ =~= s.subrange(w, w + n));
                    assert(r.rest_view() =~= s.subrange(w + n, s.len() as int));
                    let od = views(out@);
                    match parse_items(r.rest_view(), wide) {
                        Some(t) => {
                            assert(od.push(v@) + t =~= od + (seq![v@] + t));
                        },
                        None => {},
                    }
                }
                let ghost od = views(out@);
                out.push(v);
                assert(views(out@) =~= od.push(v@));
            },
            None => {
                assert(parse_items(s, wide) is None);
                return Err(InvalidMessage::MissingData);
            },
        }
    }
    assert(r.rest_view().len() == 0);
    assert(views(out@) + seq![] =~= views(out@));
    Ok(out)
}

} // verus!
