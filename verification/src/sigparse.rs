use vstd::prelude::*;

use crate::types::{Error, ValueType};
use crate::validate::bytes_eq;

verus! {

/// The whitespace bytes the grammar ignores around names and type tokens.
pub open spec fn is_ws(c: u8) -> bool {
    c == 9 || c == 10 || c == 13 || c == 32
}

/// The input with every plain space removed.
pub open spec fn strip_spaces(s: Seq<u8>) -> Seq<u8>
    decreases s.len(),
{
    if s.len() == 0 {
        Seq::empty()
    } else if s.last() == 32 {
        strip_spaces(s.drop_last())
    } else {
        strip_spaces(s.drop_last()) + seq![s.last()]
    }
}

/// The segments of `s` between occurrences of `sep`; always at least one
/// segment, and empty segments are kept.
pub open spec fn split_r(s: Seq<u8>, sep: u8) -> Seq<Seq<u8>>
    decreases s.len(),
{
    if s.len() == 0 {
        seq![Seq::<u8>::empty()]
    } else {
        let rest = split_r(s.drop_last(), sep);
        if s.last() == sep {
            rest + seq![Seq::<u8>::empty()]
        } else {
            rest.drop_last() + seq![rest.last() + seq![s.last()]]
        }
    }
}

pub open spec fn trim_front(s: Seq<u8>) -> Seq<u8>
    decreases s.len(),
{
    if s.len() > 0 && is_ws(s[0]) {
        trim_front(s.skip(1))
    } else {
        s
    }
}

pub open spec fn trim_back(s: Seq<u8>) -> Seq<u8>
    decreases s.len(),
{
    if s.len() > 0 && is_ws(s.last()) {
        trim_back(s.drop_last())
    } else {
        s
    }
}

/// `s` without leading and trailing whitespace.
pub open spec fn trim(s: Seq<u8>) -> Seq<u8> {
    trim_back(trim_front(s))
}

/// The value type a (trimmed) type token names, if any.
pub open spec fn token_type(s: Seq<u8>) -> Option<ValueType> {
    if s == seq![105u8, 51u8, 50u8] {
        Some(ValueType::I32)
    } else if s == seq![105u8, 54u8, 52u8] {
        Some(ValueType::I64)
    } else if s == seq![102u8, 51u8, 50u8] {
        Some(ValueType::F32)
    } else if s == seq![102u8, 54u8, 52u8] {
        Some(ValueType::F64)
    } else {
        None
    }
}

/// The result types named by the comma segments `segs` up to position `j`:
/// each segment trimmed, empty ones skipped, any unknown token rejected.
pub open spec fn types_of_segs(segs: Seq<Seq<u8>>, j: int) -> Result<Seq<ValueType>, Error>
    decreases j,
    when 0 <= j <= segs.len()
{
    if j <= 0 {
        Ok(Seq::empty())
    } else {
        match types_of_segs(segs, j - 1) {
            Err(e) => Err(e),
            Ok(tys) => {
                let t = trim(segs[j - 1]);
                if t.len() == 0 {
                    Ok(tys)
                } else {
                    match token_type(t) {
                        Some(v) => Ok(tys.push(v)),
                        None => Err(Error::UnsupportedType),
                    }
                }
            },
        }
    }
}

/// The result-type list a signature's type field names: empty when the
/// trimmed field is empty, else its comma-separated tokens.
pub open spec fn types_of(field: Seq<u8>) -> Result<Seq<ValueType>, Error> {
    let t = trim(field);
    if t.len() == 0 {
        Ok(Seq::empty())
    } else {
        types_of_segs(split_r(t, 44), split_r(t, 44).len() as int)
    }
}

/// One signature entry `name:types`: exactly one colon, a nonempty trimmed
/// name, and a well-formed type field.
pub open spec fn entry_of(seg: Seq<u8>) -> Result<(Seq<u8>, Seq<ValueType>), Error> {
    let parts = split_r(seg, 58);
    if parts.len() != 2 {
        Err(Error::MalformedSignature)
    } else {
        let name = trim(parts[0]);
        if name.len() == 0 {
            Err(Error::MalformedSignature)
        } else {
            match types_of(parts[1]) {
                Ok(tys) => Ok((name, tys)),
                Err(e) => Err(e),
            }
        }
    }
}

/// The position of the first entry named `name` at or after `i`.
pub open spec fn first_entry_named(
    acc: Seq<(Seq<u8>, Seq<ValueType>)>,
    name: Seq<u8>,
    i: int,
) -> Option<int>
    decreases acc.len() - i,
    when 0 <= i <= acc.len()
{
    if i >= acc.len() {
        None
    } else if acc[i].0 == name {
        Some(i)
    } else {
        first_entry_named(acc, name, i + 1)
    }
}

/// A repeated name overwrites the earlier entry's types in place, as a
/// mapping would; a new name is appended.
pub open spec fn upsert(
    acc: Seq<(Seq<u8>, Seq<ValueType>)>,
    name: Seq<u8>,
    tys: Seq<ValueType>,
) -> Seq<(Seq<u8>, Seq<ValueType>)> {
    match first_entry_named(acc, name, 0) {
        Some(i) => acc.update(i, (name, tys)),
        None => acc.push((name, tys)),
    }
}

/// Fold the semicolon segments from position `j` on into the entry list:
/// empty segments are skipped, the first malformed one rejects the whole
/// string.
pub open spec fn entries_of_segs(
    segs: Seq<Seq<u8>>,
    j: int,
    acc: Seq<(Seq<u8>, Seq<ValueType>)>,
) -> Result<Seq<(Seq<u8>, Seq<ValueType>)>, Error>
    decreases segs.len() - j,
    when 0 <= j <= segs.len()
{
    if j >= segs.len() {
        Ok(acc)
    } else if segs[j].len() == 0 {
        entries_of_segs(segs, j + 1, acc)
    } else {
        match entry_of(segs[j]) {
            Err(e) => Err(e),
            Ok(p) => entries_of_segs(segs, j + 1, upsert(acc, p.0, p.1)),
        }
    }
}

/// What a whole signature string means: spaces removed, split on
/// semicolons, each entry parsed and folded in; an empty result list is
/// rejected.
pub open spec fn signatures_of(s: Seq<u8>) -> Result<Seq<(Seq<u8>, Seq<ValueType>)>, Error> {
    let stripped = strip_spaces(s);
    let segs = split_r(stripped, 59);
    match entries_of_segs(segs, 0, Seq::empty()) {
        Err(e) => Err(e),
        Ok(entries) => if entries.len() == 0 {
            Err(Error::NoFunctionsRequested)
        } else {
            Ok(entries)
        },
    }
}

/// The views of an entry list.
pub open spec fn entry_views(v: Seq<(Vec<u8>, Vec<ValueType>)>) -> Seq<(Seq<u8>, Seq<ValueType>)> {
    v.map_values(|p: (Vec<u8>, Vec<ValueType>)| (p.0@, p.1@))
}

/// An error met at position `j` of the type segments is the result of the
/// whole fold.
pub proof fn lemma_types_err_propagates(segs: Seq<Seq<u8>>, j: int, e: Error)
    requires
        0 <= j <= segs.len(),
        types_of_segs(segs, j) == Err::<Seq<ValueType>, Error>(e),
    ensures
        types_of_segs(segs, segs.len() as int) == Err::<Seq<ValueType>, Error>(e),
    decreases segs.len() - j,
{
    if j < segs.len() {
        assert(types_of_segs(segs, j + 1) == Err::<Seq<ValueType>, Error>(e));
        lemma_types_err_propagates(segs, j + 1, e);
    }
}

fn is_ws_byte(c: u8) -> (r: bool)
    ensures
        r == is_ws(c),
{
    c == 9 || c == 10 || c == 13 || c == 32
}

/// The views of a byte-vector list.
pub open spec fn views_of(v: Seq<Vec<u8>>) -> Seq<Seq<u8>> {
    v.map_values(|x: Vec<u8>| x@)
}

#[verifier::loop_isolation(false)]
fn strip_spaces_bytes(s: &[u8]) -> (r: Vec<u8>)
    ensures
        r@ == strip_spaces(s@),
{
    let mut v: Vec<u8> = Vec::new();
    let mut i: usize = 0;
    while i < s.len()
        invariant
            0 <= i <= s@.len(),
            v@ == strip_spaces(s@.take(i as int)),
        decreases s@.len() - i,
    {
        proof {
            assert(s@.take(i as int + 1).drop_last() =~= s@.take(i as int));
        }
        if s[i] != 32 {
            v.push(s[i]);
            proof {
                assert(v@ =~= strip_spaces(s@.take(i as int)) + seq![s@[i as int]]);
            }
        }
        i = i + 1;
    }
    proof {
        assert(s@.take(s@.len() as int) =~= s@);
    }
    v
}

#[verifier::loop_isolation(false)]
fn split_bytes(s: &[u8], sep: u8) -> (r: Vec<Vec<u8>>)
    ensures
        views_of(r@) == split_r(s@, sep),
        r@.len() >= 1,
{
    let mut out: Vec<Vec<u8>> = Vec::new();
    let mut cur: Vec<u8> = Vec::new();
    let mut i: usize = 0;
    while i < s.len()
        invariant
            0 <= i <= s@.len(),
            views_of(out@).push(cur@) == split_r(s@.take(i as int), sep),
        decreases s@.len() - i,
    {
        proof {
            assert(s@.take(i as int + 1).drop_last() =~= s@.take(i as int));
            assert(views_of(out@).push(cur@).last() == cur@);
            assert(views_of(out@).push(cur@).drop_last() =~= views_of(out@));
        }
        let ghost prev_out = out@;
        let ghost prev_cur = cur@;
        if s[i] == sep {
            out.push(cur);
            cur = Vec::new();
            proof {
                assert forall|x: int| 0 <= x < out@.len() implies #[trigger] views_of(out@)[x]
                    == views_of(prev_out).push(prev_cur)[x] by {
                    assert(views_of(out@)[x] == out@[x]@);
                }
                assert(views_of(out@) =~= views_of(prev_out).push(prev_cur));
                assert(views_of(out@).push(cur@) =~~= split_r(s@.take(i as int), sep) + seq![
                    Seq::<u8>::empty(),
                ]);
            }
        } else {
            cur.push(s[i]);
            proof {
                assert(views_of(out@).push(cur@) =~~= split_r(s@.take(i as int), sep).drop_last()
                    + seq![split_r(s@.take(i as int), sep).last() + seq![s@[i as int]]]);
            }
        }
        i = i + 1;
    }
    proof {
        assert(s@.take(s@.len() as int) =~= s@);
    }
    let ghost prev_out = out@;
    let ghost prev_cur = cur@;
    out.push(cur);
    proof {
        assert forall|x: int| 0 <= x < out@.len() implies #[trigger] views_of(out@)[x]
            == views_of(prev_out).push(prev_cur)[x] by {
            assert(views_of(out@)[x] == out@[x]@);
        }
        assert(views_of(out@) =~= views_of(prev_out).push(prev_cur));
    }
    out
}

#[verifier::loop_isolation(false)]
fn trim_bytes(s: &[u8]) -> (r: Vec<u8>)
    ensures
        r@ == trim(s@),
{
    let mut start: usize = 0;
    proof {
        assert(s@.skip(0) =~= s@);
    }
    while start < s.len() && is_ws_byte(s[start])
        invariant
            0 <= start <= s@.len(),
            trim_front(s@) == trim_front(s@.skip(start as int)),
        decreases s@.len() - start,
    {
        proof {
            assert(s@.skip(start as int).skip(1) =~= s@.skip(start as int + 1));
        }
        start = start + 1;
    }
    let ghost u = s@.skip(start as int);
    proof {
        assert(trim_front(s@) == u);
    }
    let mut end: usize = s.len();
    proof {
        assert(u.take(end - start as int) =~= u);
    }
    while end > start && is_ws_byte(s[end - 1])
        invariant
            start <= end <= s@.len(),
            u == s@.skip(start as int),
            trim_back(u) == trim_back(u.take(end - start as int)),
        decreases end,
    {
        proof {
            assert(u.take(end - start as int).drop_last() =~= u.take(end - 1 - start as int));
            assert(u.take(end - start as int).last() == s@[end - 1]);
        }
        end = end - 1;
    }
    proof {
        assert(trim_back(u) == u.take(end - start as int));
    }
    let mut v: Vec<u8> = Vec::new();
    let mut x: usize = start;
    while x < end
        invariant
            start <= x <= end <= s@.len(),
            v@ == s@.subrange(start as int, x as int),
        decreases end - x,
    {
        v.push(s[x]);
        proof {
            assert(v@ =~= s@.subrange(start as int, x as int + 1));
        }
        x = x + 1;
    }
    proof {
        assert(v@ =~= u.take(end - start as int));
    }
    v
}

fn token_type_bytes(s: &[u8]) -> (r: Option<ValueType>)
    ensures
        r == token_type(s@),
{
    let mut t: Vec<u8> = Vec::new();
    t.push(105u8);
    t.push(51u8);
    t.push(50u8);
    proof {
        assert(t@ =~= seq![105u8, 51u8, 50u8]);
    }
    if bytes_eq(s, t.as_slice()) {
        return Some(ValueType::I32);
    }
    let mut t2: Vec<u8> = Vec::new();
    t2.push(105u8);
    t2.push(54u8);
    t2.push(52u8);
    proof {
        assert(t2@ =~= seq![105u8, 54u8, 52u8]);
    }
    if bytes_eq(s, t2.as_slice()) {
        return Some(ValueType::I64);
    }
    let mut t3: Vec<u8> = Vec::new();
    t3.push(102u8);
    t3.push(51u8);
    t3.push(50u8);
    proof {
        assert(t3@ =~= seq![102u8, 51u8, 50u8]);
    }
    if bytes_eq(s, t3.as_slice()) {
        return Some(ValueType::F32);
    }
    let mut t4: Vec<u8> = Vec::new();
    t4.push(102u8);
    t4.push(54u8);
    t4.push(52u8);
    proof {
        assert(t4@ =~= seq![102u8, 54u8, 52u8]);
    }
    if bytes_eq(s, t4.as_slice()) {
        return Some(ValueType::F64);
    }
    None
}

#[verifier::loop_isolation(false)]
fn types_of_bytes(field: &[u8]) -> (r: Result<Vec<ValueType>, Error>)
    ensures
        match types_of(field@) {
            Ok(tys) => r matches Ok(v) && v@ == tys,
            Err(e) => r matches Err(e2) && e2 == e,
        },
{
    let t = trim_bytes(field);
    if t.len() == 0 {
        return Ok(Vec::new());
    }
    let segs = split_bytes(t.as_slice(), 44);
    let ghost sv = split_r(trim(field@), 44);
    let mut tys: Vec<ValueType> = Vec::new();
    proof {
        assert(tys@ =~= Seq::<ValueType>::empty());
    }
    let mut j: usize = 0;
    while j < segs.len()
        invariant
            views_of(segs@) == sv,
            segs@.len() == sv.len(),
            0 <= j <= sv.len(),
            types_of_segs(sv, j as int) == Ok::<Seq<ValueType>, Error>(tys@),
        decreases sv.len() - j,
    {
        let seg = trim_bytes(segs[j].as_slice());
        proof {
            assert(sv[j as int] == segs@[j as int]@);
        }
        if seg.len() > 0 {
            match token_type_bytes(seg.as_slice()) {
                Some(v) => {
                    tys.push(v);
                },
                None => {
                    proof {
                        assert(types_of_segs(sv, j as int + 1) == Err::<Seq<ValueType>, Error>(
                            Error::UnsupportedType,
                        ));
                        lemma_types_err_propagates(sv, j as int + 1, Error::UnsupportedType);
                    }
                    return Err(Error::UnsupportedType);
                },
            }
        }
        j = j + 1;
    }
    Ok(tys)
}

fn entry_of_bytes(seg: &[u8]) -> (r: Result<(Vec<u8>, Vec<ValueType>), Error>)
    ensures
        match entry_of(seg@) {
            Ok(p) => r matches Ok(q) && q.0@ == p.0 && q.1@ == p.1,
            Err(e) => r matches Err(e2) && e2 == e,
        },
{
    let parts = split_bytes(seg, 58);
    proof {
        assert(split_r(seg@, 58)[0] == parts@[0]@);
        if parts@.len() == 2 {
            assert(split_r(seg@, 58)[1] == parts@[1]@);
        }
    }
    if parts.len() != 2 {
        return Err(Error::MalformedSignature);
    }
    let name = trim_bytes(parts[0].as_slice());
    if name.len() == 0 {
        return Err(Error::MalformedSignature);
    }
    match types_of_bytes(parts[1].as_slice()) {
        Ok(tys) => Ok((name, tys)),
        Err(e) => Err(e),
    }
}

/// Insert one parsed entry, overwriting the types of an entry that already
/// carries the same name.
#[verifier::loop_isolation(false)]
fn upsert_entry(acc: &mut Vec<(Vec<u8>, Vec<ValueType>)>, name: Vec<u8>, tys: Vec<ValueType>)
    ensures
        entry_views(final(acc)@) == upsert(entry_views(old(acc)@), name@, tys@),
{
    let ghost acc0 = entry_views(acc@);
    let n = acc.len();
    let mut i: usize = 0;
    while i < n
        invariant
            n == acc@.len(),
            acc0 == entry_views(acc@),
            0 <= i <= n,
            first_entry_named(acc0, name@, 0) == first_entry_named(acc0, name@, i as int),
        decreases n - i,
    {
        proof {
            assert(acc0[i as int] == (acc@[i as int].0@, acc@[i as int].1@));
        }
        if bytes_eq(acc[i].0.as_slice(), name.as_slice()) {
            proof {
                assert(first_entry_named(acc0, name@, i as int) == Some(i as int));
            }
            let ghost prev = acc@;
            let ghost nv = name@;
            let ghost tv = tys@;
            acc.set(i, (name, tys));
            proof {
                assert(acc@ == prev.update(i as int, (acc@[i as int].0, acc@[i as int].1)));
                assert(acc@[i as int].0@ == nv && acc@[i as int].1@ == tv);
                assert(upsert(acc0, nv, tv) == acc0.update(i as int, (nv, tv)));
                assert forall|x: int| 0 <= x < acc@.len() implies #[trigger] entry_views(acc@)[x]
                    == acc0.update(i as int, (nv, tv))[x] by {
                    assert(entry_views(acc@)[x] == (acc@[x].0@, acc@[x].1@));
                    assert(entry_views(prev)[x] == (prev[x].0@, prev[x].1@));
                }
                assert(entry_views(acc@) =~= acc0.update(i as int, (nv, tv)));
            }
            return ;
        }
        proof {
            assert(first_entry_named(acc0, name@, i as int) == first_entry_named(
                acc0,
                name@,
                i as int + 1,
            ));
        }
        i = i + 1;
    }
    let ghost prev = acc@;
    let ghost nv = name@;
    let ghost tv = tys@;
    acc.push((name, tys));
    proof {
        assert(first_entry_named(acc0, nv, n as int) is None);
        assert forall|x: int| 0 <= x < acc@.len() implies #[trigger] entry_views(acc@)[x]
            == acc0.push((nv, tv))[x] by {
            assert(entry_views(acc@)[x] == (acc@[x].0@, acc@[x].1@));
            if x < n {
                assert(entry_views(prev)[x] == (prev[x].0@, prev[x].1@));
            }
        }
        assert(entry_views(acc@) =~= acc0.push((nv, tv)));
    }
}

/// Parse a whole signature string of the form `name:type,type;name2:type`
/// (whitespace ignored, types among i32, i64, f32 and f64, a repeated name
/// overwriting the earlier entry) into the request list the conversion
/// takes. An empty or entry-free string is rejected.
#[verifier::loop_isolation(false)]
pub fn parse_signatures(s: &[u8]) -> (r: Result<Vec<(Vec<u8>, Vec<ValueType>)>, Error>)
    ensures
        match signatures_of(s@) {
            Ok(entries) => r matches Ok(v) && entry_views(v@) == entries,
            Err(e) => r matches Err(e2) && e2 == e,
        },
{
    let stripped = strip_spaces_bytes(s);
    let segs = split_bytes(stripped.as_slice(), 59);
    let ghost sv = split_r(strip_spaces(s@), 59);
    let mut acc: Vec<(Vec<u8>, Vec<ValueType>)> = Vec::new();
    proof {
        assert(entry_views(acc@) =~= Seq::<(Seq<u8>, Seq<ValueType>)>::empty());
    }
    let mut j: usize = 0;
    while j < segs.len()
        invariant
            views_of(segs@) == sv,
            segs@.len() == sv.len(),
            0 <= j <= sv.len(),
            entries_of_segs(sv, 0, Seq::empty()) == entries_of_segs(
                sv,
                j as int,
                entry_views(acc@),
            ),
        decreases sv.len() - j,
    {
        proof {
            assert(sv[j as int] == segs@[j as int]@);
        }
        if segs[j].len() > 0 {
            match entry_of_bytes(segs[j].as_slice()) {
                Ok((name, tys)) => {
                    upsert_entry(&mut acc, name, tys);
                },
                Err(e) => {
                    return Err(e);
                },
            }
        }
        j = j + 1;
    }
    if acc.len() == 0 {
        return Err(Error::NoFunctionsRequested);
    }
    Ok(acc)
}

} // verus!
