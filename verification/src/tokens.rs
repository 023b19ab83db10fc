//! Splitting of header values into the pieces that lists are made of.

use crate::ascii::{eq_ignore_ascii_case, eq_ignore_case};
use vstd::prelude::*;
use vstd::slice::slice_subrange;

verus! {

/// The pieces of `s` that lie between separators: a string with `n`
/// separators has `n + 1` pieces, some of which may be empty.
pub open spec fn split(s: Seq<u8>, is_sep: spec_fn(u8) -> bool) -> Seq<Seq<u8>>
    decreases s.len(),
{
    if s.len() == 0 {
        seq![Seq::<u8>::empty()]
    } else if is_sep(s.last()) {
        split(s.drop_last(), is_sep).push(Seq::<u8>::empty())
    } else {
        let before = split(s.drop_last(), is_sep);
        before.drop_last().push(before.last().push(s.last()))
    }
}

/// What separates the entries of a list: the comma, and the space too where
/// `space_too` is set.
pub open spec fn list_sep(space_too: bool) -> spec_fn(u8) -> bool {
    |b: u8| b == 44 || (space_too && b == 32)
}

/// The byte is blank: a space or a horizontal tab.
pub open spec fn is_blank(b: u8) -> bool {
    b == 32 || b == 9
}

/// `s` without the blanks it starts with.
pub open spec fn trim_start(s: Seq<u8>) -> Seq<u8>
    decreases s.len(),
{
    if s.len() > 0 && is_blank(s[0]) {
        trim_start(s.drop_first())
    } else {
        s
    }
}

/// `s` without the blanks it ends with.
pub open spec fn trim_end(s: Seq<u8>) -> Seq<u8>
    decreases s.len(),
{
    if s.len() > 0 && is_blank(s.last()) {
        trim_end(s.drop_last())
    } else {
        s
    }
}

/// `s` without the blanks at either end.
pub open spec fn trim(s: Seq<u8>) -> Seq<u8> {
    trim_end(trim_start(s))
}

/// Some entry of the comma- or space-separated list `value` equals `target`
/// up to ASCII case.
pub open spec fn has_token(value: Seq<u8>, target: Seq<u8>) -> bool {
    exists|k: int|
        0 <= k < split(value, list_sep(true)).len() && eq_ignore_case(
            #[trigger] split(value, list_sep(true))[k],
            target,
        )
}

/// Some entry of the comma-separated list `value` is `name`, once the blanks
/// around the entry are set aside. The empty name is never listed.
pub open spec fn lists_name(value: Seq<u8>, name: Seq<u8>) -> bool {
    name.len() > 0 && exists|k: int|
        0 <= k < split(value, list_sep(false)).len() && trim(
            #[trigger] split(value, list_sep(false))[k],
        ) == name
}

/// Splitting never yields an empty list.
pub proof fn split_nonempty(s: Seq<u8>, is_sep: spec_fn(u8) -> bool)
    ensures
        split(s, is_sep).len() >= 1,
    decreases s.len(),
{
    if s.len() > 0 {
        split_nonempty(s.drop_last(), is_sep);
    }
}

/// One more byte either closes the last piece or extends it.
proof fn split_step(s: Seq<u8>, i: int, is_sep: spec_fn(u8) -> bool)
    requires
        0 <= i < s.len(),
    ensures
        split(s.take(i), is_sep).len() >= 1,
        is_sep(s[i]) ==> split(s.take(i + 1), is_sep) == split(s.take(i), is_sep).push(
            Seq::<u8>::empty(),
        ),
        !is_sep(s[i]) ==> split(s.take(i + 1), is_sep) == split(
            s.take(i),
            is_sep,
        ).drop_last().push(split(s.take(i), is_sep).last().push(s[i])),
{
    split_nonempty(s.take(i), is_sep);
    assert(s.take(i + 1).drop_last() =~= s.take(i));
    assert(s.take(i + 1).last() == s[i]);
}

/// The bounds mark out, in order, the pieces of `value`.
pub open spec fn marks_pieces(bounds: Seq<(usize, usize)>, value: Seq<u8>, pieces: Seq<Seq<u8>>) -> bool {
    &&& bounds.len() == pieces.len()
    &&& forall|k: int|
        0 <= k < bounds.len() ==> {
            &&& (#[trigger] bounds[k]).0 <= bounds[k].1 <= value.len()
            &&& value.subrange(bounds[k].0 as int, bounds[k].1 as int) == pieces[k]
        }
}

/// Splits a list at its separators and returns where each piece starts and ends.
pub fn piece_bounds(value: &[u8], space_too: bool) -> (r: Vec<(usize, usize)>)
    ensures
        marks_pieces(r@, value@, split(value@, list_sep(space_too))),
{
    let ghost sep = list_sep(space_too);
    let mut done: Vec<(usize, usize)> = Vec::new();
    let mut start: usize = 0;
    let mut i: usize = 0;
    assert(value@.take(0) =~= Seq::<u8>::empty());
    assert(value@.subrange(0, 0) =~= Seq::<u8>::empty());
    assert(split(value@.take(0), sep).drop_last() =~= Seq::<Seq<u8>>::empty());
    while i < value.len()
        invariant
            start <= i <= value.len(),
            sep == list_sep(space_too),
            split(value@.take(i as int), sep).len() >= 1,
            split(value@.take(i as int), sep).last() == value@.subrange(start as int, i as int),
            marks_pieces(done@, value@, split(value@.take(i as int), sep).drop_last()),
        decreases value.len() - i,
    {
        let ghost before = split(value@.take(i as int), sep);
        let ghost after = split(value@.take(i + 1), sep);
        proof {
            split_step(value@, i as int, sep);
        }
        let b = value[i];
        if b == 44 || (space_too && b == 32) {
            let ghost old_done = done@;
            done.push((start, i));
            proof {
                assert(after.drop_last() =~= before);
                assert forall|k: int| 0 <= k < done@.len() implies {
                    &&& (#[trigger] done@[k]).0 <= done@[k].1 <= value@.len()
                    &&& value@.subrange(done@[k].0 as int, done@[k].1 as int) == before[k]
                } by {
                    if k < old_done.len() {
                        assert(done@[k] == old_done[k]);
                        assert(before.drop_last()[k] == before[k]);
                    }
                }
                assert(value@.subrange(i + 1, i + 1) =~= Seq::<u8>::empty());
            }
            start = i + 1;
        } else {
            proof {
                assert(after.drop_last() =~= before.drop_last());
                assert(value@.subrange(start as int, i + 1) =~= value@.subrange(
                    start as int,
                    i as int,
                ).push(value@[i as int]));
            }
        }
        i += 1;
    }
    let ghost all = split(value@, sep);
    let ghost old_done = done@;
    done.push((start, i));
    proof {
        assert(value@.take(i as int) =~= value@);
        assert forall|k: int| 0 <= k < done@.len() implies {
            &&& (#[trigger] done@[k]).0 <= done@[k].1 <= value@.len()
            &&& value@.subrange(done@[k].0 as int, done@[k].1 as int) == all[k]
        } by {
            if k < old_done.len() {
                assert(done@[k] == old_done[k]);
                assert(all.drop_last()[k] == all[k]);
            }
        }
    }
    done
}

/// Whether some entry of a comma- or space-separated list equals `target`
/// up to ASCII case.
pub fn list_has_token(value: &[u8], target: &[u8]) -> (r: bool)
    ensures
        r == has_token(value@, target@),
{
    let bounds = piece_bounds(value, true);
    let ghost pieces = split(value@, list_sep(true));
    let mut k: usize = 0;
    while k < bounds.len()
        invariant
            k <= bounds.len(),
            pieces == split(value@, list_sep(true)),
            marks_pieces(bounds@, value@, pieces),
            forall|j: int| 0 <= j < k ==> !eq_ignore_case(#[trigger] pieces[j], target@),
        decreases bounds.len() - k,
    {
        let (a, b) = bounds[k];
        assert(bounds@[k as int].0 <= bounds@[k as int].1 <= value@.len());
        if eq_ignore_ascii_case(slice_subrange(value, a, b), target) {
            assert(eq_ignore_case(pieces[k as int], target@));
            return true;
        }
        k += 1;
    }
    false
}

/// Where a piece of `value` starts and ends once the blanks around it are set aside.
pub fn trim_bounds(value: &[u8], from: usize, to: usize) -> (r: (usize, usize))
    requires
        from <= to <= value.len(),
    ensures
        from <= r.0 <= r.1 <= to,
        value@.subrange(r.0 as int, r.1 as int) == trim(value@.subrange(from as int, to as int)),
{
    let mut a = from;
    while a < to && (value[a] == 32 || value[a] == 9)
        invariant
            from <= a <= to <= value.len(),
            trim_start(value@.subrange(from as int, to as int)) == trim_start(
                value@.subrange(a as int, to as int),
            ),
        decreases to - a,
    {
        assert(value@.subrange(a as int, to as int).drop_first() =~= value@.subrange(
            a + 1,
            to as int,
        ));
        a += 1;
    }
    assert(trim_start(value@.subrange(a as int, to as int)) == value@.subrange(
        a as int,
        to as int,
    ));
    let mut b = to;
    while a < b && (value[b - 1] == 32 || value[b - 1] == 9)
        invariant
            a <= b <= to <= value.len(),
            trim_end(value@.subrange(a as int, to as int)) == trim_end(
                value@.subrange(a as int, b as int),
            ),
        decreases b - a,
    {
        assert(value@.subrange(a as int, b as int).drop_last() =~= value@.subrange(
            a as int,
            b - 1,
        ));
        b -= 1;
    }
    (a, b)
}

/// Whether two byte strings are the same.
pub fn bytes_eq(a: &[u8], b: &[u8]) -> (r: bool)
    ensures
        r == (a@ == b@),
{
    if a.len() != b.len() {
        return false;
    }
    let mut i: usize = 0;
    while i < a.len()
        invariant
            a.len() == b.len(),
            i <= a.len(),
            forall|j: int| 0 <= j < i ==> a@[j] == b@[j],
        decreases a.len() - i,
    {
        if a[i] != b[i] {
            return false;
        }
        i += 1;
    }
    assert(a@ =~= b@);
    true
}

/// Whether a comma-separated list names `name`, blanks around its entries set aside.
pub fn list_names(value: &[u8], name: &[u8]) -> (r: bool)
    ensures
        r == lists_name(value@, name@),
{
    if name.len() == 0 {
        return false;
    }
    let bounds = piece_bounds(value, false);
    let ghost pieces = split(value@, list_sep(false));
    let mut k: usize = 0;
    while k < bounds.len()
        invariant
            k <= bounds.len(),
            pieces == split(value@, list_sep(false)),
            marks_pieces(bounds@, value@, pieces),
            name@.len() > 0,
            forall|j: int| 0 <= j < k ==> trim(#[trigger] pieces[j]) != name@,
        decreases bounds.len() - k,
    {
        let (from, to) = bounds[k];
        assert(bounds@[k as int].0 <= bounds@[k as int].1 <= value@.len());
        let (a, b) = trim_bounds(value, from, to);
        if bytes_eq(slice_subrange(value, a, b), name) {
            assert(trim(pieces[k as int]) == name@);
            return true;
        }
        k += 1;
    }
    false
}

} // verus!
