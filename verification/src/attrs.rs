//! Reading attribute lists: the value of a key (last or first occurrence),
//! and numeric values that parse.
use vstd::prelude::*;
use crate::xml::attrs_view;

verus! {

pub type AttrsV = Seq<(Seq<char>, Seq<char>)>;

pub open spec fn names_view(ks: Seq<&str>) -> Seq<Seq<char>> {
    ks.map_values(|k: &str| k@)
}

/// The value of the last attribute whose key is one of `keys`, else `init`.
pub open spec fn last_of(attrs: AttrsV, keys: Seq<Seq<char>>, init: Option<Seq<char>>) -> Option<Seq<char>>
    decreases attrs.len(),
{
    if attrs.len() == 0 {
        init
    } else if keys.contains(attrs.last().0) {
        Some(attrs.last().1)
    } else {
        last_of(attrs.drop_last(), keys, init)
    }
}

/// The value of the first attribute whose key is one of `keys`.
pub open spec fn first_of(attrs: AttrsV, keys: Seq<Seq<char>>) -> Option<Seq<char>>
    decreases attrs.len(),
{
    if attrs.len() == 0 {
        None
    } else if keys.contains(attrs[0].0) {
        Some(attrs[0].1)
    } else {
        first_of(attrs.drop_first(), keys)
    }
}

/// The last value of one of `keys` that parses as a `u32` of at least `min`;
/// `init` when there is none.
pub open spec fn last_u32_of(attrs: AttrsV, keys: Seq<Seq<char>>, init: Option<u32>, min: u32) -> Option<u32>
    decreases attrs.len(),
{
    if attrs.len() == 0 {
        init
    } else {
        let prev = last_u32_of(attrs.drop_last(), keys, init, min);
        if keys.contains(attrs.last().0) {
            match crate::text::parse_bounded(attrs.last().1, u32::MAX as nat) {
                Some(n) => if n >= min { Some(n as u32) } else { prev },
                None => prev,
            }
        } else {
            prev
        }
    }
}

/// The last value of one of `keys` that parses as a `usize`; `init` when
/// there is none.
pub open spec fn last_usize_of(attrs: AttrsV, keys: Seq<Seq<char>>, init: usize) -> usize
    decreases attrs.len(),
{
    if attrs.len() == 0 {
        init
    } else {
        let prev = last_usize_of(attrs.drop_last(), keys, init);
        if keys.contains(attrs.last().0) {
            match crate::text::parse_bounded(attrs.last().1, usize::MAX as nat) {
                Some(n) => n as usize,
                None => prev,
            }
        } else {
            prev
        }
    }
}

/// Whether `k` is one of `keys`.
pub fn is_key(k: &String, keys: &Vec<&str>) -> (res: bool)
    ensures
        res == names_view(keys@).contains(k@),
{
    let ghost ns = names_view(keys@);
    let mut i: usize = 0;
    while i < keys.len()
        invariant
            0 <= i <= keys.len(),
            ns == names_view(keys@),
            forall|j: int| 0 <= j < i ==> ns[j] != k@,
        decreases keys.len() - i,
    {
        if crate::text::str_eq(k.as_str(), keys[i]) {
            assert(ns[i as int] == k@);
            return true;
        }
        i = i + 1;
    }
    false
}

/// The value of the last attribute keyed by one of `keys`.
pub fn last_value(attrs: &Vec<(String, String)>, keys: &Vec<&str>) -> (res: Option<String>)
    ensures
        crate::ir::opt_str_view(res) == last_of(attrs_view(attrs@), names_view(keys@), None),
{
    let ghost av = attrs_view(attrs@);
    let mut out: Option<String> = None;
    let mut i: usize = 0;
    while i < attrs.len()
        invariant
            0 <= i <= attrs.len(),
            av == attrs_view(attrs@),
            crate::ir::opt_str_view(out) == last_of(av.take(i as int), names_view(keys@), None),
        decreases attrs.len() - i,
    {
        assert(av.take(i + 1).drop_last() == av.take(i as int));
        assert(av.take(i + 1).last() == av[i as int]);
        if is_key(&attrs[i].0, keys) {
            out = Some(crate::text::str_to_string(attrs[i].1.as_str()));
        }
        i = i + 1;
    }
    assert(av.take(attrs.len() as int) == av);
    out
}

/// The value of the first attribute keyed by one of `keys`.
pub fn first_value(attrs: &Vec<(String, String)>, keys: &Vec<&str>) -> (res: Option<String>)
    ensures
        crate::ir::opt_str_view(res) == first_of(attrs_view(attrs@), names_view(keys@)),
{
    let ghost av = attrs_view(attrs@);
    let mut i: usize = 0;
    assert(av.subrange(0, av.len() as int) == av);
    while i < attrs.len()
        invariant
            0 <= i <= attrs.len(),
            av == attrs_view(attrs@),
            first_of(av, names_view(keys@)) == first_of(av.subrange(i as int, av.len() as int), names_view(keys@)),
        decreases attrs.len() - i,
    {
        assert(av.subrange(i as int, av.len() as int).drop_first() == av.subrange(i + 1, av.len() as int));
        if is_key(&attrs[i].0, keys) {
            return Some(crate::text::str_to_string(attrs[i].1.as_str()));
        }
        i = i + 1;
    }
    None
}

/// The last value of one of `keys` that parses as a `u32` of at least `min`.
pub fn last_u32(attrs: &Vec<(String, String)>, keys: &Vec<&str>, init: Option<u32>, min: u32) -> (res: Option<u32>)
    ensures
        res == last_u32_of(attrs_view(attrs@), names_view(keys@), init, min),
{
    let ghost av = attrs_view(attrs@);
    let mut out = init;
    let mut i: usize = 0;
    while i < attrs.len()
        invariant
            0 <= i <= attrs.len(),
            av == attrs_view(attrs@),
            out == last_u32_of(av.take(i as int), names_view(keys@), init, min),
        decreases attrs.len() - i,
    {
        assert(av.take(i + 1).drop_last() == av.take(i as int));
        assert(av.take(i + 1).last() == av[i as int]);
        if is_key(&attrs[i].0, keys) {
            match crate::text::parse_u32(attrs[i].1.as_str()) {
                Some(n) => if n >= min {
                    out = Some(n);
                },
                None => {},
            }
        }
        i = i + 1;
    }
    assert(av.take(attrs.len() as int) == av);
    out
}

/// The last value of one of `keys` that parses as a `usize`.
pub fn last_usize(attrs: &Vec<(String, String)>, keys: &Vec<&str>, init: usize) -> (res: usize)
    ensures
        res == last_usize_of(attrs_view(attrs@), names_view(keys@), init),
{
    let ghost av = attrs_view(attrs@);
    let mut out = init;
    let mut i: usize = 0;
    while i < attrs.len()
        invariant
            0 <= i <= attrs.len(),
            av == attrs_view(attrs@),
            out == last_usize_of(av.take(i as int), names_view(keys@), init),
        decreases attrs.len() - i,
    {
        assert(av.take(i + 1).drop_last() == av.take(i as int));
        assert(av.take(i + 1).last() == av[i as int]);
        if is_key(&attrs[i].0, keys) {
            match crate::text::parse_usize(attrs[i].1.as_str()) {
                Some(n) => {
                    out = n;
                },
                None => {},
            }
        }
        i = i + 1;
    }
    assert(av.take(attrs.len() as int) == av);
    out
}

} // verus!
