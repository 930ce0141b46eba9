//! The locale preference list of a request.
use vstd::prelude::*;

verus! {

/// The locales of `s` with every repeat after the first occurrence removed.
pub open spec fn first_occurrences(s: Seq<Seq<char>>) -> Seq<Seq<char>>
    decreases s.len(),
{
    if s.len() == 0 {
        Seq::empty()
    } else {
        let kept = first_occurrences(s.drop_last());
        if kept.contains(s.last()) {
            kept
        } else {
            kept.push(s.last())
        }
    }
}

/// The resolved list: the header's locales, highest priority first and each
/// once, then the default language where it is set and not already listed.
pub open spec fn resolved_locales(header: Seq<Seq<char>>, default: Option<Seq<char>>) -> Seq<
    Seq<char>,
> {
    let kept = first_occurrences(header);
    match default {
        Some(d) => if kept.contains(d) {
            kept
        } else {
            kept.push(d)
        },
        None => kept,
    }
}

pub open spec fn no_duplicates(s: Seq<Seq<char>>) -> bool {
    forall|i: int, j: int| 0 <= i < s.len() && 0 <= j < s.len() && s[i] == s[j] ==> i == j
}

pub open spec fn locales_view(v: Seq<String>) -> Seq<Seq<char>> {
    v.map_values(|s: String| s@)
}

proof fn lemma_first_occurrences(s: Seq<Seq<char>>)
    ensures
        no_duplicates(first_occurrences(s)),
        forall|x: Seq<char>| first_occurrences(s).contains(x) <==> s.contains(x),
    decreases s.len(),
{
    if s.len() > 0 {
        lemma_first_occurrences(s.drop_last());
        let kept = first_occurrences(s.drop_last());
        assert forall|x: Seq<char>| s.contains(x) <==> (s.drop_last().contains(x) || x == s.last()) by {
            if s.contains(x) {
                let k = choose|k: int| 0 <= k < s.len() && s[k] == x;
                if k < s.len() - 1 {
                    assert(s.drop_last()[k] == x);
                }
            }
            if x == s.last() {
                assert(s[s.len() - 1] == x);
            }
            if s.drop_last().contains(x) {
                let k = choose|k: int| 0 <= k < s.len() - 1 && s.drop_last()[k] == x;
                assert(s[k] == x);
            }
        }
        if !kept.contains(s.last()) {
            let p = kept.push(s.last());
            assert forall|x: Seq<char>| p.contains(x) <==> (kept.contains(x) || x == s.last()) by {
                if p.contains(x) {
                    let k = choose|k: int| 0 <= k < p.len() && p[k] == x;
                    if k < kept.len() {
                        assert(kept[k] == x);
                    }
                }
                if x == s.last() {
                    assert(p[kept.len() as int] == x);
                }
                if kept.contains(x) {
                    let k = choose|k: int| 0 <= k < kept.len() && kept[k] == x;
                    assert(p[k] == x);
                }
            }
            assert forall|i: int, j: int|
                0 <= i < p.len() && 0 <= j < p.len() && p[i] == p[j] implies i == j by {
                if i < kept.len() && j == kept.len() {
                    assert(kept[i] == s.last());
                }
                if j < kept.len() && i == kept.len() {
                    assert(kept[j] == s.last());
                }
            }
        }
    }
}

/// Law of the resolved list: it holds no locale twice, and a configured
/// default language stands in it exactly once.
pub proof fn lemma_resolved_locales_unique(header: Seq<Seq<char>>, default: Option<Seq<char>>)
    ensures
        no_duplicates(resolved_locales(header, default)),
        default is Some ==> resolved_locales(header, default).contains(default->0),
{
    lemma_first_occurrences(header);
    let kept = first_occurrences(header);
    if default is Some && !kept.contains(default->0) {
        let d = default->0;
        let p = kept.push(d);
        assert(p[kept.len() as int] == d);
        assert forall|i: int, j: int|
            0 <= i < p.len() && 0 <= j < p.len() && p[i] == p[j] implies i == j by {
            if i < kept.len() && j == kept.len() {
                assert(kept[i] == d);
            }
            if j < kept.len() && i == kept.len() {
                assert(kept[j] == d);
            }
        }
    }
}

fn contains_locale(list: &Vec<String>, x: &String) -> (r: bool)
    ensures
        r == locales_view(list@).contains(x@),
{
    let mut i: usize = 0;
    while i < list.len()
        invariant
            i <= list@.len(),
            forall|k: int| 0 <= k < i ==> list@[k]@ != x@,
        decreases list@.len() - i,
    {
        if list[i] == *x {
            assert(locales_view(list@)[i as int] == x@);
            return true;
        }
        i = i + 1;
    }
    assert forall|k: int| 0 <= k < locales_view(list@).len() implies locales_view(list@)[k] != x@ by {
        assert(locales_view(list@)[k] == list@[k]@);
    }
    false
}

/// Resolves the locale list of a request from the locales its
/// `Accept-Language` header names, highest priority first, and the default
/// language of the process.
pub fn resolve_locales(header: &Vec<String>, default: Option<&String>) -> (r: Vec<String>)
    ensures
        locales_view(r@) == resolved_locales(
            locales_view(header@),
            match default {
                Some(d) => Some(d@),
                None => None,
            },
        ),
        no_duplicates(locales_view(r@)),
        default is Some ==> locales_view(r@).contains(default->0@),
{
    let ghost h = locales_view(header@);
    let mut out: Vec<String> = Vec::new();
    let mut i: usize = 0;
    while i < header.len()
        invariant
            i <= header@.len(),
            h == locales_view(header@),
            locales_view(out@) == first_occurrences(h.take(i as int)),
        decreases header@.len() - i,
    {
        assert(h.take(i as int + 1).drop_last() =~= h.take(i as int));
        assert(h.take(i as int + 1).last() == header@[i as int]@);
        let ghost before = out@;
        if !contains_locale(&out, &header[i]) {
            out.push(header[i].clone());
            assert(locales_view(out@) =~= locales_view(before).push(header@[i as int]@));
        }
        i = i + 1;
    }
    assert(h.take(header@.len() as int) =~= h);
    match default {
        Some(d) => {
            let ghost before = out@;
            if !contains_locale(&out, d) {
                out.push(d.clone());
                assert(locales_view(out@) =~= locales_view(before).push(d@));
            }
        },
        None => {},
    }
    proof {
        lemma_resolved_locales_unique(h, match default { Some(d) => Some(d@), None => None });
    }
    out
}

} // verus!
