//! Who is engaged in a match.  The bot keeps one list of the ids of the
//! users that play a match at the moment; a user on the list cannot join
//! another match until the first one releases them.
use vstd::prelude::*;

verus! {

/// Key of the shared slot that holds the list of engaged user ids.
pub struct Engaged;

/// `ids[k]` is the first of `ids` that is already engaged.
pub open spec fn first_engaged_at(engaged: Seq<Seq<char>>, ids: Seq<Seq<char>>, k: int) -> bool {
    &&& 0 <= k < ids.len()
    &&& engaged.contains(ids[k])
    &&& forall|j: int| 0 <= j < k ==> !engaged.contains(#[trigger] ids[j])
}

/// None of `ids` is engaged.
pub open spec fn all_free(engaged: Seq<Seq<char>>, ids: Seq<Seq<char>>) -> bool {
    forall|j: int| 0 <= j < ids.len() ==> !engaged.contains(#[trigger] ids[j])
}

/// The message of the error that names an engaged user.
pub open spec fn status_message(id: Seq<char>) -> Seq<char> {
    "status: "@ + id
}

/// The list after `ids` are released: every entry that is one of `ids` is
/// dropped, the others keep their order.
pub open spec fn released(engaged: Seq<Seq<char>>, ids: Seq<Seq<char>>) -> Seq<Seq<char>> {
    engaged.filter(|x: Seq<char>| !ids.contains(x))
}

/// What `check_status` answers for `ids`.
pub open spec fn status_checked(r: Result<(), String>, engaged: Seq<Seq<char>>, ids: Seq<Seq<char>>) -> bool {
    match r {
        Ok(_) => all_free(engaged, ids),
        Err(e) => exists|k: int| first_engaged_at(engaged, ids, k) && e@ == status_message(ids[k]),
    }
}

/// Whether the string `x` is one of `v`.
pub fn holds_id(v: &Vec<String>, x: &String) -> (r: bool)
    ensures
        r == v.deep_view().contains(x@),
{
    let mut i: usize = 0;
    while i < v.len()
        invariant
            i <= v.len(),
            forall|j: int| 0 <= j < i ==> v.deep_view()[j] != x@,
        decreases v.len() - i,
    {
        if v[i] == *x {
            assert(v.deep_view()[i as int] == x@);
            return true;
        }
        i = i + 1;
    }
    assert forall|j: int| 0 <= j < v.deep_view().len() implies v.deep_view()[j] != x@ by {}
    false
}

/// Fails with `status: <id>` for the first of `ids` that is engaged, and
/// succeeds when none of them is.
pub fn check_status(engaged: &Vec<String>, ids: &Vec<String>) -> (r: Result<(), String>)
    ensures
        status_checked(r, engaged.deep_view(), ids.deep_view()),
{
    let ghost e = engaged.deep_view();
    let ghost d = ids.deep_view();
    let mut i: usize = 0;
    while i < ids.len()
        invariant
            i <= ids.len(),
            e == engaged.deep_view(),
            d == ids.deep_view(),
            forall|j: int| 0 <= j < i ==> !e.contains(#[trigger] d[j]),
        decreases ids.len() - i,
    {
        if holds_id(engaged, &ids[i]) {
            let mut msg = "status: ".to_owned();
            msg.append(ids[i].as_str());
            assert(first_engaged_at(e, d, i as int));
            return Err(msg);
        }
        i = i + 1;
    }
    Ok(())
}

/// Marks `ids` as engaged, unless one of them already is: then the list is
/// left as it was and the error names the first such id.
pub fn engage(engaged: &mut Vec<String>, ids: &Vec<String>) -> (r: Result<(), String>)
    ensures
        status_checked(r, old(engaged).deep_view(), ids.deep_view()),
        r is Ok ==> final(engaged).deep_view() == old(engaged).deep_view() + ids.deep_view(),
        r is Err ==> final(engaged).deep_view() == old(engaged).deep_view(),
{
    let r = check_status(engaged, ids);
    if r.is_err() {
        return r;
    }
    let ghost start = engaged.deep_view();
    let mut i: usize = 0;
    while i < ids.len()
        invariant
            i <= ids.len(),
            engaged.deep_view() == start + ids.deep_view().take(i as int),
        decreases ids.len() - i,
    {
        let ghost prev = engaged.deep_view();
        let c = ids[i].clone();
        assert(c@ == ids.deep_view()[i as int]);
        engaged.push(c);
        assert(engaged.deep_view() =~= prev.push(c@));
        assert(ids.deep_view().take(i + 1) =~= ids.deep_view().take(i as int).push(ids.deep_view()[i as int]));
        assert(engaged.deep_view() =~= start + ids.deep_view().take(i + 1));
        i = i + 1;
    }
    assert(ids.deep_view().take(ids.len() as int) =~= ids.deep_view());
    r
}

/// Releases `ids`: every entry of the list that is one of them goes.
pub fn fix_status(engaged: &mut Vec<String>, ids: &Vec<String>)
    ensures
        final(engaged).deep_view() == released(old(engaged).deep_view(), ids.deep_view()),
{
    let ghost start = engaged.deep_view();
    let ghost d = ids.deep_view();
    let ghost keep = |x: Seq<char>| !d.contains(x);
    let mut out: Vec<String> = Vec::new();
    let mut i: usize = 0;
    while i < engaged.len()
        invariant
            i <= engaged.len(),
            start == engaged.deep_view(),
            d == ids.deep_view(),
            keep == (|x: Seq<char>| !d.contains(x)),
            out.deep_view() == start.take(i as int).filter(keep),
        decreases engaged.len() - i,
    {
        let ghost before = start.take(i as int);
        proof {
            assert(start.take(i + 1) =~= before.push(start[i as int]));
            before.lemma_filter_push(start[i as int], keep);
        }
        if !holds_id(ids, &engaged[i]) {
            out.push(engaged[i].clone());
            assert(out.deep_view() =~= before.filter(keep).push(start[i as int]));
        }
        i = i + 1;
    }
    assert(start.take(start.len() as int) =~= start);
    *engaged = out;
}

} // verus!

verus! {

/// Filtering with a predicate that holds of every element keeps the
/// sequence as it is.
proof fn lemma_filter_keeps_all(s: Seq<Seq<char>>, p: spec_fn(Seq<char>) -> bool)
    requires
        forall|i: int| 0 <= i < s.len() ==> p(#[trigger] s[i]),
    ensures
        s.filter(p) == s,
    decreases s.len(),
{
    reveal(Seq::filter);
    if s.len() > 0 {
        lemma_filter_keeps_all(s.drop_last(), p);
        assert(s.drop_last().push(s.last()) =~= s);
    }
}

/// Filtering with a predicate that holds of no element leaves nothing.
proof fn lemma_filter_drops_all(s: Seq<Seq<char>>, p: spec_fn(Seq<char>) -> bool)
    requires
        forall|i: int| 0 <= i < s.len() ==> !p(#[trigger] s[i]),
    ensures
        s.filter(p) == Seq::<Seq<char>>::empty(),
    decreases s.len(),
{
    reveal(Seq::filter);
    if s.len() > 0 {
        lemma_filter_drops_all(s.drop_last(), p);
    }
}

/// Engaging players who are all free and then releasing the same players
/// gives back the list of engaged players exactly as it was.
pub proof fn lemma_engage_then_release(engaged: Seq<Seq<char>>, ids: Seq<Seq<char>>)
    requires
        all_free(engaged, ids),
    ensures
        released(engaged + ids, ids) == engaged,
{
    let p = |x: Seq<char>| !ids.contains(x);
    Seq::filter_distributes_over_add(engaged, ids, p);
    assert forall|i: int| 0 <= i < engaged.len() implies p(#[trigger] engaged[i]) by {
        if ids.contains(engaged[i]) {
            let j = choose|j: int| 0 <= j < ids.len() && ids[j] == engaged[i];
            assert(engaged.contains(ids[j]));
        }
    }
    lemma_filter_keeps_all(engaged, p);
    assert forall|i: int| 0 <= i < ids.len() implies !p(#[trigger] ids[i]) by {
        assert(ids.contains(ids[i]));
    }
    lemma_filter_drops_all(ids, p);
    assert(engaged + Seq::<Seq<char>>::empty() =~= engaged);
}

/// Once players are engaged, a check of any group that holds one of them
/// fails.
pub proof fn lemma_engaged_players_are_busy(
    engaged: Seq<Seq<char>>,
    ids: Seq<Seq<char>>,
    others: Seq<Seq<char>>,
    k: int,
)
    requires
        0 <= k < others.len(),
        ids.contains(others[k]),
    ensures
        !all_free(engaged + ids, others),
{
    let j = choose|j: int| 0 <= j < ids.len() && ids[j] == others[k];
    assert((engaged + ids)[engaged.len() + j] == others[k]);
    assert((engaged + ids).contains(others[k]));
}

/// A player is never engaged twice: engaging distinct free players keeps
/// the list free of duplicates.
pub proof fn lemma_engaged_stays_distinct(engaged: Seq<Seq<char>>, ids: Seq<Seq<char>>)
    requires
        engaged.no_duplicates(),
        ids.no_duplicates(),
        all_free(engaged, ids),
    ensures
        (engaged + ids).no_duplicates(),
{
    assert forall|i: int, j: int| 0 <= i < engaged.len() && 0 <= j < ids.len() implies engaged[i] != ids[j] by {
        if engaged[i] == ids[j] {
            assert(engaged.contains(ids[j]));
        }
    }
    vstd::seq_lib::lemma_no_dup_in_concat(engaged, ids);
}

/// Releasing players frees exactly them: none of them stays engaged, and
/// every other engaged player stays engaged.
pub proof fn lemma_release_frees_exactly(engaged: Seq<Seq<char>>, ids: Seq<Seq<char>>, x: Seq<char>)
    ensures
        released(engaged, ids).contains(x) <==> (engaged.contains(x) && !ids.contains(x)),
{
    broadcast use vstd::seq_lib::group_filter_ensures;

    let p = |y: Seq<char>| !ids.contains(y);
    if engaged.contains(x) && !ids.contains(x) {
        let i = choose|i: int| 0 <= i < engaged.len() && engaged[i] == x;
        engaged.lemma_filter_contains(p, i);
    }
    if released(engaged, ids).contains(x) {
        engaged.lemma_filter_contains_rev(p, x);
    }
}

} // verus!
