use vstd::prelude::*;

verus! {

/// Whether `s` begins with `prefix`.
pub open spec fn starts_with(s: Seq<char>, prefix: Seq<char>) -> bool {
    prefix.len() <= s.len() && s.subrange(0, prefix.len() as int) == prefix
}

/// Whether one of the three names of a generated type (owned, borrowed, mutable) begins with
/// `inner`.
pub open spec fn collides(names: (Seq<char>, Seq<char>, Seq<char>), inner: Seq<char>) -> bool {
    starts_with(names.0, inner) || starts_with(names.1, inner) || starts_with(names.2, inner)
}

/// The longest of the three names.
pub open spec fn longest(names: (Seq<char>, Seq<char>, Seq<char>)) -> nat {
    if names.0.len() >= names.1.len() && names.0.len() >= names.2.len() {
        names.0.len()
    } else if names.1.len() >= names.2.len() {
        names.1.len()
    } else {
        names.2.len()
    }
}

/// `inner` with underscores in front until none of the three names begins with it.
pub open spec fn free_of(names: (Seq<char>, Seq<char>, Seq<char>), inner: Seq<char>) -> Seq<char>
    decreases longest(names) + 1 - inner.len(),
{
    if collides(names, inner) {
        free_of(names, seq!['_'] + inner)
    } else {
        inner
    }
}

/// The name for the inner types of a property type: `Inner`, with underscores in front as
/// the names of the referenced types, taken in order, demand.
pub open spec fn inner_name_for(names: Seq<(Seq<char>, Seq<char>, Seq<char>)>) -> Seq<char>
    decreases names.len(),
{
    if names.len() == 0 {
        "Inner"@
    } else {
        free_of(names.last(), inner_name_for(names.drop_last()))
    }
}

/// Whether `s` begins with `prefix`.
fn str_starts_with(s: &str, prefix: &str) -> (r: bool)
    ensures
        r == starts_with(s@, prefix@),
{
    let n = prefix.unicode_len();
    let m = s.unicode_len();
    if n > m {
        return false;
    }
    let mut k: usize = 0;
    while k < n
        invariant
            n == prefix@.len(),
            m == s@.len(),
            n <= m,
            k <= n,
            forall|j: int| 0 <= j < k ==> s@[j] == prefix@[j],
        decreases n - k,
    {
        if s.get_char(k) != prefix.get_char(k) {
            assert(s@.subrange(0, n as int)[k as int] != prefix@[k as int]);
            return false;
        }
        k = k + 1;
    }
    assert(s@.subrange(0, n as int) =~= prefix@);
    true
}

/// The name for the inner types of a property type, given the names (owned, borrowed,
/// mutable) of the types that it references: `Inner`, with an underscore put in front while
/// a name of the type at hand begins with it, type after type.
pub fn inner_name(names: &Vec<(String, String, String)>) -> (r: String)
    ensures
        r@ == inner_name_for(names@.map_values(|n: (String, String, String)| (n.0@, n.1@, n.2@))),
{
    let ghost views = names@.map_values(|n: (String, String, String)| (n.0@, n.1@, n.2@));
    proof {
        reveal_strlit("Inner");
        reveal_strlit("_");
    }
    let mut inner = "Inner".to_string();
    let mut i: usize = 0;
    while i < names.len()
        invariant
            i <= names@.len(),
            views == names@.map_values(|n: (String, String, String)| (n.0@, n.1@, n.2@)),
            inner@ == inner_name_for(views.take(i as int)),
        decreases names@.len() - i,
    {
        let ghost start = inner@;
        let (name, name_ref, name_mut) = &names[i];
        let ghost these = views[i as int];
        assert(views.take(i + 1).drop_last() =~= views.take(i as int));
        assert(views.take(i + 1).last() == these);
        // ensures that the new identifier is tested for a collision too
        loop
            invariant
                these == (name@, name_ref@, name_mut@),
                free_of(these, inner@) == free_of(these, start),
            ensures
                inner@ == free_of(these, start),
            decreases longest(these) + 1 - inner@.len(),
        {
            let collision = str_starts_with(name.as_str(), inner.as_str()) || str_starts_with(
                name_ref.as_str(),
                inner.as_str(),
            ) || str_starts_with(name_mut.as_str(), inner.as_str());
            if !collision {
                break;
            }
            proof {
                reveal_strlit("_");
                assert(collides(these, inner@));
                assert(inner@.len() <= longest(these));
                assert(free_of(these, inner@) == free_of(these, seq!['_'] + inner@));
            }
            let mut prefixed = "_".to_string();
            prefixed.append(inner.as_str());
            assert(prefixed@ =~= seq!['_'] + inner@);
            inner = prefixed;
        }
        i = i + 1;
    }
    assert(views.take(names@.len() as int) =~= views);
    inner
}

/// `k` underscores.
pub open spec fn underscores(k: nat) -> Seq<char> {
    Seq::new(k, |i: int| '_')
}

proof fn lemma_free_of(names: (Seq<char>, Seq<char>, Seq<char>), inner: Seq<char>, k: nat)
    requires
        inner == underscores(k) + "Inner"@,
    ensures
        !collides(names, free_of(names, inner)),
        exists|j: nat| #[trigger] underscores(j) + "Inner"@ == free_of(names, inner),
    decreases longest(names) + 1 - inner.len(),
{
    if collides(names, inner) {
        assert(seq!['_'] + inner =~= underscores(k + 1) + "Inner"@);
        lemma_free_of(names, seq!['_'] + inner, k + 1);
    } else {
        assert(underscores(k) + "Inner"@ == free_of(names, inner));
    }
}

/// The name for inner types is `Inner` with underscores in front, and no name of the last
/// referenced type begins with it.
pub proof fn law_inner_name(names: Seq<(Seq<char>, Seq<char>, Seq<char>)>)
    ensures
        exists|k: nat| #[trigger] underscores(k) + "Inner"@ == inner_name_for(names),
        names.len() > 0 ==> !collides(names.last(), inner_name_for(names)),
    decreases names.len(),
{
    if names.len() == 0 {
        assert(underscores(0) + "Inner"@ =~= "Inner"@);
    } else {
        law_inner_name(names.drop_last());
        let k = choose|k: nat| #[trigger] underscores(k) + "Inner"@ == inner_name_for(names.drop_last());
        lemma_free_of(names.last(), inner_name_for(names.drop_last()), k);
    }
}

} // verus!
