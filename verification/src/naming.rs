use vstd::prelude::*;
use vstd::string::*;
use crate::chunk::CanonicalName;
use crate::ids::SymbolRef;
use crate::text::texts;

verus! {

/// A symbol with the name its module declared it under.
#[derive(Debug, Clone)]
pub struct NamedSymbol {
    pub symbol: SymbolRef,
    pub name: String,
}

pub open spec fn digit_char(d: nat) -> char {
    if d == 0 {
        '0'
    } else if d == 1 {
        '1'
    } else if d == 2 {
        '2'
    } else if d == 3 {
        '3'
    } else if d == 4 {
        '4'
    } else if d == 5 {
        '5'
    } else if d == 6 {
        '6'
    } else if d == 7 {
        '7'
    } else if d == 8 {
        '8'
    } else {
        '9'
    }
}

/// The decimal digits of `n`.
pub open spec fn digits(n: nat) -> Seq<char>
    decreases n,
{
    if n < 10 {
        seq![digit_char(n)]
    } else {
        digits(n / 10).push(digit_char(n % 10))
    }
}

/// The `k`-th name tried for a symbol declared as `base`: the declared name
/// itself, then `base$1`, `base$2` and so on.
pub open spec fn candidate(base: Seq<char>, k: nat) -> Seq<char> {
    if k == 0 {
        base
    } else {
        base + seq!['$'] + digits(k)
    }
}

/// The least `k` from `from` to `limit` whose candidate is not in use.
pub open spec fn first_free(used: Seq<Seq<char>>, base: Seq<char>, from: nat, limit: nat) -> Option<nat>
    decreases limit + 1 - from,
{
    if from > limit {
        None
    } else if !used.contains(candidate(base, from)) {
        Some(from)
    } else {
        first_free(used, base, from + 1, limit)
    }
}

/// The canonical names of symbols declared under `declared`, in discovery
/// order: each symbol takes the first candidate of its declared name that no
/// earlier symbol took. With `n` names taken, candidates up to the `n`-th
/// are tried.
pub open spec fn canonical_names_of(declared: Seq<Seq<char>>) -> Option<Seq<Seq<char>>>
    decreases declared.len(),
{
    if declared.len() == 0 {
        Some(Seq::empty())
    } else {
        match canonical_names_of(declared.drop_last()) {
            Some(head) => match first_free(head, declared.last(), 0, head.len()) {
                Some(k) => Some(head.push(candidate(declared.last(), k))),
                None => None,
            },
            None => None,
        }
    }
}

pub open spec fn declared_names(symbols: Seq<NamedSymbol>) -> Seq<Seq<char>> {
    symbols.map_values(|s: NamedSymbol| s.name@)
}

pub open spec fn assigned_names(names: Seq<CanonicalName>) -> Seq<Seq<char>> {
    names.map_values(|c: CanonicalName| c.name@)
}

fn digit_text(d: usize) -> (out: &'static str)
    requires
        d < 10,
    ensures
        out@ == seq![digit_char(d as nat)],
{
    proof {
        reveal_strlit("0");
        reveal_strlit("1");
        reveal_strlit("2");
        reveal_strlit("3");
        reveal_strlit("4");
        reveal_strlit("5");
        reveal_strlit("6");
        reveal_strlit("7");
        reveal_strlit("8");
        reveal_strlit("9");
    }
    let out = if d == 0 {
        "0"
    } else if d == 1 {
        "1"
    } else if d == 2 {
        "2"
    } else if d == 3 {
        "3"
    } else if d == 4 {
        "4"
    } else if d == 5 {
        "5"
    } else if d == 6 {
        "6"
    } else if d == 7 {
        "7"
    } else if d == 8 {
        "8"
    } else {
        "9"
    };
    assert(out@ =~= seq![digit_char(d as nat)]);
    out
}

/// Writes `n` in decimal.
pub fn decimal(n: usize) -> (out: String)
    ensures
        out@ == digits(n as nat),
    decreases n,
{
    if n < 10 {
        String::from_str(digit_text(n))
    } else {
        let mut s = decimal(n / 10);
        s.append(digit_text(n % 10));
        assert(s@ =~= digits(n as nat));
        s
    }
}

/// Builds the `k`-th candidate for a declared name.
pub fn make_candidate(base: &String, k: usize) -> (out: String)
    ensures
        out@ == candidate(base@, k as nat),
{
    if k == 0 {
        base.clone()
    } else {
        let mut s = base.clone();
        proof {
            reveal_strlit("$");
            assert("$"@ =~= seq!['$']);
        }
        s.append("$");
        let d = decimal(k);
        s.append(d.as_str());
        s
    }
}

/// Whether `name` is among `used`.
pub fn contains_name(used: &Vec<String>, name: &String) -> (r: bool)
    ensures
        r == texts(used@).contains(name@),
{
    let mut i: usize = 0;
    while i < used.len()
        invariant
            i <= used@.len(),
            forall|j: int| 0 <= j < i ==> texts(used@)[j] != name@,
        decreases used.len() - i,
    {
        if used[i] == *name {
            assert(texts(used@)[i as int] == name@);
            return true;
        }
        i += 1;
    }
    false
}

/// Picks the name of one more symbol: the first candidate of `base` that is
/// not in use. One of the first `used.len() + 1` candidates always is.
pub fn pick_name(used: &Vec<String>, base: &String) -> (out: String)
    ensures
        first_free(texts(used@), base@, 0, used@.len()) is Some,
        out@ == candidate(base@, first_free(texts(used@), base@, 0, used@.len()).unwrap()),
        !texts(used@).contains(out@),
{
    let n: usize = used.len();
    let mut k: usize = 0;
    let mut name = make_candidate(base, 0);
    while contains_name(used, &name)
        invariant
            n == used@.len(),
            k <= n,
            name@ == candidate(base@, k as nat),
            first_free(texts(used@), base@, 0, used@.len()) == first_free(
                texts(used@),
                base@,
                k as nat,
                used@.len(),
            ),
        decreases used@.len() - k,
    {
        proof {
            assert(texts(used@).contains(candidate(base@, k as nat)));
            assert(first_free(texts(used@), base@, k as nat, used@.len()) == first_free(
                texts(used@),
                base@,
                (k + 1) as nat,
                used@.len(),
            ));
            if k == used@.len() {
                assert(first_free(texts(used@), base@, (k + 1) as nat, used@.len()) is None);
                assert(texts(used@).len() == used@.len());
                lemma_some_candidate_is_free(texts(used@), base@);
                assert(false);
            }
        }
        k += 1;
        name = make_candidate(base, k);
    }
    name
}

/// Assigns every symbol its canonical name, in discovery order. The names
/// are pairwise different.
pub fn assign_canonical_names(symbols: &Vec<NamedSymbol>) -> (out: Vec<CanonicalName>)
    ensures
        canonical_names_of(declared_names(symbols@)) == Some(assigned_names(out@)),
        out@.len() == symbols@.len(),
        forall|i: int| 0 <= i < symbols@.len() ==> (#[trigger] out@[i]).symbol == symbols@[i].symbol,
        forall|i: int, j: int|
            0 <= i < j < out@.len() ==> (#[trigger] out@[i]).name@ != (#[trigger] out@[j]).name@,
{
    let mut used: Vec<String> = Vec::new();
    let mut out: Vec<CanonicalName> = Vec::new();
    let mut i: usize = 0;
    assert(declared_names(symbols@).take(0) =~= Seq::<Seq<char>>::empty());
    assert(texts(used@) =~= Seq::<Seq<char>>::empty());
    assert(assigned_names(out@) =~= Seq::<Seq<char>>::empty());
    while i < symbols.len()
        invariant
            i <= symbols@.len(),
            used@.len() == i,
            out@.len() == i,
            canonical_names_of(declared_names(symbols@).take(i as int)) == Some(texts(used@)),
            assigned_names(out@) == texts(used@),
            forall|j: int| 0 <= j < i ==> (#[trigger] out@[j]).symbol == symbols@[j].symbol,
        decreases symbols.len() - i,
    {
        let ghost declared = declared_names(symbols@);
        proof {
            assert(declared.take(i + 1).drop_last() =~= declared.take(i as int));
            assert(declared.take(i + 1).last() == symbols@[i as int].name@);
        }
        let name = pick_name(&used, &symbols[i].name);
        proof {
            assert(texts(used@.push(name)) =~= texts(used@).push(name@));
            let entry = CanonicalName { symbol: symbols@[i as int].symbol, name };
            assert(assigned_names(out@.push(entry)) =~= assigned_names(out@).push(name@));
        }
        out.push(CanonicalName { symbol: symbols[i].symbol, name: name.clone() });
        used.push(name);
        i += 1;
    }
    proof {
        let declared = declared_names(symbols@);
        assert(declared.take(symbols@.len() as int) =~= declared);
        assert forall|i: int, j: int| 0 <= i < j < out@.len() implies (#[trigger] out@[i]).name@ != (
        #[trigger] out@[j]).name@ by {
            lemma_canonical_names_unique(declared, i, j);
            assert(assigned_names(out@)[i] == out@[i].name@);
            assert(assigned_names(out@)[j] == out@[j].name@);
        }
    }
    out
}

/// A name that `first_free` picks is not in use.
pub proof fn lemma_first_free_is_free(used: Seq<Seq<char>>, base: Seq<char>, from: nat, limit: nat)
    requires
        first_free(used, base, from, limit) is Some,
    ensures
        !used.contains(candidate(base, first_free(used, base, from, limit).unwrap())),
    decreases limit + 1 - from,
{
    if from <= limit && used.contains(candidate(base, from)) {
        lemma_first_free_is_free(used, base, (from + 1) as nat, limit);
    }
}

/// The canonical names of one chunk are pairwise different, also where
/// several symbols were declared under one name.
pub proof fn lemma_canonical_names_unique(declared: Seq<Seq<char>>, i: int, j: int)
    requires
        canonical_names_of(declared) is Some,
        0 <= i < j < canonical_names_of(declared).unwrap().len(),
    ensures
        canonical_names_of(declared).unwrap().len() == declared.len(),
        canonical_names_of(declared).unwrap()[i] != canonical_names_of(declared).unwrap()[j],
    decreases declared.len(),
{
    lemma_names_length(declared);
    let head = canonical_names_of(declared.drop_last()).unwrap();
    lemma_names_length(declared.drop_last());
    if j < head.len() {
        lemma_canonical_names_unique(declared.drop_last(), i, j);
    } else {
        lemma_first_free_is_free(head, declared.last(), 0, head.len());
        assert(head[i] == canonical_names_of(declared).unwrap()[i]);
    }
}

/// There is one canonical name for each symbol.
pub proof fn lemma_names_length(declared: Seq<Seq<char>>)
    requires
        canonical_names_of(declared) is Some,
    ensures
        canonical_names_of(declared).unwrap().len() == declared.len(),
    decreases declared.len(),
{
    if declared.len() > 0 {
        lemma_names_length(declared.drop_last());
    }
}

/// A canonical name, once assigned, stays: the names of the first `k`
/// symbols do not depend on the symbols that come after them.
pub proof fn lemma_canonical_names_stable(declared: Seq<Seq<char>>, k: int)
    requires
        canonical_names_of(declared) is Some,
        0 <= k <= declared.len(),
    ensures
        canonical_names_of(declared.take(k)) == Some(
            canonical_names_of(declared).unwrap().take(k),
        ),
    decreases declared.len(),
{
    lemma_names_length(declared);
    if k == declared.len() {
        assert(declared.take(k) =~= declared);
        assert(canonical_names_of(declared).unwrap().take(k) =~= canonical_names_of(
            declared,
        ).unwrap());
    } else {
        let head = canonical_names_of(declared.drop_last()).unwrap();
        lemma_names_length(declared.drop_last());
        lemma_canonical_names_stable(declared.drop_last(), k);
        assert(declared.drop_last().take(k) =~= declared.take(k));
        assert(head.take(k) =~= canonical_names_of(declared).unwrap().take(k));
    }
}

/// The decimal form of a number has at least one digit, and two for ten and
/// more.
pub proof fn lemma_digits_len(n: nat)
    ensures
        digits(n).len() >= 1,
        n < 10 ==> digits(n).len() == 1,
        n >= 10 ==> digits(n).len() >= 2,
    decreases n,
{
    if n >= 10 {
        lemma_digits_len(n / 10);
    }
}

/// Different numbers have different decimal forms.
pub proof fn lemma_digits_injective(a: nat, b: nat)
    requires
        digits(a) == digits(b),
    ensures
        a == b,
    decreases a,
{
    lemma_digits_len(a);
    lemma_digits_len(b);
    if a < 10 && b < 10 {
        assert(digits(a)[0] == digit_char(a));
        assert(digits(b)[0] == digit_char(b));
        assert(a == b);
    } else if a < 10 || b < 10 {
        assert(digits(a).len() != digits(b).len());
    } else {
        assert(digits(a).last() == digit_char(a % 10));
        assert(digits(b).last() == digit_char(b % 10));
        assert(a % 10 == b % 10);
        assert(digits(a).drop_last() =~= digits(a / 10));
        assert(digits(b).drop_last() =~= digits(b / 10));
        lemma_digits_injective(a / 10, b / 10);
        assert(a == 10 * (a / 10) + a % 10);
        assert(b == 10 * (b / 10) + b % 10);
    }
}

/// Different numbers give different candidates for one declared name.
pub proof fn lemma_candidate_injective(base: Seq<char>, j: nat, k: nat)
    requires
        candidate(base, j) == candidate(base, k),
    ensures
        j == k,
{
    if j > 0 && k > 0 {
        let a = base + seq!['$'] + digits(j);
        let b = base + seq!['$'] + digits(k);
        assert(a.subrange(base.len() as int + 1, a.len() as int) =~= digits(j));
        assert(b.subrange(base.len() as int + 1, b.len() as int) =~= digits(k));
        lemma_digits_injective(j, k);
    } else if j > 0 {
        assert((base + seq!['$'] + digits(j)).len() > base.len());
    } else if k > 0 {
        assert((base + seq!['$'] + digits(k)).len() > base.len());
    }
}

/// A list that holds the candidates `0` to `limit` of one declared name has
/// more than `limit` entries.
pub proof fn lemma_candidates_need_room(used: Seq<Seq<char>>, base: Seq<char>, limit: nat)
    requires
        forall|k: nat| k <= limit ==> used.contains(#[trigger] candidate(base, k)),
    ensures
        used.len() > limit,
    decreases limit,
{
    let top = candidate(base, limit);
    assert(used.contains(top));
    let at = choose|at: int| 0 <= at < used.len() && used[at] == top;
    if limit > 0 {
        let rest = used.remove(at);
        assert forall|k: nat| k <= (limit - 1) as nat implies rest.contains(
            #[trigger] candidate(base, k),
        ) by {
            let c = candidate(base, k);
            assert(used.contains(c));
            let i = choose|i: int| 0 <= i < used.len() && used[i] == c;
            if i == at {
                lemma_candidate_injective(base, k, limit);
            } else if i < at {
                assert(rest[i] == c);
            } else {
                assert(rest[i - 1] == c);
            }
        }
        lemma_candidates_need_room(rest, base, (limit - 1) as nat);
    }
}

/// Where `first_free` finds nothing, every candidate it tried is in use.
pub proof fn lemma_none_free_means_all_used(
    used: Seq<Seq<char>>,
    base: Seq<char>,
    from: nat,
    limit: nat,
)
    requires
        first_free(used, base, from, limit) is None,
    ensures
        forall|k: nat| from <= k <= limit ==> used.contains(#[trigger] candidate(base, k)),
    decreases limit + 1 - from,
{
    if from <= limit {
        lemma_none_free_means_all_used(used, base, from + 1, limit);
    }
}

/// With `n` names in use, one of the candidates `0` to `n` is free.
pub proof fn lemma_some_candidate_is_free(used: Seq<Seq<char>>, base: Seq<char>)
    ensures
        first_free(used, base, 0, used.len()) is Some,
{
    if first_free(used, base, 0, used.len()) is None {
        lemma_none_free_means_all_used(used, base, 0, used.len());
        lemma_candidates_need_room(used, base, used.len());
    }
}

/// Every list of declared names gets its canonical names.
pub proof fn lemma_names_always_exist(declared: Seq<Seq<char>>)
    ensures
        canonical_names_of(declared) is Some,
    decreases declared.len(),
{
    if declared.len() > 0 {
        lemma_names_always_exist(declared.drop_last());
        let head = canonical_names_of(declared.drop_last()).unwrap();
        lemma_some_candidate_is_free(head, declared.last());
    }
}

} // verus!
