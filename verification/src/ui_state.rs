use vstd::prelude::*;

use itertools::Itertools;

verus! {

/// The views of a list of strings.
pub open spec fn texts(v: Seq<String>) -> Seq<Seq<char>> {
    v.map_values(|x: String| x@)
}

/// `s` with every item that already occurred earlier left out: the first
/// occurrence of each item, in order.
pub open spec fn first_occurrences(s: Seq<Seq<char>>) -> Seq<Seq<char>>
    decreases s.len(),
{
    if s.len() == 0 {
        s
    } else {
        let rest = first_occurrences(s.drop_last());
        if s.drop_last().contains(s.last()) {
            rest
        } else {
            rest.push(s.last())
        }
    }
}

/// Keeps the first occurrence of each string across the list, in order
/// (`Itertools::unique` collected into a vector).
#[verifier::external_body]
fn unique_in_order(items: Vec<String>) -> (r: Vec<String>)
    ensures
        texts(r@) == first_occurrences(texts(items@)),
{
    items.into_iter().unique().collect()
}

/// The address the remote control offers when it knows no other.
pub fn default_robot_address() -> (r: String)
    ensures
        r@ == "http://127.0.0.1:50051"@,
{
    "http://127.0.0.1:50051".to_owned()
}

/// Puts `robot_address` first in the connection history and drops the
/// repeats, keeping the first occurrence of each address.
pub fn add_robot_address(addresses: &mut Vec<String>, robot_address: String)
    ensures
        texts(final(addresses)@) == first_occurrences(
            seq![robot_address@] + texts(old(addresses)@),
        ),
{
    let mut taken: Vec<String> = Vec::new();
    std::mem::swap(&mut taken, addresses);
    let ghost before = taken@;
    let ghost head = robot_address@;
    taken.insert(0, robot_address);
    assert(texts(taken@) =~= seq![head] + texts(before));
    *addresses = unique_in_order(taken);
}

/// A connection history that is never empty: the default address when
/// there is nothing else.
pub fn ensure_robot_address(addresses: &mut Vec<String>)
    ensures
        old(addresses)@.len() == 0 ==> texts(final(addresses)@) == seq![
            "http://127.0.0.1:50051"@,
        ],
        old(addresses)@.len() > 0 ==> final(addresses)@ == old(addresses)@,
{
    if addresses.len() == 0 {
        addresses.push(default_robot_address());
        assert(texts(addresses@) =~= seq!["http://127.0.0.1:50051"@]);
    }
}

/// Every item of `s` is kept by `first_occurrences`, and nothing else.
pub proof fn lemma_first_occurrences_contains(s: Seq<Seq<char>>)
    ensures
        forall|x: Seq<char>| #[trigger] first_occurrences(s).contains(x) <==> s.contains(x),
    decreases s.len(),
{
    if s.len() > 0 {
        let d = s.drop_last();
        lemma_first_occurrences_contains(d);
        let rest = first_occurrences(d);
        assert forall|x: Seq<char>| #[trigger] first_occurrences(s).contains(x) <==> s.contains(
            x,
        ) by {
            if s.contains(x) && x != s.last() {
                let k = choose|k: int| 0 <= k < s.len() && s[k] == x;
                assert(d[k] == x);
            }
            if d.contains(x) {
                let k = choose|k: int| 0 <= k < d.len() && d[k] == x;
                assert(s[k] == x);
            }
            if x == s.last() {
                assert(s[s.len() - 1] == x);
            }
            if !d.contains(s.last()) && x == s.last() {
                assert(rest.push(s.last())[rest.len() as int] == x);
            }
            if !d.contains(s.last()) && rest.push(s.last()).contains(x) {
                let k = choose|k: int| 0 <= k < rest.len() + 1 && rest.push(s.last())[k] == x;
                if k < rest.len() {
                    assert(rest[k] == x);
                }
            }
            if !d.contains(s.last()) && rest.contains(x) {
                let k = choose|k: int| 0 <= k < rest.len() && rest[k] == x;
                assert(rest.push(s.last())[k] == x);
            }
        }
    }
}

/// `first_occurrences` never repeats an item.
pub proof fn lemma_first_occurrences_unique(s: Seq<Seq<char>>)
    ensures
        first_occurrences(s).no_duplicates(),
    decreases s.len(),
{
    if s.len() > 0 {
        let d = s.drop_last();
        lemma_first_occurrences_unique(d);
        lemma_first_occurrences_contains(d);
        let rest = first_occurrences(d);
        if !d.contains(s.last()) {
            assert(!rest.contains(s.last()));
            let r = rest.push(s.last());
            assert forall|i: int, j: int| 0 <= i < r.len() && 0 <= j < r.len() && i != j implies r[i]
                != r[j] by {
                if i == rest.len() as int {
                    assert(rest[j] == r[j]);
                } else if j == rest.len() as int {
                    assert(rest[i] == r[i]);
                } else {
                    assert(rest[i] == r[i] && rest[j] == r[j]);
                }
            }
        }
    }
}

/// `first_occurrences` keeps the first item in front.
pub proof fn lemma_first_occurrences_head(s: Seq<Seq<char>>)
    requires
        s.len() > 0,
    ensures
        first_occurrences(s).len() > 0,
        first_occurrences(s)[0] == s[0],
    decreases s.len(),
{
    let d = s.drop_last();
    if d.len() > 0 {
        lemma_first_occurrences_head(d);
        let rest = first_occurrences(d);
        assert(rest.push(s.last())[0] == rest[0]);
    } else {
        assert(first_occurrences(d) =~= Seq::<Seq<char>>::empty());
    }
}

/// After an address is added to the connection history, it comes first,
/// no address appears twice, and the history holds exactly the addresses
/// it held before and the new one.
pub proof fn law_robot_address_added(before: Seq<Seq<char>>, address: Seq<char>)
    ensures
        ({
            let after = first_occurrences(seq![address] + before);
            &&& after.len() > 0
            &&& after[0] == address
            &&& after.no_duplicates()
            &&& forall|x: Seq<char>| #[trigger]
                after.contains(x) <==> x == address || before.contains(x)
        }),
{
    let s = seq![address] + before;
    lemma_first_occurrences_head(s);
    lemma_first_occurrences_unique(s);
    lemma_first_occurrences_contains(s);
    assert forall|x: Seq<char>| #[trigger] s.contains(x) <==> x == address || before.contains(x) by {
        if x == address {
            assert(s[0] == x);
        }
        if before.contains(x) {
            let k = choose|k: int| 0 <= k < before.len() && before[k] == x;
            assert(s[k + 1] == x);
        }
        if s.contains(x) && x != address {
            let k = choose|k: int| 0 <= k < s.len() && s[k] == x;
            assert(before[k - 1] == x);
        }
    }
}

} // verus!
