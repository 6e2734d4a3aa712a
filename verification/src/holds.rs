//! The rail-conflict hold list, read out of the reference simulator's
//! chipsim.js: the nodes its getNodeValue special-cases when a group holds
//! both rails, each named as `arrayContains(group, ` followed by the node
//! id.

use vstd::prelude::*;

verus! {

/// The text that names a held node: `arrayContains(group, `.
pub open spec fn hold_marker() -> Seq<u8> {
    seq![
        97u8, 114, 114, 97, 121, 67, 111, 110, 116, 97, 105, 110, 115, 40, 103, 114, 111, 117,
        112, 44, 32,
    ]
}

/// The marker's length.
pub open spec fn marker_len() -> int {
    21
}

/// The marker stands at byte `i` of `text`.
pub open spec fn marker_at(text: Seq<u8>, i: int) -> bool {
    0 <= i && i + marker_len() <= text.len() && text.subrange(i, i + marker_len())
        == hold_marker()
}

/// An ASCII decimal digit.
pub open spec fn is_digit(c: u8) -> bool {
    48 <= c <= 57
}

/// How many digits run from byte `j` on.
pub open spec fn run_len(text: Seq<u8>, j: int) -> nat
    decreases text.len() - j,
{
    if 0 <= j < text.len() && is_digit(text[j]) {
        1 + run_len(text, j + 1)
    } else {
        0
    }
}

/// The decimal value of the `n` digits from byte `j` on.
pub open spec fn run_value(text: Seq<u8>, j: int, n: nat) -> nat
    decreases n,
{
    if n == 0 {
        0
    } else {
        run_value(text, j, (n - 1) as nat) * 10 + (text[j + n - 1] - 48) as nat
    }
}

/// A held node is named at byte `i`: the marker, then at least one digit.
pub open spec fn hold_named_at(text: Seq<u8>, i: int) -> bool {
    marker_at(text, i) && run_len(text, i + marker_len()) > 0
}

/// The id named at byte `i`.
pub open spec fn hold_id_at(text: Seq<u8>, i: int) -> nat {
    run_value(text, i + marker_len(), run_len(text, i + marker_len()))
}

/// Every id the text names fits a `u32`.
pub open spec fn ids_fit(text: Seq<u8>) -> bool {
    forall|i: int| #[trigger] hold_named_at(text, i) ==> hold_id_at(text, i) <= u32::MAX
}

/// Strictly increasing.
pub open spec fn ascending(v: Seq<u32>) -> bool {
    forall|a: int, b: int| 0 <= a < b < v.len() ==> v[a] < v[b]
}

/// `x` is an id named at a byte before `end`.
pub open spec fn named_before(text: Seq<u8>, x: u32, end: int) -> bool {
    exists|i: int| 0 <= i < end && #[trigger] hold_named_at(text, i) && hold_id_at(text, i) == x
}

/// The digits' value only grows as the run goes on.
proof fn lemma_run_value_grows(text: Seq<u8>, j: int, m: nat, n: nat)
    requires
        m <= n,
        forall|k: int| j <= k < j + n ==> is_digit(#[trigger] text[k]),
    ensures
        run_value(text, j, m) <= run_value(text, j, n),
    decreases n - m,
{
    if m < n {
        lemma_run_value_grows(text, j, m, (n - 1) as nat);
    }
}

/// A run of digits from `j` that reaches `k` is that many digits longer
/// than the run from `k`.
proof fn lemma_run_len_split(text: Seq<u8>, j: int, k: int)
    requires
        0 <= j <= k <= text.len(),
        forall|x: int| j <= x < k ==> is_digit(#[trigger] text[x]),
    ensures
        run_len(text, j) == (k - j) + run_len(text, k),
        forall|x: int| j <= x < j + run_len(text, j) ==> is_digit(#[trigger] text[x]),
    decreases k - j,
{
    if j < k {
        lemma_run_len_split(text, j + 1, k);
    } else {
        lemma_run_digits(text, k);
    }
}

/// The bytes a run counts are digits.
proof fn lemma_run_digits(text: Seq<u8>, j: int)
    ensures
        forall|x: int| j <= x < j + run_len(text, j) ==> is_digit(#[trigger] text[x]),
    decreases text.len() - j,
{
    if 0 <= j < text.len() && is_digit(text[j]) {
        lemma_run_digits(text, j + 1);
    }
}

/// Whether the marker stands at byte `i`.
fn marker_at_exec(text: &[u8], i: usize) -> (r: bool)
    ensures
        r == marker_at(text@, i as int),
{
    let marker: [u8; 21] = [
        97, 114, 114, 97, 121, 67, 111, 110, 116, 97, 105, 110, 115, 40, 103, 114, 111, 117, 112, 44,
        32,
    ];
    assert(marker@ =~= hold_marker());
    if i > text.len() || text.len() - i < 21 {
        return false;
    }
    let mut k: usize = 0;
    while k < 21
        invariant
            k <= 21,
            i + 21 <= text.len(),
            marker@ == hold_marker(),
            forall|x: int| 0 <= x < k ==> text@[i + x] == marker@[x],
        decreases 21 - k,
    {
        assert(i + k < text.len());
        if text[i + k] != marker[k] {
            assert(text@.subrange(i as int, i + 21)[k as int] != hold_marker()[k as int]);
            return false;
        }
        k = k + 1;
    }
    assert(text@.subrange(i as int, i + 21) =~= hold_marker());
    true
}

/// Insert `x` into an ascending list unless it is there already.
fn insert_sorted(v: &mut Vec<u32>, x: u32)
    requires
        ascending(old(v)@),
    ensures
        ascending(final(v)@),
        forall|y: u32| #[trigger] final(v)@.contains(y) <==> (y == x || old(v)@.contains(y)),
{
    let mut k: usize = 0;
    while k < v.len() && v[k] < x
        invariant
            k <= v@.len(),
            forall|a: int| 0 <= a < k ==> v@[a] < x,
        decreases v@.len() - k,
    {
        k = k + 1;
    }
    if k < v.len() && v[k] == x {
        assert forall|y: u32| #[trigger] v@.contains(y) <==> (y == x || v@.contains(y)) by {
            if y == x {
                assert(v@[k as int] == x);
            }
        }
        return;
    }
    let ghost v0 = v@;
    v.insert(k, x);
    proof {
        v0.insert_ensures(k as int, x);
        let w = v@;
        assert forall|a: int, b: int| 0 <= a < b < w.len() implies w[a] < w[b] by {
            if b < k {
            } else if b == k {
            } else if a < k {
                assert(w[b] == v0[b - 1]);
            } else if a == k {
                assert(w[b] == v0[b - 1]);
                assert(v0[k as int] > x);
            } else {
                assert(w[a] == v0[a - 1]);
                assert(w[b] == v0[b - 1]);
            }
        }
        assert forall|y: u32| #[trigger] w.contains(y) <==> (y == x || v0.contains(y)) by {
            if w.contains(y) {
                let a = choose|a: int| 0 <= a < w.len() && w[a] == y;
                if a < k {
                    assert(v0[a] == y);
                } else if a > k {
                    assert(v0[a - 1] == y);
                }
            }
            if y == x {
                assert(w[k as int] == x);
            }
            if v0.contains(y) {
                let a = choose|a: int| 0 <= a < v0.len() && v0[a] == y;
                if a < k {
                    assert(w[a] == y);
                } else {
                    assert(w[a + 1] == y);
                }
            }
        }
    }
}

/// The node ids chipsim.js's text names after each `arrayContains(group, `,
/// ascending and each once; `None` when an id does not fit a `u32`.
pub fn rail_conflict_holds(chipsim: &[u8]) -> (r: Option<Vec<u32>>)
    ensures
        r is None <==> !ids_fit(chipsim@),
        r matches Some(ids) ==> ascending(ids@) && forall|x: u32|
            #[trigger] ids@.contains(x) <==> named_before(chipsim@, x, chipsim@.len() as int),
{
    let text = chipsim;
    let mut ids: Vec<u32> = Vec::new();
    let mut i: usize = 0;
    while i < text.len()
        invariant
            i <= text@.len(),
            text@ == chipsim@,
            forall|k: int| 0 <= k < i && #[trigger] hold_named_at(text@, k) ==> hold_id_at(text@, k)
                <= u32::MAX,
            ascending(ids@),
            forall|x: u32| #[trigger] ids@.contains(x) <==> named_before(text@, x, i as int),
        decreases text@.len() - i,
    {
        let ghost ids0 = ids@;
        if marker_at_exec(text, i) {
            let start = i + 21;
            let mut j = start;
            let mut val: u32 = 0;
            while j < text.len() && 48 <= text[j] && text[j] <= 57
                invariant
                    start <= j <= text@.len(),
                    text@ == chipsim@,
                    start == i + 21,
                    marker_at(text@, i as int),
                    forall|x: int| start <= x < j ==> is_digit(#[trigger] text@[x]),
                    val == run_value(text@, start as int, (j - start) as nat),
                decreases text@.len() - j,
            {
                proof {
                    lemma_run_len_split(text@, start as int, j + 1);
                    lemma_run_value_grows(
                        text@,
                        start as int,
                        (j + 1 - start) as nat,
                        run_len(text@, start as int),
                    );
                    assert(hold_named_at(text@, i as int));
                    assert(run_value(text@, start as int, (j + 1 - start) as nat) == val * 10 + (
                    text@[j as int] - 48) as nat);
                }
                let d = (text[j] - 48) as u32;
                if val > (0xffff_ffffu32 - d) / 10 {
                    assert(val * 10 + d > 0xffff_ffff) by (nonlinear_arith)
                        requires
                            val > (0xffff_ffffu32 - d) / 10,
                            d <= 9,
                    ;
                    assert(hold_named_at(text@, i as int));
                    assert(hold_id_at(text@, i as int) > u32::MAX);
                    assert(!ids_fit(text@));
                    return None;
                }
                val = val * 10 + d;
                j = j + 1;
            }
            proof {
                lemma_run_len_split(text@, start as int, j as int);
            }
            if j > start {
                assert(hold_named_at(text@, i as int));
                assert(hold_id_at(text@, i as int) == val);
                insert_sorted(&mut ids, val);
                assert forall|x: u32| #[trigger] ids@.contains(x) <==> named_before(
                    text@,
                    x,
                    i + 1,
                ) by {
                    if named_before(text@, x, i + 1) {
                        let k = choose|k: int|
                            0 <= k < i + 1 && #[trigger] hold_named_at(text@, k) && hold_id_at(
                                text@,
                                k,
                            ) == x;
                        if k < i {
                            assert(named_before(text@, x, i as int));
                        }
                    }
                    if ids0.contains(x) {
                        assert(named_before(text@, x, i as int));
                        let k = choose|k: int|
                            0 <= k < i && #[trigger] hold_named_at(text@, k) && hold_id_at(text@, k)
                                == x;
                        assert(named_before(text@, x, i + 1));
                    }
                    if x == val {
                        assert(named_before(text@, x, i + 1));
                    }
                }
            } else {
                assert(!hold_named_at(text@, i as int));
                assert forall|x: u32| #[trigger] ids@.contains(x) <==> named_before(
                    text@,
                    x,
                    i + 1,
                ) by {
                    if named_before(text@, x, i + 1) {
                        let k = choose|k: int|
                            0 <= k < i + 1 && #[trigger] hold_named_at(text@, k) && hold_id_at(
                                text@,
                                k,
                            ) == x;
                        assert(named_before(text@, x, i as int));
                    }
                    if named_before(text@, x, i as int) {
                        let k = choose|k: int|
                            0 <= k < i && #[trigger] hold_named_at(text@, k) && hold_id_at(text@, k)
                                == x;
                        assert(named_before(text@, x, i + 1));
                    }
                }
            }
        } else {
            assert(!hold_named_at(text@, i as int));
            assert forall|x: u32| #[trigger] ids@.contains(x) <==> named_before(text@, x, i + 1) by {
                if named_before(text@, x, i + 1) {
                    let k = choose|k: int|
                        0 <= k < i + 1 && #[trigger] hold_named_at(text@, k) && hold_id_at(text@, k)
                            == x;
                    assert(named_before(text@, x, i as int));
                }
                if named_before(text@, x, i as int) {
                    let k = choose|k: int|
                        0 <= k < i && #[trigger] hold_named_at(text@, k) && hold_id_at(text@, k) == x;
                    assert(named_before(text@, x, i + 1));
                }
            }
        }
        i = i + 1;
    }
    Some(ids)
}

} // verus!
