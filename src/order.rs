use vstd::prelude::*;

verus! {

/// Lexicographic order on character sequences, by code point; a proper
/// prefix comes first. This is the order of `str`'s `Ord`.
pub open spec fn seq_less(a: Seq<char>, b: Seq<char>) -> bool
    decreases a.len(),
{
    if a.len() == 0 {
        b.len() > 0
    } else if b.len() == 0 {
        false
    } else if (a[0] as int) < (b[0] as int) {
        true
    } else if a[0] == b[0] {
        seq_less(a.drop_first(), b.drop_first())
    } else {
        false
    }
}

/// No sequence comes before itself, and of two sequences that differ one
/// comes first.
pub proof fn lemma_seq_less_total(a: Seq<char>, b: Seq<char>)
    ensures
        !seq_less(a, a),
        seq_less(a, b) ==> !seq_less(b, a),
        a != b ==> seq_less(a, b) || seq_less(b, a),
    decreases a.len(),
{
    if a.len() > 0 {
        lemma_seq_less_total(a.drop_first(), a.drop_first());
        if b.len() > 0 {
            lemma_seq_less_total(a.drop_first(), b.drop_first());
            if a[0] == b[0] && a.drop_first() == b.drop_first() {
                assert(a =~= seq![a[0]] + a.drop_first());
                assert(b =~= seq![b[0]] + b.drop_first());
            }
            if a[0] != b[0] {
                assert((a[0] as int) != (b[0] as int));
            }
        }
    } else if b.len() == 0 {
        assert(a =~= b);
    }
}

/// The order is transitive.
pub proof fn lemma_seq_less_trans(a: Seq<char>, b: Seq<char>, c: Seq<char>)
    requires
        seq_less(a, b),
        seq_less(b, c),
    ensures
        seq_less(a, c),
    decreases a.len(),
{
    if a.len() > 0 && b.len() > 0 && c.len() > 0 {
        if a[0] == b[0] && b[0] == c[0] {
            lemma_seq_less_trans(a.drop_first(), b.drop_first(), c.drop_first());
        }
    }
}

/// Whether `a` comes before `b`.
pub fn str_less(a: &str, b: &str) -> (r: bool)
    ensures
        r == seq_less(a@, b@),
{
    let la = a.unicode_len();
    let lb = b.unicode_len();
    let mut i: usize = 0;
    assert(a@.skip(0) =~= a@);
    assert(b@.skip(0) =~= b@);
    while i < la && i < lb
        invariant
            la == a@.len(),
            lb == b@.len(),
            i <= la,
            i <= lb,
            seq_less(a@, b@) == seq_less(a@.skip(i as int), b@.skip(i as int)),
        decreases la - i,
    {
        let ca = a.get_char(i);
        let cb = b.get_char(i);
        assert(a@.skip(i as int).drop_first() =~= a@.skip(i + 1));
        assert(b@.skip(i as int).drop_first() =~= b@.skip(i + 1));
        if (ca as u32) < (cb as u32) {
            return true;
        }
        if ca != cb {
            return false;
        }
        i = i + 1;
    }
    i < lb
}

/// Each element of `s` comes before every later one.
pub open spec fn strictly_sorted<A>(s: Seq<A>, less: spec_fn(A, A) -> bool) -> bool {
    forall|i: int, j: int| 0 <= i < j < s.len() ==> #[trigger] less(s[i], s[j])
}

/// `less` is a strict total order.
pub open spec fn strict_total<A>(less: spec_fn(A, A) -> bool) -> bool {
    &&& forall|x: A| !#[trigger] less(x, x)
    &&& forall|x: A, y: A| #[trigger] less(x, y) ==> !less(y, x)
    &&& forall|x: A, y: A| x != y ==> #[trigger] less(x, y) || less(y, x)
}

/// The elements of `s` in ascending order, each once.
pub open spec fn sorted_of<A>(s: Set<A>, less: spec_fn(A, A) -> bool) -> Seq<A> {
    choose|r: Seq<A>| strictly_sorted(r, less) && r.to_set() == s
}

/// Two strictly sorted sequences that hold the same elements are equal.
pub proof fn lemma_sorted_unique<A>(a: Seq<A>, b: Seq<A>, less: spec_fn(A, A) -> bool)
    requires
        strict_total(less),
        strictly_sorted(a, less),
        strictly_sorted(b, less),
        a.to_set() == b.to_set(),
    ensures
        a == b,
    decreases a.len(),
{
    if a.len() == 0 {
        if b.len() > 0 {
            assert(b.to_set().contains(b[0]));
        }
        assert(a =~= b);
    } else {
        assert(a.to_set().contains(a[0]));
        assert(b.len() > 0);
        assert(b.to_set().contains(b[0]));
        let k = choose|k: int| 0 <= k < b.len() && b[k] == a[0];
        let m = choose|m: int| 0 <= m < a.len() && a[m] == b[0];
        if k > 0 && m > 0 {
            assert(less(b[0], b[k]));
            assert(less(a[0], a[m]));
        }
        let ta = a.drop_first();
        let tb = b.drop_first();
        assert forall|x: A| ta.to_set().contains(x) implies tb.to_set().contains(x) by {
            let i = choose|i: int| 0 <= i < ta.len() && ta[i] == x;
            assert(a[i + 1] == x);
            assert(less(a[0], a[i + 1]));
            assert(b.to_set().contains(x));
            let j = choose|j: int| 0 <= j < b.len() && b[j] == x;
            assert(j != 0);
            assert(tb[j - 1] == x);
        };
        assert forall|x: A| tb.to_set().contains(x) implies ta.to_set().contains(x) by {
            let i = choose|i: int| 0 <= i < tb.len() && tb[i] == x;
            assert(b[i + 1] == x);
            assert(less(b[0], b[i + 1]));
            assert(a.to_set().contains(x));
            let j = choose|j: int| 0 <= j < a.len() && a[j] == x;
            assert(j != 0);
            assert(ta[j - 1] == x);
        };
        assert(ta.to_set() =~= tb.to_set());
        assert forall|i: int, j: int| 0 <= i < j < ta.len() implies #[trigger] less(ta[i], ta[j]) by {
            assert(less(a[i + 1], a[j + 1]));
        };
        assert forall|i: int, j: int| 0 <= i < j < tb.len() implies #[trigger] less(tb[i], tb[j]) by {
            assert(less(b[i + 1], b[j + 1]));
        };
        lemma_sorted_unique(ta, tb, less);
        assert(a[0] == b[0]);
        assert forall|i: int| 0 < i < a.len() implies a[i] == b[i] by {
            assert(a[i] == ta[i - 1]);
            assert(b[i] == tb[i - 1]);
        };
        assert(a =~= b);
    }
}

/// A strictly sorted sequence is the sorted form of its elements.
pub proof fn lemma_sorted_of<A>(r: Seq<A>, less: spec_fn(A, A) -> bool)
    requires
        strict_total(less),
        strictly_sorted(r, less),
    ensures
        sorted_of(r.to_set(), less) == r,
{
    let s = sorted_of(r.to_set(), less);
    lemma_sorted_unique(s, r, less);
}

/// `seq_less` as a value.
pub open spec fn text_order() -> spec_fn(Seq<char>, Seq<char>) -> bool {
    |a: Seq<char>, b: Seq<char>| seq_less(a, b)
}

/// The text order is a strict total order.
pub proof fn lemma_text_order_total()
    ensures
        strict_total(text_order()),
{
    assert forall|x: Seq<char>| !#[trigger] text_order()(x, x) by {
        lemma_seq_less_total(x, x);
    };
    assert forall|x: Seq<char>, y: Seq<char>| #[trigger] text_order()(x, y) implies !text_order()(
        y,
        x,
    ) by {
        lemma_seq_less_total(x, y);
    };
    assert forall|x: Seq<char>, y: Seq<char>| x != y implies #[trigger] text_order()(x, y)
        || text_order()(y, x) by {
        lemma_seq_less_total(x, y);
    };
}

/// `less` is transitive.
pub open spec fn transitive<A>(less: spec_fn(A, A) -> bool) -> bool {
    forall|x: A, y: A, z: A| #[trigger] less(x, y) && #[trigger] less(y, z) ==> less(x, z)
}

/// The text order is transitive.
pub proof fn lemma_text_order_trans()
    ensures
        transitive(text_order()),
{
    assert forall|x: Seq<char>, y: Seq<char>, z: Seq<char>|
        #[trigger] text_order()(x, y) && #[trigger] text_order()(y, z) implies text_order()(x, z) by {
        lemma_seq_less_trans(x, y, z);
    };
}

/// Inserting `x` at the place where it belongs keeps a sequence strictly
/// sorted, and adds `x` to its elements.
pub proof fn lemma_insert_sorted<A>(v: Seq<A>, i: int, x: A, less: spec_fn(A, A) -> bool)
    requires
        strict_total(less),
        transitive(less),
        strictly_sorted(v, less),
        0 <= i <= v.len(),
        forall|j: int| 0 <= j < i ==> #[trigger] less(v[j], x),
        i < v.len() ==> less(x, v[i]),
    ensures
        strictly_sorted(v.insert(i, x), less),
        v.insert(i, x).to_set() == v.to_set().insert(x),
{
    let w = v.insert(i, x);
    assert forall|a: int, b: int| 0 <= a < b < w.len() implies #[trigger] less(w[a], w[b]) by {
        if b < i {
            assert(less(v[a], v[b]));
        } else if b == i {
            assert(less(v[a], x));
        } else if a == i {
            if b - 1 > i {
                assert(less(v[i], v[b - 1]));
            }
        } else if a < i {
            assert(less(v[a], x));
            if b - 1 > i {
                assert(less(v[i], v[b - 1]));
            }
            assert(less(x, v[b - 1]));
        } else {
            assert(less(v[a - 1], v[b - 1]));
        }
    };
    assert forall|d: A| w.to_set().contains(d) <==> v.to_set().insert(x).contains(d) by {
        if w.to_set().contains(d) {
            let k = choose|k: int| 0 <= k < w.len() && w[k] == d;
            if k < i {
                assert(v[k] == d);
            } else if k > i {
                assert(v[k - 1] == d);
            }
        }
        if v.to_set().contains(d) {
            let k = choose|k: int| 0 <= k < v.len() && v[k] == d;
            if k < i {
                assert(w[k] == d);
            } else {
                assert(w[k + 1] == d);
            }
        }
        if d == x {
            assert(w[i] == x);
        }
    };
    assert(w.to_set() =~= v.to_set().insert(x));
}

/// Adds `x` to a strictly sorted list of strings, unless it is there.
pub fn insert_text(v: &mut Vec<String>, x: String)
    requires
        strictly_sorted(old(v)@.map_values(|s: String| s@), text_order()),
    ensures
        strictly_sorted(final(v)@.map_values(|s: String| s@), text_order()),
        final(v)@.map_values(|s: String| s@).to_set() == old(v)@.map_values(|s: String| s@).to_set().insert(
            x@,
        ),
{
    let ghost xv = x@;
    let ghost w0 = v@.map_values(|s: String| s@);
    proof {
        lemma_text_order_total();
        lemma_text_order_trans();
    }
    let mut i: usize = 0;
    while i < v.len()
        invariant
            i <= v.len(),
            w0 == v@.map_values(|s: String| s@),
            xv == x@,
            forall|j: int| 0 <= j < i ==> #[trigger] text_order()(w0[j], xv),
        ensures
            i <= v.len(),
            forall|j: int| 0 <= j < i ==> #[trigger] text_order()(w0[j], xv),
            i < v.len() ==> !text_order()(w0[i as int], xv),
        decreases v.len() - i,
    {
        assert(w0[i as int] == v@[i as int]@);
        if !str_less(v[i].as_str(), x.as_str()) {
            break;
        }
        i = i + 1;
    }
    if i < v.len() && v[i] == x {
        assert(w0.to_set() =~= w0.to_set().insert(xv)) by {
            assert(w0[i as int] == xv);
        };
        return;
    }
    proof {
        if i < w0.len() {
            assert(w0[i as int] != xv);
            assert(text_order()(xv, w0[i as int]));
        }
        lemma_insert_sorted(w0, i as int, xv, text_order());
    }
    v.insert(i, x);
    assert(v@.map_values(|s: String| s@) =~= w0.insert(i as int, xv));
}

} // verus!
