//! The scanner: collects the string leaves of a JSON tree that a predicate
//! accepts after a transform.

use vstd::prelude::*;
use crate::json::{leaves, leaves_of_entries, leaves_of_items, JsonValue};
use crate::pattern::{filename_predicate, is_asset_path};
use crate::text::{trim, trimmed};

verus! {

/// The texts of a sequence of strings.
pub open spec fn texts(strings: Seq<String>) -> Seq<Seq<char>> {
    strings.map_values(|s: String| s@)
}

/// `keep` is an answer that `predicate` can give on what `op` makes of `leaf`.
pub open spec fn decides<Pred, Op>(predicate: &Pred, op: &Op, leaf: Seq<char>, keep: bool) -> bool where
    Pred: Fn(&str) -> bool,
    Op: Fn(&str) -> &str,
 {
    exists|s: &str, t: &str|
        s@ == leaf && call_ensures(*op, (s,), t) && call_ensures(*predicate, (t,), keep)
}

/// `keep` holds one answer for each leaf, in order: the predicate was asked
/// once per leaf, about the transformed leaf.
pub open spec fn scanned<Pred, Op>(
    predicate: &Pred,
    op: &Op,
    leaves: Seq<Seq<char>>,
    keep: Seq<bool>,
) -> bool where Pred: Fn(&str) -> bool, Op: Fn(&str) -> &str {
    &&& keep.len() == leaves.len()
    &&& forall|i: int| 0 <= i < leaves.len() ==> decides(predicate, op, #[trigger] leaves[i], keep[i])
}

/// The leaves whose answer in `keep` is yes, in order.
pub open spec fn kept(leaves: Seq<Seq<char>>, keep: Seq<bool>) -> Seq<Seq<char>>
    decreases leaves.len(),
{
    if leaves.len() == 0 || keep.len() != leaves.len() {
        Seq::empty()
    } else if keep.last() {
        kept(leaves.drop_last(), keep.drop_last()).push(leaves.last())
    } else {
        kept(leaves.drop_last(), keep.drop_last())
    }
}

/// Keeping from two runs of leaves, one after the other, is keeping from each.
pub proof fn lemma_kept_concat(a: Seq<Seq<char>>, ka: Seq<bool>, b: Seq<Seq<char>>, kb: Seq<bool>)
    requires
        ka.len() == a.len(),
        kb.len() == b.len(),
    ensures
        kept(a + b, ka + kb) == kept(a, ka) + kept(b, kb),
    decreases b.len(),
{
    if b.len() == 0 {
        assert(a + b == a);
        assert(ka + kb == ka);
        assert(kept(a, ka) + kept(b, kb) == kept(a, ka));
    } else {
        lemma_kept_concat(a, ka, b.drop_last(), kb.drop_last());
        assert((a + b).drop_last() == a + b.drop_last());
        assert((ka + kb).drop_last() == ka + kb.drop_last());
        assert((a + b).last() == b.last());
        assert((ka + kb).last() == kb.last());
        if kb.last() {
            assert(kept(a, ka) + kept(b.drop_last(), kb.drop_last()).push(b.last())
                == (kept(a, ka) + kept(b.drop_last(), kb.drop_last())).push(b.last()));
        }
    }
}

/// Collects strings out of JSON trees.
pub struct JsonStrVisitor {
    pub collected: Vec<String>,
}

impl JsonStrVisitor {
    /// A visitor that has collected nothing.
    pub fn new() -> (visitor: Self)
        ensures
            visitor.collected@ == Seq::<String>::empty(),
    {
        Self { collected: Vec::new() }
    }

    /// The strings collected so far, in the order in which they were met.
    pub fn collected(self) -> (strings: Vec<String>)
        ensures
            strings == self.collected,
    {
        self.collected
    }

    /// Walks `value` depth first and appends each string leaf that
    /// `predicate` accepts after `op`, as it stands in the tree. Every leaf is
    /// asked about exactly once, in the order of the walk; numbers, booleans
    /// and nulls are passed over.
    pub fn visit<Pred, Op>(&mut self, value: &JsonValue, predicate: &Pred, op: &Op) -> (this: &Self) where
        Pred: Fn(&str) -> bool,
        Op: Fn(&str) -> &str,

        requires
            forall|s: &str| call_requires(*op, (s,)),
            forall|s: &str, t: &str| call_ensures(*op, (s,), t) ==> call_requires(*predicate, (t,)),
        ensures
            exists|keep: Seq<bool>|
                {
                    &&& keep.len() == leaves(*value).len()
                    &&& #[trigger] scanned(predicate, op, leaves(*value), keep)
                    &&& texts(final(self).collected@) == texts(old(self).collected@) + kept(
                        leaves(*value),
                        keep,
                    )
                },
            *this == *final(self),
        decreases value,
    {
        match value {
            JsonValue::Object(entries) => {
                let ghost mut keep: Seq<bool> = Seq::empty();
                let mut i: usize = 0;
                while i < entries.len()
                    invariant
                        i <= entries.len(),
                        forall|s: &str| call_requires(*op, (s,)),
                        forall|s: &str, t: &str|
                            call_ensures(*op, (s,), t) ==> call_requires(*predicate, (t,)),
                        *value == JsonValue::Object(*entries),
                        scanned(predicate, op, leaves_of_entries(entries@, i as nat), keep),
                        texts(self.collected@) == texts(old(self).collected@) + kept(
                            leaves_of_entries(entries@, i as nat),
                            keep,
                        ),
                    decreases entries.len() - i,
                {
                    let ghost before = self.collected@;
                    let ghost done = leaves_of_entries(entries@, i as nat);
                    assert(decreases_to!(*value => value->Object_0));
                    assert(decreases_to!(*entries => entries[i as int]));
                    assert(decreases_to!(entries[i as int] => entries[i as int].1));
                    self.visit(&entries[i].1, predicate, op);
                    proof {
                        let child = leaves(entries[i as int].1);
                        let k = choose|k: Seq<bool>|
                            #[trigger] scanned(predicate, op, child, k) && texts(self.collected@)
                                == texts(before) + kept(child, k);
                        lemma_kept_concat(done, keep, child, k);
                        keep = keep + k;
                    }
                    i += 1;
                }
            },
            JsonValue::Array(items) => {
                let ghost mut keep: Seq<bool> = Seq::empty();
                let mut i: usize = 0;
                while i < items.len()
                    invariant
                        i <= items.len(),
                        forall|s: &str| call_requires(*op, (s,)),
                        forall|s: &str, t: &str|
                            call_ensures(*op, (s,), t) ==> call_requires(*predicate, (t,)),
                        *value == JsonValue::Array(*items),
                        scanned(predicate, op, leaves_of_items(items@, i as nat), keep),
                        texts(self.collected@) == texts(old(self).collected@) + kept(
                            leaves_of_items(items@, i as nat),
                            keep,
                        ),
                    decreases items.len() - i,
                {
                    let ghost before = self.collected@;
                    let ghost done = leaves_of_items(items@, i as nat);
                    assert(decreases_to!(*value => value->Array_0));
                    self.visit(&items[i], predicate, op);
                    proof {
                        let child = leaves(items[i as int]);
                        let k = choose|k: Seq<bool>|
                            #[trigger] scanned(predicate, op, child, k) && texts(self.collected@)
                                == texts(before) + kept(child, k);
                        lemma_kept_concat(done, keep, child, k);
                        keep = keep + k;
                    }
                    i += 1;
                }
            },
            JsonValue::String(s) => {
                let transformed = op(s.as_str());
                let accepted = predicate(transformed);
                if accepted {
                    self.collected.push(s.clone());
                }
                proof {
                    let keep = seq![accepted];
                    let found = leaves(*value);
                    assert(decides(predicate, op, s@, accepted));
                    assert(found == seq![s@]);
                    assert(found.drop_last() == Seq::<Seq<char>>::empty());
                    assert(keep.drop_last() == Seq::<bool>::empty());
                    assert(kept(found.drop_last(), keep.drop_last()) == Seq::<Seq<char>>::empty());
                    assert(keep.last() == accepted);
                    assert(found.last() == s@);
                    assert(kept(found, keep) == if accepted {
                        seq![s@]
                    } else {
                        Seq::empty()
                    });
                    assert(scanned(predicate, op, found, keep));
                    if accepted {
                        assert(texts(self.collected@) == texts(old(self).collected@) + seq![s@]);
                    }
                }
            },
            _ => {
                proof {
                    assert(scanned(predicate, op, leaves(*value), Seq::<bool>::empty()));
                }
            },
        }
        self
    }
}

/// Walks `tree` with a fresh visitor and hands back what it collected: the
/// string leaves that `predicate` accepts after `op`, in the order of the
/// walk.
pub fn scan<Pred, Op>(tree: &JsonValue, predicate: &Pred, op: &Op) -> (found: Vec<String>) where
    Pred: Fn(&str) -> bool,
    Op: Fn(&str) -> &str,

    requires
        forall|s: &str| call_requires(*op, (s,)),
        forall|s: &str, t: &str| call_ensures(*op, (s,), t) ==> call_requires(*predicate, (t,)),
    ensures
        exists|keep: Seq<bool>|
            {
                &&& keep.len() == leaves(*tree).len()
                &&& #[trigger] scanned(predicate, op, leaves(*tree), keep)
                &&& texts(found@) == kept(leaves(*tree), keep)
            },
{
    let mut visitor = JsonStrVisitor::new();
    visitor.visit(tree, predicate, op);
    proof {
        let keep = choose|keep: Seq<bool>|
            #[trigger] scanned(predicate, op, leaves(*tree), keep) && texts(visitor.collected@)
                == texts(Seq::<String>::empty()) + kept(leaves(*tree), keep);
        assert(texts(Seq::<String>::empty()) + kept(leaves(*tree), keep) == kept(
            leaves(*tree),
            keep,
        ));
    }
    visitor.collected()
}

/// The transform that the scan for asset paths applies to a leaf before the
/// pattern is asked: white space at both ends is dropped.
pub fn op(s: &str) -> (t: &str)
    ensures
        t@ == trimmed(s@),
{
    trim(s)
}

/// Whether a leaf counts as an asset path: it does once trimmed.
pub open spec fn names_asset(leaf: Seq<char>) -> bool {
    is_asset_path(trimmed(leaf))
}

/// Where every answer is that of one rule on the leaf, what is kept is the
/// leaves that the rule accepts.
pub proof fn lemma_kept_is_filter(
    found: Seq<Seq<char>>,
    keep: Seq<bool>,
    accepts: spec_fn(Seq<char>) -> bool,
)
    requires
        keep.len() == found.len(),
        forall|i: int| 0 <= i < found.len() ==> keep[i] == accepts(#[trigger] found[i]),
    ensures
        kept(found, keep) == found.filter(accepts),
    decreases found.len(),
{
    reveal(Seq::filter);
    if found.len() > 0 {
        lemma_kept_is_filter(found.drop_last(), keep.drop_last(), accepts);
    }
}

/// The asset paths in `tree`: its string leaves that match the asset-path
/// pattern once trimmed, untrimmed and in the order of the walk.
pub fn asset_paths(tree: &JsonValue) -> (found: Vec<String>)
    ensures
        texts(found@) == leaves(*tree).filter(|leaf: Seq<char>| names_asset(leaf)),
{
    let found = scan(tree, &filename_predicate, &op);
    proof {
        let all = leaves(*tree);
        let keep = choose|keep: Seq<bool>|
            #[trigger] scanned(&filename_predicate, &op, all, keep) && texts(found@) == kept(
                all,
                keep,
            );
        assert forall|i: int| 0 <= i < all.len() implies keep[i] == names_asset(
            #[trigger] all[i],
        ) by {
            assert(decides(&filename_predicate, &op, all[i], keep[i]));
        }
        lemma_kept_is_filter(all, keep, |leaf: Seq<char>| names_asset(leaf));
    }
    found
}

} // verus!
