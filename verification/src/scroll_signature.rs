//! One text for all scroll offsets of a web view, whatever order they come in.
//!
//! Each pipeline comes with the text of its id and of each of its scroll offsets. Two painters have
//! scrolled alike where their texts are the same.
use crate::text::chars_of;
use vstd::prelude::*;
use vstd::relations::{sorted_by, total_ordering};
use vstd::seq_lib::{lemma_sorted_unique, to_multiset_insert};
use vstd::string::StringExecFns;

verus! {

/// The text comes before the other in the order of the code points, or is the same.
pub open spec fn at_most(a: Seq<char>, b: Seq<char>) -> bool
    decreases a.len(),
{
    if a.len() == 0 {
        true
    } else if b.len() == 0 {
        false
    } else if a[0] == b[0] {
        at_most(a.drop_first(), b.drop_first())
    } else {
        a[0] < b[0]
    }
}

/// The order of texts, as a relation.
pub open spec fn text_order() -> spec_fn(Seq<char>, Seq<char>) -> bool {
    |a: Seq<char>, b: Seq<char>| at_most(a, b)
}

/// The characters of each text.
pub open spec fn texts(list: Seq<String>) -> Seq<Seq<char>> {
    Seq::new(list.len(), |i: int| list[i]@)
}

/// The parts in a row, with something between each two.
pub open spec fn joined(parts: Seq<Seq<char>>, between: Seq<char>) -> Seq<char>
    decreases parts.len(),
{
    if parts.len() == 0 {
        Seq::empty()
    } else if parts.len() == 1 {
        parts[0]
    } else {
        joined(parts.drop_last(), between) + between + parts.last()
    }
}

/// The text of one pipeline: its id, and its offsets in order.
pub open spec fn pipeline_text(pipeline: (String, Vec<String>)) -> Seq<char> {
    pipeline.0@ + "["@ + joined(texts(pipeline.1@).sort_by(text_order()), ";"@) + "]"@
}

/// The texts of the pipelines.
pub open spec fn pipeline_texts(pipelines: Seq<(String, Vec<String>)>) -> Seq<Seq<char>> {
    Seq::new(pipelines.len(), |i: int| pipeline_text(pipelines[i]))
}

/// The text of a web view: those of its pipelines, in order.
pub open spec fn signature(pipelines: Seq<(String, Vec<String>)>) -> Seq<char> {
    joined(pipeline_texts(pipelines).sort_by(text_order()), "|"@)
}

proof fn lemma_reflexive(a: Seq<char>)
    ensures
        at_most(a, a),
    decreases a.len(),
{
    if a.len() > 0 {
        lemma_reflexive(a.drop_first());
    }
}

proof fn lemma_antisymmetric(a: Seq<char>, b: Seq<char>)
    requires
        at_most(a, b),
        at_most(b, a),
    ensures
        a == b,
    decreases a.len(),
{
    if a.len() > 0 && b.len() > 0 {
        lemma_antisymmetric(a.drop_first(), b.drop_first());
        assert(a =~= seq![a[0]] + a.drop_first());
        assert(b =~= seq![b[0]] + b.drop_first());
    } else {
        assert(a =~= b);
    }
}

proof fn lemma_transitive(a: Seq<char>, b: Seq<char>, c: Seq<char>)
    requires
        at_most(a, b),
        at_most(b, c),
    ensures
        at_most(a, c),
    decreases a.len(),
{
    if a.len() > 0 && b.len() > 0 && c.len() > 0 && a[0] == b[0] && b[0] == c[0] {
        lemma_transitive(a.drop_first(), b.drop_first(), c.drop_first());
    }
}

proof fn lemma_connected(a: Seq<char>, b: Seq<char>)
    ensures
        at_most(a, b) || at_most(b, a),
    decreases a.len(),
{
    if a.len() > 0 && b.len() > 0 && a[0] == b[0] {
        lemma_connected(a.drop_first(), b.drop_first());
    }
}

/// The order of texts is total.
pub proof fn law_texts_are_ordered()
    ensures
        total_ordering(text_order()),
{
    let r = text_order();
    assert forall|x: Seq<char>| #[trigger] r(x, x) by {
        lemma_reflexive(x);
    }
    assert forall|x: Seq<char>, y: Seq<char>| #[trigger] r(x, y) && #[trigger] r(y, x) implies x
        == y by {
        lemma_antisymmetric(x, y);
    }
    assert forall|x: Seq<char>, y: Seq<char>, z: Seq<char>| #[trigger]
        r(x, y) && #[trigger] r(y, z) implies r(x, z) by {
        lemma_transitive(x, y, z);
    }
    assert forall|x: Seq<char>, y: Seq<char>| #[trigger] r(x, y) || #[trigger] r(y, x) by {
        lemma_connected(x, y);
    }
}

/// Whether the text comes before the other, or is the same.
fn is_at_most(left: &str, right: &str) -> (b: bool)
    ensures
        b == at_most(left@, right@),
{
    let a = chars_of(left);
    let c = chars_of(right);
    let mut i: usize = 0;
    assert(a@.skip(0) =~= a@);
    assert(c@.skip(0) =~= c@);
    while i < a.len() && i < c.len()
        invariant
            i <= a@.len(),
            i <= c@.len(),
            a@ == left@,
            c@ == right@,
            at_most(a@, c@) == at_most(a@.skip(i as int), c@.skip(i as int)),
        decreases a@.len() - i,
    {
        proof {
            assert(a@.skip(i as int).drop_first() =~= a@.skip(i + 1));
            assert(c@.skip(i as int).drop_first() =~= c@.skip(i + 1));
        }
        if a[i] != c[i] {
            return a[i] < c[i];
        }
        i = i + 1;
    }
    i == a.len()
}

/// The texts in order.
fn sorted_texts(list: &[String]) -> (out: Vec<String>)
    ensures
        texts(out@) == texts(list@).sort_by(text_order()),
{
    let mut out: Vec<String> = Vec::new();
    let mut i: usize = 0;
    let ghost r = text_order();
    proof {
        law_texts_are_ordered();
        assert(texts(list@).take(0) =~= texts(out@));
    }
    while i < list.len()
        invariant
            i <= list@.len(),
            r == text_order(),
            total_ordering(r),
            sorted_by(texts(out@), r),
            texts(out@).to_multiset() == texts(list@).take(i as int).to_multiset(),
        decreases list@.len() - i,
    {
        let text = &list[i];
        let mut at: usize = 0;
        while at < out.len() && is_at_most(out[at].as_str(), text.as_str())
            invariant
                at <= out@.len(),
                r == text_order(),
                forall|k: int| 0 <= k < at ==> at_most((#[trigger] out@[k])@, text@),
            ensures
                at <= out@.len(),
                forall|k: int| 0 <= k < at ==> at_most((#[trigger] out@[k])@, text@),
                at < out@.len() ==> !at_most(out@[at as int]@, text@),
            decreases out@.len() - at,
        {
            at = at + 1;
        }
        let ghost before = texts(out@);
        out.insert(at, text.clone());
        proof {
            assert(texts(out@) =~= before.insert(at as int, text@));
            to_multiset_insert(before, at as int, text@);
            assert(texts(list@).take(i + 1) =~= texts(list@).take(i as int).push(text@));
            texts(list@).take(i as int).to_multiset_ensures();
            let after = texts(out@);
            assert forall|a: int, b: int| 0 <= a < b < after.len() implies #[trigger] r(
                after[a],
                after[b],
            ) by {
                let c = if a < at {
                    a
                } else {
                    a - 1
                };
                let d = if b < at {
                    b
                } else {
                    b - 1
                };
                if a == at {
                    assert(!at_most(before[at as int], text@));
                    lemma_connected(before[at as int], text@);
                    if d != at {
                        assert(r(before[at as int], before[d]));
                        lemma_transitive(text@, before[at as int], before[d]);
                    }
                } else if b == at {
                    assert(before[a] == out@[a]@);
                } else {
                    assert(r(before[c], before[d]));
                }
            }
        }
        i = i + 1;
    }
    proof {
        assert(texts(list@).take(i as int) =~= texts(list@));
        texts(list@).lemma_sort_by_ensures(r);
        lemma_sorted_unique(texts(out@), texts(list@).sort_by(r), r);
    }
    out
}

/// The texts in a row, with something between each two.
fn join(parts: &[String], between: &str) -> (out: String)
    ensures
        out@ == joined(texts(parts@), between@),
{
    let mut out: String = String::new();
    let mut i: usize = 0;
    assert(texts(parts@).take(0) =~= Seq::<Seq<char>>::empty());
    assert(out@ =~= Seq::<char>::empty());
    while i < parts.len()
        invariant
            i <= parts@.len(),
            out@ == joined(texts(parts@).take(i as int), between@),
        decreases parts@.len() - i,
    {
        if i > 0 {
            out.append(between);
        }
        out.append(parts[i].as_str());
        proof {
            let head = texts(parts@).take(i + 1);
            assert(head.drop_last() =~= texts(parts@).take(i as int));
            if i == 0 {
                assert(out@ =~= head[0]);
            }
        }
        i = i + 1;
    }
    assert(texts(parts@).take(i as int) =~= texts(parts@));
    out
}

/// One text for all scroll offsets of a web view. Each pipeline stands in it with its id and its
/// offsets in brackets; offsets and pipelines are put in order first.
pub fn scroll_signature(pipelines: &[(String, Vec<String>)]) -> (s: String)
    ensures
        s@ == signature(pipelines@),
{
    let mut parts: Vec<String> = Vec::new();
    let mut i: usize = 0;
    while i < pipelines.len()
        invariant
            i <= pipelines@.len(),
            texts(parts@) =~= pipeline_texts(pipelines@).take(i as int),
        decreases pipelines@.len() - i,
    {
        let offsets = join(&sorted_texts(&pipelines[i].1), ";");
        let mut part: String = pipelines[i].0.clone();
        part.append("[");
        part.append(offsets.as_str());
        part.append("]");
        assert(part@ =~= pipeline_text(pipelines@[i as int]));
        let ghost before = texts(parts@);
        parts.push(part);
        assert(texts(parts@) =~= before.push(part@));
        i = i + 1;
    }
    assert(pipeline_texts(pipelines@).take(i as int) =~= pipeline_texts(pipelines@));
    join(&sorted_texts(&parts), "|")
}

/// The text does not depend on the order in which the pipelines come, nor that of a pipeline on the
/// order of its offsets.
pub proof fn law_signature_ignores_order(
    p: Seq<(String, Vec<String>)>,
    q: Seq<(String, Vec<String>)>,
    a: (String, Vec<String>),
    b: (String, Vec<String>),
)
    ensures
        pipeline_texts(p).to_multiset() == pipeline_texts(q).to_multiset() ==> signature(p)
            == signature(q),
        a.0@ == b.0@ && texts(a.1@).to_multiset() == texts(b.1@).to_multiset() ==> pipeline_text(a)
            == pipeline_text(b),
{
    let r = text_order();
    law_texts_are_ordered();
    if pipeline_texts(p).to_multiset() == pipeline_texts(q).to_multiset() {
        pipeline_texts(p).lemma_sort_by_ensures(r);
        pipeline_texts(q).lemma_sort_by_ensures(r);
        lemma_sorted_unique(pipeline_texts(p).sort_by(r), pipeline_texts(q).sort_by(r), r);
    }
    if texts(a.1@).to_multiset() == texts(b.1@).to_multiset() {
        texts(a.1@).lemma_sort_by_ensures(r);
        texts(b.1@).lemma_sort_by_ensures(r);
        lemma_sorted_unique(texts(a.1@).sort_by(r), texts(b.1@).sort_by(r), r);
    }
}

} // verus!
