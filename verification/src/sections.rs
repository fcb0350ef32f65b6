//! Grouping of a rendered document's items into sections: each heading
//! together with the items that follow it up to the next heading.

use vstd::prelude::*;

verus! {

/// A section: the index of its heading, if it has one, and the indices of the
/// items of its body.
pub ghost struct SectionPlan {
    pub heading: Option<int>,
    pub body: Seq<int>,
}

/// A section of a document's items, by index: the heading it starts with,
/// if any, and the items of its body, in order.
#[derive(Clone, Debug, PartialEq, Eq)]
pub struct Section {
    pub heading: Option<usize>,
    pub body: Vec<usize>,
}

/// `h` as a mathematical index.
pub open spec fn index_of(h: Option<usize>) -> Option<int> {
    match h {
        Some(h) => Some(h as int),
        None => None,
    }
}

/// `v` as mathematical indices.
pub open spec fn indices_of(v: Seq<usize>) -> Seq<int> {
    v.map_values(|b: usize| b as int)
}

impl Section {
    pub open spec fn plan(&self) -> SectionPlan {
        SectionPlan { heading: index_of(self.heading), body: indices_of(self.body@) }
    }
}

/// The plans of `sections`.
pub open spec fn plans(sections: Seq<Section>) -> Seq<SectionPlan> {
    sections.map_values(|s: Section| s.plan())
}

/// The sections read so far and the section still being collected.
pub ghost struct Grouping {
    pub done: Seq<SectionPlan>,
    pub heading: Option<int>,
    pub body: Seq<int>,
}

/// `done` with the pending section added, unless it is empty.
pub open spec fn flush(done: Seq<SectionPlan>, heading: Option<int>, body: Seq<int>) -> Seq<
    SectionPlan,
> {
    if heading is None && body.len() == 0 {
        done
    } else {
        done.push(SectionPlan { heading, body })
    }
}

/// Reading item `idx`: a heading closes the pending section and starts a new
/// one; any other item joins the pending section's body.
pub open spec fn group_step(g: Grouping, idx: int, is_heading: bool) -> Grouping {
    if is_heading {
        Grouping { done: flush(g.done, g.heading, g.body), heading: Some(idx), body: Seq::empty() }
    } else {
        Grouping { body: g.body.push(idx), ..g }
    }
}

/// The grouping after reading the items whose kinds are `is_heading`.
pub open spec fn group_run(is_heading: Seq<bool>) -> Grouping
    decreases is_heading.len(),
{
    if is_heading.len() == 0 {
        Grouping { done: Seq::empty(), heading: None, body: Seq::empty() }
    } else {
        group_step(
            group_run(is_heading.drop_last()),
            is_heading.len() - 1,
            is_heading.last(),
        )
    }
}

/// The sections of a document whose items are headings where `is_heading`
/// holds.
pub open spec fn sections_of(is_heading: Seq<bool>) -> Seq<SectionPlan> {
    let g = group_run(is_heading);
    flush(g.done, g.heading, g.body)
}

/// The items of a section in order: its heading, then its body.
pub open spec fn section_items(p: SectionPlan) -> Seq<int> {
    match p.heading {
        Some(h) => seq![h] + p.body,
        None => p.body,
    }
}

/// The items of all sections, section after section.
pub open spec fn flatten(ps: Seq<SectionPlan>) -> Seq<int>
    decreases ps.len(),
{
    if ps.len() == 0 {
        Seq::empty()
    } else {
        flatten(ps.drop_last()) + section_items(ps.last())
    }
}

/// The indices `0..n` in order.
pub open spec fn indices(n: nat) -> Seq<int> {
    Seq::new(n, |i: int| i)
}

/// A section whose heading is a heading and whose body holds no heading.
pub open spec fn section_ok(is_heading: Seq<bool>, p: SectionPlan) -> bool {
    &&& section_items(p).len() > 0
    &&& (p.heading matches Some(h) ==> 0 <= h < is_heading.len() && is_heading[h])
    &&& forall|j: int|
        0 <= j < p.body.len() ==> 0 <= #[trigger] p.body[j] < is_heading.len()
            && !is_heading[p.body[j]]
}

/// The sections partition the items in order, none is empty, each heading
/// item starts a section and no body holds a heading, and only the first
/// section can lack a heading.
pub open spec fn well_grouped(is_heading: Seq<bool>, ps: Seq<SectionPlan>) -> bool {
    &&& flatten(ps) == indices(is_heading.len())
    &&& forall|i: int| 0 <= i < ps.len() ==> section_ok(is_heading, #[trigger] ps[i])
    &&& forall|i: int| 0 < i < ps.len() ==> (#[trigger] ps[i]).heading is Some
}

proof fn lemma_flatten_push(ps: Seq<SectionPlan>, p: SectionPlan)
    ensures
        flatten(ps.push(p)) == flatten(ps) + section_items(p),
{
    assert(ps.push(p).drop_last() =~= ps);
}

/// What holds of the grouping after reading `k` items.
spec fn grouping_inv(is_heading: Seq<bool>, g: Grouping, k: int) -> bool {
    &&& flatten(g.done) + section_items(SectionPlan { heading: g.heading, body: g.body })
        == indices(k as nat)
    &&& forall|i: int| 0 <= i < g.done.len() ==> section_ok(is_heading, #[trigger] g.done[i])
    &&& forall|i: int| 0 < i < g.done.len() ==> (#[trigger] g.done[i]).heading is Some
    &&& (g.heading matches Some(h) ==> 0 <= h < is_heading.len() && is_heading[h])
    &&& forall|j: int|
        0 <= j < g.body.len() ==> 0 <= #[trigger] g.body[j] < is_heading.len()
            && !is_heading[g.body[j]]
    &&& (g.done.len() > 0 ==> g.heading is Some)
}

proof fn lemma_flush_keeps(is_heading: Seq<bool>, g: Grouping, k: int)
    requires
        grouping_inv(is_heading, g, k),
    ensures
        flatten(flush(g.done, g.heading, g.body)) == indices(k as nat),
        forall|i: int|
            0 <= i < flush(g.done, g.heading, g.body).len() ==> section_ok(
                is_heading,
                #[trigger] flush(g.done, g.heading, g.body)[i],
            ),
        forall|i: int|
            0 < i < flush(g.done, g.heading, g.body).len() ==> (#[trigger] flush(
                g.done,
                g.heading,
                g.body,
            )[i]).heading is Some,
{
    let p = SectionPlan { heading: g.heading, body: g.body };
    if g.heading is None && g.body.len() == 0 {
        assert(section_items(p) =~= Seq::<int>::empty());
        assert(flatten(g.done) + section_items(p) =~= flatten(g.done));
    } else {
        lemma_flatten_push(g.done, p);
        let f = flush(g.done, g.heading, g.body);
        assert forall|i: int| 0 <= i < f.len() implies section_ok(is_heading, #[trigger] f[i]) by {
            if i == g.done.len() {
                assert(f[i] == p);
            } else {
                assert(f[i] == g.done[i]);
            }
        }
        assert forall|i: int| 0 < i < f.len() implies (#[trigger] f[i]).heading is Some by {
            if i < g.done.len() {
                assert(f[i] == g.done[i]);
            }
        }
    }
}

proof fn lemma_group_run_inv(is_heading: Seq<bool>, k: int)
    requires
        0 <= k <= is_heading.len(),
    ensures
        grouping_inv(is_heading, group_run(is_heading.take(k)), k),
    decreases k,
{
    let kinds = is_heading.take(k);
    if k == 0 {
        assert(indices(0) =~= Seq::<int>::empty());
        assert(section_items(SectionPlan { heading: None, body: Seq::empty() }) =~= Seq::<
            int,
        >::empty());
    } else {
        lemma_group_run_inv(is_heading, k - 1);
        assert(kinds.drop_last() =~= is_heading.take(k - 1));
        let g = group_run(is_heading.take(k - 1));
        let idx = k - 1;
        assert(kinds.last() == is_heading[idx]);
        let g2 = group_run(kinds);
        assert(g2 == group_step(g, idx, is_heading[idx]));
        if is_heading[idx] {
            lemma_flush_keeps(is_heading, g, k - 1);
            let p2 = SectionPlan { heading: Some(idx), body: Seq::<int>::empty() };
            assert(section_items(p2) =~= seq![idx]);
            assert(indices((k - 1) as nat) + seq![idx] =~= indices(k as nat));
        } else {
            let p = SectionPlan { heading: g.heading, body: g.body };
            let p2 = SectionPlan { heading: g.heading, body: g.body.push(idx) };
            assert(section_items(p2) =~= section_items(p).push(idx));
            assert(flatten(g.done) + section_items(p2) =~= (flatten(g.done) + section_items(
                p,
            )).push(idx));
            assert(indices((k - 1) as nat).push(idx) =~= indices(k as nat));
            assert forall|j: int| 0 <= j < g2.body.len() implies 0 <= #[trigger] g2.body[j]
                < is_heading.len() && !is_heading[g2.body[j]] by {
                if j < g.body.len() {
                    assert(g2.body[j] == g.body[j]);
                }
            }
        }
    }
}

/// The sections of any document partition its items in order, each section
/// non-empty, headings starting sections and bodies free of headings, with
/// only the first section possibly lacking a heading.
pub proof fn lemma_sections_well_grouped(is_heading: Seq<bool>)
    ensures
        well_grouped(is_heading, sections_of(is_heading)),
{
    lemma_group_run_inv(is_heading, is_heading.len() as int);
    assert(is_heading.take(is_heading.len() as int) =~= is_heading);
    lemma_flush_keeps(is_heading, group_run(is_heading), is_heading.len() as int);
}

fn flush_section(done: &mut Vec<Section>, heading: Option<usize>, body: Vec<usize>)
    ensures
        plans(final(done)@) == flush(
            plans(old(done)@),
            index_of(heading),
            indices_of(body@),
        ),
{
    let ghost before = done@;
    if heading.is_none() && body.len() == 0 {
    } else {
        done.push(Section { heading, body });
        assert(plans(done@) =~= plans(before).push(done@.last().plan()));
    }
}

/// Groups the items of a document, given by whether each is a heading, into
/// sections: a heading starts a new section, and every other item joins the
/// section of the nearest heading before it (or a first section without a
/// heading when none precedes it).
pub fn group_sections(is_heading: &Vec<bool>) -> (sections: Vec<Section>)
    ensures
        plans(sections@) == sections_of(is_heading@),
        well_grouped(is_heading@, plans(sections@)),
{
    let mut done: Vec<Section> = Vec::new();
    let mut heading: Option<usize> = None;
    let mut body: Vec<usize> = Vec::new();
    let n = is_heading.len();
    let mut i: usize = 0;
    assert(plans(done@) =~= Seq::<SectionPlan>::empty());
    assert(indices_of(body@) =~= Seq::<int>::empty());
    while i < n
        invariant
            n == is_heading.len(),
            i <= n,
            group_run(is_heading@.take(i as int)) == (Grouping {
                done: plans(done@),
                heading: index_of(heading),
                body: indices_of(body@),
            }),
        decreases n - i,
    {
        assert(is_heading@.take(i + 1).drop_last() =~= is_heading@.take(i as int));
        if is_heading[i] {
            flush_section(&mut done, heading, body);
            body = Vec::new();
            heading = Some(i);
            assert(indices_of(body@) =~= Seq::<int>::empty());
        } else {
            let ghost old_body = body@;
            body.push(i);
            assert(indices_of(body@) =~= indices_of(old_body).push(i as int));
        }
        i = i + 1;
    }
    assert(is_heading@.take(n as int) =~= is_heading@);
    flush_section(&mut done, heading, body);
    proof {
        lemma_sections_well_grouped(is_heading@);
    }
    done
}

} // verus!
