//! How much memory the painters use together.
use vstd::prelude::*;

verus! {

/// The memory of one painter, in bytes.
#[derive(Clone, Copy, Debug, PartialEq, Eq, Structural)]
pub struct PainterMemory {
    pub fonts: usize,
    pub images: usize,
    pub display_list: usize,
    pub scroll_trees: usize,
}

/// One line of a report.
#[derive(Debug)]
pub struct MemoryLine {
    pub group: &'static str,
    pub name: &'static str,
    pub size: usize,
}

/// The sum of one kind of memory over the painters.
pub open spec fn total(painters: Seq<PainterMemory>, kind: spec_fn(PainterMemory) -> usize) -> int
    decreases painters.len(),
{
    if painters.len() == 0 {
        0
    } else {
        total(painters.drop_last(), kind) + kind(painters.last())
    }
}

/// The sums can be counted.
pub open spec fn totals_fit(painters: Seq<PainterMemory>) -> bool {
    &&& total(painters, |p: PainterMemory| p.fonts) <= usize::MAX
    &&& total(painters, |p: PainterMemory| p.images) <= usize::MAX
    &&& total(painters, |p: PainterMemory| p.display_list) <= usize::MAX
    &&& total(painters, |p: PainterMemory| p.scroll_trees) <= usize::MAX
}

proof fn lemma_total_grows(
    painters: Seq<PainterMemory>,
    kind: spec_fn(PainterMemory) -> usize,
    n: int,
)
    requires
        0 <= n <= painters.len(),
    ensures
        0 <= total(painters.take(n), kind) <= total(painters, kind),
    decreases painters.len(),
{
    if n == painters.len() {
        assert(painters.take(n) =~= painters);
        if n > 0 {
            lemma_total_grows(painters.drop_last(), kind, n - 1);
        }
    } else {
        lemma_total_grows(painters.drop_last(), kind, n);
        assert(painters.drop_last().take(n) =~= painters.take(n));
    }
}

/// The line says this of the painters.
pub open spec fn line_says(line: MemoryLine, group: &str, name: &str, size: int) -> bool {
    line.group@ == group@ && line.name@ == name@ && line.size == size
}

/// The report on the memory of all painters: the renderer's fonts, images and display lists, and
/// the scroll trees.
pub fn memory_report(painters: &[PainterMemory]) -> (lines: Vec<MemoryLine>)
    requires
        totals_fit(painters@),
    ensures
        lines@.len() == 4,
        line_says(
            lines@[0],
            "webrender",
            "fonts",
            total(painters@, |p: PainterMemory| p.fonts),
        ),
        line_says(
            lines@[1],
            "webrender",
            "images",
            total(painters@, |p: PainterMemory| p.images),
        ),
        line_says(
            lines@[2],
            "webrender",
            "display-list",
            total(painters@, |p: PainterMemory| p.display_list),
        ),
        line_says(
            lines@[3],
            "paint",
            "scroll-tree",
            total(painters@, |p: PainterMemory| p.scroll_trees),
        ),
{
    let mut fonts: usize = 0;
    let mut images: usize = 0;
    let mut display_list: usize = 0;
    let mut scroll_trees: usize = 0;
    let mut i: usize = 0;
    while i < painters.len()
        invariant
            i <= painters@.len(),
            totals_fit(painters@),
            fonts == total(painters@.take(i as int), |p: PainterMemory| p.fonts),
            images == total(painters@.take(i as int), |p: PainterMemory| p.images),
            display_list == total(painters@.take(i as int), |p: PainterMemory| p.display_list),
            scroll_trees == total(painters@.take(i as int), |p: PainterMemory| p.scroll_trees),
        decreases painters@.len() - i,
    {
        proof {
            let n = i + 1;
            assert(painters@.take(n).drop_last() =~= painters@.take(i as int));
            lemma_total_grows(painters@, |p: PainterMemory| p.fonts, n);
            lemma_total_grows(painters@, |p: PainterMemory| p.images, n);
            lemma_total_grows(painters@, |p: PainterMemory| p.display_list, n);
            lemma_total_grows(painters@, |p: PainterMemory| p.scroll_trees, n);
        }
        let p = painters[i];
        fonts = fonts + p.fonts;
        images = images + p.images;
        display_list = display_list + p.display_list;
        scroll_trees = scroll_trees + p.scroll_trees;
        i = i + 1;
    }
    assert(painters@.take(i as int) =~= painters@);
    let mut lines: Vec<MemoryLine> = Vec::new();
    lines.push(MemoryLine { group: "webrender", name: "fonts", size: fonts });
    lines.push(MemoryLine { group: "webrender", name: "images", size: images });
    lines.push(MemoryLine { group: "webrender", name: "display-list", size: display_list });
    lines.push(MemoryLine { group: "paint", name: "scroll-tree", size: scroll_trees });
    lines
}

} // verus!
